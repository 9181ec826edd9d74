//! End-to-end behaviour of the factory service: admin registry, faucet
//! state machine, provisioning workflow and purchases.

use ic_talent::errors::Error;
use ic_talent::identity::Identity;
use ic_talent::provision::{CreateReply, CreateTokenArgs, InstallReply};
use ic_talent::state::State;
use ic_talent::store::process_backing;
use ic_talent::transfer::LedgerReply;
use ic_talent::types::{FaucetTokenRequest, RequestStatus};

fn id(byte: u8) -> Identity {
    Identity::from_bytes(vec![byte]).unwrap()
}

fn fresh_state() -> State {
    let mut backing = process_backing();
    State::init(&mut backing, id(90), id(91))
}

fn args(name: &str, symbol: &str, price: u64) -> CreateTokenArgs {
    CreateTokenArgs {
        name: name.to_string(),
        symbol: symbol.to_string(),
        decimals: 8,
        token_price: price,
        logo: None,
    }
}

fn faucet_record(st: &State, admin: &Identity, user: &Identity) -> Option<FaucetTokenRequest> {
    let all = st.get_faucet_requests(admin).unwrap();
    for (who, rec) in all {
        if who.same_as(user) {
            return Some(rec);
        }
    }
    None
}

/// Runs the whole provisioning workflow with every external call succeeding.
fn provision_ok(st: &mut State, caller: &Identity, a: &CreateTokenArgs, rid: u8) -> Identity {
    let fee_order = st.provision_begin(caller).unwrap();
    assert_eq!(fee_order.amount, 100);
    let create_order = st.provision_after_fee(caller, &LedgerReply::Confirmed(1)).unwrap();
    assert_eq!(create_order.payment, 20_000_000_000);
    let new_id = id(rid);
    let install_order = st
        .provision_after_create(caller, a, &CreateReply::Created(new_id))
        .unwrap();
    let canister_id = install_order.canister_id;
    st.provision_commit(caller, a, &canister_id, &InstallReply::Installed, 1234)
        .unwrap()
}

#[test]
fn first_admin_registration_succeeds_second_fails() {
    let mut st = fresh_state();
    let u1 = id(1);
    let u2 = id(2);
    assert!(st.register_admin(&u1).is_ok());
    let again = st.register_admin(&u2);
    assert!(matches!(again, Err(Error::AlreadyRegistered)));
    assert!(st.get_admin().same_as(&u1));
}

#[test]
fn change_admin_gates_on_registration_and_caller() {
    let mut st = fresh_state();
    let u1 = id(1);
    let u2 = id(2);
    let early = st.change_admin(&u1, &u2);
    assert!(matches!(early, Err(Error::NotRegistered)));
    st.register_admin(&u1).unwrap();
    let wrong = st.change_admin(&u2, &u2);
    assert!(matches!(wrong, Err(Error::NotAuthorized)));
    st.change_admin(&u1, &u2).unwrap();
    assert!(st.get_admin().same_as(&u2));
}

#[test]
fn require_admin_is_a_pure_gate() {
    let mut st = fresh_state();
    let u1 = id(1);
    st.register_admin(&u1).unwrap();
    assert!(st.require_admin(&u1).is_ok());
    assert!(matches!(st.require_admin(&id(2)), Err(Error::NotAuthorized)));
}

#[test]
fn faucet_rejects_anonymous_requesters() {
    let mut st = fresh_state();
    let anon = Identity::anonymous();
    let r = st.send_token_faucet_request(&anon, 10);
    assert!(matches!(r, Err(Error::NotAllowed)));
}

#[test]
fn faucet_request_then_approval_updates_stats() {
    let mut st = fresh_state();
    let admin = id(1);
    let u1 = id(2);
    st.register_admin(&admin).unwrap();

    st.send_token_faucet_request(&u1, 50).unwrap();
    let rec = faucet_record(&st, &admin, &u1).unwrap();
    assert_eq!(rec.current_token_request, 50);
    assert_eq!(rec.total_number_of_request, 1);
    assert_eq!(rec.total_token_given, 0);
    assert_eq!(rec.status, RequestStatus::Pending);

    let order = st.accept_token_request(&admin, &u1).unwrap();
    assert!(order.from.same_as(&admin));
    assert!(order.to.same_as(&u1));
    assert_eq!(order.amount, 50);

    let block = st
        .accept_token_request_settle(&u1, &LedgerReply::Confirmed(7))
        .unwrap();
    assert_eq!(block, 7);
    let rec = faucet_record(&st, &admin, &u1).unwrap();
    assert_eq!(rec.current_token_request, 50);
    assert_eq!(rec.total_number_of_request, 2);
    assert_eq!(rec.total_token_given, 50);
    assert_eq!(rec.status, RequestStatus::Approved);
}

#[test]
fn faucet_resubmission_replaces_amount_and_keeps_total() {
    let mut st = fresh_state();
    let admin = id(1);
    let u1 = id(2);
    st.register_admin(&admin).unwrap();
    st.send_token_faucet_request(&u1, 50).unwrap();
    st.send_token_faucet_request(&u1, 80).unwrap();
    let rec = faucet_record(&st, &admin, &u1).unwrap();
    assert_eq!(rec.current_token_request, 80);
    assert_eq!(rec.total_number_of_request, 2);
    assert_eq!(rec.total_token_given, 0);
    assert_eq!(rec.status, RequestStatus::Pending);
}

#[test]
fn faucet_approval_gates_and_failure_classes() {
    let mut st = fresh_state();
    let admin = id(1);
    let u1 = id(2);
    st.register_admin(&admin).unwrap();
    assert!(matches!(
        st.accept_token_request(&u1, &u1),
        Err(Error::NotAuthorized)
    ));
    assert!(matches!(
        st.accept_token_request(&admin, &u1),
        Err(Error::NotFound)
    ));
    st.send_token_faucet_request(&u1, 50).unwrap();

    let refused = st.accept_token_request_settle(&u1, &LedgerReply::Rejected("low".to_string()));
    assert!(matches!(refused, Err(Error::TransferFailed(_))));
    let lost = st.accept_token_request_settle(&u1, &LedgerReply::Unreachable(2, "down".to_string()));
    assert!(matches!(lost, Err(Error::ExternalCallFailed(2, _))));

    let rec = faucet_record(&st, &admin, &u1).unwrap();
    assert_eq!(rec.total_token_given, 0);
    assert_eq!(rec.total_number_of_request, 1);
    assert_eq!(rec.status, RequestStatus::Pending);
}

#[test]
fn faucet_rejection_deletes_the_record() {
    let mut st = fresh_state();
    let admin = id(1);
    let u1 = id(2);
    st.register_admin(&admin).unwrap();
    assert!(matches!(
        st.reject_token_request(&u1, &u1),
        Err(Error::NotAuthorized)
    ));
    assert!(matches!(
        st.reject_token_request(&admin, &u1),
        Err(Error::NotFound)
    ));
    st.send_token_faucet_request(&u1, 50).unwrap();
    st.reject_token_request(&admin, &u1).unwrap();
    assert!(faucet_record(&st, &admin, &u1).is_none());
}

#[test]
fn transfer_order_rejects_anonymous_and_carries_the_ledger() {
    let mut st = fresh_state();
    let u1 = id(1);
    st.register_admin(&u1).unwrap();
    let anon = Identity::anonymous();
    assert!(matches!(
        st.transfer_tokens(&anon, &u1, 5),
        Err(Error::NotAllowed)
    ));
    let order = st.transfer_tokens(&u1, &id(2), 5).unwrap();
    assert!(order.from.same_as(&u1));
    assert_eq!(order.amount, 5);
    assert!(order.token.same_as(&id(91)));
}

#[test]
fn provisioning_happy_path_records_the_token() {
    let mut st = fresh_state();
    let admin = id(1);
    let u1 = id(2);
    st.register_admin(&admin).unwrap();
    st.update_wasm_module(&admin, vec![0, 97, 115, 109]).unwrap();
    let a = args("Alpha", "ALP", 5);
    let rid = provision_ok(&mut st, &u1, &a, 42);
    assert!(rid.same_as(&id(42)));

    let meta = st.get_token_metadata(&rid).unwrap();
    assert_eq!(meta.name, "Alpha");
    assert_eq!(meta.symbol, "ALP");
    assert_eq!(meta.decimals, 8);
    assert_eq!(meta.token_price, 5);
    assert!(meta.owner.same_as(&u1));
    assert_eq!(meta.created, 1234);

    let (owned_id, owned_meta) = st.get_user_token_metadata(&u1).unwrap();
    assert!(owned_id.same_as(&rid));
    assert_eq!(owned_meta.symbol, "ALP");
    assert_eq!(st.get_list_of_tokens().len(), 1);
}

#[test]
fn provisioning_fails_while_binary_is_missing() {
    let mut st = fresh_state();
    let admin = id(1);
    st.register_admin(&admin).unwrap();
    let u1 = id(2);
    st.provision_begin(&u1).unwrap();
    let r = st.provision_after_fee(&u1, &LedgerReply::Confirmed(1));
    assert!(matches!(r, Err(Error::BinaryNotSet)));
}

#[test]
fn provisioning_fee_failure_aborts_the_workflow() {
    let mut st = fresh_state();
    let admin = id(1);
    st.register_admin(&admin).unwrap();
    st.update_wasm_module(&admin, vec![1]).unwrap();
    let u1 = id(2);
    st.provision_begin(&u1).unwrap();
    let r = st.provision_after_fee(&u1, &LedgerReply::Rejected("poor".to_string()));
    assert!(matches!(r, Err(Error::FeeChargeFailed(_))));
    let anon = Identity::anonymous();
    assert!(matches!(
        st.provision_begin(&anon),
        Err(Error::FeeChargeFailed(_))
    ));
}

#[test]
fn provisioning_install_failure_leaves_no_index_entry() {
    let mut st = fresh_state();
    let admin = id(1);
    let u1 = id(2);
    st.register_admin(&admin).unwrap();
    st.update_wasm_module(&admin, vec![1, 2, 3]).unwrap();
    let a = args("Beta", "BET", 3);

    let fee_order = st.provision_begin(&u1).unwrap();
    assert!(fee_order.to.same_as(&admin));
    st.provision_after_fee(&u1, &LedgerReply::Confirmed(1)).unwrap();
    let create_failed = st.provision_after_create(&u1, &a, &CreateReply::Failed(5, "no room".to_string()));
    assert!(matches!(create_failed, Err(Error::CreationFailed(_))));

    let install_order = st
        .provision_after_create(&u1, &a, &CreateReply::Created(id(43)))
        .unwrap();
    let r = st.provision_commit(
        &u1,
        &a,
        &install_order.canister_id,
        &InstallReply::Failed(5, "bad wasm".to_string()),
        99,
    );
    assert!(matches!(r, Err(Error::CreationFailed(_))));
    // The fee already charged is not returned; locally no record exists.
    assert!(matches!(
        st.get_user_token_metadata(&u1),
        Err(Error::NotFound)
    ));
    assert_eq!(st.get_list_of_tokens().len(), 0);
    // The workflow can be attempted again.
    assert!(st.provision_begin(&u1).is_ok());
}

#[test]
fn second_provisioning_by_same_identity_is_refused() {
    let mut st = fresh_state();
    let admin = id(1);
    let u1 = id(2);
    st.register_admin(&admin).unwrap();
    st.update_wasm_module(&admin, vec![9]).unwrap();
    let a = args("Gamma", "GAM", 2);
    provision_ok(&mut st, &u1, &a, 44);
    let again = st.provision_begin(&u1);
    assert!(matches!(again, Err(Error::AlreadyHasToken)));
}

#[test]
fn install_payload_carries_the_requested_token() {
    let mut st = fresh_state();
    let admin = id(1);
    let u1 = id(2);
    st.register_admin(&admin).unwrap();
    st.update_wasm_module(&admin, vec![7, 7]).unwrap();
    let a = args("Delta", "DEL", 1);
    st.provision_begin(&u1).unwrap();
    let create_order = st.provision_after_fee(&u1, &LedgerReply::Confirmed(1)).unwrap();
    assert_eq!(create_order.controllers.len(), 2);
    assert!(create_order.controllers[0].same_as(&id(90)));
    assert!(create_order.controllers[1].same_as(&u1));
    let install_order = st
        .provision_after_create(&u1, &a, &CreateReply::Created(id(45)))
        .unwrap();
    assert_eq!(install_order.wasm_module, vec![7, 7]);
    let init = &install_order.init;
    assert!(init.minting_account.owner.same_as(&id(90)));
    assert!(init.fee_collector_account.as_ref().unwrap().owner.same_as(&u1));
    assert_eq!(init.transfer_fee, 0);
    assert_eq!(init.token_name, "Delta");
    assert_eq!(init.token_symbol, "DEL");
    assert_eq!(init.metadata.len(), 3);
    assert_eq!(init.metadata[0].0, "icrc1:name");
    assert_eq!(init.decimals, Some(8));
    assert_eq!(init.max_memo_length, Some(256));
    assert_eq!(init.maximum_number_of_accounts, Some(1_000_000));
    assert_eq!(init.archive_options.num_blocks_to_archive, 2000);
    assert_eq!(init.archive_options.trigger_threshold, 1000);
    assert!(init.archive_options.controller_id.same_as(&id(90)));
}

#[test]
fn purchase_appends_history_once() {
    let mut st = fresh_state();
    let admin = id(1);
    let u1 = id(2);
    let buyer = id(3);
    st.register_admin(&admin).unwrap();
    st.update_wasm_module(&admin, vec![9]).unwrap();
    let a = args("Epsilon", "EPS", 5);
    let rid = provision_ok(&mut st, &u1, &a, 46);

    let missing = st.buy_talent_token_begin(&buyer, &id(47), 3);
    assert!(matches!(missing, Err(Error::NotFound)));

    let pay_order = st.buy_talent_token_begin(&buyer, &rid, 3).unwrap();
    assert!(pay_order.from.same_as(&buyer));
    assert!(pay_order.to.same_as(&u1));
    assert_eq!(pay_order.amount, 15);

    let hand_over = st
        .buy_talent_token_payment_made(&buyer, &rid, 3, &LedgerReply::Confirmed(4))
        .unwrap();
    assert!(hand_over.canister_id.same_as(&rid));
    assert!(hand_over.to.same_as(&buyer));
    assert_eq!(hand_over.amount, 3);

    st.buy_talent_token_commit(&buyer, &rid, &LedgerReply::Confirmed(5))
        .unwrap();
    let history = st.get_purchase_history(&buyer);
    assert_eq!(history.len(), 1);
    assert!(history[0].same_as(&rid));

    // A repeat purchase settles but does not duplicate the history entry.
    st.buy_talent_token_commit(&buyer, &rid, &LedgerReply::Confirmed(6))
        .unwrap();
    assert_eq!(st.get_purchase_history(&buyer).len(), 1);
}

#[test]
fn purchase_rejects_anonymous_and_unpayable_bills() {
    let mut st = fresh_state();
    let admin = id(1);
    let u1 = id(2);
    st.register_admin(&admin).unwrap();
    st.update_wasm_module(&admin, vec![9]).unwrap();
    let a = args("Zeta", "ZET", u64::MAX);
    let rid = provision_ok(&mut st, &u1, &a, 48);

    let anon = Identity::anonymous();
    assert!(matches!(
        st.buy_talent_token_begin(&anon, &rid, 1),
        Err(Error::NotAllowed)
    ));
    assert!(matches!(
        st.buy_talent_token_begin(&id(3), &rid, 2),
        Err(Error::ValidationError(_))
    ));
    assert!(st.buy_talent_token_begin(&id(3), &rid, 1).is_ok());
}

#[test]
fn purchase_failures_change_nothing() {
    let mut st = fresh_state();
    let admin = id(1);
    let u1 = id(2);
    let buyer = id(3);
    st.register_admin(&admin).unwrap();
    st.update_wasm_module(&admin, vec![9]).unwrap();
    let a = args("Eta", "ETA", 1);
    let rid = provision_ok(&mut st, &u1, &a, 49);

    let refused =
        st.buy_talent_token_payment_made(&buyer, &rid, 1, &LedgerReply::Rejected("no".to_string()));
    assert!(matches!(refused, Err(Error::TransferFailed(_))));
    let lost = st.buy_talent_token_commit(&buyer, &rid, &LedgerReply::Unreachable(3, "x".to_string()));
    assert!(matches!(lost, Err(Error::ExternalCallFailed(3, _))));
    assert_eq!(st.get_purchase_history(&buyer).len(), 0);
}

#[test]
fn wasm_and_ledger_settings_are_admin_only() {
    let mut st = fresh_state();
    let admin = id(1);
    let u2 = id(2);
    st.register_admin(&admin).unwrap();
    assert!(matches!(
        st.update_wasm_module(&u2, vec![1]),
        Err(Error::NotAuthorized)
    ));
    assert!(matches!(
        st.set_token_canister(&u2, &id(50)),
        Err(Error::NotAuthorized)
    ));
    st.set_token_canister(&admin, &id(50)).unwrap();
    let order = st.transfer_tokens(&u2, &id(4), 1).unwrap();
    assert!(order.token.same_as(&id(50)));
}

#[test]
fn token_queries_report_presence_and_absence() {
    let mut st = fresh_state();
    let admin = id(1);
    st.register_admin(&admin).unwrap();
    assert!(!st.has_token(&id(60)));
    assert!(matches!(
        st.get_token_metadata(&id(60)),
        Err(Error::NotFound)
    ));
    st.update_wasm_module(&admin, vec![9]).unwrap();
    let a = args("Theta", "THE", 4);
    let rid = provision_ok(&mut st, &id(2), &a, 60);
    assert!(st.has_token(&rid));
    let listing = st.get_faucet_requests(&id(2));
    assert!(matches!(listing, Err(Error::NotAuthorized)));
    assert_eq!(st.get_faucet_requests(&admin).unwrap().len(), 0);
}

#[test]
fn reopening_a_fresh_store_yields_a_working_state() {
    // With nothing persisted, re-attachment finds empty maps and the
    // non-durable singletons at their initial values.
    let mut backing = process_backing();
    let mut st = State::reopen(&mut backing, id(90), id(91)).expect("an empty store re-attaches");
    assert_eq!(st.get_list_of_tokens().len(), 0);
    let admin = id(1);
    st.register_admin(&admin).unwrap();
    assert_eq!(st.get_faucet_requests(&admin).unwrap().len(), 0);
    st.send_token_faucet_request(&id(2), 5).unwrap();
    assert_eq!(st.get_faucet_requests(&admin).unwrap().len(), 1);
}
