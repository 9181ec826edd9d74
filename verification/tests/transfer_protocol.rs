//! The delegated-transfer client: phases, orders, and failure classes.

use ic_talent::errors::Error;
use ic_talent::identity::Identity;
use ic_talent::transfer::{DelegatedTransfer, LedgerReply, TransferPhase, settle_ledger_reply};

fn id(byte: u8) -> Identity {
    Identity::from_bytes(vec![byte]).unwrap()
}

#[test]
fn replies_settle_into_their_failure_classes() {
    assert_eq!(settle_ledger_reply(&LedgerReply::Confirmed(12)).unwrap(), 12);
    let refused = settle_ledger_reply(&LedgerReply::Rejected("broke".to_string()));
    assert!(matches!(refused, Err(Error::TransferFailed(_))));
    let lost = settle_ledger_reply(&LedgerReply::Unreachable(5, "off".to_string()));
    assert!(matches!(lost, Err(Error::ExternalCallFailed(5, _))));
}

#[test]
fn two_phase_transfer_walks_both_phases() {
    let mut t = DelegatedTransfer::two_phase(id(1), id(2), 40, id(9));
    assert_eq!(t.phase, TransferPhase::Approving);
    let grant = t.approve_order(&id(8));
    assert!(grant.spender.same_as(&id(8)));
    assert_eq!(grant.amount, 40);
    t.on_approve(&LedgerReply::Confirmed(1)).unwrap();
    assert_eq!(t.phase, TransferPhase::Pulling);
    let pull = t.pull_order();
    assert!(pull.from.same_as(&id(1)));
    assert!(pull.to.same_as(&id(2)));
    assert_eq!(pull.amount, 40);
    let block = t.on_pull(&LedgerReply::Confirmed(33)).unwrap();
    assert_eq!(block, 33);
    assert_eq!(t.phase, TransferPhase::Done);
}

#[test]
fn pre_approved_transfer_skips_the_grant() {
    let mut t = DelegatedTransfer::pre_approved(id(1), id(2), 7, id(9));
    assert_eq!(t.phase, TransferPhase::Pulling);
    let r = t.on_pull(&LedgerReply::Rejected("no allowance".to_string()));
    assert!(matches!(r, Err(Error::TransferFailed(_))));
    assert_eq!(t.phase, TransferPhase::Failed);
}

#[test]
fn a_failed_grant_ends_the_session() {
    let mut t = DelegatedTransfer::two_phase(id(1), id(2), 7, id(9));
    let r = t.on_approve(&LedgerReply::Unreachable(9, "net".to_string()));
    assert!(matches!(r, Err(Error::ExternalCallFailed(9, _))));
    assert_eq!(t.phase, TransferPhase::Failed);
}
