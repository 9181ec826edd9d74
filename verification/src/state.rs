//! The service's durable state and the operations that govern it.
//!
//! One [`State`] value holds every durable map — token records, faucet
//! requests, the one-token-per-user index and purchase histories — over
//! four partitions of one backing store, together with the admin registry,
//! the ledger's identity, the shared resource binary, and the service's own
//! identity.  It is built once at startup and passed into every operation;
//! each operation's contract is stated over the abstract [`StateV`] view.

use vstd::prelude::*;
use crate::store::{Partition, Backing, backing_used, open_partition, reopen_partition};
use crate::typed::{typed_inv, typed_view, typed_get, typed_insert, typed_remove, typed_contains,
    typed_entries, typed_revalidate, entries_match};
use crate::types::{TokenMetadata, TokenMetadataV, FaucetTokenRequest, RequestStatus, IdList,
    StoreValue};
use crate::identity::{Identity, anonymous_bytes};
use crate::errors::Error;
use crate::transfer::{TransferFromOrder, TokenTransferOrder, LedgerReply};
use crate::provision::{CreateTokenArgs, CreateReply, InstallReply, CreateOrder, InstallOrder,
    InitArgs, Account, MetadataValue, FeatureFlags, ArchiveOptions, init_payload_for,
    provisioned_record, clone_opt_string, PROVISION_FEE, CREATION_PAYMENT};
use crate::codec::note_text_fits;

verus! {

/// Partition tag of the token-record map.
pub const TOKEN_MAP_TAG: u8 = 0;

/// Partition tag of the faucet-request map.
pub const FAUCET_REQUEST_MAP_TAG: u8 = 1;

/// Partition tag of the one-token-per-user index.
pub const TALENT_TOKEN_MAP_TAG: u8 = 2;

/// Partition tag of the purchase-history map.
pub const PURCHASE_HISTORY_TAG: u8 = 3;

/// The service's durable state and process-wide singletons.  Its four
/// partitions are bound through the process's one backing store, which the
/// caller owns and shares with every service of the process.
pub struct State {
    pub(crate) tokens: Partition,
    pub(crate) faucet_requests: Partition,
    pub(crate) talent_token_map: Partition,
    pub(crate) purchase_history: Partition,
    pub(crate) admin: Identity,
    pub(crate) token_canister_id: Identity,
    pub(crate) is_admin_registered: bool,
    pub(crate) wasm_module: Vec<u8>,
    pub(crate) self_id: Identity,
}

/// The abstract form of the whole service state.
#[verifier::ext_equal]
pub struct StateV {
    /// Resource id -> token record.
    pub tokens: Map<Seq<u8>, TokenMetadataV>,
    /// Requester -> faucet record.
    pub faucet_requests: Map<Seq<u8>, FaucetTokenRequest>,
    /// Owner -> resource id of the one token it provisioned.
    pub talent_token_map: Map<Seq<u8>, Seq<u8>>,
    /// Buyer -> resource ids acquired, in order, without repetition.
    pub purchase_history: Map<Seq<u8>, Seq<Seq<u8>>>,
    pub admin: Seq<u8>,
    pub token_canister_id: Seq<u8>,
    pub is_admin_registered: bool,
    pub wasm_module: Seq<u8>,
    pub self_id: Seq<u8>,
}

impl View for State {
    type V = StateV;

    closed spec fn view(&self) -> StateV {
        StateV {
            tokens: typed_view::<TokenMetadata>(self.tokens),
            faucet_requests: typed_view::<FaucetTokenRequest>(self.faucet_requests),
            talent_token_map: typed_view::<Identity>(self.talent_token_map),
            purchase_history: typed_view::<IdList>(self.purchase_history),
            admin: self.admin@,
            token_canister_id: self.token_canister_id@,
            is_admin_registered: self.is_admin_registered,
            wasm_module: self.wasm_module@,
            self_id: self.self_id@,
        }
    }
}

impl State {
    /// The state's internal invariant: every partition decodes, the index
    /// only points at existing token records, and no purchase history
    /// repeats a resource id.
    pub closed spec fn inv(&self) -> bool {
        &&& typed_inv::<TokenMetadata>(self.tokens)
        &&& typed_inv::<FaucetTokenRequest>(self.faucet_requests)
        &&& typed_inv::<Identity>(self.talent_token_map)
        &&& typed_inv::<IdList>(self.purchase_history)
        &&& forall|k: Seq<u8>|
            #[trigger] self@.talent_token_map.dom().contains(k) ==> self@.tokens.dom().contains(
                self@.talent_token_map[k],
            )
        &&& forall|k: Seq<u8>|
            #[trigger] self@.purchase_history.dom().contains(k) ==> (forall|q1: int, q2: int|
                0 <= q1 < q2 < self@.purchase_history[k].len()
                    ==> self@.purchase_history[k][q1] != self@.purchase_history[k][q2])
    }

    /// Builds the service state over the process's backing store: its four
    /// partitions bound fresh to their fixed tags, no admin registered, the
    /// given ledger identity, an empty resource binary, and the service's
    /// own identity.  The initial admin is the management identity, as the
    /// deployment sets it before registration.
    pub fn init(backing: &mut Backing, self_id: Identity, token_canister_id: Identity) -> (r:
        State)
        requires
            !backing_used(*old(backing)).contains(TOKEN_MAP_TAG),
            !backing_used(*old(backing)).contains(FAUCET_REQUEST_MAP_TAG),
            !backing_used(*old(backing)).contains(TALENT_TOKEN_MAP_TAG),
            !backing_used(*old(backing)).contains(PURCHASE_HISTORY_TAG),
        ensures
            backing_used(*final(backing)) == backing_used(*old(backing)).insert(
                TOKEN_MAP_TAG,
            ).insert(FAUCET_REQUEST_MAP_TAG).insert(TALENT_TOKEN_MAP_TAG).insert(
                PURCHASE_HISTORY_TAG,
            ),
            r.inv(),
            r@ == (StateV {
                tokens: Map::<Seq<u8>, TokenMetadataV>::empty(),
                faucet_requests: Map::<Seq<u8>, FaucetTokenRequest>::empty(),
                talent_token_map: Map::<Seq<u8>, Seq<u8>>::empty(),
                purchase_history: Map::<Seq<u8>, Seq<Seq<u8>>>::empty(),
                admin: Seq::<u8>::empty(),
                token_canister_id: token_canister_id@,
                is_admin_registered: false,
                wasm_module: Seq::<u8>::empty(),
                self_id: self_id@,
            }),
    {
        let tokens = open_partition(backing, TOKEN_MAP_TAG);
        let faucet_requests = open_partition(backing, FAUCET_REQUEST_MAP_TAG);
        let talent_token_map = open_partition(backing, TALENT_TOKEN_MAP_TAG);
        let purchase_history = open_partition(backing, PURCHASE_HISTORY_TAG);
        let r = State {
            tokens,
            faucet_requests,
            talent_token_map,
            purchase_history,
            admin: Identity::management(),
            token_canister_id,
            is_admin_registered: false,
            wasm_module: Vec::new(),
            self_id,
        };
        proof {
            assert(typed_view::<TokenMetadata>(r.tokens) =~= Map::<Seq<u8>, TokenMetadataV>::empty());
            assert(typed_view::<FaucetTokenRequest>(r.faucet_requests) =~= Map::<
                Seq<u8>,
                FaucetTokenRequest,
            >::empty());
            assert(typed_view::<Identity>(r.talent_token_map) =~= Map::<Seq<u8>, Seq<u8>>::empty());
            assert(typed_view::<IdList>(r.purchase_history) =~= Map::<Seq<u8>, Seq<Seq<u8>>>::empty());
            assert(r@ =~= (StateV {
                tokens: Map::<Seq<u8>, TokenMetadataV>::empty(),
                faucet_requests: Map::<Seq<u8>, FaucetTokenRequest>::empty(),
                talent_token_map: Map::<Seq<u8>, Seq<u8>>::empty(),
                purchase_history: Map::<Seq<u8>, Seq<Seq<u8>>>::empty(),
                admin: Seq::<u8>::empty(),
                token_canister_id: token_canister_id@,
                is_admin_registered: false,
                wasm_module: Seq::<u8>::empty(),
                self_id: self_id@,
            }));
        }
        r
    }

    /// Re-attaches the service state persisted in the process's backing
    /// store.  The four durable maps are reloaded under their fixed tags
    /// and revalidated entry by entry; the process-wide singletons (admin
    /// registry, ledger identity, resource binary) are not durable and
    /// start over at their initial values.  Yields nothing when a partition
    /// does not hold this format, or when the reloaded maps break a
    /// cross-map rule (an index entry without its token record, a history
    /// repeating a resource id).
    pub fn reopen(backing: &mut Backing, self_id: Identity, token_canister_id: Identity) -> (r:
        Option<State>)
        requires
            !backing_used(*old(backing)).contains(TOKEN_MAP_TAG),
            !backing_used(*old(backing)).contains(FAUCET_REQUEST_MAP_TAG),
            !backing_used(*old(backing)).contains(TALENT_TOKEN_MAP_TAG),
            !backing_used(*old(backing)).contains(PURCHASE_HISTORY_TAG),
        ensures
            backing_used(*final(backing)) == backing_used(*old(backing)).insert(
                TOKEN_MAP_TAG,
            ).insert(FAUCET_REQUEST_MAP_TAG).insert(TALENT_TOKEN_MAP_TAG).insert(
                PURCHASE_HISTORY_TAG,
            ),
            r matches Some(st) ==> st.inv() && st@.admin == Seq::<u8>::empty()
                && !st@.is_admin_registered && st@.wasm_module == Seq::<u8>::empty()
                && st@.token_canister_id == token_canister_id@ && st@.self_id == self_id@,
    {
        let tokens = reopen_partition(backing, TOKEN_MAP_TAG);
        let faucet_requests = reopen_partition(backing, FAUCET_REQUEST_MAP_TAG);
        let talent_token_map = reopen_partition(backing, TALENT_TOKEN_MAP_TAG);
        let purchase_history = reopen_partition(backing, PURCHASE_HISTORY_TAG);
        if !typed_revalidate::<TokenMetadata>(&tokens) {
            return None;
        }
        if !typed_revalidate::<FaucetTokenRequest>(&faucet_requests) {
            return None;
        }
        if !typed_revalidate::<Identity>(&talent_token_map) {
            return None;
        }
        if !typed_revalidate::<IdList>(&purchase_history) {
            return None;
        }
        let st = State {
            tokens,
            faucet_requests,
            talent_token_map,
            purchase_history,
            admin: Identity::management(),
            token_canister_id,
            is_admin_registered: false,
            wasm_module: Vec::new(),
            self_id,
        };

        // Every index entry must point at an existing token record.
        let index_entries = typed_entries::<Identity>(&st.talent_token_map);
        let n = index_entries.len();
        let mut i: usize = 0;
        while i < n
            invariant
                backing_used(*backing) == backing_used(*old(backing)).insert(
                    TOKEN_MAP_TAG,
                ).insert(FAUCET_REQUEST_MAP_TAG).insert(TALENT_TOKEN_MAP_TAG).insert(
                    PURCHASE_HISTORY_TAG,
                ),
                typed_inv::<Identity>(st.talent_token_map),
                typed_inv::<TokenMetadata>(st.tokens),
                entries_match::<Identity>(
                    typed_view::<Identity>(st.talent_token_map),
                    index_entries@,
                ),
                n == index_entries@.len(),
                0 <= i <= n,
                forall|j: int|
                    0 <= j < i ==> typed_view::<TokenMetadata>(st.tokens).dom().contains(
                        (#[trigger] index_entries@[j].1)@,
                    ),
            decreases n - i,
        {
            let pair = &index_entries[i];
            if !typed_contains::<TokenMetadata>(&st.tokens, &pair.1) {
                return None;
            }
            i += 1;
        }
        proof {
            let iv = typed_view::<Identity>(st.talent_token_map);
            assert forall|k: Seq<u8>| #[trigger] iv.dom().contains(k) implies typed_view::<
                TokenMetadata,
            >(st.tokens).dom().contains(iv[k]) by {
                let n0 = choose|n0: int|
                    0 <= n0 < index_entries@.len() && #[trigger] index_entries@[n0].0@ == k;
                assert(index_entries@[n0].1@ == iv[k]);
                assert(typed_view::<TokenMetadata>(st.tokens).dom().contains(
                    index_entries@[n0].1@,
                ));
            }
        }

        // No reloaded purchase history may repeat a resource id.
        let history_entries = typed_entries::<IdList>(&st.purchase_history);
        let hn = history_entries.len();
        let mut h: usize = 0;
        while h < hn
            invariant
                backing_used(*backing) == backing_used(*old(backing)).insert(
                    TOKEN_MAP_TAG,
                ).insert(FAUCET_REQUEST_MAP_TAG).insert(TALENT_TOKEN_MAP_TAG).insert(
                    PURCHASE_HISTORY_TAG,
                ),
                typed_inv::<IdList>(st.purchase_history),
                entries_match::<IdList>(typed_view::<IdList>(st.purchase_history), history_entries@),
                hn == history_entries@.len(),
                0 <= h <= hn,
                forall|j: int|
                    0 <= j < h ==> (forall|q1: int, q2: int|
                        0 <= q1 < q2 < ((#[trigger] history_entries@[j].1)@).len()
                            ==> history_entries@[j].1@[q1] != history_entries@[j].1@[q2]),
            decreases hn - h,
        {
            let pair = &history_entries[h];
            if !ids_distinct(&pair.1.ids) {
                return None;
            }
            proof {
                assert forall|q1: int, q2: int|
                    0 <= q1 < q2 < history_entries@[h as int].1@.len() implies history_entries@[
                    h as int].1@[q1] != history_entries@[h as int].1@[q2] by {
                    assert(history_entries@[h as int].1@[q1] == pair.1.ids@[q1]@);
                    assert(history_entries@[h as int].1@[q2] == pair.1.ids@[q2]@);
                }
            }
            h += 1;
        }
        proof {
            let hv = typed_view::<IdList>(st.purchase_history);
            assert forall|k: Seq<u8>| #[trigger] hv.dom().contains(k) implies (forall|
                q1: int,
                q2: int,
            |
                0 <= q1 < q2 < hv[k].len() ==> hv[k][q1] != hv[k][q2]) by {
                let n0 = choose|n0: int|
                    0 <= n0 < history_entries@.len() && #[trigger] history_entries@[n0].0@ == k;
                assert(history_entries@[n0].1@ == hv[k]);
            }
            assert(st@.admin =~= Seq::<u8>::empty());
            assert(st@.wasm_module =~= Seq::<u8>::empty());
        }
        Some(st)
    }

    /// Registers the caller as admin.  Succeeds exactly once: every later
    /// call fails with `AlreadyRegistered` and changes nothing.
    pub fn register_admin(&mut self, caller: &Identity) -> (r: Result<(), Error>)
        requires
            old(self).inv(),
        ensures
            final(self).inv(),
            match r {
                Ok(u) => !old(self)@.is_admin_registered && final(self)@ == (StateV {
                    admin: caller@,
                    is_admin_registered: true,
                    ..old(self)@
                }),
                Err(e) => old(self)@.is_admin_registered && (e matches Error::AlreadyRegistered)
                    && final(self)@ == old(self)@,
            },
    {
        if self.is_admin_registered {
            return Err(Error::AlreadyRegistered);
        }
        self.admin = caller.clone();
        self.is_admin_registered = true;
        proof {
            assert(self@ =~= (StateV { admin: caller@, is_admin_registered: true, ..old(self)@ }));
        }
        Ok(())
    }

    /// Replaces the admin.  Fails with `NotRegistered` while no admin is
    /// registered, with `NotAuthorized` for every caller other than the
    /// current admin, and succeeds for the admin.
    pub fn change_admin(&mut self, caller: &Identity, new_admin: &Identity) -> (r: Result<
        (),
        Error,
    >)
        requires
            old(self).inv(),
        ensures
            final(self).inv(),
            match r {
                Ok(u) => old(self)@.is_admin_registered && caller@ == old(self)@.admin && final(self)@ == (StateV { admin: new_admin@, ..old(self)@ }),
                Err(e) => final(self)@ == old(self)@ && match e {
                    Error::NotRegistered => !old(self)@.is_admin_registered,
                    Error::NotAuthorized => old(self)@.is_admin_registered && caller@ != old(self)@.admin,
                    _ => false,
                },
            },
    {
        if !self.is_admin_registered {
            return Err(Error::NotRegistered);
        }
        if !caller.same_as(&self.admin) {
            return Err(Error::NotAuthorized);
        }
        self.admin = new_admin.clone();
        proof {
            assert(self@ =~= (StateV { admin: new_admin@, ..old(self)@ }));
        }
        Ok(())
    }

    /// The pure admin gate: fails with `NotAuthorized` exactly when the
    /// caller is not the current admin.
    pub fn require_admin(&self, caller: &Identity) -> (r: Result<(), Error>)
        ensures
            match r {
                Ok(u) => caller@ == self@.admin,
                Err(e) => e matches Error::NotAuthorized && caller@ != self@.admin,
            },
    {
        if caller.same_as(&self.admin) {
            Ok(())
        } else {
            Err(Error::NotAuthorized)
        }
    }

    /// The current admin identity.
    pub fn get_admin(&self) -> (r: Identity)
        ensures
            r@ == self@.admin,
    {
        self.admin.clone()
    }

    /// The service's own identity.
    pub fn get_self_id(&self) -> (r: Identity)
        ensures
            r@ == self@.self_id,
    {
        self.self_id.clone()
    }

    /// Points the service at the ledger it settles transfers on.  Admin
    /// only.
    pub fn set_token_canister(&mut self, caller: &Identity, token_canister_id: &Identity) -> (r:
        Result<(), Error>)
        requires
            old(self).inv(),
        ensures
            final(self).inv(),
            match r {
                Ok(u) => caller@ == old(self)@.admin && final(self)@ == (StateV {
                    token_canister_id: token_canister_id@,
                    ..old(self)@
                }),
                Err(e) => (e matches Error::NotAuthorized) && caller@ != old(self)@.admin && final(self)@ == old(self)@,
            },
    {
        if !caller.same_as(&self.admin) {
            return Err(Error::NotAuthorized);
        }
        self.token_canister_id = token_canister_id.clone();
        proof {
            assert(self@ =~= (StateV { token_canister_id: token_canister_id@, ..old(self)@ }));
        }
        Ok(())
    }

    /// Replaces the shared resource binary that every new token resource is
    /// initialized with.  Admin only.
    pub fn update_wasm_module(&mut self, caller: &Identity, wasm: Vec<u8>) -> (r: Result<
        (),
        Error,
    >)
        requires
            old(self).inv(),
        ensures
            final(self).inv(),
            match r {
                Ok(u) => caller@ == old(self)@.admin && final(self)@ == (StateV {
                    wasm_module: wasm@,
                    ..old(self)@
                }),
                Err(e) => (e matches Error::NotAuthorized) && caller@ != old(self)@.admin && final(self)@ == old(self)@,
            },
    {
        if !caller.same_as(&self.admin) {
            return Err(Error::NotAuthorized);
        }
        self.wasm_module = wasm;
        proof {
            assert(self@ =~= (StateV { wasm_module: wasm@, ..old(self)@ }));
        }
        Ok(())
    }
}

/// A counter bumped by one, held at its ceiling.
pub open spec fn bump_u32(x: u32) -> u32 {
    if x == u32::MAX {
        x
    } else {
        (x + 1) as u32
    }
}

/// A sum held at its ceiling.
pub open spec fn add_sat_u64(a: u64, b: u64) -> u64 {
    if a + b > u64::MAX {
        u64::MAX
    } else {
        (a + b) as u64
    }
}

/// What submitting a faucet request does to the request map: a fresh
/// pending record for a first-time requester, else the current amount
/// replaced, the request counter bumped, the total given untouched, and
/// the status reset to pending.
pub open spec fn submit_transition(
    m: Map<Seq<u8>, FaucetTokenRequest>,
    id: Seq<u8>,
    n: u32,
) -> Map<Seq<u8>, FaucetTokenRequest> {
    let base = if m.dom().contains(id) {
        m[id]
    } else {
        FaucetTokenRequest {
            current_token_request: n,
            total_number_of_request: 0,
            total_token_given: 0,
            status: RequestStatus::Pending,
        }
    };
    m.insert(
        id,
        FaucetTokenRequest {
            current_token_request: n,
            total_number_of_request: bump_u32(base.total_number_of_request),
            total_token_given: base.total_token_given,
            status: RequestStatus::Pending,
        },
    )
}

/// What a confirmed payout does to the request map: the request counter
/// bumped, the paid amount added to the total given, the record marked
/// approved and retained.
pub open spec fn approve_transition(m: Map<Seq<u8>, FaucetTokenRequest>, id: Seq<u8>) -> Map<
    Seq<u8>,
    FaucetTokenRequest,
>
    recommends
        m.dom().contains(id),
{
    let r = m[id];
    m.insert(
        id,
        FaucetTokenRequest {
            current_token_request: r.current_token_request,
            total_number_of_request: bump_u32(r.total_number_of_request),
            total_token_given: add_sat_u64(r.total_token_given, r.current_token_request as u64),
            status: RequestStatus::Approved,
        },
    )
}

impl State {
    /// Files or renews the caller's faucet request.  The anonymous identity
    /// is turned away; everyone else gets a pending record with the asked
    /// amount, keeping its lifetime total of tokens given.
    pub fn send_token_faucet_request(&mut self, caller: &Identity, number_of_tokens: u32) -> (r:
        Result<(), Error>)
        requires
            old(self).inv(),
        ensures
            final(self).inv(),
            match r {
                Ok(u) => caller@ != anonymous_bytes() && final(self)@ == (StateV {
                    faucet_requests: submit_transition(
                        old(self)@.faucet_requests,
                        caller@,
                        number_of_tokens,
                    ),
                    ..old(self)@
                }),
                Err(e) => (e matches Error::NotAllowed) && caller@ == anonymous_bytes() && final(self)@ == old(self)@,
            },
    {
        if caller.is_anonymous() {
            return Err(Error::NotAllowed);
        }
        let base = match typed_get::<FaucetTokenRequest>(&self.faucet_requests, caller) {
            Some(r) => r,
            None => FaucetTokenRequest {
                current_token_request: number_of_tokens,
                total_number_of_request: 0,
                total_token_given: 0,
                status: RequestStatus::Pending,
            },
        };
        let total = if base.total_number_of_request == u32::MAX {
            u32::MAX
        } else {
            base.total_number_of_request + 1
        };
        let rec = FaucetTokenRequest {
            current_token_request: number_of_tokens,
            total_number_of_request: total,
            total_token_given: base.total_token_given,
            status: RequestStatus::Pending,
        };
        typed_insert::<FaucetTokenRequest>(&mut self.faucet_requests, caller, &rec);
        proof {
            assert(self@ =~= (StateV {
                faucet_requests: submit_transition(
                    old(self)@.faucet_requests,
                    caller@,
                    number_of_tokens,
                ),
                ..old(self)@
            }));
        }
        Ok(())
    }

    /// Approves a faucet request: the admin gate and the payout order.  The
    /// state is untouched here; only a confirmed payout, fed back through
    /// `accept_token_request_settle`, updates the record.
    pub fn accept_token_request(&self, caller: &Identity, user: &Identity) -> (r: Result<
        TransferFromOrder,
        Error,
    >)
        requires
            self.inv(),
        ensures
            match r {
                Ok(o) => caller@ == self@.admin && self@.faucet_requests.dom().contains(user@)
                    && o.from@ == self@.admin && o.to@ == user@ && o.amount
                    == self@.faucet_requests[user@].current_token_request as u64 && o.token@
                    == self@.token_canister_id,
                Err(e) => match e {
                    Error::NotAuthorized => caller@ != self@.admin,
                    Error::NotFound => caller@ == self@.admin
                        && !self@.faucet_requests.dom().contains(user@),
                    _ => false,
                },
            },
    {
        self.require_admin(caller)?;
        match typed_get::<FaucetTokenRequest>(&self.faucet_requests, user) {
            None => Err(Error::NotFound),
            Some(rec) => Ok(
                TransferFromOrder {
                    from: self.admin.clone(),
                    to: user.clone(),
                    amount: rec.current_token_request as u64,
                    token: self.token_canister_id.clone(),
                },
            ),
        }
    }

    /// Feeds the payout's outcome back into the faucet.  Only a confirmed
    /// transfer touches the record: the total given grows by the paid
    /// amount and the request is marked approved.  On any failure the state
    /// is unchanged and the failure class is surfaced.
    pub fn accept_token_request_settle(&mut self, user: &Identity, reply: &LedgerReply) -> (r:
        Result<u64, Error>)
        requires
            old(self).inv(),
        ensures
            final(self).inv(),
            match r {
                Ok(block) => old(self)@.faucet_requests.dom().contains(user@) && (
                reply matches LedgerReply::Confirmed(b) && block == b) && final(self)@ == (StateV {
                    faucet_requests: approve_transition(old(self)@.faucet_requests, user@),
                    ..old(self)@
                }),
                Err(e) => final(self)@ == old(self)@ && match e {
                    Error::NotFound => !old(self)@.faucet_requests.dom().contains(user@),
                    Error::TransferFailed(mm) => old(self)@.faucet_requests.dom().contains(user@)
                        && (reply matches LedgerReply::Rejected(m) && mm@ == m@),
                    Error::ExternalCallFailed(cc, mm) => old(self)@.faucet_requests.dom().contains(
                        user@,
                    ) && (reply matches LedgerReply::Unreachable(c, m) && cc == c && mm@ == m@),
                    _ => false,
                },
            },
    {
        let rec = match typed_get::<FaucetTokenRequest>(&self.faucet_requests, user) {
            None => {
                return Err(Error::NotFound);
            },
            Some(rec) => rec,
        };
        let block = match crate::transfer::settle_ledger_reply(reply) {
            Err(e) => {
                return Err(e);
            },
            Ok(b) => b,
        };
        let amount = rec.current_token_request as u64;
        let given = if rec.total_token_given > u64::MAX - amount {
            u64::MAX
        } else {
            rec.total_token_given + amount
        };
        let total = if rec.total_number_of_request == u32::MAX {
            u32::MAX
        } else {
            rec.total_number_of_request + 1
        };
        let updated = FaucetTokenRequest {
            current_token_request: rec.current_token_request,
            total_number_of_request: total,
            total_token_given: given,
            status: RequestStatus::Approved,
        };
        typed_insert::<FaucetTokenRequest>(&mut self.faucet_requests, user, &updated);
        proof {
            assert(self@ =~= (StateV {
                faucet_requests: approve_transition(old(self)@.faucet_requests, user@),
                ..old(self)@
            }));
        }
        Ok(block)
    }

    /// Rejects a faucet request: admin only; the record is deleted.
    pub fn reject_token_request(&mut self, caller: &Identity, user: &Identity) -> (r: Result<
        (),
        Error,
    >)
        requires
            old(self).inv(),
        ensures
            final(self).inv(),
            match r {
                Ok(u) => caller@ == old(self)@.admin && old(self)@.faucet_requests.dom().contains(
                    user@,
                ) && final(self)@ == (StateV {
                    faucet_requests: old(self)@.faucet_requests.remove(user@),
                    ..old(self)@
                }),
                Err(e) => final(self)@ == old(self)@ && match e {
                    Error::NotAuthorized => caller@ != old(self)@.admin,
                    Error::NotFound => caller@ == old(self)@.admin && !old(self)@.faucet_requests.dom().contains(user@),
                    _ => false,
                },
            },
    {
        if !caller.same_as(&self.admin) {
            return Err(Error::NotAuthorized);
        }
        if !typed_contains::<FaucetTokenRequest>(&self.faucet_requests, user) {
            return Err(Error::NotFound);
        }
        typed_remove::<FaucetTokenRequest>(&mut self.faucet_requests, user);
        proof {
            assert(self@ =~= (StateV {
                faucet_requests: old(self)@.faucet_requests.remove(user@),
                ..old(self)@
            }));
        }
        Ok(())
    }

    /// The decision part of a delegated transfer on the service's ledger:
    /// anonymous callers are turned away, everyone else gets the pull order
    /// moving the amount from their account to the destination.
    pub fn transfer_tokens(&self, caller: &Identity, to: &Identity, amount: u32) -> (r: Result<
        TransferFromOrder,
        Error,
    >)
        ensures
            match r {
                Ok(o) => caller@ != anonymous_bytes() && o.from@ == caller@ && o.to@ == to@
                    && o.amount == amount as u64 && o.token@ == self@.token_canister_id,
                Err(e) => (e matches Error::NotAllowed) && caller@ == anonymous_bytes(),
            },
    {
        if caller.is_anonymous() {
            return Err(Error::NotAllowed);
        }
        Ok(
            TransferFromOrder {
                from: caller.clone(),
                to: to.clone(),
                amount: amount as u64,
                token: self.token_canister_id.clone(),
            },
        )
    }

    /// The record of one token resource, if it exists.
    pub fn get_token_metadata(&self, token_id: &Identity) -> (r: Result<TokenMetadata, Error>)
        requires
            self.inv(),
        ensures
            match r {
                Ok(v) => self@.tokens.dom().contains(token_id@) && v@ == self@.tokens[token_id@],
                Err(e) => (e matches Error::NotFound) && !self@.tokens.dom().contains(token_id@),
            },
    {
        match typed_get::<TokenMetadata>(&self.tokens, token_id) {
            Some(v) => Ok(v),
            None => Err(Error::NotFound),
        }
    }

    /// Whether a token record exists for this resource id.
    pub fn has_token(&self, token_id: &Identity) -> (r: bool)
        requires
            self.inv(),
        ensures
            r == self@.tokens.dom().contains(token_id@),
    {
        typed_contains::<TokenMetadata>(&self.tokens, token_id)
    }

    /// Every token record, each resource id exactly once.
    pub fn get_list_of_tokens(&self) -> (r: Vec<(Identity, TokenMetadata)>)
        requires
            self.inv(),
        ensures
            entries_match::<TokenMetadata>(self@.tokens, r@),
    {
        typed_entries::<TokenMetadata>(&self.tokens)
    }

    /// Every faucet request, for the admin's eyes only.
    pub fn get_faucet_requests(&self, caller: &Identity) -> (r: Result<
        Vec<(Identity, FaucetTokenRequest)>,
        Error,
    >)
        requires
            self.inv(),
        ensures
            match r {
                Ok(v) => caller@ == self@.admin && entries_match::<FaucetTokenRequest>(
                    self@.faucet_requests,
                    v@,
                ),
                Err(e) => (e matches Error::NotAuthorized) && caller@ != self@.admin,
            },
    {
        self.require_admin(caller)?;
        let v = typed_entries::<FaucetTokenRequest>(&self.faucet_requests);
        Ok(v)
    }

    /// The caller's own token: its resource id and record.  The invariant
    /// guarantees the index never points at a missing record.
    pub fn get_user_token_metadata(&self, user: &Identity) -> (r: Result<
        (Identity, TokenMetadata),
        Error,
    >)
        requires
            self.inv(),
        ensures
            match r {
                Ok(p) => self@.talent_token_map.dom().contains(user@) && p.0@
                    == self@.talent_token_map[user@] && p.1@ == self@.tokens[p.0@],
                Err(e) => (e matches Error::NotFound) && !self@.talent_token_map.dom().contains(
                    user@,
                ),
            },
    {
        match typed_get::<Identity>(&self.talent_token_map, user) {
            None => Err(Error::NotFound),
            Some(token_id) => {
                match typed_get::<TokenMetadata>(&self.tokens, &token_id) {
                    Some(meta) => Ok((token_id, meta)),
                    None => {
                        proof {
                            assert(self@.talent_token_map.dom().contains(user@));
                            assert(self@.tokens.dom().contains(self@.talent_token_map[user@]));
                            assert(false);
                        }
                        Err(Error::NotFound)
                    },
                }
            },
        }
    }

    /// The resource ids the identity has acquired, in order; empty when it
    /// has acquired none.
    pub fn get_purchase_history(&self, caller: &Identity) -> (r: Vec<Identity>)
        requires
            self.inv(),
        ensures
            self@.purchase_history.dom().contains(caller@) ==> r@.map_values(|id: Identity| id@)
                == self@.purchase_history[caller@],
            !self@.purchase_history.dom().contains(caller@) ==> r@.len() == 0,
    {
        match typed_get::<IdList>(&self.purchase_history, caller) {
            Some(l) => l.ids,
            None => Vec::new(),
        }
    }
}

impl State {
    /// The first gate of provisioning: a caller that already owns a token
    /// is turned away, the anonymous identity cannot pay, and everyone
    /// else gets the order charging the provisioning fee into the
    /// treasury (the admin's account).
    pub fn provision_begin(&self, caller: &Identity) -> (r: Result<TransferFromOrder, Error>)
        requires
            self.inv(),
        ensures
            match r {
                Ok(o) => !self@.talent_token_map.dom().contains(caller@) && caller@
                    != anonymous_bytes() && o.from@ == caller@ && o.to@ == self@.admin && o.amount
                    == PROVISION_FEE as u64 && o.token@ == self@.token_canister_id,
                Err(e) => match e {
                    Error::AlreadyHasToken => self@.talent_token_map.dom().contains(caller@),
                    Error::FeeChargeFailed(_) => !self@.talent_token_map.dom().contains(caller@)
                        && caller@ == anonymous_bytes(),
                    _ => false,
                },
            },
    {
        if typed_contains::<Identity>(&self.talent_token_map, caller) {
            return Err(Error::AlreadyHasToken);
        }
        match self.transfer_tokens(caller, &self.get_admin(), PROVISION_FEE) {
            Ok(o) => Ok(o),
            Err(_) => Err(Error::FeeChargeFailed("Anonymous calls not allowed".to_owned())),
        }
    }

    /// The second gate: a failed fee charge aborts the workflow, and with
    /// the fee paid the shared binary must be in place.  Yields the order
    /// creating the resource under the service's and the caller's control.
    pub fn provision_after_fee(&self, caller: &Identity, fee_result: &LedgerReply) -> (r: Result<
        CreateOrder,
        Error,
    >)
        requires
            self.inv(),
        ensures
            match r {
                Ok(o) => (fee_result matches LedgerReply::Confirmed(_)) && self@.wasm_module.len()
                    > 0 && o.controllers@.len() == 2 && o.controllers@[0]@ == self@.self_id
                    && o.controllers@[1]@ == caller@ && o.payment == CREATION_PAYMENT,
                Err(e) => match e {
                    Error::FeeChargeFailed(_) => !(fee_result matches LedgerReply::Confirmed(_)),
                    Error::BinaryNotSet => (fee_result matches LedgerReply::Confirmed(_))
                        && self@.wasm_module.len() == 0,
                    _ => false,
                },
            },
    {
        match fee_result {
            LedgerReply::Confirmed(_) => (),
            LedgerReply::Rejected(m) => {
                return Err(Error::FeeChargeFailed(m.clone()));
            },
            LedgerReply::Unreachable(_, m) => {
                return Err(Error::FeeChargeFailed(m.clone()));
            },
        }
        if self.wasm_module.is_empty() {
            return Err(Error::BinaryNotSet);
        }
        let mut controllers: Vec<Identity> = Vec::new();
        controllers.push(self.get_self_id());
        controllers.push(caller.clone());
        Ok(CreateOrder { controllers, payment: CREATION_PAYMENT })
    }

    /// The third gate: a failed creation aborts the workflow with no local
    /// state touched.  Yields the install order carrying the shared binary
    /// and the full initialization payload.
    pub fn provision_after_create(
        &self,
        caller: &Identity,
        args: &CreateTokenArgs,
        create_result: &CreateReply,
    ) -> (r: Result<InstallOrder, Error>)
        requires
            self.inv(),
        ensures
            match r {
                Ok(o) => (create_result matches CreateReply::Created(id) && o.canister_id@ == id@)
                    && o.wasm_module@ == self@.wasm_module && init_payload_for(
                    o.init,
                    self@.self_id,
                    caller@,
                    args@,
                ),
                Err(e) => (e matches Error::CreationFailed(_)) && (
                create_result matches CreateReply::Failed(_, _)),
            },
    {
        let canister_id = match create_result {
            CreateReply::Created(id) => id.clone(),
            CreateReply::Failed(_, m) => {
                return Err(Error::CreationFailed(m.clone()));
            },
        };
        let mut metadata: Vec<(String, MetadataValue)> = Vec::new();
        metadata.push(("icrc1:name".to_owned(), MetadataValue::Text(args.name.clone())));
        metadata.push(("icrc1:symbol".to_owned(), MetadataValue::Text(args.symbol.clone())));
        metadata.push(("icrc1:decimals".to_owned(), MetadataValue::Nat(args.decimals as u64)));
        let mut initial_balances: Vec<(Account, u64)> = Vec::new();
        initial_balances.push((Account { owner: self.get_self_id(), subaccount: None }, 0u64));
        let mut more_controllers: Vec<Identity> = Vec::new();
        more_controllers.push(caller.clone());
        let init = InitArgs {
            minting_account: Account { owner: self.get_self_id(), subaccount: None },
            fee_collector_account: Some(Account { owner: caller.clone(), subaccount: None }),
            transfer_fee: 0,
            token_symbol: args.symbol.clone(),
            token_name: args.name.clone(),
            metadata,
            initial_balances,
            feature_flags: Some(FeatureFlags { icrc2: true }),
            maximum_number_of_accounts: Some(1_000_000),
            accounts_overflow_trim_quantity: Some(100_000),
            archive_options: ArchiveOptions {
                trigger_threshold: 1000,
                num_blocks_to_archive: 2000,
                node_max_memory_size_bytes: Some(3_221_225_472),
                max_message_size_bytes: Some(1_048_576),
                controller_id: self.get_self_id(),
                more_controller_ids: Some(more_controllers),
                cycles_for_archive_creation: Some(10_000_000_000_000),
                max_transactions_per_response: Some(100),
            },
            decimals: Some(args.decimals),
            max_memo_length: Some(256),
        };
        Ok(
            InstallOrder {
                canister_id,
                wasm_module: crate::identity::clone_bytes(&self.wasm_module),
                init,
            },
        )
    }

    /// The last step: a failed install surfaces as a creation failure with
    /// no local state touched — the fee stays charged and the resource
    /// stays allocated.  A successful install commits the token record and
    /// the caller's index entry as one logical write.
    pub fn provision_commit(
        &mut self,
        caller: &Identity,
        args: &CreateTokenArgs,
        canister_id: &Identity,
        install_result: &InstallReply,
        now: u64,
    ) -> (r: Result<Identity, Error>)
        requires
            old(self).inv(),
        ensures
            final(self).inv(),
            match r {
                Ok(rid) => (install_result matches InstallReply::Installed) && rid@ == canister_id@
                    && final(self)@ == (StateV {
                    tokens: old(self)@.tokens.insert(
                        canister_id@,
                        provisioned_record(args@, caller@, now),
                    ),
                    talent_token_map: old(self)@.talent_token_map.insert(caller@, canister_id@),
                    ..old(self)@
                }),
                Err(e) => final(self)@ == old(self)@ && (e matches Error::CreationFailed(_)) && (
                install_result matches InstallReply::Failed(_, _)),
            },
    {
        match install_result {
            InstallReply::Installed => (),
            InstallReply::Failed(_, m) => {
                return Err(Error::CreationFailed(m.clone()));
            },
        }
        let record = TokenMetadata {
            name: args.name.clone(),
            symbol: args.symbol.clone(),
            decimals: args.decimals,
            token_price: args.token_price,
            owner: caller.clone(),
            logo: clone_opt_string(&args.logo),
            created: now,
        };
        note_text_fits(&args.name);
        note_text_fits(&args.symbol);
        match &args.logo {
            Some(s) => note_text_fits(s),
            None => (),
        }
        proof {
            use_type_invariant(caller);
            assert(record@ =~= provisioned_record(args@, caller@, now));
        }
        typed_insert::<TokenMetadata>(&mut self.tokens, canister_id, &record);
        let index_value = canister_id.clone();
        proof {
            use_type_invariant(canister_id);
        }
        typed_insert::<Identity>(&mut self.talent_token_map, caller, &index_value);
        proof {
            assert(self@ =~= (StateV {
                tokens: old(self)@.tokens.insert(
                    canister_id@,
                    provisioned_record(args@, caller@, now),
                ),
                talent_token_map: old(self)@.talent_token_map.insert(caller@, canister_id@),
                ..old(self)@
            }));
        }
        Ok(canister_id.clone())
    }
}


/// What a confirmed purchase does to the history map: the resource id is
/// appended to the buyer's list once; a repeat purchase leaves the list as
/// it is.
pub open spec fn history_add(
    m: Map<Seq<u8>, Seq<Seq<u8>>>,
    buyer: Seq<u8>,
    id: Seq<u8>,
) -> Map<Seq<u8>, Seq<Seq<u8>>> {
    let l = if m.dom().contains(buyer) {
        m[buyer]
    } else {
        Seq::empty()
    };
    if l.contains(id) {
        m
    } else {
        m.insert(buyer, l.push(id))
    }
}

/// Whether a list of identities holds this one.
fn ids_contain(ids: &Vec<Identity>, id: &Identity) -> (r: bool)
    ensures
        r == ids@.map_values(|x: Identity| x@).contains(id@),
{
    let n = ids.len();
    let mut i: usize = 0;
    while i < n
        invariant
            n == ids@.len(),
            0 <= i <= n,
            forall|j: int| 0 <= j < i ==> (#[trigger] ids@[j])@ != id@,
        decreases n - i,
    {
        if ids[i].same_as(id) {
            proof {
                assert(ids@.map_values(|x: Identity| x@)[i as int] == id@);
            }
            return true;
        }
        i += 1;
    }
    proof {
        let sv = ids@.map_values(|x: Identity| x@);
        if sv.contains(id@) {
            let j = choose|j: int| 0 <= j < sv.len() && sv[j] == id@;
            assert(false);
        }
    }
    false
}

/// Whether a list of identities repeats none of them.
fn ids_distinct(ids: &Vec<Identity>) -> (r: bool)
    ensures
        r == (forall|q1: int, q2: int|
            0 <= q1 < q2 < ids@.len() ==> (#[trigger] ids@[q1])@ != (#[trigger] ids@[q2])@),
{
    let n = ids.len();
    let mut i: usize = 0;
    while i < n
        invariant
            n == ids@.len(),
            0 <= i <= n,
            forall|q1: int, q2: int|
                0 <= q1 < q2 < n && q1 < i ==> (#[trigger] ids@[q1])@ != (#[trigger] ids@[q2])@,
        decreases n - i,
    {
        let mut j: usize = i + 1;
        while j < n
            invariant
                n == ids@.len(),
                0 <= i < n,
                i < j <= n,
                forall|q2: int| i < q2 < j ==> ids@[i as int]@ != (#[trigger] ids@[q2])@,
            decreases n - j,
        {
            if ids[i].same_as(&ids[j]) {
                proof {
                    assert(ids@[i as int]@ == ids@[j as int]@);
                }
                return false;
            }
            j += 1;
        }
        i += 1;
    }
    true
}

impl State {
    /// The first step of buying into a token: the record must exist, the
    /// buyer must not be anonymous, and the bill -- the token's unit price
    /// times the quantity -- must be payable in one ledger amount.  Yields
    /// the order paying the token's owner.
    pub fn buy_talent_token_begin(
        &self,
        buyer: &Identity,
        canister_id: &Identity,
        quantity: u32,
    ) -> (r: Result<TransferFromOrder, Error>)
        requires
            self.inv(),
        ensures
            match r {
                Ok(o) => self@.tokens.dom().contains(canister_id@) && buyer@ != anonymous_bytes()
                    && self@.tokens[canister_id@].token_price * quantity <= u64::MAX && o.from@
                    == buyer@ && o.to@ == self@.tokens[canister_id@].owner && o.amount
                    == self@.tokens[canister_id@].token_price * quantity && o.token@
                    == self@.token_canister_id,
                Err(e) => match e {
                    Error::NotFound => !self@.tokens.dom().contains(canister_id@),
                    Error::NotAllowed => self@.tokens.dom().contains(canister_id@) && buyer@
                        == anonymous_bytes(),
                    Error::ValidationError(_) => self@.tokens.dom().contains(canister_id@)
                        && buyer@ != anonymous_bytes() && self@.tokens[canister_id@].token_price
                        * quantity > u64::MAX,
                    _ => false,
                },
            },
    {
        let meta = match typed_get::<TokenMetadata>(&self.tokens, canister_id) {
            None => {
                return Err(Error::NotFound);
            },
            Some(m) => m,
        };
        if buyer.is_anonymous() {
            return Err(Error::NotAllowed);
        }
        proof {
            assert((meta.token_price as int) * (quantity as int) <= (u64::MAX as int) * (
            u32::MAX as int)) by (nonlinear_arith)
                requires
                    meta.token_price <= u64::MAX,
                    quantity <= u32::MAX,
            ;
        }
        let total: u128 = (meta.token_price as u128) * (quantity as u128);
        if total > u64::MAX as u128 {
            return Err(Error::ValidationError("total cost does not fit a ledger amount".to_owned()));
        }
        Ok(
            TransferFromOrder {
                from: buyer.clone(),
                to: meta.owner.clone(),
                amount: total as u64,
                token: self.token_canister_id.clone(),
            },
        )
    }

    /// The second step: with the payment confirmed, yields the order that
    /// has the token resource hand the bought units to the buyer.  A failed
    /// payment surfaces in its class and nothing more happens.
    pub fn buy_talent_token_payment_made(
        &self,
        buyer: &Identity,
        canister_id: &Identity,
        quantity: u32,
        payment_result: &LedgerReply,
    ) -> (r: Result<TokenTransferOrder, Error>)
        ensures
            match r {
                Ok(o) => (payment_result matches LedgerReply::Confirmed(_)) && o.canister_id@
                    == canister_id@ && o.to@ == buyer@ && o.amount == quantity as u64,
                Err(e) => match e {
                    Error::TransferFailed(mm) => payment_result matches LedgerReply::Rejected(m)
                        && mm@ == m@,
                    Error::ExternalCallFailed(cc, mm) => payment_result
                        matches LedgerReply::Unreachable(c, m) && cc == c && mm@ == m@,
                    _ => false,
                },
            },
    {
        match crate::transfer::settle_ledger_reply(payment_result) {
            Err(e) => Err(e),
            Ok(_) => Ok(
                TokenTransferOrder {
                    canister_id: canister_id.clone(),
                    to: buyer.clone(),
                    amount: quantity as u64,
                },
            ),
        }
    }

    /// The last step: a confirmed hand-over appends the resource id to the
    /// buyer's purchase history, once -- a repeat purchase leaves the
    /// history as it is.  A failed hand-over changes nothing.
    pub fn buy_talent_token_commit(
        &mut self,
        buyer: &Identity,
        canister_id: &Identity,
        transfer_result: &LedgerReply,
    ) -> (r: Result<(), Error>)
        requires
            old(self).inv(),
        ensures
            final(self).inv(),
            match r {
                Ok(u) => (transfer_result matches LedgerReply::Confirmed(_)) && final(self)@
                    == (StateV {
                    purchase_history: history_add(
                        old(self)@.purchase_history,
                        buyer@,
                        canister_id@,
                    ),
                    ..old(self)@
                }),
                Err(e) => final(self)@ == old(self)@ && match e {
                    Error::TransferFailed(mm) => transfer_result matches LedgerReply::Rejected(m)
                        && mm@ == m@,
                    Error::ExternalCallFailed(cc, mm) => transfer_result
                        matches LedgerReply::Unreachable(c, m) && cc == c && mm@ == m@,
                    _ => false,
                },
            },
    {
        match crate::transfer::settle_ledger_reply(transfer_result) {
            Err(e) => {
                return Err(e);
            },
            Ok(_) => (),
        }
        let mut list = match typed_get::<IdList>(&self.purchase_history, buyer) {
            Some(l) => l,
            None => IdList { ids: Vec::new() },
        };
        let ghost old_list: Seq<Seq<u8>> = list@;
        if ids_contain(&list.ids, canister_id) {
            proof {
                assert(self@ =~= (StateV {
                    purchase_history: history_add(
                        old(self)@.purchase_history,
                        buyer@,
                        canister_id@,
                    ),
                    ..old(self)@
                }));
            }
            return Ok(());
        }
        list.ids.push(canister_id.clone());
        let n2 = list.ids.len();
        proof {
            use_type_invariant(canister_id);
            assert(list@ =~= old_list.push(canister_id@));
            assert(n2 <= usize::MAX && usize::MAX <= u64::MAX);
            assert(crate::types::IdList::abs_wf(list@));
        }
        typed_insert::<IdList>(&mut self.purchase_history, buyer, &list);
        proof {
            let m0 = old(self)@.purchase_history;
            let l = if m0.dom().contains(buyer@) {
                m0[buyer@]
            } else {
                Seq::<Seq<u8>>::empty()
            };
            assert(old_list =~= l);
            assert(!l.contains(canister_id@));
            assert(history_add(m0, buyer@, canister_id@) == m0.insert(buyer@, l.push(canister_id@)));
            assert(typed_view::<IdList>(self.purchase_history) =~= m0.insert(
                buyer@,
                l.push(canister_id@),
            ));
            assert(self@ =~= (StateV {
                purchase_history: history_add(old(self)@.purchase_history, buyer@, canister_id@),
                ..old(self)@
            }));
        }
        Ok(())
    }
}

} // verus!
