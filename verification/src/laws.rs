//! The laws the service keeps, stated once and proved.
//!
//! Each proof function here states a property of the abstract transitions
//! and views that the operations' own contracts are written over, so a
//! reader sees the guarantee in one place instead of reassembling it from
//! the contracts.

use vstd::prelude::*;
use crate::state::{submit_transition, approve_transition, history_add, bump_u32, add_sat_u64};
use crate::typed::entries_match;
use crate::types::{TokenMetadata, TokenMetadataV, FaucetTokenRequest, RequestStatus, StoreValue};
use crate::identity::Identity;

verus! {

/// Uniqueness of token ownership: any faithful listing of the
/// one-token-per-user index names each identity at most once, so after any
/// sequence of provisioning attempts an identity is bound to at most one
/// resource.
pub proof fn lemma_user_token_index_unique(
    m: Map<Seq<u8>, Seq<u8>>,
    s: Seq<(Identity, Identity)>,
    i: Seq<u8>,
)
    requires
        entries_match::<Identity>(m, s),
    ensures
        forall|n1: int, n2: int|
            0 <= n1 < n2 < s.len() ==> !((#[trigger] s[n1].0@) == i && (#[trigger] s[n2].0@) == i),
{
}

/// Submitting a faucet request never lowers any identity's lifetime total
/// of tokens given: an existing record keeps its total exactly, and a fresh
/// record starts at zero.
pub proof fn lemma_submit_keeps_totals(
    m: Map<Seq<u8>, FaucetTokenRequest>,
    id: Seq<u8>,
    n: u32,
    j: Seq<u8>,
)
    ensures
        m.dom().contains(j) ==> submit_transition(m, id, n)[j].total_token_given
            == m[j].total_token_given,
        !m.dom().contains(j) && submit_transition(m, id, n).dom().contains(j) ==> submit_transition(
            m,
            id,
            n,
        )[j].total_token_given == 0,
{
}

/// A confirmed payout raises exactly the recipient's total, by the paid
/// amount (held at the numeric ceiling), and touches no other record: the
/// lifetime total is non-decreasing and grows only on a confirmed transfer.
pub proof fn lemma_approve_raises_total(
    m: Map<Seq<u8>, FaucetTokenRequest>,
    id: Seq<u8>,
    j: Seq<u8>,
)
    requires
        m.dom().contains(id),
    ensures
        approve_transition(m, id)[id].total_token_given >= m[id].total_token_given,
        approve_transition(m, id)[id].total_token_given == add_sat_u64(
            m[id].total_token_given,
            m[id].current_token_request as u64,
        ),
        j != id && m.dom().contains(j) ==> approve_transition(m, id)[j] == m[j],
{
}

/// Resubmitting before resolution replaces the asked amount and bumps the
/// request counter, leaving the lifetime total of tokens given untouched
/// and the record pending again.  Below the counter's numeric ceiling the
/// bump is exactly plus one; at the ceiling it is held there.
pub proof fn lemma_resubmission_replaces_current(
    m: Map<Seq<u8>, FaucetTokenRequest>,
    id: Seq<u8>,
    n: u32,
)
    requires
        m.dom().contains(id),
    ensures
        submit_transition(m, id, n)[id].current_token_request == n,
        submit_transition(m, id, n)[id].total_number_of_request == bump_u32(
            m[id].total_number_of_request,
        ),
        m[id].total_number_of_request < u32::MAX ==> submit_transition(m, id, n)[
            id].total_number_of_request == m[id].total_number_of_request + 1,
        submit_transition(m, id, n)[id].total_token_given == m[id].total_token_given,
        submit_transition(m, id, n)[id].status == RequestStatus::Pending,
{
}

/// A confirmed purchase never introduces a repetition: where no history in
/// the map repeats a resource id, none does after the append either.
pub proof fn lemma_history_add_keeps_distinct(
    m: Map<Seq<u8>, Seq<Seq<u8>>>,
    buyer: Seq<u8>,
    id: Seq<u8>,
    k: Seq<u8>,
)
    requires
        forall|j: Seq<u8>|
            #[trigger] m.dom().contains(j) ==> (forall|q1: int, q2: int|
                0 <= q1 < q2 < m[j].len() ==> m[j][q1] != m[j][q2]),
    ensures
        history_add(m, buyer, id).dom().contains(k) ==> (forall|q1: int, q2: int|
            0 <= q1 < q2 < history_add(m, buyer, id)[k].len() ==> history_add(m, buyer, id)[k][q1]
                != history_add(m, buyer, id)[k][q2]),
{
    let after = history_add(m, buyer, id);
    let l = if m.dom().contains(buyer) {
        m[buyer]
    } else {
        Seq::<Seq<u8>>::empty()
    };
    if !l.contains(id) && k == buyer && after.dom().contains(k) {
        assert forall|q1: int, q2: int| 0 <= q1 < q2 < after[k].len() implies after[k][q1]
            != after[k][q2] by {
            assert(after[k] == l.push(id));
            if q2 == l.len() as int {
                assert(!l.contains(id));
                assert(l[q1] != id);
            }
        }
    }
}

/// Round-trip law for token records: decoding what was encoded yields the
/// value back, for every well-formed record.
pub proof fn lemma_token_record_round_trip(v: TokenMetadataV)
    requires
        TokenMetadata::abs_wf(v),
    ensures
        TokenMetadata::dec(TokenMetadata::enc(v)) == Some(v),
{
    TokenMetadata::lemma_round_trip(v);
}

/// Round-trip law for faucet records: decoding what was encoded yields the
/// value back, for every record.
pub proof fn lemma_faucet_record_round_trip(v: FaucetTokenRequest)
    ensures
        FaucetTokenRequest::dec(FaucetTokenRequest::enc(v)) == Some(v),
{
    FaucetTokenRequest::lemma_round_trip(v);
}

} // verus!
