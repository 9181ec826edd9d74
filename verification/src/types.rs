//! The durable record types and their stable encodings.
//!
//! Each type the store keeps implements [`StoreValue`]: a spec-level
//! encoder and decoder over its abstract view, the proof that decoding
//! reads back what encoding wrote, and executable encode/decode proved
//! against the spec.

use vstd::prelude::*;
use vstd::bytes::{lemma_auto_spec_u32_to_from_le_bytes, lemma_auto_spec_u64_to_from_le_bytes};
use vstd::utf8::encode_utf8;
use crate::codec::{
    enc_u8, enc_u32, enc_u64, enc_bytes, enc_str, enc_opt_str, dec_u8, dec_u32, dec_u64, dec_bytes,
    dec_str, dec_opt_str, lemma_dec_u8, lemma_dec_u32, lemma_dec_u64, lemma_dec_bytes,
    lemma_dec_str, lemma_dec_opt_str, write_u8, write_u32, write_u64, write_bytes, write_str,
    write_opt_str, read_u8, read_u32, read_u64, read_bytes, read_str, read_opt_str, note_text_fits,
};
use crate::identity::{Identity, MAX_IDENTITY_LEN};

verus! {

/// A value the store can keep durably: encodable to stable bytes, decodable
/// back, with the round-trip proved for every well-formed value.
pub trait StoreValue: View + Sized {
    /// Well-formedness of the abstract value.
    spec fn abs_wf(v: Self::V) -> bool;

    /// The value's stable encoding.
    spec fn enc(v: Self::V) -> Seq<u8>;

    /// Decoding a buffer; nothing when the buffer does not carry a value.
    spec fn dec(b: Seq<u8>) -> Option<Self::V>;

    /// Decoding reads back exactly what encoding wrote.
    proof fn lemma_round_trip(v: Self::V)
        requires
            Self::abs_wf(v),
        ensures
            Self::dec(Self::enc(v)) == Some(v),
    ;

    /// Writes the value's encoding.
    fn encode(&self) -> (r: Vec<u8>)
        ensures
            r@ == Self::enc(self@),
    ;

    /// Reads a value back from a buffer.
    fn decode(b: &Vec<u8>) -> (r: Option<Self>)
        ensures
            match r {
                Some(v) => Self::dec(b@) == Some(v@),
                None => Self::dec(b@) is None,
            },
    ;

    /// Establishes that a value of this type, as it exists in the program,
    /// is well-formed: its identities are short by construction and its
    /// texts fit the encoding's length prefixes.
    fn note_wf(&self)
        ensures
            Self::abs_wf(self@),
    ;
}

// ---------------------------------------------------------------------------
// Identities as stored values (the one-token-per-user index stores one).
// ---------------------------------------------------------------------------
impl StoreValue for Identity {
    open spec fn abs_wf(v: Seq<u8>) -> bool {
        v.len() <= MAX_IDENTITY_LEN
    }

    open spec fn enc(v: Seq<u8>) -> Seq<u8> {
        enc_bytes(v)
    }

    open spec fn dec(b: Seq<u8>) -> Option<Seq<u8>> {
        match dec_bytes(b, 0) {
            Option::None => None,
            Option::Some((s, j)) => if s.len() <= MAX_IDENTITY_LEN {
                Some(s)
            } else {
                None
            },
        }
    }

    proof fn lemma_round_trip(v: Seq<u8>) {
        let b = Self::enc(v);
        lemma_auto_spec_u64_to_from_le_bytes();
        assert(b.subrange(0, b.len() as int) =~= b);
        lemma_dec_bytes(b, 0, v);
    }

    fn encode(&self) -> (r: Vec<u8>) {
        let mut out: Vec<u8> = Vec::new();
        write_bytes(&mut out, self.as_bytes());
        proof {
            assert(out@ =~= Self::enc(self@));
        }
        out
    }

    fn decode(b: &Vec<u8>) -> (r: Option<Self>) {
        match read_bytes(b, 0) {
            None => None,
            Some((v, j)) => {
                if v.len() <= MAX_IDENTITY_LEN {
                    match Identity::from_bytes(v) {
                        Some(id) => Some(id),
                        None => None,
                    }
                } else {
                    None
                }
            },
        }
    }

    fn note_wf(&self) {
        proof {
            use_type_invariant(self);
        }
    }
}

// ---------------------------------------------------------------------------
// Faucet requests
// ---------------------------------------------------------------------------
/// Where a faucet request stands.
#[derive(Clone, Copy, PartialEq, Eq, Structural, Debug)]
pub enum RequestStatus {
    Pending,
    Approved,
    Rejected,
}

/// The one-byte tag of a status.
pub open spec fn status_tag(s: RequestStatus) -> u8 {
    match s {
        RequestStatus::Pending => 0u8,
        RequestStatus::Approved => 1u8,
        RequestStatus::Rejected => 2u8,
    }
}

/// The status a tag denotes, if any.
pub open spec fn status_from_tag(t: u8) -> Option<RequestStatus> {
    if t == 0 {
        Some(RequestStatus::Pending)
    } else if t == 1 {
        Some(RequestStatus::Approved)
    } else if t == 2 {
        Some(RequestStatus::Rejected)
    } else {
        None
    }
}

pub open spec fn enc_status(s: RequestStatus) -> Seq<u8> {
    seq![status_tag(s)]
}

pub open spec fn dec_status(b: Seq<u8>, i: int) -> Option<(RequestStatus, int)> {
    match dec_u8(b, i) {
        Option::None => None,
        Option::Some((t, j)) => match status_from_tag(t) {
            Option::None => None,
            Option::Some(s) => Some((s, j)),
        },
    }
}

/// Appends a status tag.
pub fn write_status(out: &mut Vec<u8>, s: RequestStatus)
    ensures
        final(out)@ == old(out)@ + enc_status(s),
{
    let tag: u8 = match s {
        RequestStatus::Pending => 0u8,
        RequestStatus::Approved => 1u8,
        RequestStatus::Rejected => 2u8,
    };
    write_u8(out, tag);
}

/// Reads a status tag at `i`.
pub fn read_status(b: &Vec<u8>, i: usize) -> (r: Option<(RequestStatus, usize)>)
    ensures
        match r {
            Some((s, j)) => dec_status(b@, i as int) == Some((s, j as int)),
            None => dec_status(b@, i as int) is None,
        },
{
    match read_u8(b, i) {
        None => None,
        Some((t, j)) => {
            if t == 0 {
                Some((RequestStatus::Pending, j))
            } else if t == 1 {
                Some((RequestStatus::Approved, j))
            } else if t == 2 {
                Some((RequestStatus::Rejected, j))
            } else {
                None
            }
        },
    }
}

/// One identity's faucet record: the amount currently asked for, how many
/// requests it has made, how much it has been given in total, and where the
/// current request stands.
#[derive(Clone, Copy, PartialEq, Eq, Structural, Debug)]
pub struct FaucetTokenRequest {
    pub current_token_request: u32,
    pub total_number_of_request: u32,
    pub total_token_given: u64,
    pub status: RequestStatus,
}

impl View for FaucetTokenRequest {
    type V = FaucetTokenRequest;

    open spec fn view(&self) -> FaucetTokenRequest {
        *self
    }
}

impl StoreValue for FaucetTokenRequest {
    open spec fn abs_wf(v: FaucetTokenRequest) -> bool {
        true
    }

    open spec fn enc(v: FaucetTokenRequest) -> Seq<u8> {
        enc_u32(v.current_token_request) + enc_u32(v.total_number_of_request) + enc_u64(
            v.total_token_given,
        ) + enc_status(v.status)
    }

    open spec fn dec(b: Seq<u8>) -> Option<FaucetTokenRequest> {
        match dec_u32(b, 0) {
            Option::None => None,
            Option::Some((cur, i1)) => match dec_u32(b, i1) {
                Option::None => None,
                Option::Some((tot, i2)) => match dec_u64(b, i2) {
                    Option::None => None,
                    Option::Some((giv, i3)) => match dec_status(b, i3) {
                        Option::None => None,
                        Option::Some((st, i4)) => Some(
                            FaucetTokenRequest {
                                current_token_request: cur,
                                total_number_of_request: tot,
                                total_token_given: giv,
                                status: st,
                            },
                        ),
                    },
                },
            },
        }
    }

    proof fn lemma_round_trip(v: FaucetTokenRequest) {
        lemma_auto_spec_u32_to_from_le_bytes();
        lemma_auto_spec_u64_to_from_le_bytes();
        let e1 = enc_u32(v.current_token_request);
        let e2 = enc_u32(v.total_number_of_request);
        let e3 = enc_u64(v.total_token_given);
        let e4 = enc_status(v.status);
        let b = Self::enc(v);
        assert(e1.len() == 4 && e2.len() == 4 && e3.len() == 8 && e4.len() == 1);
        assert(b.subrange(0, 4) =~= e1);
        lemma_dec_u32(b, 0, v.current_token_request);
        assert(b.subrange(4, 8) =~= e2);
        lemma_dec_u32(b, 4, v.total_number_of_request);
        assert(b.subrange(8, 16) =~= e3);
        lemma_dec_u64(b, 8, v.total_token_given);
        assert(b.subrange(16, 17) =~= enc_u8(status_tag(v.status)));
        lemma_dec_u8(b, 16, status_tag(v.status));
    }

    fn encode(&self) -> (r: Vec<u8>) {
        let mut out: Vec<u8> = Vec::new();
        write_u32(&mut out, self.current_token_request);
        write_u32(&mut out, self.total_number_of_request);
        write_u64(&mut out, self.total_token_given);
        write_status(&mut out, self.status);
        proof {
            assert(out@ =~= Self::enc(self@));
        }
        out
    }

    fn decode(b: &Vec<u8>) -> (r: Option<Self>) {
        match read_u32(b, 0) {
            None => None,
            Some((cur, i1)) => match read_u32(b, i1) {
                None => None,
                Some((tot, i2)) => match read_u64(b, i2) {
                    None => None,
                    Some((giv, i3)) => match read_status(b, i3) {
                        None => None,
                        Some((st, i4)) => Some(
                            FaucetTokenRequest {
                                current_token_request: cur,
                                total_number_of_request: tot,
                                total_token_given: giv,
                                status: st,
                            },
                        ),
                    },
                },
            },
        }
    }

    fn note_wf(&self) {
    }
}

// ---------------------------------------------------------------------------
// Token records
// ---------------------------------------------------------------------------
/// The durable record of one provisioned token resource.  It carries the
/// token's per-unit price, which the purchase flow reads; supply is minted
/// on demand by the resource itself, so none is recorded here.
#[derive(Debug)]
pub struct TokenMetadata {
    pub name: String,
    pub symbol: String,
    pub decimals: u8,
    pub token_price: u64,
    pub owner: Identity,
    pub logo: Option<String>,
    pub created: u64,
}

/// The abstract form of a [`TokenMetadata`].
#[verifier::ext_equal]
pub struct TokenMetadataV {
    pub name: Seq<char>,
    pub symbol: Seq<char>,
    pub decimals: u8,
    pub token_price: u64,
    pub owner: Seq<u8>,
    pub logo: Option<Seq<char>>,
    pub created: u64,
}

impl View for TokenMetadata {
    type V = TokenMetadataV;

    open spec fn view(&self) -> TokenMetadataV {
        TokenMetadataV {
            name: self.name@,
            symbol: self.symbol@,
            decimals: self.decimals,
            token_price: self.token_price,
            owner: self.owner@,
            logo: match self.logo {
                Option::Some(ref s) => Some(s@),
                Option::None => None,
            },
            created: self.created,
        }
    }
}

impl StoreValue for TokenMetadata {
    open spec fn abs_wf(v: TokenMetadataV) -> bool {
        &&& v.owner.len() <= MAX_IDENTITY_LEN
        &&& encode_utf8(v.name).len() <= u64::MAX
        &&& encode_utf8(v.symbol).len() <= u64::MAX
        &&& (v.logo matches Some(s) ==> encode_utf8(s).len() <= u64::MAX)
    }

    open spec fn enc(v: TokenMetadataV) -> Seq<u8> {
        enc_str(v.name) + enc_str(v.symbol) + enc_u8(v.decimals) + enc_u64(v.token_price)
            + enc_bytes(v.owner) + enc_opt_str(v.logo) + enc_u64(v.created)
    }

    open spec fn dec(b: Seq<u8>) -> Option<TokenMetadataV> {
        match dec_str(b, 0) {
            Option::None => None,
            Option::Some((name, i1)) => match dec_str(b, i1) {
                Option::None => None,
                Option::Some((symbol, i2)) => match dec_u8(b, i2) {
                    Option::None => None,
                    Option::Some((decimals, i3)) => match dec_u64(b, i3) {
                        Option::None => None,
                        Option::Some((price, i4)) => match dec_bytes(b, i4) {
                            Option::None => None,
                            Option::Some((owner, i5)) => match dec_opt_str(b, i5) {
                                Option::None => None,
                                Option::Some((logo, i6)) => match dec_u64(b, i6) {
                                    Option::None => None,
                                    Option::Some((created, i7)) => if owner.len()
                                        <= MAX_IDENTITY_LEN {
                                        Some(
                                            TokenMetadataV {
                                                name,
                                                symbol,
                                                decimals,
                                                token_price: price,
                                                owner,
                                                logo,
                                                created,
                                            },
                                        )
                                    } else {
                                        None
                                    },
                                },
                            },
                        },
                    },
                },
            },
        }
    }

    proof fn lemma_round_trip(v: TokenMetadataV) {
        lemma_auto_spec_u64_to_from_le_bytes();
        let e1 = enc_str(v.name);
        let e2 = enc_str(v.symbol);
        let e3 = enc_u8(v.decimals);
        let e4 = enc_u64(v.token_price);
        let e5 = enc_bytes(v.owner);
        let e6 = enc_opt_str(v.logo);
        let e7 = enc_u64(v.created);
        let b = Self::enc(v);
        assert(e3.len() == 1 && e4.len() == 8 && e7.len() == 8);
        assert(e1.len() == 8 + encode_utf8(v.name).len());
        assert(e2.len() == 8 + encode_utf8(v.symbol).len());
        assert(e5.len() == 8 + v.owner.len());
        let o1 = e1.len() as int;
        let o2 = o1 + e2.len();
        let o3 = o2 + 1;
        let o4 = o3 + 8;
        let o5 = o4 + e5.len();
        let o6 = o5 + e6.len();
        let o7 = o6 + 8;
        assert(b.len() == o7);
        assert(b.subrange(0, o1) =~= e1);
        lemma_dec_str(b, 0, v.name);
        assert(b.subrange(o1, o2) =~= e2);
        lemma_dec_str(b, o1, v.symbol);
        assert(b.subrange(o2, o3) =~= e3);
        lemma_dec_u8(b, o2, v.decimals);
        assert(b.subrange(o3, o4) =~= e4);
        lemma_dec_u64(b, o3, v.token_price);
        assert(b.subrange(o4, o5) =~= e5);
        lemma_dec_bytes(b, o4, v.owner);
        assert(b.subrange(o5, o6) =~= e6);
        lemma_dec_opt_str(b, o5, v.logo);
        assert(b.subrange(o6, o7) =~= e7);
        lemma_dec_u64(b, o6, v.created);
        assert(Self::dec(b) matches Some(w) && w =~= v);
    }

    fn encode(&self) -> (r: Vec<u8>) {
        let mut out: Vec<u8> = Vec::new();
        write_str(&mut out, &self.name);
        write_str(&mut out, &self.symbol);
        write_u8(&mut out, self.decimals);
        write_u64(&mut out, self.token_price);
        write_bytes(&mut out, self.owner.as_bytes());
        write_opt_str(&mut out, &self.logo);
        write_u64(&mut out, self.created);
        proof {
            assert(out@ =~= Self::enc(self@));
        }
        out
    }

    fn decode(b: &Vec<u8>) -> (r: Option<Self>) {
        let r1 = read_str(b, 0);
        if r1.is_none() {
            return None;
        }
        let (name, i1) = r1.unwrap();
        let r2 = read_str(b, i1);
        if r2.is_none() {
            return None;
        }
        let (symbol, i2) = r2.unwrap();
        let r3 = read_u8(b, i2);
        if r3.is_none() {
            return None;
        }
        let (decimals, i3) = r3.unwrap();
        let r4 = read_u64(b, i3);
        if r4.is_none() {
            return None;
        }
        let (price, i4) = r4.unwrap();
        let r5 = read_bytes(b, i4);
        if r5.is_none() {
            return None;
        }
        let (owner_bytes, i5) = r5.unwrap();
        let r6 = read_opt_str(b, i5);
        if r6.is_none() {
            return None;
        }
        let (logo, i6) = r6.unwrap();
        let r7 = read_u64(b, i6);
        if r7.is_none() {
            return None;
        }
        let (created, i7) = r7.unwrap();
        if owner_bytes.len() > MAX_IDENTITY_LEN {
            return None;
        }
        match Identity::from_bytes(owner_bytes) {
            Some(owner) => Some(
                TokenMetadata {
                    name,
                    symbol,
                    decimals,
                    token_price: price,
                    owner,
                    logo,
                    created,
                },
            ),
            None => None,
        }
    }

    fn note_wf(&self) {
        note_text_fits(&self.name);
        note_text_fits(&self.symbol);
        match &self.logo {
            Some(s) => note_text_fits(s),
            None => (),
        }
        proof {
            use_type_invariant(&self.owner);
        }
    }
}

// ---------------------------------------------------------------------------
// Purchase histories: an ordered, deduplicated list of resource ids
// ---------------------------------------------------------------------------
/// The resource ids one identity has acquired, in acquisition order.
#[derive(Debug)]
pub struct IdList {
    pub ids: Vec<Identity>,
}

impl View for IdList {
    type V = Seq<Seq<u8>>;

    open spec fn view(&self) -> Seq<Seq<u8>> {
        self.ids@.map_values(|id: Identity| id@)
    }
}

/// The elements of an id list, one length-prefixed blob after another.
pub open spec fn enc_id_seq(l: Seq<Seq<u8>>) -> Seq<u8>
    decreases l.len(),
{
    if l.len() == 0 {
        Seq::empty()
    } else {
        enc_bytes(l[0]) + enc_id_seq(l.drop_first())
    }
}

/// Parses `n` id elements at `i`.
pub open spec fn dec_id_seq(b: Seq<u8>, i: int, n: nat) -> Option<(Seq<Seq<u8>>, int)>
    decreases n,
{
    if n == 0 {
        Some((Seq::empty(), i))
    } else {
        match dec_bytes(b, i) {
            Option::None => None,
            Option::Some((s, j)) => if s.len() <= MAX_IDENTITY_LEN {
                match dec_id_seq(b, j, (n - 1) as nat) {
                    Option::None => None,
                    Option::Some((rest, k)) => Some((seq![s] + rest, k)),
                }
            } else {
                None
            },
        }
    }
}

/// Appending one element extends the elements' encoding at the end.
pub proof fn lemma_enc_id_seq_push(l: Seq<Seq<u8>>, x: Seq<u8>)
    ensures
        enc_id_seq(l.push(x)) == enc_id_seq(l) + enc_bytes(x),
    decreases l.len(),
{
    if l.len() == 0 {
        assert(l.push(x)[0] == x);
        assert(l.push(x).drop_first() =~= Seq::<Seq<u8>>::empty());
        assert(enc_id_seq(l.push(x)) =~= enc_id_seq(l) + enc_bytes(x));
    } else {
        assert(l.push(x).drop_first() =~= l.drop_first().push(x));
        assert(l.push(x)[0] == l[0]);
        lemma_enc_id_seq_push(l.drop_first(), x);
        let a = enc_bytes(l[0]);
        let m = enc_id_seq(l.drop_first());
        let e = enc_bytes(x);
        assert(enc_id_seq(l.push(x)) == enc_bytes(l.push(x)[0]) + enc_id_seq(
            l.push(x).drop_first(),
        ));
        assert(enc_id_seq(l.push(x)) == a + (m + e));
        assert(a + (m + e) =~= (a + m) + e);
        assert(enc_id_seq(l.push(x)) =~= enc_id_seq(l) + enc_bytes(x));
    }
}

/// Parsing a buffer that carries the elements' encoding yields them back.
pub proof fn lemma_dec_id_seq(b: Seq<u8>, i: int, l: Seq<Seq<u8>>)
    requires
        0 <= i,
        forall|q: int| 0 <= q < l.len() ==> (#[trigger] l[q]).len() <= MAX_IDENTITY_LEN,
        i + enc_id_seq(l).len() <= b.len(),
        b.subrange(i, i + enc_id_seq(l).len() as int) == enc_id_seq(l),
    ensures
        dec_id_seq(b, i, l.len()) == Some((l, i + enc_id_seq(l).len() as int)),
    decreases l.len(),
{
    lemma_auto_spec_u64_to_from_le_bytes();
    if l.len() == 0 {
        assert(dec_id_seq(b, i, 0) == Some((Seq::<Seq<u8>>::empty(), i)));
        assert(l =~= Seq::<Seq<u8>>::empty());
    } else {
        let e0 = enc_bytes(l[0]);
        let rest = l.drop_first();
        let er = enc_id_seq(rest);
        assert(enc_id_seq(l) == e0 + er);
        assert(e0.len() == 8 + l[0].len());
        assert(b.subrange(i, i + e0.len() as int) =~= e0);
        lemma_dec_bytes(b, i, l[0]);
        let j = i + e0.len() as int;
        assert forall|q: int| 0 <= q < er.len() implies b[j + q] == er[q] by {
            assert(b.subrange(i, i + enc_id_seq(l).len() as int)[e0.len() + q] == er[q]);
        }
        assert(b.subrange(j, j + er.len() as int) =~= er);
        lemma_dec_id_seq(b, j, rest);
        assert(seq![l[0]] + rest =~= l);
    }
}

impl StoreValue for IdList {
    open spec fn abs_wf(v: Seq<Seq<u8>>) -> bool {
        &&& v.len() <= u64::MAX
        &&& forall|q: int| 0 <= q < v.len() ==> (#[trigger] v[q]).len() <= MAX_IDENTITY_LEN
    }

    open spec fn enc(v: Seq<Seq<u8>>) -> Seq<u8> {
        enc_u64(v.len() as u64) + enc_id_seq(v)
    }

    open spec fn dec(b: Seq<u8>) -> Option<Seq<Seq<u8>>> {
        match dec_u64(b, 0) {
            Option::None => None,
            Option::Some((n, i)) => match dec_id_seq(b, i, n as nat) {
                Option::None => None,
                Option::Some((l, j)) => Some(l),
            },
        }
    }

    proof fn lemma_round_trip(v: Seq<Seq<u8>>) {
        lemma_auto_spec_u64_to_from_le_bytes();
        let b = Self::enc(v);
        let e0 = enc_u64(v.len() as u64);
        assert(e0.len() == 8);
        assert(b.subrange(0, 8) =~= e0);
        lemma_dec_u64(b, 0, v.len() as u64);
        assert(b.subrange(8, b.len() as int) =~= enc_id_seq(v));
        lemma_dec_id_seq(b, 8, v);
    }

    fn encode(&self) -> (r: Vec<u8>) {
        let mut out: Vec<u8> = Vec::new();
        write_u64(&mut out, self.ids.len() as u64);
        let n = self.ids.len();
        let mut k: usize = 0;
        while k < n
            invariant
                n == self.ids@.len(),
                0 <= k <= n,
                out@ == enc_u64(n as u64) + enc_id_seq(self@.subrange(0, k as int)),
            decreases n - k,
        {
            proof {
                lemma_enc_id_seq_push(self@.subrange(0, k as int), self@[k as int]);
                assert(self@.subrange(0, k as int).push(self@[k as int]) =~= self@.subrange(
                    0,
                    k as int + 1,
                ));
            }
            write_bytes(&mut out, self.ids[k].as_bytes());
            k += 1;
        }
        proof {
            assert(self@.subrange(0, n as int) =~= self@);
            assert(out@ =~= Self::enc(self@));
        }
        out
    }

    fn decode(b: &Vec<u8>) -> (r: Option<Self>) {
        let r0 = read_u64(b, 0);
        if r0.is_none() {
            return None;
        }
        let (n, start) = r0.unwrap();
        let mut ids: Vec<Identity> = Vec::new();
        let mut cur: usize = start;
        let mut k: u64 = 0;
        while k < n
            invariant
                0 <= k <= n,
                dec_u64(b@, 0) == Some((n, start as int)),
                ids@.len() == k,
                ({
                    let acc = ids@.map_values(|id: Identity| id@);
                    match dec_id_seq(b@, cur as int, (n - k) as nat) {
                        Option::Some((rest, end)) => dec_id_seq(b@, start as int, n as nat)
                            == Some((acc + rest, end)),
                        Option::None => dec_id_seq(b@, start as int, n as nat) is None,
                    }
                }),
            decreases n - k,
        {
            let ghost acc0 = ids@.map_values(|id: Identity| id@);
            let re = read_bytes(b, cur);
            if re.is_none() {
                return None;
            }
            let (s, j) = re.unwrap();
            if s.len() > MAX_IDENTITY_LEN {
                return None;
            }
            match Identity::from_bytes(s) {
                Some(id) => {
                    ids.push(id);
                    proof {
                        assert(ids@.map_values(|id2: Identity| id2@) =~= acc0.push(
                            ids@[k as int]@,
                        ));
                        let d = dec_id_seq(b@, j as int, (n - k - 1) as nat);
                        if d is Some {
                            let rest2 = d->Some_0.0;
                            assert(acc0.push(ids@[k as int]@) + rest2 =~= acc0 + (seq![
                                ids@[k as int]@,
                            ] + rest2));
                        }
                    }
                    cur = j;
                },
                None => {
                    return None;
                },
            }
            k += 1;
        }
        proof {
            let acc = ids@.map_values(|id: Identity| id@);
            assert(dec_id_seq(b@, cur as int, 0) == Some((Seq::<Seq<u8>>::empty(), cur as int)));
            assert(acc + Seq::<Seq<u8>>::empty() =~= acc);
        }
        Some(IdList { ids })
    }

    fn note_wf(&self) {
        let n = self.ids.len();
        let mut k: usize = 0;
        while k < n
            invariant
                n == self.ids@.len(),
                0 <= k <= n,
                forall|q: int| 0 <= q < k ==> ((#[trigger] self.ids@[q])@).len()
                    <= MAX_IDENTITY_LEN,
            decreases n - k,
        {
            let idref = &self.ids[k];
            proof {
                use_type_invariant(idref);
            }
            k += 1;
        }
        proof {
            assert(usize::MAX <= u64::MAX);
            assert forall|q: int| 0 <= q < self@.len() implies (#[trigger] self@[q]).len()
                <= MAX_IDENTITY_LEN by {
                assert(self@[q] == self.ids@[q]@);
            }
        }
    }
}

} // verus!
