//! Typed maps over raw partitions.
//!
//! A partition stores raw bytes; these operations give it a typed meaning:
//! keys are identity bytes, values go through a [`StoreValue`] codec.  The
//! invariant [`typed_inv`] says every stored entry decodes to a well-formed
//! value, and [`typed_view`] is the decoded map the contracts upstairs
//! speak about.  A fresh partition satisfies the invariant trivially; a
//! re-attached one earns it back through [`typed_revalidate`].

use vstd::prelude::*;
use crate::store::{Partition, partition_contents, lex_lt};
use crate::types::StoreValue;
use crate::identity::{Identity, MAX_IDENTITY_LEN, clone_bytes};

verus! {

/// Every entry of the partition decodes to a well-formed value under an
/// identity-sized key, and there are finitely many.
pub open spec fn typed_inv<T: StoreValue>(p: Partition) -> bool {
    let c = partition_contents(p);
    &&& c.dom().finite()
    &&& forall|k: Seq<u8>|
        #[trigger] c.dom().contains(k) ==> k.len() <= MAX_IDENTITY_LEN && exists|v: T::V|
            T::abs_wf(v) && T::dec(c[k]) == Some(v)
}

/// The decoded contents of the partition.
pub open spec fn typed_view<T: StoreValue>(p: Partition) -> Map<Seq<u8>, T::V> {
    Map::new(
        |k: Seq<u8>| partition_contents(p).dom().contains(k),
        |k: Seq<u8>| T::dec(partition_contents(p)[k])->Some_0,
    )
}

/// The stored value under an identity, if any.
pub fn typed_get<T: StoreValue>(p: &Partition, id: &Identity) -> (r: Option<T>)
    requires
        typed_inv::<T>(*p),
    ensures
        match r {
            Some(v) => typed_view::<T>(*p).contains_key(id@) && v@ == typed_view::<T>(*p)[id@]
                && T::abs_wf(v@),
            None => !typed_view::<T>(*p).contains_key(id@),
        },
{
    match p.get(id.as_bytes()) {
        None => None,
        Some(bytes) => {
            proof {
                let c = partition_contents(*p);
                let v0 = choose|v: T::V| T::abs_wf(v) && T::dec(c[id@]) == Some(v);
                assert(T::dec(bytes@) == Some(v0));
            }
            match T::decode(&bytes) {
                Some(v) => Some(v),
                None => None,
            }
        },
    }
}

/// Whether the identity has a stored value.
pub fn typed_contains<T: StoreValue>(p: &Partition, id: &Identity) -> (r: bool)
    requires
        typed_inv::<T>(*p),
    ensures
        r == typed_view::<T>(*p).contains_key(id@),
{
    p.contains_key(id.as_bytes())
}

/// Stores a value under an identity, returning the value it replaces.
pub fn typed_insert<T: StoreValue>(p: &mut Partition, id: &Identity, v: &T) -> (r: Option<T>)
    requires
        typed_inv::<T>(*old(p)),
        T::abs_wf(v@),
    ensures
        typed_inv::<T>(*final(p)),
        typed_view::<T>(*final(p)) == typed_view::<T>(*old(p)).insert(id@, v@),
        match r {
            Some(o) => typed_view::<T>(*old(p)).contains_key(id@) && o@ == typed_view::<T>(
                *old(p),
            )[id@],
            None => !typed_view::<T>(*old(p)).contains_key(id@),
        },
{
    proof {
        use_type_invariant(id);
        T::lemma_round_trip(v@);
    }
    let key = clone_bytes(id.as_bytes());
    let bytes = v.encode();
    let prev = p.insert(key, bytes);
    proof {
        let c0 = partition_contents(*old(p));
        let c1 = partition_contents(*p);
        assert(c1.dom() =~= c0.dom().insert(id@));
        assert forall|k: Seq<u8>| #[trigger] c1.dom().contains(k) implies k.len()
            <= MAX_IDENTITY_LEN && exists|w: T::V| T::abs_wf(w) && T::dec(c1[k]) == Some(w) by {
            if k == id@ {
                assert(T::abs_wf(v@) && T::dec(c1[k]) == Some(v@));
            } else {
                assert(c0.dom().contains(k));
                assert(c1[k] == c0[k]);
            }
        }
        assert(typed_view::<T>(*p) =~= typed_view::<T>(*old(p)).insert(id@, v@));
    }
    match prev {
        None => None,
        Some(ob) => {
            proof {
                let c0 = partition_contents(*old(p));
                let v0 = choose|w: T::V| T::abs_wf(w) && T::dec(c0[id@]) == Some(w);
                assert(T::dec(ob@) == Some(v0));
            }
            match T::decode(&ob) {
                Some(o) => Some(o),
                None => None,
            }
        },
    }
}

/// Drops an identity's entry, returning the value it held.
pub fn typed_remove<T: StoreValue>(p: &mut Partition, id: &Identity) -> (r: Option<T>)
    requires
        typed_inv::<T>(*old(p)),
    ensures
        typed_inv::<T>(*final(p)),
        typed_view::<T>(*final(p)) == typed_view::<T>(*old(p)).remove(id@),
        match r {
            Some(o) => typed_view::<T>(*old(p)).contains_key(id@) && o@ == typed_view::<T>(
                *old(p),
            )[id@],
            None => !typed_view::<T>(*old(p)).contains_key(id@),
        },
{
    let prev = p.remove(id.as_bytes());
    proof {
        let c0 = partition_contents(*old(p));
        let c1 = partition_contents(*p);
        assert(c1.dom() =~= c0.dom().remove(id@));
        assert forall|k: Seq<u8>| #[trigger] c1.dom().contains(k) implies k.len()
            <= MAX_IDENTITY_LEN && exists|w: T::V| T::abs_wf(w) && T::dec(c1[k]) == Some(w) by {
            assert(c0.dom().contains(k));
            assert(c1[k] == c0[k]);
        }
        assert(typed_view::<T>(*p) =~= typed_view::<T>(*old(p)).remove(id@));
    }
    match prev {
        None => None,
        Some(ob) => {
            proof {
                let c0 = partition_contents(*old(p));
                let v0 = choose|w: T::V| T::abs_wf(w) && T::dec(c0[id@]) == Some(w);
                assert(T::dec(ob@) == Some(v0));
            }
            match T::decode(&ob) {
                Some(o) => Some(o),
                None => None,
            }
        },
    }
}

/// Checks a re-attached partition entry by entry: the typed invariant
/// holds again exactly when every key is identity-sized and every value
/// decodes to a well-formed record.  A partition that fails the check does
/// not hold this format and cannot serve the store.
pub fn typed_revalidate<T: StoreValue>(p: &Partition) -> (r: bool)
    requires
        partition_contents(*p).dom().finite(),
    ensures
        r == typed_inv::<T>(*p),
{
    let raw = p.entries();
    let n = raw.len();
    let mut i: usize = 0;
    while i < n
        invariant
            n == raw@.len(),
            0 <= i <= n,
            forall|n0: int|
                0 <= n0 < raw@.len() ==> partition_contents(*p).contains_pair(
                    #[trigger] raw@[n0].0@,
                    raw@[n0].1@,
                ),
            forall|k: Seq<u8>|
                partition_contents(*p).contains_key(k) ==> exists|n0: int|
                    0 <= n0 < raw@.len() && #[trigger] raw@[n0].0@ == k,
            forall|j: int|
                0 <= j < i ==> ((#[trigger] raw@[j].0@).len() <= MAX_IDENTITY_LEN && exists|
                    v: T::V,
                |
                    T::abs_wf(v) && T::dec(raw@[j].1@) == Some(v)),
        decreases n - i,
    {
        let pair = &raw[i];
        proof {
            assert(partition_contents(*p).dom().contains(raw@[i as int].0@));
        }
        if pair.0.len() > MAX_IDENTITY_LEN {
            return false;
        }
        match T::decode(&pair.1) {
            None => {
                proof {
                    assert(partition_contents(*p)[raw@[i as int].0@] == raw@[i as int].1@);
                }
                return false;
            },
            Some(v) => {
                v.note_wf();
                proof {
                    assert(T::abs_wf(v@) && T::dec(raw@[i as int].1@) == Some(v@));
                }
            },
        }
        i += 1;
    }
    proof {
        assert forall|k: Seq<u8>| #[trigger] partition_contents(*p).dom().contains(k) implies
            k.len() <= MAX_IDENTITY_LEN && exists|v: T::V|
            T::abs_wf(v) && T::dec(partition_contents(*p)[k]) == Some(v) by {
            let n0 = choose|n0: int| 0 <= n0 < raw@.len() && #[trigger] raw@[n0].0@ == k;
            assert(partition_contents(*p).contains_pair(raw@[n0].0@, raw@[n0].1@));
        }
    }
    true
}

/// A listing of exactly the entries of `m`: every pair stored, the keys in
/// ascending byte order (so each key once), and every key of `m` present.
pub open spec fn entries_match<T: StoreValue>(m: Map<Seq<u8>, T::V>, s: Seq<(Identity, T)>) -> bool {
    &&& forall|n: int|
        0 <= n < s.len() ==> m.dom().contains(#[trigger] s[n].0@) && s[n].1@ == m[s[n].0@]
    &&& forall|n: int, q: int| 0 <= n < q < s.len() ==> lex_lt(s[n].0@, s[q].0@)
    &&& forall|n: int, q: int| 0 <= n < q < s.len() ==> s[n].0@ != s[q].0@
    &&& forall|k: Seq<u8>|
        m.dom().contains(k) ==> exists|n: int| 0 <= n < s.len() && #[trigger] s[n].0@ == k
}

/// Every entry, decoded: each stored identity exactly once, with its value.
pub fn typed_entries<T: StoreValue>(p: &Partition) -> (r: Vec<(Identity, T)>)
    requires
        typed_inv::<T>(*p),
    ensures
        entries_match::<T>(typed_view::<T>(*p), r@),
        r@.len() == typed_view::<T>(*p).dom().len(),
{
    proof {
        assert(typed_view::<T>(*p).dom() =~= partition_contents(*p).dom());
    }
    let raw = p.entries();
    let mut out: Vec<(Identity, T)> = Vec::new();
    let n = raw.len();
    let mut i: usize = 0;
    while i < n
        invariant
            typed_inv::<T>(*p),
            n == raw@.len(),
            0 <= i <= n,
            out@.len() == i,
            forall|n0: int|
                0 <= n0 < raw@.len() ==> partition_contents(*p).contains_pair(
                    #[trigger] raw@[n0].0@,
                    raw@[n0].1@,
                ),
            forall|n0: int, m0: int| 0 <= n0 < m0 < raw@.len() ==> lex_lt(raw@[n0].0@, raw@[m0].0@),
            forall|n0: int, m0: int| 0 <= n0 < m0 < raw@.len() ==> raw@[n0].0@ != raw@[m0].0@,
            forall|j: int|
                0 <= j < i ==> (#[trigger] out@[j].0@) == raw@[j].0@ && out@[j].1@
                    == typed_view::<T>(*p)[out@[j].0@],
        decreases n - i,
    {
        let pair = &raw[i];
        proof {
            let c = partition_contents(*p);
            assert(c.contains_pair(pair.0@, pair.1@));
            let v0 = choose|w: T::V| T::abs_wf(w) && T::dec(c[pair.0@]) == Some(w);
            assert(T::dec(pair.1@) == Some(v0));
        }
        let id_opt = Identity::from_bytes(clone_bytes(&pair.0));
        let val_opt = T::decode(&pair.1);
        match (id_opt, val_opt) {
            (Some(id), Some(v)) => {
                out.push((id, v));
            },
            _ => {
                proof {
                    assert(false);
                }
            },
        }
        i += 1;
    }
    proof {
        assert forall|k: Seq<u8>| typed_view::<T>(*p).contains_key(k) implies exists|n0: int|
            0 <= n0 < out@.len() && #[trigger] out@[n0].0@ == k by {
            let n0 = choose|n0: int| 0 <= n0 < raw@.len() && #[trigger] raw@[n0].0@ == k;
            assert(out@[n0].0@ == k);
        }
        assert(entries_match::<T>(typed_view::<T>(*p), out@));
    }
    out
}

} // verus!
