//! The paged persistent backing store.
//!
//! One process-wide memory is multiplexed into numbered partitions; each
//! partition carries one ordered map from raw key bytes to raw value bytes.
//! The maps themselves live in `ic_stable_structures`; this module declares
//! what that crate's calls do, over [`partition_contents`], and everything
//! above it is verified against those contracts.
//!
//! A partition's binding to its numeric tag must be the same across the
//! service's lifetime: the constructors take the tags once, at state
//! initialization, and nothing else hands them out.  One process builds
//! exactly one backing — on the deployment target every backing is a
//! handle to the process's single stable memory, so only a sole backing
//! whose tags are bound at most once keeps partitions disjoint.  Both
//! services of this crate bind their partitions, under distinct tags,
//! through the one backing the caller creates with [`process_backing`].

use vstd::prelude::*;
use ic_stable_structures::memory_manager::{MemoryId, MemoryManager, VirtualMemory};
use ic_stable_structures::{BTreeMap, DefaultMemoryImpl};

verus! {

/// One ordered byte-to-byte map of the backing store, bound to a fixed
/// partition tag.  Opaque to the verifier; its contents are named by
/// [`partition_contents`].
#[verifier::external_body]
pub struct Partition {
    inner: BTreeMap<Vec<u8>, Vec<u8>, VirtualMemory<DefaultMemoryImpl>>,
}

/// What a partition holds: a finite map from key bytes to value bytes.
pub uninterp spec fn partition_contents(p: Partition) -> Map<Seq<u8>, Seq<u8>>;

/// Byte-lexicographic strict order on keys: the order the partitions keep
/// their entries in, with a proper prefix before every extension of it.
pub open spec fn lex_lt(a: Seq<u8>, b: Seq<u8>) -> bool
    decreases a.len(),
{
    if a.len() == 0 {
        b.len() > 0
    } else if b.len() == 0 {
        false
    } else if a[0] != b[0] {
        a[0] < b[0]
    } else {
        lex_lt(a.drop_first(), b.drop_first())
    }
}

/// The contents of a partition that holds nothing yet.
pub open spec fn empty_contents() -> Map<Seq<u8>, Seq<u8>> {
    Map::empty()
}

/// The backing memory behind a store, together with the registry of
/// partition tags already bound to a map.  Opaque to the verifier; the
/// bound tags are named by [`backing_used`].
#[verifier::external_body]
pub struct Backing {
    inner: MemoryManager<DefaultMemoryImpl>,
    used: Vec<u8>,
}

/// Which partition tags of a backing are already bound to a map.
pub uninterp spec fn backing_used(b: Backing) -> Set<u8>;

/// Relies on `MemoryManager::init` over the default memory: the process's
/// paged backing -- fresh where the memory is new, re-attached where a
/// manager already lives in it -- with no partition tag bound by this value
/// yet.  On the deployment target the default memory is the process's one
/// stable memory, so a second backing in the same process would alias the
/// first: a backing is built exactly once per process.
#[verifier::external_body]
pub(crate) fn new_backing() -> (r: Backing)
    ensures
        backing_used(r) == Set::<u8>::empty(),
{
    Backing { inner: MemoryManager::init(DefaultMemoryImpl::default()), used: Vec::new() }
}

/// The process's one backing store.  Build it once at startup and bind
/// every partition of every service in the process through it, each under
/// its own tag.
pub fn process_backing() -> (r: Backing)
    ensures
        backing_used(r) == Set::<u8>::empty(),
{
    new_backing()
}

/// Relies on `MemoryManager::get` and `BTreeMap::new`: binds the given tag
/// to a new, empty ordered map over that tag's virtual memory, discarding
/// anything the memory held.  Each tag is bound at most once, which keeps
/// the partitions of one backing disjoint; tag 255 is the manager's own
/// reserved marker and cannot be bound.
#[verifier::external_body]
pub(crate) fn open_partition(b: &mut Backing, tag: u8) -> (r: Partition)
    requires
        !backing_used(*old(b)).contains(tag),
        tag != 255,
    ensures
        partition_contents(r) == empty_contents() && backing_used(*final(b)) == backing_used(
            *old(b),
        ).insert(tag),
{
    b.used.push(tag);
    Partition { inner: BTreeMap::new(b.inner.get(MemoryId::new(tag))) }
}

/// Relies on `MemoryManager::get` and `BTreeMap::init`: re-attaches the
/// ordered map persisted under the tag's virtual memory, or binds an empty
/// one where nothing was persisted.  What the map holds is whatever the
/// memory held -- only its finiteness is known; tag 255 is reserved, and
/// each tag is bound at most once.
#[verifier::external_body]
pub(crate) fn reopen_partition(b: &mut Backing, tag: u8) -> (r: Partition)
    requires
        !backing_used(*old(b)).contains(tag),
        tag != 255,
    ensures
        partition_contents(r).dom().finite() && backing_used(*final(b)) == backing_used(
            *old(b),
        ).insert(tag),
{
    b.used.push(tag);
    Partition { inner: BTreeMap::init(b.inner.get(MemoryId::new(tag))) }
}

impl Partition {
    /// Relies on `BTreeMap::get`: the value stored under the key, if any.
    #[verifier::external_body]
    pub(crate) fn get(&self, key: &Vec<u8>) -> (r: Option<Vec<u8>>)
        ensures
            match r {
                Some(v) => partition_contents(*self).contains_key(key@) && v@
                    == partition_contents(*self)[key@],
                None => !partition_contents(*self).contains_key(key@),
            },
    {
        self.inner.get(key)
    }

    /// Relies on `BTreeMap::contains_key`.
    #[verifier::external_body]
    pub(crate) fn contains_key(&self, key: &Vec<u8>) -> (r: bool)
        ensures
            r == partition_contents(*self).contains_key(key@),
    {
        self.inner.contains_key(key)
    }

    /// Relies on `BTreeMap::insert`: stores the value under the key and
    /// returns the value it replaces, if any.
    #[verifier::external_body]
    pub(crate) fn insert(&mut self, key: Vec<u8>, value: Vec<u8>) -> (r: Option<Vec<u8>>)
        ensures
            partition_contents(*final(self)) == partition_contents(*old(self)).insert(
                key@,
                value@,
            ),
            match r {
                Some(v) => partition_contents(*old(self)).contains_key(key@) && v@
                    == partition_contents(*old(self))[key@],
                None => !partition_contents(*old(self)).contains_key(key@),
            },
    {
        self.inner.insert(key, value)
    }

    /// Relies on `BTreeMap::remove`: drops the key's entry and returns the
    /// value it held, if any.
    #[verifier::external_body]
    pub(crate) fn remove(&mut self, key: &Vec<u8>) -> (r: Option<Vec<u8>>)
        ensures
            partition_contents(*final(self)) == partition_contents(*old(self)).remove(key@),
            match r {
                Some(v) => partition_contents(*old(self)).contains_key(key@) && v@
                    == partition_contents(*old(self))[key@],
                None => !partition_contents(*old(self)).contains_key(key@),
            },
    {
        self.inner.remove(key)
    }

    /// Relies on `BTreeMap::iter`: every entry of the map, each key once,
    /// sorted by key.
    #[verifier::external_body]
    pub(crate) fn entries(&self) -> (r: Vec<(Vec<u8>, Vec<u8>)>)
        ensures
            partition_contents(*self).dom().finite() ==> r@.len() == partition_contents(
                *self,
            ).dom().len(),
            forall|n: int|
                0 <= n < r@.len() ==> partition_contents(*self).contains_pair(
                    #[trigger] r@[n].0@,
                    r@[n].1@,
                ),
            forall|n: int, m: int| 0 <= n < m < r@.len() ==> lex_lt(r@[n].0@, r@[m].0@),
            forall|n: int, m: int| 0 <= n < m < r@.len() ==> r@[n].0@ != r@[m].0@,
            forall|k: Seq<u8>|
                partition_contents(*self).contains_key(k) ==> exists|n: int|
                    0 <= n < r@.len() && #[trigger] r@[n].0@ == k,
    {
        let mut out = Vec::new();
        for e in self.inner.iter() {
            out.push(e.into_pair());
        }
        out
    }
}

} // verus!
