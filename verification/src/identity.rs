//! Opaque actor references.
//!
//! An [`Identity`] stands for a caller, an owner, or a created resource: an
//! opaque blob of at most 29 bytes, as the platform's principals are.  The
//! anonymous identity is the single byte `0x04`; the management identity is
//! the empty blob.

use vstd::prelude::*;

verus! {

/// The largest number of bytes an identity may hold.
pub const MAX_IDENTITY_LEN: usize = 29;

/// An opaque, globally unique actor reference, used as a map key throughout.
#[derive(Debug)]
pub struct Identity {
    bytes: Vec<u8>,
}

impl View for Identity {
    type V = Seq<u8>;

    closed spec fn view(&self) -> Seq<u8> {
        self.bytes@
    }
}

/// The byte form of the anonymous (unauthenticated) identity.
pub open spec fn anonymous_bytes() -> Seq<u8> {
    seq![4u8]
}

impl Identity {
    /// Well-formed: short enough to be a principal.
    pub open spec fn wf(&self) -> bool {
        self@.len() <= MAX_IDENTITY_LEN
    }

    /// Every identity value is well-formed.
    #[verifier::type_invariant]
    pub open spec fn type_wf(self) -> bool {
        self.wf()
    }

    /// Builds an identity from its raw bytes; rejects blobs that are too long.
    pub fn from_bytes(bytes: Vec<u8>) -> (r: Option<Identity>)
        ensures
            match r {
                Some(id) => id@ == bytes@ && id.wf(),
                None => bytes@.len() > MAX_IDENTITY_LEN,
            },
    {
        if bytes.len() <= MAX_IDENTITY_LEN {
            Some(Identity { bytes })
        } else {
            None
        }
    }

    /// The raw bytes of the identity.
    pub fn as_bytes(&self) -> (r: &Vec<u8>)
        ensures
            r@ == self@,
    {
        &self.bytes
    }

    /// The anonymous (unauthenticated) identity.
    pub fn anonymous() -> (r: Identity)
        ensures
            r@ == anonymous_bytes(),
            r.wf(),
    {
        let mut bytes: Vec<u8> = Vec::new();
        bytes.push(4u8);
        proof {
            assert(bytes@ =~= anonymous_bytes());
        }
        Identity { bytes }
    }

    /// The management identity: the empty blob.
    pub fn management() -> (r: Identity)
        ensures
            r@ == Seq::<u8>::empty(),
            r.wf(),
    {
        let bytes: Vec<u8> = Vec::new();
        proof {
            assert(bytes@ =~= Seq::<u8>::empty());
        }
        Identity { bytes }
    }

    /// True exactly when this is the anonymous identity.
    pub fn is_anonymous(&self) -> (r: bool)
        ensures
            r == (self@ == anonymous_bytes()),
    {
        if self.bytes.len() == 1 {
            let b = self.bytes[0];
            proof {
                if b == 4u8 {
                    assert(self@ =~= anonymous_bytes());
                }
                if self@ == anonymous_bytes() {
                    assert(self@[0] == 4u8);
                }
            }
            b == 4u8
        } else {
            proof {
                assert(self@ != anonymous_bytes()) by {
                    assert(anonymous_bytes().len() == 1);
                }
            }
            false
        }
    }

    /// Byte-for-byte equality of two identities.
    pub fn same_as(&self, other: &Identity) -> (r: bool)
        ensures
            r == (self@ == other@),
    {
        bytes_eq(&self.bytes, &other.bytes)
    }
}

impl Clone for Identity {
    fn clone(&self) -> (r: Self)
        ensures
            r@ == self@,
    {
        proof {
            use_type_invariant(self);
        }
        Identity { bytes: clone_bytes(&self.bytes) }
    }
}

/// Byte-for-byte equality of two byte vectors.
pub fn bytes_eq(a: &Vec<u8>, b: &Vec<u8>) -> (r: bool)
    ensures
        r == (a@ == b@),
{
    if a.len() != b.len() {
        proof {
            assert(a@ != b@) by {
                assert(a@.len() != b@.len());
            }
        }
        return false;
    }
    let n = a.len();
    let mut i: usize = 0;
    while i < n
        invariant
            n == a@.len() == b@.len(),
            0 <= i <= n,
            forall|j: int| 0 <= j < i ==> a@[j] == b@[j],
        decreases n - i,
    {
        if a[i] != b[i] {
            return false;
        }
        i += 1;
    }
    proof {
        assert(a@ =~= b@);
    }
    true
}

/// A copy of a byte vector.
pub fn clone_bytes(a: &Vec<u8>) -> (r: Vec<u8>)
    ensures
        r@ == a@,
{
    let n = a.len();
    let mut out: Vec<u8> = Vec::new();
    let mut i: usize = 0;
    while i < n
        invariant
            n == a@.len(),
            0 <= i <= n,
            out@ =~= a@.subrange(0, i as int),
        decreases n - i,
    {
        out.push(a[i]);
        i += 1;
    }
    proof {
        assert(out@ =~= a@);
    }
    out
}

} // verus!
