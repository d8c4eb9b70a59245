//! The security identity (owner SID) of a process, as an opaque comparable
//! value.
use vstd::prelude::*;

verus! {

/// The revision that every security identifier carries in its first byte.
pub const SID_REVISION: u8 = 1;

/// The largest number of sub-authorities a security identifier may hold.
pub const SID_MAX_SUB_AUTHORITIES: u8 = 15;

/// Whether `bytes` is a whole security identifier: revision, sub-authority
/// count, six bytes of identifier authority, then four bytes for each
/// sub-authority, and nothing more.
pub open spec fn is_sid(bytes: Seq<u8>) -> bool {
    &&& bytes.len() >= 8
    &&& bytes[0] == SID_REVISION
    &&& bytes[1] <= SID_MAX_SUB_AUTHORITIES
    &&& bytes.len() == 8 + 4 * bytes[1]
}

/// The owning principal of a process: the bytes of a well-formed security
/// identifier.
pub struct ProcessIdentity {
    sid: Vec<u8>,
}

impl View for ProcessIdentity {
    type V = Seq<u8>;

    closed spec fn view(&self) -> Seq<u8> {
        self.sid@
    }
}

impl ProcessIdentity {
    #[verifier::type_invariant]
    closed spec fn inv(self) -> bool {
        is_sid(self.sid@)
    }

    /// Takes the bytes of a security identifier; `None` where they are not a
    /// whole, well-formed one.
    pub fn from_sid_bytes(bytes: Vec<u8>) -> (r: Option<ProcessIdentity>)
        ensures
            r.is_some() == is_sid(bytes@),
            r matches Some(id) ==> id@ == bytes@,
    {
        if bytes.len() < 8 || bytes[0] != SID_REVISION || bytes[1] > SID_MAX_SUB_AUTHORITIES {
            return None;
        }
        if bytes.len() != 8 + 4 * (bytes[1] as usize) {
            return None;
        }
        Some(ProcessIdentity { sid: bytes })
    }

    /// Whether two identities denote the same principal: their security
    /// identifiers are equal byte for byte.
    pub fn same_principal(&self, other: &ProcessIdentity) -> (r: bool)
        ensures
            r == (self@ == other@),
    {
        let a = &self.sid;
        let b = &other.sid;
        if a.len() != b.len() {
            return false;
        }
        let mut i: usize = 0;
        while i < a.len()
            invariant
                a@.len() == b@.len(),
                i <= a@.len(),
                a@ == self@,
                b@ == other@,
                a@.take(i as int) == b@.take(i as int),
            decreases a@.len() - i,
        {
            if a[i] != b[i] {
                assert(a@[i as int] != b@[i as int]);
                return false;
            }
            assert(a@.take(i + 1) =~= a@.take(i as int).push(a@[i as int]));
            assert(b@.take(i + 1) =~= b@.take(i as int).push(b@[i as int]));
            i = i + 1;
        }
        assert(a@ =~= a@.take(a@.len() as int));
        assert(b@ =~= b@.take(b@.len() as int));
        true
    }
}

} // verus!
