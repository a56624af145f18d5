use vstd::prelude::*;

verus! {

/// An authenticated caller identity: the 32 bytes of its public key.
#[derive(Clone, Copy, Debug, PartialEq, Eq, Hash)]
pub struct Principal {
    pub key: [u8; 32],
}

impl Principal {
    /// The identity with this public key.
    pub fn new(key: [u8; 32]) -> (p: Principal)
        ensures
            p.key == key,
    {
        Principal { key }
    }

    /// Whether two identities are the same key.
    pub fn same_as(&self, other: &Principal) -> (same: bool)
        ensures
            same == (*self == *other),
    {
        let mut i: usize = 0;
        while i < 32
            invariant
                i <= 32,
                forall|k: int| 0 <= k < i ==> self.key@[k] == other.key@[k],
            decreases 32 - i,
        {
            if self.key[i] != other.key[i] {
                return false;
            }
            i += 1;
        }
        assert(self.key =~= other.key);
        true
    }
}

} // verus!
