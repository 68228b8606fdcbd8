//! Account identities.

use crate::store::Key;
use vstd::prelude::*;

verus! {

/// The identity of an account: 32 opaque bytes that the host has authenticated.
#[derive(Clone, Copy, Debug, PartialEq, Eq)]
pub struct AccountId {
    pub bytes: [u8; 32],
}

impl AccountId {
    /// Wraps the 32 bytes of an identity.
    pub fn new(bytes: [u8; 32]) -> (id: AccountId)
        ensures
            id.bytes == bytes,
    {
        AccountId { bytes }
    }

    /// Whether two identities are the same account.
    pub fn same(&self, other: &AccountId) -> (same: bool)
        ensures
            same == (*self == *other),
    {
        let mut i: usize = 0;
        while i < 32
            invariant
                i <= 32,
                forall|j: int| 0 <= j < i ==> self.bytes@[j] == other.bytes@[j],
            decreases 32 - i,
        {
            if self.bytes[i] != other.bytes[i] {
                return false;
            }
            i = i + 1;
        }
        assert(self.bytes@ =~= other.bytes@);
        assert(self.bytes == other.bytes);
        true
    }
}

impl Key for AccountId {
    fn key_eq(&self, other: &Self) -> (same: bool) {
        self.same(other)
    }
}

} // verus!
