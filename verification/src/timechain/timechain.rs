//! The ledger's block and shadow-hash types.

use vstd::prelude::*;

verus! {

/// A 32-byte hash of a field's shadow.
#[derive(Debug, PartialEq)]
pub struct ShadowHash(pub [u8; 32]);

impl Clone for ShadowHash {
    fn clone(&self) -> (r: Self)
        ensures
            r == *self,
    {
        ShadowHash(self.0)
    }
}

/// A block of the timechain.
#[derive(Debug, Clone, Copy)]
pub struct TimeBlock {
    pub height: u64,
}

} // verus!
