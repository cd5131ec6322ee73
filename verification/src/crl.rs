//! Certificate revocation list bundles.

use vstd::prelude::*;

verus! {

/// A revocation list snapshot: its epoch, how many identifiers it revokes,
/// the root of its sparse Merkle tree and a proof path.
#[derive(Debug, Clone)]
pub struct CrlBundle {
    pub epoch: u64,
    pub revoked_count: u64,
    pub root_hash: [u8; 32],
    pub sparse_proof: Vec<[u8; 32]>,
}

/// Why a revocation list could not be used.
#[derive(Debug, Clone, Copy, PartialEq, Eq, Structural)]
pub enum CrlError {
    InvalidProof,
}

impl CrlError {
    /// The display text of the error.
    pub fn to_string(&self) -> (s: String)
        ensures
            s@ == "invalid CRL proof"@,
    {
        match self {
            CrlError::InvalidProof => String::from_str("invalid CRL proof"),
        }
    }
}

} // verus!
