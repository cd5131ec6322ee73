//! Trust stores for GPG and SSH signatures.

use vstd::prelude::*;
use crate::governance::error::GitGovernanceError;
use crate::governance::provenance::{TrustDecision, TrustStatus, TrustStore};
use crate::governance::types::CommitId;

verus! {

/// A GPG trust store; it verifies every signature.
pub struct GpgTrustStore;

impl TrustStore for GpgTrustStore {
    /// Every signature is verified, with no fingerprint, signer or reason.
    open spec fn judges(
        &self,
        id: Seq<char>,
        sig: Seq<u8>,
        author: Seq<char>,
        r: Result<TrustDecision, GitGovernanceError>,
    ) -> bool {
        r matches Ok(d) && d.status == TrustStatus::Verified && d.fingerprint is None
            && d.signer is None && d.reason is None
    }

    fn verify_signature(
        &self,
        _commit_id: &CommitId,
        _signature: &[u8],
        _author: &str,
    ) -> (r: Result<TrustDecision, GitGovernanceError>)
    {
        Ok(TrustDecision { status: TrustStatus::Verified, fingerprint: None, signer: None, reason: None })
    }
}

/// An SSH trust store; it verifies every signature.
pub struct SshTrustStore;

impl TrustStore for SshTrustStore {
    /// Every signature is verified, with no fingerprint, signer or reason.
    open spec fn judges(
        &self,
        id: Seq<char>,
        sig: Seq<u8>,
        author: Seq<char>,
        r: Result<TrustDecision, GitGovernanceError>,
    ) -> bool {
        r matches Ok(d) && d.status == TrustStatus::Verified && d.fingerprint is None
            && d.signer is None && d.reason is None
    }

    fn verify_signature(
        &self,
        _commit_id: &CommitId,
        _signature: &[u8],
        _author: &str,
    ) -> (r: Result<TrustDecision, GitGovernanceError>)
    {
        Ok(TrustDecision { status: TrustStatus::Verified, fingerprint: None, signer: None, reason: None })
    }
}

} // verus!
