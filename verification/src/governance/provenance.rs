//! Checking who signed a commit.

use vstd::prelude::*;
use crate::governance::error::GitGovernanceError;
use crate::governance::types::{CommitData, CommitId, Finding, FindingCategory, FindingCode, Severity};

verus! {

/// What a trust store concluded about a signature.
pub struct TrustDecision {
    pub status: TrustStatus,
    pub fingerprint: Option<String>,
    pub signer: Option<String>,
    pub reason: Option<String>,
}

/// How a signature was judged.
#[derive(Debug, Clone, Copy, PartialEq, Eq, Structural)]
pub enum TrustStatus {
    Verified,
    ValidKey,
    Invalid,
    Missing,
}

/// Verifies commit signatures.
pub trait TrustStore: Send + Sync {
    /// `r` is an answer this store may give about the signature `sig` of
    /// commit `id` by `author`.
    spec fn judges(
        &self,
        id: Seq<char>,
        sig: Seq<u8>,
        author: Seq<char>,
        r: Result<TrustDecision, GitGovernanceError>,
    ) -> bool;

    fn verify_signature(
        &self,
        commit_id: &CommitId,
        signature: &[u8],
        author: &str,
    ) -> (r: Result<TrustDecision, GitGovernanceError>)
        ensures
            self.judges(commit_id.0@, signature@, author@, r),
    ;
}

/// A trust store that accepts any signature and reports missing ones.
pub struct NoOpTrustStore;

impl TrustStore for NoOpTrustStore {
    /// An empty signature is missing; any other is verified, with `stub` as
    /// fingerprint and signer.
    open spec fn judges(
        &self,
        id: Seq<char>,
        sig: Seq<u8>,
        author: Seq<char>,
        r: Result<TrustDecision, GitGovernanceError>,
    ) -> bool {
        if sig.len() == 0 {
            r matches Ok(d) && d.status == TrustStatus::Missing && d.fingerprint is None
                && d.signer is None && d.reason is None
        } else {
            r matches Ok(d) && d.status == TrustStatus::Verified && (d.fingerprint matches Some(f)
                && f@ == "stub"@) && (d.signer matches Some(n) && n@ == "stub"@) && d.reason is None
        }
    }

    fn verify_signature(
        &self,
        _commit_id: &CommitId,
        signature: &[u8],
        _author: &str,
    ) -> (r: Result<TrustDecision, GitGovernanceError>)
    {
        if signature.len() == 0 {
            Ok(TrustDecision { status: TrustStatus::Missing, fingerprint: None, signer: None, reason: None })
        } else {
            Ok(
                TrustDecision {
                    status: TrustStatus::Verified,
                    fingerprint: Some(String::from_str("stub")),
                    signer: Some(String::from_str("stub")),
                    reason: None,
                },
            )
        }
    }
}

/// A provenance finding of this severity and code.
pub open spec fn provenance_finding(severity: Severity, code: FindingCode) -> Finding {
    Finding {
        severity,
        category: FindingCategory::ProvenanceFailure,
        code,
        file_path: None,
        line_number: None,
    }
}

/// The findings a trust status yields: none for a trusted signature; a
/// warning about an untrusted key, or an error for a missing signature, when
/// signatures are required; an error for an invalid signature.
pub open spec fn status_findings(status: TrustStatus, require_signed: bool) -> Seq<Finding> {
    match status {
        TrustStatus::Verified => Seq::empty(),
        TrustStatus::ValidKey => if require_signed {
            seq![provenance_finding(Severity::Warning, FindingCode::UntrustedKey)]
        } else {
            Seq::empty()
        },
        TrustStatus::Invalid => seq![provenance_finding(Severity::Error, FindingCode::InvalidSignature)],
        TrustStatus::Missing => if require_signed {
            seq![provenance_finding(Severity::Error, FindingCode::UnsignedCommit)]
        } else {
            Seq::empty()
        },
    }
}

/// The findings are those for the trust store's outcome: the status's
/// findings, or one error finding whose code carries the error's text.
pub open spec fn outcome_findings(
    outcome: Result<TrustDecision, GitGovernanceError>,
    require_signed: bool,
    r: Seq<Finding>,
) -> bool {
    match outcome {
        Ok(d) => r == status_findings(d.status, require_signed),
        Err(e) => {
            &&& r.len() == 1
            &&& r[0].severity == Severity::Error
            &&& r[0].category == FindingCategory::ProvenanceFailure
            &&& r[0].file_path is None
            &&& r[0].line_number is None
            &&& r[0].code matches FindingCode::Other(m) && (e is InvalidPattern ==> m@ == "Invalid pattern"@)
                && (e is GitError ==> m@.len() >= "Git error: "@.len() && m@.subrange(
                0,
                "Git error: "@.len() as int,
            ) == "Git error: "@)
        },
    }
}

/// The signature bytes of a commit; empty when it has none.
pub open spec fn signature_bytes(c: CommitData) -> Seq<u8> {
    match c.raw_signature {
        Some(s) => s@,
        None => Seq::empty(),
    }
}

/// Checks commit signatures against a trust store.
pub struct ProvenanceVerifier<T: TrustStore> {
    trust_store: T,
    require_signed: bool,
}

impl<T: TrustStore> ProvenanceVerifier<T> {
    /// Whether unsigned commits and untrusted keys are reported.
    pub closed spec fn requires_signed(&self) -> bool {
        self.require_signed
    }

    /// The trust store asked about signatures.
    pub closed spec fn store(&self) -> T {
        self.trust_store
    }

    /// A verifier over this trust store.
    pub fn new(trust_store: T, require_signed: bool) -> (v: Self)
        ensures
            v.requires_signed() == require_signed,
            v.store() == trust_store,
    {
        ProvenanceVerifier { trust_store, require_signed }
    }

    /// The findings for a trust store's outcome (see `outcome_findings`).
    pub fn findings_for(
        result: Result<TrustDecision, GitGovernanceError>,
        require_signed: bool,
    ) -> (r: Vec<Finding>)
        ensures
            outcome_findings(result, require_signed, r@),
    {
        match result {
            Ok(decision) => {
                let st = decision.status;
                let r: Vec<Finding> = match st {
                TrustStatus::Verified => Vec::new(),
                TrustStatus::ValidKey => {
                    if require_signed {
                        vec![
                            Finding {
                                severity: Severity::Warning,
                                category: FindingCategory::ProvenanceFailure,
                                code: FindingCode::UntrustedKey,
                                file_path: None,
                                line_number: None,
                            },
                        ]
                    } else {
                        Vec::new()
                    }
                },
                TrustStatus::Invalid => {
                    vec![
                        Finding {
                            severity: Severity::Error,
                            category: FindingCategory::ProvenanceFailure,
                            code: FindingCode::InvalidSignature,
                            file_path: None,
                            line_number: None,
                        },
                    ]
                },
                TrustStatus::Missing => {
                    if require_signed {
                        vec![
                            Finding {
                                severity: Severity::Error,
                                category: FindingCategory::ProvenanceFailure,
                                code: FindingCode::UnsignedCommit,
                                file_path: None,
                                line_number: None,
                            },
                        ]
                    } else {
                        Vec::new()
                    }
                },
                };
                assert(r@ =~= status_findings(st, require_signed));
                r
            },
            Err(e) => {
                let m = e.to_string();
                vec![
                    Finding {
                        severity: Severity::Error,
                        category: FindingCategory::ProvenanceFailure,
                        code: FindingCode::Other(m),
                        file_path: None,
                        line_number: None,
                    },
                ]
            },
        }
    }

    /// Asks the trust store about the commit's signature (empty when the
    /// commit has none) and reports the findings for its outcome.
    pub fn verify(&self, commit: &CommitData) -> (r: Vec<Finding>)
        ensures
            exists|o: Result<TrustDecision, GitGovernanceError>|
                #![trigger outcome_findings(o, self.requires_signed(), r@)]
                self.store().judges(
                    commit.metadata.oid@,
                    signature_bytes(*commit),
                    commit.metadata.author@,
                    o,
                ) && outcome_findings(o, self.requires_signed(), r@),
    {
        let empty: Vec<u8> = Vec::new();
        let signature: &[u8] = match &commit.raw_signature {
            Some(s) => s.as_slice(),
            None => empty.as_slice(),
        };
        let id = CommitId(commit.metadata.oid.clone());
        let result = self.trust_store.verify_signature(&id, signature, commit.metadata.author.as_str());
        let ghost o = result;
        let r = Self::findings_for(result, self.require_signed);
        assert(outcome_findings(o, self.requires_signed(), r@));
        r
    }
}

/// An invalid signature is always reported, as exactly one error finding with
/// code `InvalidSignature`, whether or not signed commits are required: the
/// findings for an `Invalid` verdict are the same under both settings.
pub proof fn law_invalid_signature_always_reported(
    d: TrustDecision,
    require_signed: bool,
    r: Seq<Finding>,
    r2: Seq<Finding>,
)
    requires
        d.status == TrustStatus::Invalid,
        outcome_findings(Ok(d), require_signed, r),
        outcome_findings(Ok(d), !require_signed, r2),
    ensures
        r.len() == 1,
        r[0] == (Finding {
            severity: Severity::Error,
            category: FindingCategory::ProvenanceFailure,
            code: FindingCode::InvalidSignature,
            file_path: None,
            line_number: None,
        }),
        r == r2,
{
}

/// What each verdict yields: nothing for a trusted signature; for an
/// untrusted key, one warning (`UntrustedKey`) exactly when signed commits are
/// required; for a missing signature, one error (`UnsignedCommit`) exactly
/// when signed commits are required. Every finding is a provenance failure
/// with no file and no line.
pub proof fn law_status_findings(d: TrustDecision, require_signed: bool, r: Seq<Finding>)
    requires
        outcome_findings(Ok(d), require_signed, r),
    ensures
        d.status == TrustStatus::Verified ==> r.len() == 0,
        d.status == TrustStatus::ValidKey ==> (if require_signed {
            r.len() == 1 && r[0] == (Finding {
                severity: Severity::Warning,
                category: FindingCategory::ProvenanceFailure,
                code: FindingCode::UntrustedKey,
                file_path: None,
                line_number: None,
            })
        } else {
            r.len() == 0
        }),
        d.status == TrustStatus::Missing ==> (if require_signed {
            r.len() == 1 && r[0] == (Finding {
                severity: Severity::Error,
                category: FindingCategory::ProvenanceFailure,
                code: FindingCode::UnsignedCommit,
                file_path: None,
                line_number: None,
            })
        } else {
            r.len() == 0
        }),
        forall|i: int|
            0 <= i < r.len() ==> #[trigger] r[i].category == FindingCategory::ProvenanceFailure
                && r[i].file_path is None && r[i].line_number is None,
{
}

} // verus!
