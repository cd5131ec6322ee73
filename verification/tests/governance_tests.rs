use arkhe::governance::altai::{AltaiCriterion, AltaiCriterionEvaluator, AltaiCriterionResult};
use arkhe::governance::evidence::{CanonicalHasher, EvidenceBuilder};
use arkhe::governance::evidence_store::InMemoryEvidenceStore;
use arkhe::governance::git_adapter::GitAdapter;
use arkhe::governance::orchestrator::{CommitEvaluator, GovernanceConfig};
use arkhe::governance::pattern::PatternEngine;
use arkhe::governance::policy::{PolicyEngine, ThresholdPolicy};
use arkhe::governance::provenance::{NoOpTrustStore, ProvenanceVerifier, TrustDecision, TrustStatus};
use arkhe::governance::error::GitGovernanceError;
use arkhe::governance::types::{
    CanonicalFormatVersion, CommitData, CommitId, CommitMetadata, DiffFile, Finding,
    FindingCategory, FindingCode, GovernanceDecision, PolicyVersion, Severity,
};

fn finding(sev: Severity, cat: FindingCategory, code: FindingCode, path: Option<&str>, line: Option<usize>) -> Finding {
    Finding { severity: sev, category: cat, code, file_path: path.map(|p| p.to_string()), line_number: line }
}

fn commit(diff: Vec<DiffFile>, sig: Option<Vec<u8>>) -> CommitData {
    CommitData {
        metadata: CommitMetadata {
            oid: "abc".to_string(),
            author: "a".to_string(),
            email: "a@x".to_string(),
            message: "m".to_string(),
            parent_oids: vec![],
        },
        diff,
        raw_signature: sig,
    }
}

fn file(path: &str, binary: bool, size: usize) -> DiffFile {
    DiffFile {
        path: path.to_string(),
        is_binary: binary,
        size,
        insertions: 0,
        deletions: 0,
        is_rename: false,
        old_path: None,
        mode_changed: false,
        submodule_change: false,
    }
}

#[test]
fn threshold_policy_decisions() {
    let p = ThresholdPolicy::new(7000);
    let secret = finding(Severity::Info, FindingCategory::SecretLeak, FindingCode::LargeBinary, None, None);
    let critical = finding(Severity::Critical, FindingCategory::PolicyViolation, FindingCode::LargeBinary, None, None);
    let error = finding(Severity::Error, FindingCategory::PolicyViolation, FindingCode::LargeBinary, None, None);
    assert_eq!(p.decide(&[secret], 9999), GovernanceDecision::Deny);
    assert_eq!(p.decide(&[critical], 9999), GovernanceDecision::Deny);
    assert_eq!(p.decide(&[], 6999), GovernanceDecision::NeedsReview);
    let six: Vec<Finding> = (0..6).map(|_| error.clone()).collect();
    assert_eq!(p.decide(&six, 9000), GovernanceDecision::Quarantine);
    assert_eq!(p.decide(&[error.clone()], 9000), GovernanceDecision::NeedsReview);
    assert_eq!(p.decide(&[], 7999), GovernanceDecision::NeedsReview);
    assert_eq!(p.decide(&[], 8000), GovernanceDecision::Allow);
    let high = ThresholdPolicy::new(u32::MAX);
    assert_eq!(high.decide(&[], u32::MAX), GovernanceDecision::NeedsReview);
}

#[test]
fn large_binaries_are_reported() {
    let e = PatternEngine::new(vec![]);
    let c = commit(
        vec![file("a.bin", true, 10_000_001), file("b.bin", true, 10_000_000), file("c.txt", false, 20_000_000)],
        None,
    );
    let f = e.check_commit(&c);
    assert_eq!(f.len(), 1);
    assert_eq!(
        f[0],
        finding(Severity::Warning, FindingCategory::SecurityVulnerability, FindingCode::LargeBinary, Some("a.bin"), None)
    );
}

#[test]
fn provenance_findings() {
    let v = ProvenanceVerifier::new(NoOpTrustStore, true);
    let unsigned = v.verify(&commit(vec![], None));
    assert_eq!(unsigned.len(), 1);
    assert_eq!(unsigned[0].code, FindingCode::UnsignedCommit);
    assert_eq!(unsigned[0].severity, Severity::Error);
    assert!(v.verify(&commit(vec![], Some(vec![1]))).is_empty());
    let lax = ProvenanceVerifier::new(NoOpTrustStore, false);
    assert!(lax.verify(&commit(vec![], None)).is_empty());
    let untrusted = ProvenanceVerifier::<NoOpTrustStore>::findings_for(
        Ok(TrustDecision { status: TrustStatus::ValidKey, fingerprint: None, signer: None, reason: None }),
        true,
    );
    assert_eq!(untrusted[0].code, FindingCode::UntrustedKey);
    assert_eq!(untrusted[0].severity, Severity::Warning);
    let failed = ProvenanceVerifier::<NoOpTrustStore>::findings_for(Err(GitGovernanceError::InvalidPattern), false);
    assert_eq!(failed[0].code, FindingCode::Other("Invalid pattern".to_string()));
}

#[test]
fn canonical_hasher_digests_the_tagged_fields() {
    let mut h = CanonicalHasher::new(CanonicalFormatVersion::V1);
    h.write_str(1, "ab");
    h.write_bool(2, true);
    h.write_u32(3, 258);
    let d = h.finalize();
    let mut expected: Vec<u8> = b"ARKHE-EVIDENCE".to_vec();
    expected.push(1);
    expected.extend_from_slice(&[1, 2, 0, 0, 0, 0, 0, 0, 0, b'a', b'b']);
    expected.extend_from_slice(&[2, 1, 0, 0, 0, 0, 0, 0, 0, 1]);
    expected.extend_from_slice(&[3, 4, 0, 0, 0, 0, 0, 0, 0, 2, 1, 0, 0]);
    assert_eq!(&d.0, blake3::hash(&expected).as_bytes());
}

#[test]
fn builder_sorts_findings_stably_and_hashes() {
    let a = finding(Severity::Info, FindingCategory::PolicyViolation, FindingCode::LargeBinary, Some("z"), Some(1));
    let b = finding(Severity::Error, FindingCategory::SecretLeak, FindingCode::UntrustedKey, Some("b"), Some(2));
    let c = finding(Severity::Warning, FindingCategory::SecretLeak, FindingCode::UntrustedKey, Some("a"), None);
    let d = finding(Severity::Critical, FindingCategory::SecretLeak, FindingCode::UntrustedKey, Some("b"), Some(2));
    let e = EvidenceBuilder::build(
        CommitId("c1".to_string()),
        GovernanceDecision::Deny,
        12,
        vec![a.clone(), b.clone(), c.clone(), d.clone()],
        PolicyVersion("0.1.0".to_string()),
        arkhe::governance::types::Hash([3u8; 32]),
        None,
    );
    assert_eq!(e.findings, vec![c.clone(), b.clone(), d.clone(), a.clone()]);
    assert_eq!(EvidenceBuilder::compute_hash(&e), e.current_hash);
    let again = EvidenceBuilder::build(
        CommitId("c1".to_string()),
        GovernanceDecision::Deny,
        12,
        vec![c, b, d, a],
        PolicyVersion("0.1.0".to_string()),
        arkhe::governance::types::Hash([3u8; 32]),
        None,
    );
    assert_eq!(again.current_hash, e.current_hash);
    let chained = EvidenceBuilder::build(
        CommitId("c1".to_string()),
        GovernanceDecision::Deny,
        12,
        vec![],
        PolicyVersion("0.1.0".to_string()),
        arkhe::governance::types::Hash([3u8; 32]),
        Some(e.current_hash.clone()),
    );
    assert_ne!(chained.current_hash, e.current_hash);
}

fn entry(id: &str, prev: Option<arkhe::governance::types::Hash>) -> arkhe::governance::types::EvidenceEntry {
    EvidenceBuilder::build(
        CommitId(id.to_string()),
        GovernanceDecision::Allow,
        9000,
        vec![],
        PolicyVersion("0.1.0".to_string()),
        arkhe::governance::types::Hash([0u8; 32]),
        prev,
    )
}

#[test]
fn store_get_after_append_and_last_hash() {
    let mut s = InMemoryEvidenceStore::new();
    assert!(s.last_hash().is_none());
    let e1 = entry("one", None);
    let h1 = s.append(e1.clone()).unwrap();
    assert_eq!(h1, e1.current_hash);
    assert_eq!(s.last_hash(), Some(e1.current_hash.clone()));
    let e2 = entry("two", Some(h1.clone()));
    s.append(e2.clone()).unwrap();
    assert_eq!(s.get(&CommitId("one".to_string())).unwrap(), Some(e1.clone()));
    assert_eq!(s.get(&CommitId("two".to_string())).unwrap(), Some(e2.clone()));
    let stored_two = s.get(&CommitId("two".to_string())).unwrap().unwrap();
    let stored_one = s.get(&CommitId("one".to_string())).unwrap().unwrap();
    assert_eq!(stored_two.previous_hash, Some(stored_one.current_hash));
    assert_eq!(s.get(&CommitId("three".to_string())).unwrap(), None);
    let e1b = entry("one", Some(e2.current_hash.clone()));
    s.append(e1b.clone()).unwrap();
    assert_eq!(s.get(&CommitId("one".to_string())).unwrap(), Some(e1b.clone()));
    assert_eq!(s.last_hash(), Some(e1b.current_hash.clone()));
    assert!(s.verify_chain().is_ok());
    let all = s.list(None, 10).unwrap();
    assert_eq!(all.entries, vec![e1b, e2]);
    assert_eq!(all.next_cursor, None);
}

#[test]
fn store_pages_with_cursors() {
    let mut s = InMemoryEvidenceStore::new();
    for i in 0..5 {
        s.append(entry(&format!("c{}", i), None)).unwrap();
    }
    let p1 = s.list(None, 2).unwrap();
    assert_eq!(p1.entries.len(), 2);
    assert_eq!(p1.next_cursor, Some("2".to_string()));
    let p2 = s.list(p1.next_cursor.clone(), 2).unwrap();
    assert_eq!(p2.entries[0].commit_id, CommitId("c2".to_string()));
    assert_eq!(p2.next_cursor, Some("4".to_string()));
    let p3 = s.list(p2.next_cursor.clone(), 2).unwrap();
    assert_eq!(p3.entries.len(), 1);
    assert_eq!(p3.next_cursor, None);
    let mut all = Vec::new();
    let mut cursor = None;
    let mut pages = 0;
    loop {
        let p = s.list(cursor, 2).unwrap();
        pages += 1;
        assert!(p.entries.len() <= 2);
        all.extend(p.entries);
        match p.next_cursor {
            Some(c) => cursor = Some(c),
            None => break,
        }
    }
    assert_eq!(pages, 3);
    assert_eq!(all, s.list(None, 10).unwrap().entries);
    let bad = s.list(Some("x".to_string()), 1).unwrap();
    assert_eq!(bad.entries[0].commit_id, CommitId("c0".to_string()));
    assert_eq!(bad.next_cursor, Some("1".to_string()));
}

struct FixedAltai(u32, Vec<Finding>);

impl AltaiCriterionEvaluator for FixedAltai {
    fn evaluates(&self, _commit: CommitData, r: AltaiCriterionResult) -> bool {
        r.score == self.0
    }

    fn criterion(&self) -> AltaiCriterion {
        AltaiCriterion::Transparency
    }

    fn evaluate(&self, _commit: &CommitData) -> AltaiCriterionResult {
        AltaiCriterionResult { criterion: AltaiCriterion::Transparency, score: self.0, findings: self.1.clone() }
    }
}

#[test]
fn governance_config_defaults() {
    let c = GovernanceConfig::default();
    assert_eq!(c.policy_version, PolicyVersion("0.1.0".to_string()));
    assert!(c.require_signed_commits);
    assert_eq!(c.altai_threshold, 7000);
    assert_eq!(c.max_diff_size, 10_000_000);
}

#[test]
fn evaluator_decides_and_chains_records() {
    let warn = finding(Severity::Error, FindingCategory::AltaiTransparency, FindingCode::Other("opaque".to_string()), None, None);
    let mut ev = CommitEvaluator::new(
        GitAdapter,
        PatternEngine::new(vec![]),
        Box::new(FixedAltai(9000, vec![warn.clone()])),
        Box::new(ThresholdPolicy::new(7000)),
        GovernanceConfig::default(),
    );
    let r1 = ev.evaluate("/repo", "aaa").unwrap();
    assert_eq!(r1.decision, GovernanceDecision::NeedsReview);
    assert_eq!(r1.altai_score, 9000);
    assert_eq!(r1.findings, vec![warn.clone()]);
    let r2 = ev.evaluate("/repo", "bbb").unwrap();
    assert_eq!(r2.decision, GovernanceDecision::NeedsReview);
    let cfg_hash = ev.compute_config_hash();
    let mut h = CanonicalHasher::new(CanonicalFormatVersion::V1);
    h.write_str(1, "0.1.0");
    h.write_bool(2, true);
    h.write_u32(3, 7000);
    assert_eq!(cfg_hash, h.finalize());
}

#[test]
fn governance_error_text() {
    assert_eq!(GitGovernanceError::InvalidPattern.to_string(), "Invalid pattern");
    let e: GitGovernanceError = git2::Error::from_str("boom").into();
    let t = e.to_string();
    assert!(t.starts_with("Git error: "));
    assert!(t.contains("boom"));
    assert_eq!(arkhe::crl::CrlError::InvalidProof.to_string(), "invalid CRL proof");
}

#[test]
fn store_get_gives_last_append_per_commit() {
    let mut s = InMemoryEvidenceStore::new();
    let e1 = entry("one", None);
    let e2 = entry("two", Some(e1.current_hash.clone()));
    let e3 = EvidenceBuilder::build(
        CommitId("one".to_string()),
        GovernanceDecision::Deny,
        10,
        vec![],
        PolicyVersion("0.1.0".to_string()),
        arkhe::governance::types::Hash([0u8; 32]),
        Some(e2.current_hash.clone()),
    );
    s.append(e1.clone()).unwrap();
    s.append(e2.clone()).unwrap();
    s.append(e3.clone()).unwrap();
    assert_eq!(s.get(&CommitId("one".to_string())).unwrap(), Some(e3.clone()));
    assert_eq!(s.get(&CommitId("two".to_string())).unwrap(), Some(e2.clone()));
    assert_eq!(s.get(&CommitId("three".to_string())).unwrap(), None);
    assert_eq!(s.last_hash(), Some(e3.current_hash.clone()));
    let page = s.list(None, 10).unwrap();
    assert_eq!(page.entries, vec![e3, e2]);
}

#[test]
fn build_ignores_order_of_findings_with_distinct_keys() {
    let a = finding(Severity::Info, FindingCategory::PolicyViolation, FindingCode::LargeBinary, Some("z"), Some(1));
    let b = finding(Severity::Error, FindingCategory::SecretLeak, FindingCode::UntrustedKey, Some("b"), Some(2));
    let c = finding(Severity::Warning, FindingCategory::SecretLeak, FindingCode::UntrustedKey, Some("a"), None);
    let make = |fs: Vec<Finding>| {
        EvidenceBuilder::build(
            CommitId("c9".to_string()),
            GovernanceDecision::Allow,
            8000,
            fs,
            PolicyVersion("0.1.0".to_string()),
            arkhe::governance::types::Hash([5u8; 32]),
            None,
        )
    };
    let x = make(vec![a.clone(), b.clone(), c.clone()]);
    let y = make(vec![b.clone(), c.clone(), a.clone()]);
    let z = make(vec![c.clone(), a.clone(), b.clone()]);
    assert_eq!(x, y);
    assert_eq!(y, z);
    assert_eq!(x.findings, vec![c, b, a]);
}

#[test]
fn evaluator_decides_with_the_policy_it_was_given() {
    let mut lenient = CommitEvaluator::new(
        GitAdapter,
        PatternEngine::new(vec![]),
        Box::new(FixedAltai(9000, vec![])),
        Box::new(ThresholdPolicy::new(7000)),
        GovernanceConfig::default(),
    );
    let mut strict = CommitEvaluator::new(
        GitAdapter,
        PatternEngine::new(vec![]),
        Box::new(FixedAltai(9000, vec![])),
        Box::new(ThresholdPolicy::new(8500)),
        GovernanceConfig::default(),
    );
    let r1 = lenient.evaluate("/repo", "ccc").unwrap();
    let r2 = strict.evaluate("/repo", "ccc").unwrap();
    assert_eq!(r1.decision, GovernanceDecision::Allow);
    assert_eq!(r2.decision, GovernanceDecision::NeedsReview);
    assert_eq!(r1.altai_score, 9000);
    assert!(r1.findings.is_empty());
}
