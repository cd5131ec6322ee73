//! The data that flows through commit governance.

use vstd::prelude::*;
use vstd::utf8::encode_utf8;
use vstd::string::StringSliceAdditionalSpecFns;

verus! {

/// The version of the canonical evidence encoding.
#[derive(Debug, Clone, Copy, PartialEq, Eq, Structural)]
pub enum CanonicalFormatVersion {
    V1,
}

impl CanonicalFormatVersion {
    /// The version's byte in the encoding.
    pub open spec fn spec_byte(self) -> u8 {
        1
    }

    /// The version's byte in the encoding.
    pub fn byte(self) -> (r: u8)
        ensures
            r == self.spec_byte(),
    {
        1
    }
}

/// A commit's object id.
#[derive(Debug, PartialEq, Eq, Hash)]
pub struct CommitId(pub String);

impl Clone for CommitId {
    fn clone(&self) -> (r: Self)
        ensures
            r == *self,
    {
        CommitId(self.0.clone())
    }
}

impl CommitId {
    /// The id text.
    pub fn as_str(&self) -> (r: &str)
        ensures
            r@ == self.0@,
    {
        self.0.as_str()
    }
}

/// The version of the governance policy in force.
#[derive(Debug, PartialEq, Eq, Hash)]
pub struct PolicyVersion(pub String);

impl Clone for PolicyVersion {
    fn clone(&self) -> (r: Self)
        ensures
            r == *self,
    {
        PolicyVersion(self.0.clone())
    }
}

/// What is decided about a commit.
#[derive(Debug, Clone, Copy, PartialEq, Eq, Structural)]
pub enum GovernanceDecision {
    Allow,
    Deny,
    NeedsReview,
    Quarantine,
}

/// How severe a finding is, in increasing order.
#[derive(Debug, Clone, Copy, PartialEq, Eq, PartialOrd, Ord, Structural)]
pub enum Severity {
    Info,
    Warning,
    Error,
    Critical,
}

/// What area a finding concerns.
#[derive(Debug, Clone, Copy, PartialEq, Eq, PartialOrd, Ord, Structural)]
pub enum FindingCategory {
    AltaiHumanAgency,
    AltaiTechnicalRobustness,
    AltaiPrivacy,
    AltaiTransparency,
    AltaiFairness,
    AltaiSocialWellbeing,
    AltaiAccountability,
    SecurityVulnerability,
    SecretLeak,
    AiGeneratedCode,
    ProvenanceFailure,
    PolicyViolation,
}

/// What exactly was found.
#[derive(Debug, PartialEq, Eq)]
pub enum FindingCode {
    LargeBinary,
    UnsignedCommit,
    UntrustedKey,
    InvalidSignature,
    Other(String),
}

impl Clone for FindingCode {
    fn clone(&self) -> (r: Self)
        ensures
            r == *self,
    {
        match self {
            FindingCode::LargeBinary => FindingCode::LargeBinary,
            FindingCode::UnsignedCommit => FindingCode::UnsignedCommit,
            FindingCode::UntrustedKey => FindingCode::UntrustedKey,
            FindingCode::InvalidSignature => FindingCode::InvalidSignature,
            FindingCode::Other(m) => FindingCode::Other(m.clone()),
        }
    }
}

/// One finding about a commit, optionally located in a file and line.
#[derive(Debug, PartialEq, Eq)]
pub struct Finding {
    pub severity: Severity,
    pub category: FindingCategory,
    pub code: FindingCode,
    pub file_path: Option<String>,
    pub line_number: Option<usize>,
}

impl Clone for Finding {
    fn clone(&self) -> (r: Self)
        ensures
            r == *self,
    {
        let file_path = match &self.file_path {
            Some(p) => Some(p.clone()),
            None => None,
        };
        Finding {
            severity: self.severity,
            category: self.category,
            code: self.code.clone(),
            file_path,
            line_number: self.line_number,
        }
    }
}

/// The byte of a decision in the evidence encoding (declaration order).
pub open spec fn decision_code(d: GovernanceDecision) -> u8 {
    match d {
        GovernanceDecision::Allow => 0,
        GovernanceDecision::Deny => 1,
        GovernanceDecision::NeedsReview => 2,
        GovernanceDecision::Quarantine => 3,
    }
}

/// The byte of a severity (declaration order).
pub open spec fn severity_code(s: Severity) -> u8 {
    match s {
        Severity::Info => 0,
        Severity::Warning => 1,
        Severity::Error => 2,
        Severity::Critical => 3,
    }
}

/// The byte of a category (declaration order).
pub open spec fn category_code(c: FindingCategory) -> u8 {
    match c {
        FindingCategory::AltaiHumanAgency => 0,
        FindingCategory::AltaiTechnicalRobustness => 1,
        FindingCategory::AltaiPrivacy => 2,
        FindingCategory::AltaiTransparency => 3,
        FindingCategory::AltaiFairness => 4,
        FindingCategory::AltaiSocialWellbeing => 5,
        FindingCategory::AltaiAccountability => 6,
        FindingCategory::SecurityVulnerability => 7,
        FindingCategory::SecretLeak => 8,
        FindingCategory::AiGeneratedCode => 9,
        FindingCategory::ProvenanceFailure => 10,
        FindingCategory::PolicyViolation => 11,
    }
}

/// The number a finding code sorts and hashes by.
pub open spec fn finding_code_num(c: FindingCode) -> u8 {
    match c {
        FindingCode::LargeBinary => 1,
        FindingCode::UnsignedCommit => 2,
        FindingCode::UntrustedKey => 3,
        FindingCode::InvalidSignature => 4,
        FindingCode::Other(_) => 255,
    }
}

/// The UTF-8 bytes of a finding's file path, empty when it has none.
pub open spec fn path_bytes(f: Finding) -> Seq<u8> {
    match f.file_path {
        Some(p) => encode_utf8(p@),
        None => Seq::empty(),
    }
}

/// A finding's line, zero when it has none.
pub open spec fn line_of(f: Finding) -> usize {
    match f.line_number {
        Some(n) => n,
        None => 0,
    }
}

/// The byte of a decision in the evidence encoding.
pub fn decision_byte(d: GovernanceDecision) -> (r: u8)
    ensures
        r == decision_code(d),
{
    match d {
        GovernanceDecision::Allow => 0,
        GovernanceDecision::Deny => 1,
        GovernanceDecision::NeedsReview => 2,
        GovernanceDecision::Quarantine => 3,
    }
}

/// The byte of a severity.
pub fn severity_byte(s: Severity) -> (r: u8)
    ensures
        r == severity_code(s),
{
    match s {
        Severity::Info => 0,
        Severity::Warning => 1,
        Severity::Error => 2,
        Severity::Critical => 3,
    }
}

/// The byte of a category.
pub fn category_byte(c: FindingCategory) -> (r: u8)
    ensures
        r == category_code(c),
{
    match c {
        FindingCategory::AltaiHumanAgency => 0,
        FindingCategory::AltaiTechnicalRobustness => 1,
        FindingCategory::AltaiPrivacy => 2,
        FindingCategory::AltaiTransparency => 3,
        FindingCategory::AltaiFairness => 4,
        FindingCategory::AltaiSocialWellbeing => 5,
        FindingCategory::AltaiAccountability => 6,
        FindingCategory::SecurityVulnerability => 7,
        FindingCategory::SecretLeak => 8,
        FindingCategory::AiGeneratedCode => 9,
        FindingCategory::ProvenanceFailure => 10,
        FindingCategory::PolicyViolation => 11,
    }
}

/// The number of a finding code.
pub fn finding_code_byte(c: &FindingCode) -> (r: u8)
    ensures
        r == finding_code_num(*c),
{
    match c {
        FindingCode::LargeBinary => 1,
        FindingCode::UnsignedCommit => 2,
        FindingCode::UntrustedKey => 3,
        FindingCode::InvalidSignature => 4,
        FindingCode::Other(_) => 255,
    }
}

impl Finding {
    /// The key findings are put in canonical order by: category, file path
    /// (empty when absent), line (zero when absent) and code number.
    pub fn canonical_sort_key(&self) -> (r: (u8, &str, usize, u8))
        ensures
            r.0 == category_code(self.category),
            r.1.spec_bytes() == path_bytes(*self),
            r.2 == line_of(*self),
            r.3 == finding_code_num(self.code),
    {
        let path: &str = match &self.file_path {
            Some(p) => p.as_str(),
            None => {
                let e = "";
                proof {
                    reveal_strlit("");
                    assert(e@ =~= Seq::<char>::empty());
                }
                e
            },
        };
        let line = match self.line_number {
            Some(n) => n,
            None => 0,
        };
        (category_byte(self.category), path, line, finding_code_byte(&self.code))
    }
}

/// A 32-byte digest.
#[derive(Debug, PartialEq, Eq)]
pub struct Hash(pub [u8; 32]);

impl Clone for Hash {
    fn clone(&self) -> (r: Self)
        ensures
            r == *self,
    {
        Hash(self.0)
    }
}

impl Hash {
    /// The all-zero digest.
    pub fn zero() -> (h: Self)
        ensures
            h.0@ == Seq::new(32, |i: int| 0u8),
    {
        let h = Hash([0u8; 32]);
        assert(h.0@ =~= Seq::new(32, |i: int| 0u8));
        h
    }

    /// The digest bytes.
    pub fn as_bytes(&self) -> (r: &[u8; 32])
        ensures
            r@ == self.0@,
    {
        &self.0
    }
}

/// One record of the evidence log.
#[derive(Debug, PartialEq, Eq)]
pub struct EvidenceEntry {
    pub commit_id: CommitId,
    pub decision: GovernanceDecision,
    pub altai_score: u32,
    pub findings: Vec<Finding>,
    pub policy_version: PolicyVersion,
    pub config_hash: Hash,
    pub previous_hash: Option<Hash>,
    pub current_hash: Hash,
}

/// The plain values an evidence record holds.
pub struct EntryModel {
    pub commit_id: Seq<char>,
    pub decision: GovernanceDecision,
    pub altai_score: u32,
    pub findings: Seq<Finding>,
    pub policy_version: Seq<char>,
    pub config_hash: Seq<u8>,
    pub previous_hash: Option<Seq<u8>>,
    pub current_hash: Seq<u8>,
}

/// The digest bytes of an optional digest.
pub open spec fn opt_hash_view(h: Option<Hash>) -> Option<Seq<u8>> {
    match h {
        Some(h) => Some(h.0@),
        None => None,
    }
}

impl View for EvidenceEntry {
    type V = EntryModel;

    open spec fn view(&self) -> EntryModel {
        EntryModel {
            commit_id: self.commit_id.0@,
            decision: self.decision,
            altai_score: self.altai_score,
            findings: self.findings@,
            policy_version: self.policy_version.0@,
            config_hash: self.config_hash.0@,
            previous_hash: opt_hash_view(self.previous_hash),
            current_hash: self.current_hash.0@,
        }
    }
}

/// Copies a list of findings.
pub fn clone_findings(v: &Vec<Finding>) -> (r: Vec<Finding>)
    ensures
        r@ == v@,
{
    let mut r: Vec<Finding> = Vec::new();
    let mut i: usize = 0;
    while i < v.len()
        invariant
            i <= v@.len(),
            r@ == v@.subrange(0, i as int),
        decreases v@.len() - i,
    {
        r.push(v[i].clone());
        i = i + 1;
        assert(r@ =~= v@.subrange(0, i as int));
    }
    assert(v@.subrange(0, i as int) =~= v@);
    r
}

impl Clone for EvidenceEntry {
    fn clone(&self) -> (r: Self)
        ensures
            r@ == self@,
    {
        let previous_hash = match &self.previous_hash {
            Some(h) => Some(h.clone()),
            None => None,
        };
        let findings = clone_findings(&self.findings);
        EvidenceEntry {
            commit_id: self.commit_id.clone(),
            decision: self.decision,
            altai_score: self.altai_score,
            findings,
            policy_version: self.policy_version.clone(),
            config_hash: self.config_hash.clone(),
            previous_hash,
            current_hash: self.current_hash.clone(),
        }
    }
}

/// A page of evidence records and the cursor of the next page, if any.
#[derive(Debug)]
pub struct EvidencePage {
    pub entries: Vec<EvidenceEntry>,
    pub next_cursor: Option<String>,
}

/// A commit's author, message and parents.
#[derive(Debug, Clone, PartialEq, Eq)]
pub struct CommitMetadata {
    pub oid: String,
    pub author: String,
    pub email: String,
    pub message: String,
    pub parent_oids: Vec<String>,
}

/// One file changed by a commit.
#[derive(Debug, Clone, PartialEq, Eq)]
pub struct DiffFile {
    pub path: String,
    pub is_binary: bool,
    pub size: usize,
    pub insertions: usize,
    pub deletions: usize,
    pub is_rename: bool,
    pub old_path: Option<String>,
    pub mode_changed: bool,
    pub submodule_change: bool,
}

/// A commit as governance sees it.
#[derive(Debug, Clone, PartialEq, Eq)]
pub struct CommitData {
    pub metadata: CommitMetadata,
    pub diff: Vec<DiffFile>,
    pub raw_signature: Option<Vec<u8>>,
}

/// The outcome of evaluating a commit.
#[derive(Debug, PartialEq, Eq)]
pub struct AnalysisResult {
    pub decision: GovernanceDecision,
    pub findings: Vec<Finding>,
    pub altai_score: u32,
}

/// A boxed component (a criterion, an aggregator, a policy) owned by the
/// value that delegates to it. Moving a `Box<dyn ..>` straight into a field
/// of the same type goes through an unsizing coercion that Verus treats as
/// opaque, so a component is wrapped here first and the wrapper, which has
/// no such coercion, is what the field holds.
pub(crate) struct Owned<T: ?Sized>(pub(crate) Box<T>);

/// Wraps a component, keeping it as it is.
pub(crate) fn owned<T: ?Sized>(b: Box<T>) -> (o: Owned<T>)
    ensures
        o.0 == b,
{
    Owned(b)
}

} // verus!
