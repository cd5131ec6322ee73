//! Rules that look for patterns in a commit's files.

use vstd::prelude::*;
use crate::governance::types::{CommitData, DiffFile, Finding, FindingCategory, FindingCode, Severity};

verus! {

/// The name of a pattern rule.
pub struct RuleId(pub String);

/// A rule that may report a finding for a file.
pub trait PatternRule: Send + Sync {
    fn id(&self) -> RuleId;

    fn check_file(&self, path: &str, content: &[u8]) -> Option<Finding>;
}

/// Binary files larger than this many bytes are reported.
pub open spec fn large_binary_limit() -> usize {
    10_000_000
}

/// The finding reported for a large binary file at `path`.
pub open spec fn large_binary_finding(path: String) -> Finding {
    Finding {
        severity: Severity::Warning,
        category: FindingCategory::SecurityVulnerability,
        code: FindingCode::LargeBinary,
        file_path: Some(path),
        line_number: None,
    }
}

/// One large-binary finding per binary file above the limit, in diff order.
pub open spec fn large_binary_findings(diff: Seq<DiffFile>) -> Seq<Finding>
    decreases diff.len(),
{
    if diff.len() == 0 {
        Seq::empty()
    } else {
        let rest = large_binary_findings(diff.drop_last());
        let f = diff.last();
        if f.is_binary && f.size > large_binary_limit() {
            rest.push(large_binary_finding(f.path))
        } else {
            rest
        }
    }
}

/// Runs pattern rules over commits.
pub struct PatternEngine {
    rules: Vec<Box<dyn PatternRule>>,
}

impl PatternEngine {
    /// An engine holding these rules.
    pub fn new(rules: Vec<Box<dyn PatternRule>>) -> (e: Self)
        ensures
            e.rule_count() == rules@.len(),
    {
        PatternEngine { rules }
    }

    /// How many rules the engine holds.
    pub closed spec fn rule_count(&self) -> nat {
        self.rules@.len()
    }

    /// The findings for a commit: every binary file above 10,000,000 bytes
    /// is reported as a large binary (a warning about security).
    pub fn check_commit(&self, commit: &CommitData) -> (r: Vec<Finding>)
        ensures
            r@ == large_binary_findings(commit.diff@),
    {
        let mut findings: Vec<Finding> = Vec::new();
        let mut i: usize = 0;
        while i < commit.diff.len()
            invariant
                i <= commit.diff@.len(),
                findings@ == large_binary_findings(commit.diff@.subrange(0, i as int)),
            decreases commit.diff@.len() - i,
        {
            let ghost next = commit.diff@.subrange(0, i + 1);
            assert(next.drop_last() =~= commit.diff@.subrange(0, i as int));
            let file = &commit.diff[i];
            if file.is_binary && file.size > 10_000_000 {
                findings.push(
                    Finding {
                        severity: Severity::Warning,
                        category: FindingCategory::SecurityVulnerability,
                        code: FindingCode::LargeBinary,
                        file_path: Some(file.path.clone()),
                        line_number: None,
                    },
                );
            }
            i = i + 1;
        }
        assert(commit.diff@.subrange(0, i as int) =~= commit.diff@);
        findings
    }
}

/// The pattern findings are exactly the binary files of the diff larger than
/// 10,000,000 bytes, in diff order, each reported once as a large binary (a
/// warning about security naming the file): as many findings as such files,
/// and every such file's path in one of them.
pub proof fn law_every_large_binary_reported(diff: Seq<DiffFile>)
    ensures
        ({
            let big = |f: DiffFile| f.is_binary && f.size > 10_000_000;
            let report = |f: DiffFile|
                Finding {
                    severity: Severity::Warning,
                    category: FindingCategory::SecurityVulnerability,
                    code: FindingCode::LargeBinary,
                    file_path: Some(f.path),
                    line_number: None,
                };
            let r = large_binary_findings(diff);
            &&& r == diff.filter(big).map_values(report)
            &&& r.len() == diff.filter(big).len()
            &&& forall|i: int|
                0 <= i < diff.len() && #[trigger] big(diff[i]) ==> exists|j: int|
                    0 <= j < r.len() && r[j] == report(diff[i])
        }),
    decreases diff.len(),
{
    let big = |f: DiffFile| f.is_binary && f.size > 10_000_000;
    let report = |f: DiffFile|
        Finding {
            severity: Severity::Warning,
            category: FindingCategory::SecurityVulnerability,
            code: FindingCode::LargeBinary,
            file_path: Some(f.path),
            line_number: None,
        };
    reveal(Seq::filter);
    let r = large_binary_findings(diff);
    if diff.len() > 0 {
        law_every_large_binary_reported(diff.drop_last());
        assert(r =~= diff.filter(big).map_values(report));
    } else {
        assert(r =~= diff.filter(big).map_values(report));
    }
    assert forall|i: int| 0 <= i < diff.len() && #[trigger] big(diff[i]) implies exists|j: int|
        0 <= j < r.len() && r[j] == report(diff[i]) by {
        diff.lemma_filter_contains(big, i);
        let k = choose|k: int| 0 <= k < diff.filter(big).len() && diff.filter(big)[k] == diff[i];
        assert(r[k] == report(diff[i]));
    }
}

} // verus!
