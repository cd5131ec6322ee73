//! Turning findings and a score into a decision.

use vstd::prelude::*;
use crate::governance::types::{Finding, FindingCategory, GovernanceDecision, Severity};

verus! {

/// Decides about a commit from its findings and its ALTAI score.
pub trait PolicyEngine: Send + Sync {
    /// `d` is a decision this policy may take on `findings` and `score`.
    spec fn decides(&self, findings: Seq<Finding>, score: u32, d: GovernanceDecision) -> bool;

    fn decide(&self, findings: &[Finding], altai_score: u32) -> (d: GovernanceDecision)
        ensures
            self.decides(findings@, altai_score, d),
    ;
}

/// Some finding is critical.
pub open spec fn has_critical(f: Seq<Finding>) -> bool {
    exists|i: int| 0 <= i < f.len() && #[trigger] f[i].severity == Severity::Critical
}

/// Some finding is a leaked secret.
pub open spec fn has_secret(f: Seq<Finding>) -> bool {
    exists|i: int| 0 <= i < f.len() && #[trigger] f[i].category == FindingCategory::SecretLeak
}

/// How many findings are errors.
pub open spec fn error_count(f: Seq<Finding>) -> nat
    decreases f.len(),
{
    if f.len() == 0 {
        0
    } else {
        error_count(f.drop_last()) + if f.last().severity == Severity::Error { 1nat } else { 0nat }
    }
}

/// The threshold rule: deny secrets and critical findings; below the threshold
/// ask for review; quarantine more than five errors; ask for review with any
/// error or a score less than 1000 above the threshold; otherwise allow.
pub open spec fn threshold_decision(f: Seq<Finding>, score: u32, threshold: u32) -> GovernanceDecision {
    if has_secret(f) || has_critical(f) {
        GovernanceDecision::Deny
    } else if score < threshold {
        GovernanceDecision::NeedsReview
    } else if error_count(f) > 5 {
        GovernanceDecision::Quarantine
    } else if error_count(f) > 0 || score < threshold + 1000 {
        GovernanceDecision::NeedsReview
    } else {
        GovernanceDecision::Allow
    }
}

/// A policy that applies the threshold rule.
pub struct ThresholdPolicy {
    threshold: u32,
}

impl ThresholdPolicy {
    /// The policy's threshold.
    pub closed spec fn threshold_value(&self) -> u32 {
        self.threshold
    }

    /// A policy with this threshold.
    pub fn new(threshold: u32) -> (p: Self)
        ensures
            p.threshold_value() == threshold,
    {
        ThresholdPolicy { threshold }
    }
}

impl PolicyEngine for ThresholdPolicy {
    /// The threshold rule decides.
    open spec fn decides(&self, findings: Seq<Finding>, score: u32, d: GovernanceDecision) -> bool {
        d == threshold_decision(findings, score, self.threshold_value())
    }

    fn decide(&self, findings: &[Finding], altai_score: u32) -> (d: GovernanceDecision)
        ensures
            d == threshold_decision(findings@, altai_score, self.threshold_value()),
    {
        let mut has_crit = false;
        let mut has_sec = false;
        let mut errors: usize = 0;
        let mut i: usize = 0;
        while i < findings.len()
            invariant
                i <= findings@.len(),
                has_crit == has_critical(findings@.subrange(0, i as int)),
                has_sec == has_secret(findings@.subrange(0, i as int)),
                errors == error_count(findings@.subrange(0, i as int)),
                errors <= i,
            decreases findings@.len() - i,
        {
            let ghost pre = findings@.subrange(0, i as int);
            let ghost next = findings@.subrange(0, i + 1);
            assert(next.drop_last() =~= pre);
            let f = &findings[i];
            assert(next[i as int] == *f);
            if f.severity == Severity::Critical {
                has_crit = true;
            }
            if f.category == FindingCategory::SecretLeak {
                has_sec = true;
            }
            if f.severity == Severity::Error {
                errors = errors + 1;
            }
            proof {
                if has_critical(pre) {
                    let k = choose|k: int| 0 <= k < pre.len() && #[trigger] pre[k].severity == Severity::Critical;
                    assert(next[k] == pre[k]);
                }
                if has_critical(next) {
                    let k = choose|k: int| 0 <= k < next.len() && #[trigger] next[k].severity == Severity::Critical;
                    if k < i {
                        assert(pre[k] == next[k]);
                    }
                }
                if has_secret(pre) {
                    let k = choose|k: int| 0 <= k < pre.len() && #[trigger] pre[k].category == FindingCategory::SecretLeak;
                    assert(next[k] == pre[k]);
                }
                if has_secret(next) {
                    let k = choose|k: int| 0 <= k < next.len() && #[trigger] next[k].category == FindingCategory::SecretLeak;
                    if k < i {
                        assert(pre[k] == next[k]);
                    }
                }
            }
            i = i + 1;
        }
        assert(findings@.subrange(0, i as int) =~= findings@);
        if has_sec || has_crit {
            return GovernanceDecision::Deny;
        }
        if altai_score < self.threshold {
            return GovernanceDecision::NeedsReview;
        }
        if errors > 5 {
            return GovernanceDecision::Quarantine;
        }
        if errors > 0 || (altai_score as u64) < (self.threshold as u64) + 1000 {
            return GovernanceDecision::NeedsReview;
        }
        GovernanceDecision::Allow
    }
}

/// A critical finding or a leaked secret anywhere among the findings, at any
/// position, makes the threshold rule deny, whatever the score and threshold.
pub proof fn law_critical_or_secret_denies(f: Seq<Finding>, score: u32, threshold: u32, i: int)
    requires
        0 <= i < f.len(),
        f[i].severity == Severity::Critical || f[i].category == FindingCategory::SecretLeak,
    ensures
        threshold_decision(f, score, threshold) == GovernanceDecision::Deny,
{
    if f[i].severity == Severity::Critical {
        assert(has_critical(f));
    } else {
        assert(has_secret(f));
    }
}

/// Taking one finding out lowers the error count by one exactly when that
/// finding is an error.
proof fn lemma_error_count_remove(s: Seq<Finding>, i: int)
    requires
        0 <= i < s.len(),
    ensures
        error_count(s) == error_count(s.remove(i)) + if s[i].severity == Severity::Error { 1nat } else { 0nat },
    decreases s.len(),
{
    if i == s.len() - 1 {
        assert(s.remove(i) =~= s.drop_last());
    } else {
        lemma_error_count_remove(s.drop_last(), i);
        assert(s.remove(i).drop_last() =~= s.drop_last().remove(i));
        assert(s.remove(i).last() == s.last());
    }
}

/// Findings holding the same findings, as often each, have the same number of
/// errors.
proof fn lemma_error_count_permutation(a: Seq<Finding>, b: Seq<Finding>)
    requires
        a.to_multiset() == b.to_multiset(),
    ensures
        error_count(a) == error_count(b),
    decreases a.len(),
{
    broadcast use vstd::seq_lib::group_to_multiset_ensures;
    assert(a.len() == a.to_multiset().len());
    assert(b.len() == b.to_multiset().len());
    if a.len() > 0 {
        let x = a.last();
        assert(a.contains(x)) by {
            assert(a[a.len() - 1] == x);
        }
        assert(b.to_multiset().count(x) > 0);
        assert(b.contains(x));
        let j = choose|j: int| 0 <= j < b.len() && b[j] == x;
        assert(a.remove(a.len() - 1) =~= a.drop_last());
        assert(a.drop_last().to_multiset() == a.to_multiset().remove(x));
        assert(b.remove(j).to_multiset() == b.to_multiset().remove(x));
        lemma_error_count_permutation(a.drop_last(), b.remove(j));
        lemma_error_count_remove(b, j);
        lemma_error_count_remove(a, a.len() - 1);
    } else {
        assert(b.len() == 0);
    }
}

/// The decision does not depend on the order of the findings: findings
/// holding the same findings, as often each, get the same decision.
pub proof fn law_decision_ignores_order(a: Seq<Finding>, b: Seq<Finding>, score: u32, threshold: u32)
    requires
        a.to_multiset() == b.to_multiset(),
    ensures
        threshold_decision(a, score, threshold) == threshold_decision(b, score, threshold),
{
    broadcast use vstd::seq_lib::group_to_multiset_ensures;
    lemma_error_count_permutation(a, b);
    assert forall|x: Finding| a.contains(x) <==> b.contains(x) by {
        assert(a.contains(x) <==> a.to_multiset().count(x) > 0);
        assert(b.contains(x) <==> b.to_multiset().count(x) > 0);
    }
    if has_critical(a) {
        let i = choose|i: int| 0 <= i < a.len() && #[trigger] a[i].severity == Severity::Critical;
        assert(a.contains(a[i]));
        let j = choose|j: int| 0 <= j < b.len() && b[j] == a[i];
        assert(b[j].severity == Severity::Critical);
    }
    if has_critical(b) {
        let i = choose|i: int| 0 <= i < b.len() && #[trigger] b[i].severity == Severity::Critical;
        assert(b.contains(b[i]));
        let j = choose|j: int| 0 <= j < a.len() && a[j] == b[i];
        assert(a[j].severity == Severity::Critical);
    }
    if has_secret(a) {
        let i = choose|i: int| 0 <= i < a.len() && #[trigger] a[i].category == FindingCategory::SecretLeak;
        assert(a.contains(a[i]));
        let j = choose|j: int| 0 <= j < b.len() && b[j] == a[i];
        assert(b[j].category == FindingCategory::SecretLeak);
    }
    if has_secret(b) {
        let i = choose|i: int| 0 <= i < b.len() && #[trigger] b[i].category == FindingCategory::SecretLeak;
        assert(b.contains(b[i]));
        let j = choose|j: int| 0 <= j < a.len() && a[j] == b[i];
        assert(a[j].category == FindingCategory::SecretLeak);
    }
}

/// The errors among the findings, in order.
proof fn lemma_error_count_is_filter(f: Seq<Finding>)
    ensures
        error_count(f) == f.filter(|x: Finding| x.severity == Severity::Error).len(),
    decreases f.len(),
{
    reveal(Seq::filter);
    if f.len() > 0 {
        lemma_error_count_is_filter(f.drop_last());
    }
}

/// Without critical findings and leaked secrets the score and the number of
/// error findings decide: below the threshold, review; more than five errors,
/// quarantine; one to five errors, or a score less than 1000 above the
/// threshold, review; otherwise allow.
pub proof fn law_threshold_outcomes(f: Seq<Finding>, score: u32, threshold: u32)
    requires
        forall|i: int|
            0 <= i < f.len() ==> #[trigger] f[i].severity != Severity::Critical
                && f[i].category != FindingCategory::SecretLeak,
    ensures
        ({
            let errors = f.filter(|x: Finding| x.severity == Severity::Error).len();
            let d = threshold_decision(f, score, threshold);
            &&& score < threshold ==> d == GovernanceDecision::NeedsReview
            &&& score >= threshold && errors > 5 ==> d == GovernanceDecision::Quarantine
            &&& score >= threshold && 0 < errors <= 5 ==> d == GovernanceDecision::NeedsReview
            &&& score >= threshold && errors == 0 && score < threshold + 1000 ==> d
                == GovernanceDecision::NeedsReview
            &&& errors == 0 && score >= threshold + 1000 ==> d == GovernanceDecision::Allow
        }),
{
    lemma_error_count_is_filter(f);
    if has_secret(f) {
        let i = choose|i: int| 0 <= i < f.len() && #[trigger] f[i].category == FindingCategory::SecretLeak;
        assert(f[i].severity != Severity::Critical);
    }
    assert(!has_critical(f));
}

} // verus!
