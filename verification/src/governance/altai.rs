//! Assessment against the ALTAI trustworthy-AI criteria.

use vstd::prelude::*;
use crate::governance::types::{CommitData, Finding, Owned, owned};

verus! {

/// The score and findings of one criterion.
pub struct AltaiCriterionResult {
    pub criterion: AltaiCriterion,
    pub score: u32,
    pub findings: Vec<Finding>,
}

/// The seven ALTAI criteria.
#[derive(Debug, Clone, Copy, PartialEq, Eq, PartialOrd, Ord, Structural)]
pub enum AltaiCriterion {
    HumanAgency,
    TechnicalRobustness,
    Privacy,
    Transparency,
    Fairness,
    SocialWellbeing,
    Accountability,
}

/// Evaluates a commit against one criterion.
pub trait AltaiCriterionEvaluator: Send + Sync {
    /// `r` is a result this evaluator may give for `commit`.
    spec fn evaluates(&self, commit: CommitData, r: AltaiCriterionResult) -> bool;

    fn criterion(&self) -> AltaiCriterion;

    fn evaluate(&self, commit: &CommitData) -> (r: AltaiCriterionResult)
        ensures
            self.evaluates(*commit, r),
    ;
}

/// Combines the results of several criteria.
pub trait AltaiAggregator: Send + Sync {
    /// `r` is a combination this aggregator may give for `results`.
    spec fn aggregates(&self, results: Seq<AltaiCriterionResult>, r: AltaiResult) -> bool;

    fn aggregate(&self, results: &[AltaiCriterionResult]) -> (r: AltaiResult)
        ensures
            self.aggregates(results@, r),
    ;
}

/// A combined score and the findings behind it.
pub struct AltaiResult {
    pub score: u32,
    pub findings: Vec<Finding>,
}

/// Criteria evaluated one after another and then aggregated.
pub struct AltaiComposite {
    criteria: Vec<Box<dyn AltaiCriterionEvaluator>>,
    aggregator: Owned<dyn AltaiAggregator>,
}

impl AltaiComposite {
    /// The criteria, in the order they are evaluated.
    pub closed spec fn criteria(&self) -> Seq<Box<dyn AltaiCriterionEvaluator>> {
        self.criteria@
    }

    /// `r` is a combination the composite's aggregator may give for
    /// `results`.
    pub closed spec fn aggregates(&self, results: Seq<AltaiCriterionResult>, r: AltaiResult) -> bool {
        self.aggregator.0.aggregates(results, r)
    }

    /// A composite of these criteria and this aggregator.
    pub fn new(
        criteria: Vec<Box<dyn AltaiCriterionEvaluator>>,
        aggregator: Box<dyn AltaiAggregator>,
    ) -> (c: Self)
        ensures
            c.criteria() == criteria@,
            forall|rs: Seq<AltaiCriterionResult>, r: AltaiResult|
                #[trigger] c.aggregates(rs, r) == aggregator.aggregates(rs, r),
    {
        let aggregator = owned(aggregator);
        AltaiComposite { criteria, aggregator }
    }

    /// Evaluates every criterion in order on the commit and hands all the
    /// results, in that order, to the aggregator, whose answer is returned.
    pub fn evaluate(&self, commit: &CommitData) -> (r: AltaiResult)
        ensures
            exists|rs: Seq<AltaiCriterionResult>|
                #![trigger self.aggregates(rs, r)]
                rs.len() == self.criteria().len()
                && (forall|i: int| 0 <= i < rs.len() ==> #[trigger] self.criteria()[i].evaluates(*commit, rs[i]))
                && self.aggregates(rs, r),
    {
        let mut results: Vec<AltaiCriterionResult> = Vec::new();
        let mut i: usize = 0;
        while i < self.criteria.len()
            invariant
                i <= self.criteria@.len(),
                results@.len() == i,
                forall|j: int| 0 <= j < i ==> #[trigger] self.criteria@[j].evaluates(*commit, results@[j]),
            decreases self.criteria@.len() - i,
        {
            let res = self.criteria[i].evaluate(commit);
            results.push(res);
            i = i + 1;
        }
        let sl = results.as_slice();
        let r = self.aggregator.0.aggregate(sl);
        assert(sl@ == results@);
        assert(self.aggregates(results@, r));
        r
    }
}

} // verus!
