//! Evaluating a commit end to end: load it, collect findings, decide, and
//! append a hash-chained record of the decision.

use vstd::prelude::*;
use vstd::utf8::encode_utf8;
use crate::gdid::le_bytes;
use crate::primitives::blake3_hash;
use crate::governance::types;
use crate::governance::types::{
    AnalysisResult, CanonicalFormatVersion, CommitData, CommitId, EntryModel, Finding,
    GovernanceDecision, Owned, PolicyVersion, owned,
};
use crate::governance::error::GitGovernanceError;
use crate::governance::altai::AltaiCriterionEvaluator;
use crate::governance::policy::PolicyEngine;
use crate::governance::pattern::PatternEngine;
use crate::governance::git_adapter::{GitAdapter, stub_commit};
use crate::governance::pattern::large_binary_findings;
use crate::governance::altai::AltaiCriterionResult;
use crate::governance::evidence::{
    CanonicalHasher, EvidenceBuilder, encoding_header, entry_hash, field_bytes, sort_findings,
};
use crate::governance::evidence_store::{
    InMemoryEvidenceStore, StoreModel, lookup, unique_commits, upsert, law_get_after_append,
    law_append_keeps_others,
};

verus! {

/// The settings governance runs with.
pub struct GovernanceConfig {
    pub policy_version: PolicyVersion,
    pub require_signed_commits: bool,
    pub altai_threshold: u32,
    pub max_diff_size: usize,
}

impl Default for GovernanceConfig {
    /// Policy version `0.1.0`, signed commits required, threshold 7000, diffs
    /// up to 10,000,000 bytes.
    fn default() -> (c: Self)
        ensures
            c.policy_version.0@ == "0.1.0"@,
            c.require_signed_commits,
            c.altai_threshold == 7000,
            c.max_diff_size == 10_000_000,
    {
        GovernanceConfig {
            policy_version: PolicyVersion(String::from_str("0.1.0")),
            require_signed_commits: true,
            altai_threshold: 7000,
            max_diff_size: 10_000_000,
        }
    }
}

/// The canonical encoding of the settings that shape decisions: policy
/// version, whether signatures are required, and the threshold.
pub open spec fn config_encoding(c: GovernanceConfig) -> Seq<u8> {
    encoding_header(CanonicalFormatVersion::V1)
        + field_bytes(1, encode_utf8(c.policy_version.0@))
        + field_bytes(2, seq![if c.require_signed_commits { 1u8 } else { 0u8 }])
        + field_bytes(3, le_bytes(c.altai_threshold as nat, 4))
}

/// The record of a decision, with its hash: the findings in canonical order,
/// the configuration's hash, and the hash of the record before it.
pub open spec fn decision_record(
    commit_id: Seq<char>,
    decision: GovernanceDecision,
    altai_score: u32,
    findings: Seq<Finding>,
    config: GovernanceConfig,
    previous_hash: Option<Seq<u8>>,
) -> EntryModel {
    let e = EntryModel {
        commit_id,
        decision,
        altai_score,
        findings: sort_findings(findings),
        policy_version: config.policy_version.0@,
        config_hash: blake3_hash(config_encoding(config)),
        previous_hash,
        current_hash: Seq::empty(),
    };
    EntryModel { current_hash: entry_hash(e), ..e }
}

/// Loads commits, finds, decides and records.
pub struct CommitEvaluator {
    git_adapter: GitAdapter,
    pattern_engine: PatternEngine,
    altai: Owned<dyn AltaiCriterionEvaluator>,
    policy: Owned<dyn PolicyEngine>,
    evidence_store: InMemoryEvidenceStore,
    config: GovernanceConfig,
}

impl CommitEvaluator {
    /// The records kept so far.
    pub closed spec fn store(&self) -> StoreModel {
        self.evidence_store@
    }

    /// The settings in force.
    pub closed spec fn settings(&self) -> GovernanceConfig {
        self.config
    }

    /// `a` is a result the evaluator's ALTAI criterion may give for `commit`.
    pub closed spec fn criterion_evaluates(&self, commit: CommitData, a: AltaiCriterionResult) -> bool {
        self.altai.0.evaluates(commit, a)
    }

    /// `d` is a decision the evaluator's policy may take on `findings` and
    /// `score`.
    pub closed spec fn policy_decides(&self, findings: Seq<Finding>, score: u32, d: GovernanceDecision) -> bool {
        self.policy.0.decides(findings, score, d)
    }

    /// The criterion and the policy of `other` are those of `self`.
    pub open spec fn same_judges(&self, other: &Self) -> bool {
        &&& forall|c: CommitData, a: AltaiCriterionResult|
            #[trigger] other.criterion_evaluates(c, a) == self.criterion_evaluates(c, a)
        &&& forall|f: Seq<Finding>, s: u32, d: GovernanceDecision|
            #[trigger] other.policy_decides(f, s, d) == self.policy_decides(f, s, d)
    }

    /// An evaluator with an empty evidence store.
    pub fn new(
        git_adapter: GitAdapter,
        pattern_engine: PatternEngine,
        altai: Box<dyn AltaiCriterionEvaluator>,
        policy: Box<dyn PolicyEngine>,
        config: GovernanceConfig,
    ) -> (e: Self)
        ensures
            e.store().entries == Seq::<EntryModel>::empty(),
            e.store().last_hash is None,
            unique_commits(e.store().entries),
            e.settings() == config,
            forall|c: CommitData, a: AltaiCriterionResult|
                #[trigger] e.criterion_evaluates(c, a) == altai.evaluates(c, a),
            forall|f: Seq<Finding>, s: u32, d: GovernanceDecision|
                #[trigger] e.policy_decides(f, s, d) == policy.decides(f, s, d),
    {
        let altai = owned(altai);
        let policy = owned(policy);
        CommitEvaluator {
            git_adapter,
            pattern_engine,
            altai,
            policy,
            evidence_store: InMemoryEvidenceStore::new(),
            config,
        }
    }

    /// Evaluates a commit: loads it, runs the pattern rules and the ALTAI
    /// criterion, lets the policy decide, and records the decision. What the
    /// criterion and the policy return is theirs to say; whatever they
    /// return, the decision, score and findings handed back are the ones
    /// recorded, and the record is chained to the one appended before it.
    pub fn evaluate(&mut self, repo_path: &str, commit_oid: &str) -> (r: Result<
        AnalysisResult,
        GitGovernanceError,
    >)
        ensures
            r matches Ok(res) && {
                let e = decision_record(
                    commit_oid@,
                    res.decision,
                    res.altai_score,
                    res.findings@,
                    old(self).settings(),
                    old(self).store().last_hash,
                );
                &&& exists|c: CommitData, a: AltaiCriterionResult|
                    #![trigger old(self).criterion_evaluates(c, a)]
                    stub_commit(c, commit_oid@) && old(self).criterion_evaluates(c, a)
                    && res.findings@ == large_binary_findings(c.diff@) + a.findings@
                    && res.altai_score == a.score
                    && old(self).policy_decides(res.findings@, a.score, res.decision)
                &&& unique_commits(old(self).store().entries)
                &&& final(self).store().entries == upsert(old(self).store().entries, e)
                &&& lookup(final(self).store().entries, commit_oid@) == Some(e)
                &&& final(self).store().last_hash == Some(e.current_hash)
                &&& unique_commits(final(self).store().entries)
                &&& final(self).settings() == old(self).settings()
                &&& old(self).same_judges(&*final(self))
            },
    {
        let commit = match self.git_adapter.load_commit(repo_path, commit_oid) {
            Ok(c) => c,
            Err(e) => {
                return Err(e);
            },
        };
        proof { use_type_invariant(&self.evidence_store); }
        let pattern_findings = self.pattern_engine.check_commit(&commit);
        let altai_result = self.altai.0.evaluate(&commit);
        let mut all_findings = pattern_findings;
        let mut altai_findings = altai_result.findings;
        all_findings.append(&mut altai_findings);
        let decision = self.policy.0.decide(all_findings.as_slice(), altai_result.score);
        let ghost a = altai_result;
        let res = self.record(&commit, all_findings, altai_result.score, decision);
        proof {
            assert(old(self).criterion_evaluates(commit, a));
            let e = decision_record(
                commit_oid@,
                res.decision,
                res.altai_score,
                res.findings@,
                old(self).settings(),
                old(self).store().last_hash,
            );
            law_get_after_append(old(self).store().entries, e);
        }
        Ok(res)
    }

    /// Records the decision on a loaded commit with its score and findings,
    /// chained to the last record, and returns the outcome.
    pub fn record(
        &mut self,
        commit: &CommitData,
        findings: Vec<Finding>,
        altai_score: u32,
        decision: GovernanceDecision,
    ) -> (r: AnalysisResult)
        ensures
            r.decision == decision,
            r.altai_score == altai_score,
            r.findings@ == findings@,
            ({
                let e = decision_record(
                    commit.metadata.oid@,
                    decision,
                    altai_score,
                    findings@,
                    old(self).settings(),
                    old(self).store().last_hash,
                );
                &&& final(self).store().entries == upsert(old(self).store().entries, e)
                &&& lookup(final(self).store().entries, commit.metadata.oid@) == Some(e)
                &&& final(self).store().last_hash == Some(e.current_hash)
                &&& unique_commits(final(self).store().entries)
            }),
            unique_commits(old(self).store().entries),
            final(self).settings() == old(self).settings(),
            old(self).same_judges(&*final(self)),
    {
        proof { use_type_invariant(&self.evidence_store); }
        let config_hash = self.compute_config_hash();
        let previous_hash = self.evidence_store.last_hash();
        let policy_version = self.config.policy_version.clone();
        let entry = EvidenceBuilder::build(
            CommitId(commit.metadata.oid.clone()),
            decision,
            altai_score,
            types::clone_findings(&findings),
            policy_version,
            config_hash,
            previous_hash,
        );
        let ghost em = entry@;
        let _ = self.evidence_store.append(entry);
        proof { law_get_after_append(old(self).store().entries, em); }
        AnalysisResult { decision, findings, altai_score }
    }

    /// The hash of the settings that shape decisions.
    pub fn compute_config_hash(&self) -> (h: types::Hash)
        ensures
            h.0@ == blake3_hash(config_encoding(self.settings())),
    {
        let mut hasher = CanonicalHasher::new(CanonicalFormatVersion::V1);
        hasher.write_str(1, self.config.policy_version.0.as_str());
        hasher.write_bool(2, self.config.require_signed_commits);
        hasher.write_u32(3, self.config.altai_threshold);
        assert(hasher@ =~= config_encoding(self.config));
        hasher.finalize()
    }
}

/// Records chain: after the record of one commit and then the record of
/// another, the second's previous hash is the first's hash, and reading either
/// back gives the record stored for it.
pub proof fn law_records_chain(store: StoreModel, first: EntryModel, second: EntryModel)
    requires
        unique_commits(store.entries),
        first.commit_id != second.commit_id,
        second.previous_hash == Some(first.current_hash),
    ensures
        ({
            let after = upsert(upsert(store.entries, first), second);
            &&& lookup(after, second.commit_id) == Some(second)
            &&& lookup(after, first.commit_id) == Some(first)
            &&& lookup(after, second.commit_id).unwrap().previous_hash == Some(
                lookup(after, first.commit_id).unwrap().current_hash,
            )
        }),
{
    law_get_after_append(store.entries, first);
    law_get_after_append(upsert(store.entries, first), second);
    law_append_keeps_others(upsert(store.entries, first), second, first.commit_id);
}

} // verus!
