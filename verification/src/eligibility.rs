//! Ranking eligibility: no result is ranked unless every gate passes.

use vstd::prelude::*;

use crate::batch::BatchClassification;
use crate::json::JsonValue;

verus! {

/// The seven gates that must all pass before a result may be ranked.
#[derive(Clone, Copy, Debug, Eq, PartialEq, Structural)]
pub struct EligibilityGates {
    /// Coverage evidence was recorded and no unsupported mechanic was exercised.
    pub coverage: bool,
    /// Competitor policies were bound to the pinned decks and engine.
    pub design: bool,
    /// The game reached a finished public terminal.
    pub execution: bool,
    /// Every committed action was engine-issued.
    pub legality: bool,
    /// Manifest identity, seed, engine version, and authority hash are pinned.
    pub pinned_input: bool,
    /// Authoritative replay reproduced the transcript and hashes.
    pub replay: bool,
    /// A classified report was produced.
    pub reporting: bool,
}

/// Why a result stays unranked or a gate failed, in canonical order.
#[derive(Clone, Copy, Debug, Eq, Ord, PartialEq, PartialOrd, Structural)]
pub enum EligibilityReason {
    /// Coverage evidence is missing or an unsupported mechanic was exercised.
    CoverageFailed,
    /// Policies were not bound to the pinned decks and engine.
    DesignFailed,
    /// The game did not finish.
    ExecutionFailed,
    /// A non-engine action was applied.
    LegalityFailed,
    /// Supported rules are still a partial slice.
    PartialRules,
    /// Manifest identity, seed, engine version, or authority hash is missing.
    PinnedInputFailed,
    /// Replay diverged or was not verified.
    ReplayFailed,
    /// The result was not reported.
    ReportingFailed,
    /// Raw manifests are not independently verified official authority.
    UnverifiedAuthority,
}

/// The position of a reason in the canonical (declaration) order.
pub open spec fn reason_rank(reason: EligibilityReason) -> int {
    match reason {
        EligibilityReason::CoverageFailed => 0,
        EligibilityReason::DesignFailed => 1,
        EligibilityReason::ExecutionFailed => 2,
        EligibilityReason::LegalityFailed => 3,
        EligibilityReason::PartialRules => 4,
        EligibilityReason::PinnedInputFailed => 5,
        EligibilityReason::ReplayFailed => 6,
        EligibilityReason::ReportingFailed => 7,
        EligibilityReason::UnverifiedAuthority => 8,
    }
}

/// Repository policy for which blocking reasons apply before ranking.
#[derive(Clone, Copy, Debug, Eq, PartialEq, Structural)]
pub struct EligibilityPolicy {
    /// Whether the supported rules catalog is treated as complete.
    pub rules_complete: bool,
    /// Whether manifests are bound to independently verified official authority.
    pub authority_verified: bool,
}

/// Integer-canonical eligibility verdict.
#[derive(Debug, Eq, PartialEq)]
pub struct EligibilityReport {
    /// Ranked/public result classification.
    pub classification: BatchClassification,
    /// Individual gates.
    pub gates: EligibilityGates,
    /// True only when every gate passes and no blocking reason remains.
    pub ranked: bool,
    /// Stable blocking reasons in canonical order.
    pub reasons: Vec<EligibilityReason>,
}

impl Clone for EligibilityReport {
    fn clone(&self) -> (r: Self)
        ensures
            same_report(r, *self),
    {
        let mut reasons: Vec<EligibilityReason> = Vec::new();
        let mut i: usize = 0;
        while i < self.reasons.len()
            invariant
                i <= self.reasons@.len(),
                reasons@ == self.reasons@.subrange(0, i as int),
            decreases self.reasons@.len() - i,
        {
            reasons.push(self.reasons[i]);
            i = i + 1;
            assert(reasons@ =~= self.reasons@.subrange(0, i as int));
        }
        assert(reasons@ =~= self.reasons@);
        EligibilityReport {
            classification: self.classification,
            gates: self.gates,
            ranked: self.ranked,
            reasons,
        }
    }
}

/// Whether two verdicts agree field by field.
pub open spec fn same_report(a: EligibilityReport, b: EligibilityReport) -> bool {
    a.classification == b.classification && a.gates == b.gates && a.ranked == b.ranked
        && a.reasons@ == b.reasons@
}

/// Whether `report` is the verdict on `gates` under the current repository policy.
pub open spec fn evaluated(report: EligibilityReport, gates: EligibilityGates) -> bool {
    report.gates == gates && !report.ranked && report.reasons@ == blocking_reasons(
        gates,
        EligibilityPolicy { rules_complete: false, authority_verified: false },
    ) && report.classification == BatchClassification::UnrankedPartialRulesUnverifiedAuthority
}

/// Whether every gate passed.
pub open spec fn all_gates_passed(gates: EligibilityGates) -> bool {
    gates.coverage && gates.design && gates.execution && gates.legality && gates.pinned_input
        && gates.replay && gates.reporting
}

/// `reason` when `present`, otherwise nothing.
pub open spec fn reason_if(present: bool, reason: EligibilityReason) -> Seq<EligibilityReason> {
    if present {
        seq![reason]
    } else {
        Seq::empty()
    }
}

/// Every blocking reason for `gates` under `policy`, in canonical order.
pub open spec fn blocking_reasons(gates: EligibilityGates, policy: EligibilityPolicy) -> Seq<
    EligibilityReason,
> {
    reason_if(!gates.coverage, EligibilityReason::CoverageFailed) + reason_if(
        !gates.design,
        EligibilityReason::DesignFailed,
    ) + reason_if(!gates.execution, EligibilityReason::ExecutionFailed) + reason_if(
        !gates.legality,
        EligibilityReason::LegalityFailed,
    ) + reason_if(!policy.rules_complete, EligibilityReason::PartialRules) + reason_if(
        !gates.pinned_input,
        EligibilityReason::PinnedInputFailed,
    ) + reason_if(!gates.replay, EligibilityReason::ReplayFailed) + reason_if(
        !gates.reporting,
        EligibilityReason::ReportingFailed,
    ) + reason_if(!policy.authority_verified, EligibilityReason::UnverifiedAuthority)
}

/// The public classification of a verdict.
pub open spec fn classification_spec(policy: EligibilityPolicy, ranked: bool) -> BatchClassification {
    if ranked {
        BatchClassification::Ranked
    } else if policy.rules_complete {
        BatchClassification::UnrankedUnverifiedAuthority
    } else {
        BatchClassification::UnrankedPartialRulesUnverifiedAuthority
    }
}

impl EligibilityGates {
    /// Returns whether every gate passed.
    pub fn all_passed(self) -> (r: bool)
        ensures
            r == all_gates_passed(self),
    {
        self.coverage && self.design && self.execution && self.legality && self.pinned_input
            && self.replay && self.reporting
    }
}

/// The current repository policy: the rules catalog is partial and manifest
/// authority is unverified, so nothing can be ranked yet.
pub fn current_eligibility_policy() -> (r: EligibilityPolicy)
    ensures
        r == (EligibilityPolicy { rules_complete: false, authority_verified: false }),
{
    EligibilityPolicy { rules_complete: false, authority_verified: false }
}

/// Returns the conservative policy for one manifest.
///
/// A caller-supplied mode, content hash, or hash file cannot prove that the
/// manifest's rules and card facts match independently verified authority,
/// so results stay unranked until that verification is bound to the inputs.
pub fn eligibility_policy_for_manifest(manifest: &JsonValue) -> (r: EligibilityPolicy)
    ensures
        r == (EligibilityPolicy { rules_complete: false, authority_verified: false }),
{
    current_eligibility_policy()
}

/// Returns the conservative policy for manifest batches, including empty ones.
///
/// A caller-supplied mode, content hash, or hash file cannot prove that the
/// manifest's rules and card facts match independently verified authority.
pub fn eligibility_policy_for_manifest_jsons(manifest_jsons: &[&str]) -> (r: EligibilityPolicy)
    ensures
        r == (EligibilityPolicy { rules_complete: false, authority_verified: false }),
{
    current_eligibility_policy()
}

/// Evaluates the gates under the current repository policy.
pub fn evaluate_eligibility(gates: EligibilityGates) -> (r: EligibilityReport)
    ensures
        r.gates == gates,
        !r.ranked,
        r.reasons@ == blocking_reasons(
            gates,
            EligibilityPolicy { rules_complete: false, authority_verified: false },
        ),
        r.classification == BatchClassification::UnrankedPartialRulesUnverifiedAuthority,
{
    evaluate_eligibility_with_policy(gates, current_eligibility_policy())
}

/// Whether reasons appear in strictly increasing canonical order.
pub open spec fn reasons_sorted(s: Seq<EligibilityReason>) -> bool {
    forall|i: int, j: int|
        0 <= i < j < s.len() ==> reason_rank(#[trigger] s[i]) < reason_rank(#[trigger] s[j])
}

/// Whether every reason ranks below `bound`.
pub open spec fn reasons_below(s: Seq<EligibilityReason>, bound: int) -> bool {
    forall|i: int| 0 <= i < s.len() ==> reason_rank(#[trigger] s[i]) < bound
}

fn push_reason_if(reasons: &mut Vec<EligibilityReason>, present: bool, reason: EligibilityReason)
    requires
        reasons_sorted(old(reasons)@),
        reasons_below(old(reasons)@, reason_rank(reason)),
    ensures
        final(reasons)@ == old(reasons)@ + reason_if(present, reason),
        reasons_sorted(final(reasons)@),
        reasons_below(final(reasons)@, reason_rank(reason) + 1),
{
    if present {
        reasons.push(reason);
    }
    assert(final(reasons)@ =~= old(reasons)@ + reason_if(present, reason)) by {
        if present {
        }
    }
}

/// Evaluates the gates under an explicit policy.
pub fn evaluate_eligibility_with_policy(gates: EligibilityGates, policy: EligibilityPolicy) -> (r:
    EligibilityReport)
    ensures
        r.gates == gates,
        r.reasons@ == blocking_reasons(gates, policy),
        r.ranked == (all_gates_passed(gates) && policy.rules_complete && policy.authority_verified),
        r.ranked ==> all_gates_passed(gates),
        r.ranked <==> r.reasons@.len() == 0,
        r.classification == classification_spec(policy, r.ranked),
        forall|i: int, j: int|
            0 <= i < j < r.reasons@.len() ==> reason_rank(#[trigger] r.reasons@[i]) < reason_rank(
                #[trigger] r.reasons@[j],
            ),
{
    let mut reasons: Vec<EligibilityReason> = Vec::new();
    push_reason_if(&mut reasons, !gates.coverage, EligibilityReason::CoverageFailed);
    push_reason_if(&mut reasons, !gates.design, EligibilityReason::DesignFailed);
    push_reason_if(&mut reasons, !gates.execution, EligibilityReason::ExecutionFailed);
    push_reason_if(&mut reasons, !gates.legality, EligibilityReason::LegalityFailed);
    push_reason_if(&mut reasons, !policy.rules_complete, EligibilityReason::PartialRules);
    push_reason_if(&mut reasons, !gates.pinned_input, EligibilityReason::PinnedInputFailed);
    push_reason_if(&mut reasons, !gates.replay, EligibilityReason::ReplayFailed);
    push_reason_if(&mut reasons, !gates.reporting, EligibilityReason::ReportingFailed);
    push_reason_if(
        &mut reasons,
        !policy.authority_verified,
        EligibilityReason::UnverifiedAuthority,
    );
    assert(reasons@ =~= blocking_reasons(gates, policy));
    let ranked = gates.all_passed() && reasons.len() == 0;
    EligibilityReport {
        classification: classification_for_policy(policy, ranked),
        gates,
        ranked,
        reasons,
    }
}

fn classification_for_policy(policy: EligibilityPolicy, ranked: bool) -> (r: BatchClassification)
    ensures
        r == classification_spec(policy, ranked),
{
    if ranked {
        return BatchClassification::Ranked;
    }
    if policy.rules_complete {
        BatchClassification::UnrankedUnverifiedAuthority
    } else {
        BatchClassification::UnrankedPartialRulesUnverifiedAuthority
    }
}

} // verus!
