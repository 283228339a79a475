use sorcery_engine::batch::BatchClassification;
use sorcery_engine::json::{JsonMember, JsonValue};
use sorcery_engine::eligibility::{
    eligibility_policy_for_manifest, eligibility_policy_for_manifest_jsons, evaluate_eligibility, evaluate_eligibility_with_policy,
    EligibilityGates, EligibilityPolicy, EligibilityReason,
};

fn all_gates() -> EligibilityGates {
    EligibilityGates {
        coverage: true,
        design: true,
        execution: true,
        legality: true,
        pinned_input: true,
        replay: true,
        reporting: true,
    }
}

#[test]
fn passing_gates_cannot_certify_incomplete_rules_or_unverified_authority() {
    let report = evaluate_eligibility(EligibilityGates {
        coverage: true,
        design: true,
        execution: true,
        legality: true,
        pinned_input: true,
        replay: true,
        reporting: true,
    });
    assert!(!report.ranked);
    assert!(report.gates.all_passed());
    assert_eq!(
        report.reasons,
        [
            EligibilityReason::PartialRules,
            EligibilityReason::UnverifiedAuthority
        ]
    );
    assert_eq!(
        report.classification,
        BatchClassification::UnrankedPartialRulesUnverifiedAuthority
    );
}

#[test]
fn complete_rules_alone_do_not_verify_authority() {
    let report = evaluate_eligibility_with_policy(
        EligibilityGates {
            coverage: true,
            design: true,
            execution: true,
            legality: true,
            pinned_input: true,
            replay: true,
            reporting: true,
        },
        EligibilityPolicy {
            rules_complete: true,
            authority_verified: false,
        },
    );
    assert!(!report.ranked);
    assert_eq!(report.reasons, [EligibilityReason::UnverifiedAuthority]);
    assert_eq!(
        report.classification,
        BatchClassification::UnrankedUnverifiedAuthority
    );
}

#[test]
fn verified_authority_and_passing_gates_rank() {
    let report = evaluate_eligibility_with_policy(
        EligibilityGates {
            coverage: true,
            design: true,
            execution: true,
            legality: true,
            pinned_input: true,
            replay: true,
            reporting: true,
        },
        EligibilityPolicy {
            rules_complete: true,
            authority_verified: true,
        },
    );
    assert!(report.ranked);
    assert!(report.reasons.is_empty());
    assert_eq!(report.classification, BatchClassification::Ranked);
}

#[test]
fn empty_or_invalid_manifest_batches_cannot_verify_authority() {
    assert!(!eligibility_policy_for_manifest_jsons(&[]).authority_verified);
    assert!(!eligibility_policy_for_manifest_jsons(&["not JSON"]).authority_verified);
    let policy = eligibility_policy_for_manifest(&JsonValue::Null);
    assert!(!policy.authority_verified);
    assert!(!policy.rules_complete);
}

#[test]
fn failed_replay_is_an_explicit_blocking_reason() {
    let report = evaluate_eligibility(EligibilityGates {
        coverage: true,
        design: true,
        execution: true,
        legality: true,
        pinned_input: true,
        replay: false,
        reporting: true,
    });
    assert!(!report.ranked);
    assert!(!report.gates.replay);
    assert!(report.reasons.contains(&EligibilityReason::ReplayFailed));
    assert_eq!(
        report.classification,
        BatchClassification::UnrankedPartialRulesUnverifiedAuthority
    );
}

#[test]
fn blocking_reasons_are_reported_in_rank_order() {
    let mut gates = all_gates();
    gates.reporting = false;
    gates.coverage = false;
    let report = evaluate_eligibility_with_policy(
        gates,
        EligibilityPolicy {
            rules_complete: true,
            authority_verified: true,
        },
    );
    assert!(!report.ranked);
    let mut sorted = report.reasons.clone();
    sorted.sort();
    assert_eq!(report.reasons, sorted);
    assert_eq!(report.reasons.len(), 2);
}

fn authority_manifest(content_hash: &str, mode: &str) -> JsonValue {
    let member = |key: &str, value: JsonValue| JsonMember {
        key: key.to_owned(),
        value,
    };
    JsonValue::Object(vec![member(
        "authority",
        JsonValue::Object(vec![
            member("contentHash", JsonValue::String(content_hash.to_owned())),
            member("mode", JsonValue::String(mode.to_owned())),
        ]),
    )])
}

#[test]
fn private_local_fixture_hash_cannot_verify_authority() {
    let policy = eligibility_policy_for_manifest(&authority_manifest(
        "sha256:2222222222222222222222222222222222222222222222222222222222222222",
        "private-local",
    ));
    assert!(!policy.authority_verified);
}

#[test]
fn synthetic_manifest_keeps_unverified_authority_policy() {
    let policy = eligibility_policy_for_manifest(&authority_manifest(
        "sha256:1111111111111111111111111111111111111111111111111111111111111111",
        "synthetic",
    ));
    assert!(!policy.authority_verified);
}

#[test]
fn synthetic_manifest_rejects_fixture_hash() {
    let policy = eligibility_policy_for_manifest(&authority_manifest(
        "sha256:2222222222222222222222222222222222222222222222222222222222222222",
        "synthetic",
    ));
    assert!(!policy.authority_verified);
}

#[test]
fn private_local_manifest_rejects_arbitrary_hash() {
    let policy = eligibility_policy_for_manifest(&authority_manifest(
        "sha256:1111111111111111111111111111111111111111111111111111111111111111",
        "private-local",
    ));
    assert!(!policy.authority_verified);
}
