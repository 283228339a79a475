use sorcery_engine::batch::{BatchClassification, FinishedStatus, FinishedTerminal, WinReason};
use sorcery_engine::canonical::{CanonicalError, IdentityHash};
use sorcery_engine::contract::{Event, EventCause, Seat};
use sorcery_engine::eligibility::{evaluate_eligibility, EligibilityGates, EligibilityReason};
use sorcery_engine::game_record::{
    compare_replay, event_jsonl, finished_game_eligibility, manifest_authority_hash,
    manifest_version_mismatch, mismatch_report, replay_precheck, validate_artifacts_dir,
    GameCoverage, GameRecord, GameRecordError, ReplayMismatch,
};
use sorcery_engine::json::{JsonMember, JsonNumber, JsonValue};

const ENGINE: &str = "test-engine";

fn object(members: Vec<(&str, JsonValue)>) -> JsonValue {
    JsonValue::Object(
        members
            .into_iter()
            .map(|(key, value)| JsonMember {
                key: key.to_owned(),
                value,
            })
            .collect(),
    )
}

fn text(value: &str) -> JsonValue {
    JsonValue::String(value.to_owned())
}

fn hash_text(digit: char) -> String {
    format!("sha256:{}", digit.to_string().repeat(64))
}

fn hash(digit: char) -> IdentityHash {
    IdentityHash::parse(&hash_text(digit)).expect("identity")
}

fn manifest(engine: &str) -> JsonValue {
    object(vec![
        ("authority", object(vec![("contentHash", text(&hash_text('c')))])),
        ("decks", object(vec![("north", JsonValue::Null), ("south", JsonValue::Null)])),
        ("engineVersion", text(engine)),
        ("manifestId", text(&hash_text('d'))),
        ("schemaVersion", JsonValue::Number(JsonNumber::PosInt(1))),
        ("seed", JsonValue::Number(JsonNumber::PosInt(31))),
    ])
}

fn coverage() -> GameCoverage {
    GameCoverage {
        committed_action_kinds: vec!["summon-minion".to_owned()],
        committed_event_types: vec!["fight-started".to_owned()],
        offered_action_kinds: vec!["end-turn".to_owned()],
    }
}

fn record() -> GameRecord {
    let manifest = manifest(ENGINE);
    let eligibility = finished_game_eligibility(&manifest, &coverage(), true, ENGINE);
    GameRecord {
        accepted_action_count: 3,
        classification: BatchClassification::UnrankedPartialRulesUnverifiedAuthority,
        coverage: coverage(),
        eligibility,
        event_jsonl: String::new(),
        events_hash: hash('e'),
        fight_count: 1,
        final_state_hash: hash('f'),
        manifest,
        manifest_id: hash('d'),
        replay_verified: true,
        schema_version: 1,
        terminal: FinishedTerminal::Win {
            loser: Seat::South,
            reason: WinReason::AvatarDefeated,
            status: FinishedStatus::Finished,
            winner: Seat::North,
        },
        transcript: vec![],
        transcript_hash: hash('a'),
        turn_count: 4,
    }
}

fn outcome(final_state: &str) -> JsonValue {
    object(vec![
        ("eventsHash", text(&hash_text('e'))),
        ("finalStateHash", text(final_state)),
        ("manifestId", text(&hash_text('d'))),
        ("transcriptHash", text(&hash_text('a'))),
    ])
}

#[test]
fn artifact_directories_reject_empty_paths_and_parent_escapes() {
    assert!(validate_artifacts_dir("..").is_err());
    assert!(validate_artifacts_dir("games/../secret").is_err());
    assert!(validate_artifacts_dir("").is_err());
    assert!(validate_artifacts_dir("games/..").is_err());
    assert!(validate_artifacts_dir("../games").is_err());
    assert!(validate_artifacts_dir("games/run-31").is_ok());
    assert!(validate_artifacts_dir("games/..hidden/a..b").is_ok());
    assert!(validate_artifacts_dir("./games/.").is_ok());
    assert_eq!(
        validate_artifacts_dir("").unwrap_err(),
        GameRecordError::Invalid("artifacts directory is empty")
    );
    assert_eq!(
        validate_artifacts_dir("a/../b").unwrap_err().message(),
        "artifacts directory must not contain .."
    );
    assert_eq!(
        GameRecordError::NonTerminal.message(),
        "game record requires a finished session"
    );
}

#[test]
fn event_jsonl_writes_one_canonical_line_per_event() {
    assert_eq!(event_jsonl(&[]).expect("empty"), "");
    let event = Event {
        cause: EventCause {
            action_id: hash('a'),
            receipt_sequence: 2,
        },
        event_id: hash('b'),
        event_sequence: 10,
        payload: object(vec![("z", JsonValue::Bool(true)), ("a", JsonValue::Null)]),
        event_type: "card-drawn".to_owned(),
    };
    let line = format!(
        "{{\"cause\":{{\"actionId\":\"{}\",\"receiptSequence\":2}},\"eventId\":\"{}\",\"eventSequence\":10,\"payload\":{{\"a\":null,\"z\":true}},\"type\":\"card-drawn\"}}\n",
        hash_text('a'),
        hash_text('b')
    );
    let second = Event {
        cause: EventCause {
            action_id: hash('a'),
            receipt_sequence: 2,
        },
        event_id: hash('c'),
        event_sequence: 11,
        payload: JsonValue::Null,
        event_type: "turn-ended".to_owned(),
    };
    let second_line = format!(
        "{{\"cause\":{{\"actionId\":\"{}\",\"receiptSequence\":2}},\"eventId\":\"{}\",\"eventSequence\":11,\"payload\":null,\"type\":\"turn-ended\"}}\n",
        hash_text('a'),
        hash_text('c')
    );
    let jsonl = event_jsonl(&[event, second]).expect("jsonl");
    assert_eq!(jsonl, format!("{line}{second_line}"));
    assert_eq!(jsonl.lines().count(), 2);

    let fractional = Event {
        cause: EventCause {
            action_id: hash('a'),
            receipt_sequence: 1,
        },
        event_id: hash('b'),
        event_sequence: 1,
        payload: JsonValue::Number(JsonNumber::Float(None)),
        event_type: "odd".to_owned(),
    };
    assert_eq!(
        event_jsonl(&[fractional]).unwrap_err(),
        CanonicalError::NonIntegralNumber
    );
}

#[test]
fn saved_manifests_of_another_engine_or_schema_are_classified() {
    assert_eq!(manifest_version_mismatch(&manifest(ENGINE), ENGINE), None);
    assert_eq!(
        manifest_version_mismatch(&manifest("sorcery-core-v0"), ENGINE),
        Some(ReplayMismatch::EngineVersion)
    );
    assert_eq!(
        manifest_version_mismatch(&JsonValue::Null, ENGINE),
        Some(ReplayMismatch::EngineVersion)
    );
    let schema_two = object(vec![
        ("engineVersion", text(ENGINE)),
        ("schemaVersion", JsonValue::Number(JsonNumber::PosInt(2))),
    ]);
    assert_eq!(
        manifest_version_mismatch(&schema_two, ENGINE),
        Some(ReplayMismatch::SchemaVersion)
    );
    let schema_text = object(vec![("engineVersion", text(ENGINE)), ("schemaVersion", text("1"))]);
    assert_eq!(
        manifest_version_mismatch(&schema_text, ENGINE),
        Some(ReplayMismatch::SchemaVersion)
    );
}

#[test]
fn authority_hash_is_read_only_when_valid() {
    assert_eq!(
        manifest_authority_hash(&manifest(ENGINE)).expect("authority").as_str(),
        hash_text('c')
    );
    let invalid = object(vec![("authority", object(vec![("contentHash", text("sha256:ABC"))]))]);
    assert!(manifest_authority_hash(&invalid).is_none());
    let not_object = object(vec![("authority", text(&hash_text('c')))]);
    assert!(manifest_authority_hash(&not_object).is_none());
    assert!(manifest_authority_hash(&JsonValue::Null).is_none());
}

#[test]
fn replay_precheck_reports_version_before_authority() {
    assert!(replay_precheck(&manifest(ENGINE), ENGINE).is_none());
    let engine = replay_precheck(&manifest("sorcery-core-v0"), ENGINE).expect("engine mismatch");
    assert!(!engine.matched);
    assert!(!engine.replay_verified);
    assert_eq!(engine.mismatch, Some(ReplayMismatch::EngineVersion));
    let unbound = object(vec![
        ("engineVersion", text(ENGINE)),
        ("schemaVersion", JsonValue::Number(JsonNumber::PosInt(1))),
    ]);
    let authority = replay_precheck(&unbound, ENGINE).expect("authority mismatch");
    assert_eq!(authority.mismatch, Some(ReplayMismatch::Authority));
    assert_eq!(authority, mismatch_report(ReplayMismatch::Authority));
}

#[test]
fn mismatch_reports_vouch_only_for_reporting() {
    let report = mismatch_report(ReplayMismatch::ReplayRejected);
    assert!(!report.matched);
    assert!(!report.replay_verified);
    assert_eq!(report.schema_version, 1);
    assert_eq!(
        report.classification,
        BatchClassification::UnrankedPartialRulesUnverifiedAuthority
    );
    assert!(!report.eligibility.ranked);
    assert!(report.eligibility.gates.reporting);
    assert!(!report.eligibility.gates.replay);
    assert_eq!(report.eligibility.reasons.len(), 8);
}

#[test]
fn finished_games_pass_every_gate_but_stay_unranked() {
    let report = finished_game_eligibility(&manifest(ENGINE), &coverage(), true, ENGINE);
    assert!(report.gates.all_passed());
    assert!(!report.ranked);
    assert_eq!(
        report.reasons,
        [EligibilityReason::PartialRules, EligibilityReason::UnverifiedAuthority]
    );
    let other_engine = finished_game_eligibility(&manifest(ENGINE), &coverage(), true, "other");
    assert!(!other_engine.gates.pinned_input);
    let empty = GameCoverage {
        committed_action_kinds: vec![],
        committed_event_types: vec![],
        offered_action_kinds: vec![],
    };
    let uncovered = finished_game_eligibility(&JsonValue::Null, &empty, false, ENGINE);
    assert!(!uncovered.gates.coverage);
    assert!(!uncovered.gates.design);
    assert!(!uncovered.gates.pinned_input);
    assert!(!uncovered.gates.replay);
    assert!(uncovered.gates.execution && uncovered.gates.legality && uncovered.gates.reporting);
}

#[test]
fn replay_comparison_matches_and_classifies_hash_mismatches() {
    let record = record();
    let saved = manifest(ENGINE);
    let matched = compare_replay(&record, &saved, &outcome(&hash_text('f')), &hash('e'));
    assert!(matched.matched);
    assert!(matched.replay_verified);
    assert_eq!(matched.mismatch, None);
    assert_eq!(matched.eligibility, record.eligibility);
    assert!(matched.eligibility.gates.all_passed());

    let state = compare_replay(&record, &saved, &outcome(&hash_text('0')), &hash('e'));
    assert!(!state.matched);
    assert_eq!(state.mismatch, Some(ReplayMismatch::FinalStateHash));
    assert!(!state.eligibility.gates.replay);
    assert!(state.eligibility.gates.coverage);

    let events = compare_replay(&record, &saved, &outcome(&hash_text('f')), &hash('9'));
    assert_eq!(events.mismatch, Some(ReplayMismatch::EventsHash));

    let missing = compare_replay(&record, &saved, &JsonValue::Null, &hash('e'));
    assert_eq!(missing.mismatch, Some(ReplayMismatch::ManifestIdentity));

    let unbound = object(vec![("engineVersion", text(ENGINE))]);
    let authority = compare_replay(&record, &unbound, &outcome(&hash_text('f')), &hash('e'));
    assert_eq!(authority.mismatch, Some(ReplayMismatch::Authority));

    let wrong_transcript = object(vec![
        ("eventsHash", text(&hash_text('e'))),
        ("finalStateHash", text(&hash_text('f'))),
        ("manifestId", text(&hash_text('d'))),
        ("transcriptHash", text(&hash_text('b'))),
    ]);
    let transcript = compare_replay(&record, &saved, &wrong_transcript, &hash('e'));
    assert_eq!(transcript.mismatch, Some(ReplayMismatch::TranscriptHash));
}

#[test]
fn outcome_artifact_keeps_the_record_identities() {
    let record = record();
    let artifact = record.outcome_artifact();
    assert_eq!(artifact.accepted_action_count, 3);
    assert_eq!(artifact.fight_count, 1);
    assert_eq!(artifact.turn_count, 4);
    assert_eq!(artifact.events_hash, hash('e'));
    assert_eq!(artifact.final_state_hash, hash('f'));
    assert_eq!(artifact.manifest_id, hash('d'));
    assert_eq!(artifact.transcript_hash, hash('a'));
    assert_eq!(artifact.eligibility, record.eligibility);
    assert_eq!(artifact.terminal, record.terminal);
    assert!(artifact.replay_verified);
    assert_eq!(
        evaluate_eligibility(EligibilityGates {
            coverage: true,
            design: true,
            execution: true,
            legality: true,
            pinned_input: true,
            replay: true,
            reporting: true,
        }),
        artifact.eligibility
    );
}
