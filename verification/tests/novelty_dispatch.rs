use sorcery_engine::canonical::{canonical_json, IdentityHash};
use sorcery_engine::contract::RejectionCode;
use sorcery_engine::novelty_dispatch::{
    check_forced_kind, check_forced_prediction, rejection_code_name, select_forced_action,
    sorted_event_types, ForcedNoveltyEntry, ForcedNoveltyInput,
};

fn hash(digit: char) -> IdentityHash {
    IdentityHash::parse(&format!("sha256:{}", digit.to_string().repeat(64))).expect("hash")
}

fn texts(values: &[&str]) -> Vec<String> {
    values.iter().map(|value| (*value).to_owned()).collect()
}

#[test]
fn event_types_are_sorted_and_unique() {
    assert_eq!(
        sorted_event_types(&texts(&["b", "a", "b", "c", "a"])),
        texts(&["a", "b", "c"])
    );
    assert!(sorted_event_types(&Vec::new()).is_empty());
}

#[test]
fn entries_keep_the_forced_action_and_sorted_events() {
    let entry = ForcedNoveltyEntry::new(
        hash('a'),
        "end-turn".to_owned(),
        &texts(&["turn-ended", "card-drawn", "turn-ended"]),
        hash('b'),
    );
    assert_eq!(entry.action_id(), &hash('a'));
    assert_eq!(entry.action_kind(), "end-turn");
    assert_eq!(entry.event_types(), texts(&["card-drawn", "turn-ended"]).as_slice());
    assert_eq!(entry.state_hash(), &hash('b'));
}

#[test]
fn the_forced_action_must_be_issued_exactly_once() {
    let issued = vec![hash('a'), hash('b'), hash('a')];
    assert_eq!(select_forced_action(&issued, hash('b').as_str()), Ok(1));
    assert_eq!(
        select_forced_action(&issued, hash('a').as_str()),
        Err("forced novelty action is stale")
    );
    assert_eq!(
        select_forced_action(&issued, hash('c').as_str()),
        Err("forced novelty action is stale")
    );
}

#[test]
fn kinds_and_predictions_are_checked() {
    assert_eq!(check_forced_kind(Some("draw"), "draw"), Ok(()));
    assert_eq!(
        check_forced_kind(Some("draw"), "end-turn"),
        Err("forced novelty action kind changed")
    );
    assert_eq!(
        check_forced_kind(None, "draw"),
        Err("forced novelty action omitted kind")
    );
    let predicted = texts(&["card-drawn"]);
    let predicted_hash = hash('b');
    let input = ForcedNoveltyInput {
        action_id: "ignored",
        action_kind: "draw",
        max_actions: 4,
        predicted_event_types: &predicted,
        predicted_state_hash: predicted_hash.as_str(),
    };
    assert_eq!(check_forced_prediction(&hash('b'), &predicted, &input), Ok(()));
    assert_eq!(
        check_forced_prediction(&hash('c'), &predicted, &input),
        Err("forced novelty prediction did not replay exactly")
    );
    assert_eq!(
        check_forced_prediction(&hash('b'), &texts(&["card-drawn", "x"]), &input),
        Err("forced novelty prediction did not replay exactly")
    );
    let invalid = ForcedNoveltyInput {
        predicted_state_hash: "sha256:nope",
        ..input
    };
    assert_eq!(
        check_forced_prediction(&hash('b'), &predicted, &invalid),
        Err("forced novelty predictedStateHash is invalid")
    );
    assert_eq!(rejection_code_name(RejectionCode::WrongSeat), "wrong_seat");
    assert_eq!(rejection_code_name(RejectionCode::StaleVersion), "stale_version");
}

#[test]
fn entries_materialize_as_canonical_objects() {
    let entry = ForcedNoveltyEntry::new(
        hash('a'),
        "end-turn".to_owned(),
        &texts(&["turn-ended", "card-drawn"]),
        hash('b'),
    );
    let text = canonical_json(&entry.to_value()).expect("canonical entry");
    assert_eq!(
        text,
        format!(
            "{{\"actionId\":\"sha256:{}\",\"actionKind\":\"end-turn\",\"eventTypes\":[\"card-drawn\",\"turn-ended\"],\"stateHash\":\"sha256:{}\"}}",
            "a".repeat(64),
            "b".repeat(64)
        )
    );
}
