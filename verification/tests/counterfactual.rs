use sorcery_engine::contract::Seat;
use sorcery_engine::counterfactual::{
    preferred_branch, terminal_score, MAX_CONTINUATION_ACTIONS, MAX_ROOT_ACTIONS,
};
use sorcery_engine::json::{JsonMember, JsonNumber, JsonValue};

fn object(members: Vec<(&str, JsonValue)>) -> JsonValue {
    JsonValue::Object(
        members
            .into_iter()
            .map(|(key, value)| JsonMember {
                key: key.to_owned(),
                value,
            })
            .collect(),
    )
}

fn branch(score: i64, decisions: u64) -> JsonValue {
    let score = if score < 0 {
        JsonNumber::NegInt(score)
    } else {
        JsonNumber::PosInt(score as u64)
    };
    object(vec![
        ("decisionCount", JsonValue::Number(JsonNumber::PosInt(decisions))),
        ("score", JsonValue::Number(score)),
    ])
}

#[test]
fn terminals_score_wins_losses_and_draws() {
    let north_won = object(vec![
        ("status", JsonValue::String("finished".to_owned())),
        ("winner", JsonValue::String("north".to_owned())),
    ]);
    assert_eq!(terminal_score(&north_won, Seat::North), 1);
    assert_eq!(terminal_score(&north_won, Seat::South), -1);
    let draw = object(vec![
        ("result", JsonValue::String("draw".to_owned())),
        ("status", JsonValue::String("finished".to_owned())),
    ]);
    assert_eq!(terminal_score(&draw, Seat::North), 0);
    assert_eq!(terminal_score(&draw, Seat::South), 0);
    assert_eq!(terminal_score(&JsonValue::Null, Seat::South), -1);
}

#[test]
fn recommendation_prefers_score_then_fast_wins_and_slow_losses() {
    assert_eq!(preferred_branch(&[]), None);
    assert_eq!(preferred_branch(&[branch(-1, 3)]), Some(0));
    assert_eq!(preferred_branch(&[branch(-1, 3), branch(0, 9), branch(1, 7)]), Some(2));
    assert_eq!(preferred_branch(&[branch(1, 7), branch(1, 4), branch(1, 5)]), Some(1));
    assert_eq!(preferred_branch(&[branch(-1, 2), branch(-1, 6), branch(-1, 4)]), Some(1));
    assert_eq!(preferred_branch(&[branch(0, 2), branch(0, 6)]), Some(0));
    assert_eq!(preferred_branch(&[branch(1, 4), branch(1, 4)]), Some(0));
    assert_eq!(MAX_ROOT_ACTIONS, 128);
    assert_eq!(MAX_CONTINUATION_ACTIONS, 32);
}
