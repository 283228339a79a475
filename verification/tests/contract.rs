use sorcery_engine::canonical::IdentityHash;
use sorcery_engine::contract::{
    accepted_attempt, create_events, create_receipt, create_rejection, opaque_action_id,
    order_legal_actions, rejected_attempt, ActionRequest, AttemptOutcome, LegalAction,
    ReceiptInput, RejectionCode, Seat,
};
use sorcery_engine::json::{JsonMember, JsonNumber, JsonValue};

fn object(members: Vec<(&str, JsonValue)>) -> JsonValue {
    JsonValue::Object(
        members
            .into_iter()
            .map(|(key, value)| JsonMember {
                key: key.to_owned(),
                value,
            })
            .collect(),
    )
}

fn text(value: &str) -> JsonValue {
    JsonValue::String(value.to_owned())
}

fn kind(descriptor: &JsonValue) -> String {
    let JsonValue::Object(members) = descriptor else {
        panic!("descriptor object");
    };
    members
        .iter()
        .find(|member| member.key == "kind")
        .and_then(|member| match &member.value {
            JsonValue::String(kind) => Some(kind.clone()),
            _ => None,
        })
        .expect("action kind")
}

fn action(descriptor: JsonValue) -> LegalAction {
    LegalAction {
        action_id: opaque_action_id("test-v1", Seat::North, 3, &descriptor)
            .expect("valid action identity"),
        label: kind(&descriptor),
        descriptor,
        seat: Seat::North,
        state_version: 3,
    }
}

#[test]
fn opaque_action_id_should_match_existing_contract_vector() {
    let descriptor = object(vec![("kind", text("pass"))]);

    assert_eq!(
        opaque_action_id("test-v1", Seat::North, 3, &descriptor)
            .expect("valid action identity")
            .as_str(),
        "sha256:c6a0779245e80ea05b708f13f579f46c4f0674514b88cab86e8f3b1441ba0a5a"
    );
}

#[test]
fn legal_actions_should_match_existing_descriptor_order() {
    let ordered = order_legal_actions(vec![
        action(object(vec![("kind", text("pass"))])),
        action(object(vec![("kind", text("draw")), ("zone", text("atlas"))])),
    ])
    .expect("valid legal actions");

    assert_eq!(kind(&ordered[0].descriptor), "draw");
    assert_eq!(kind(&ordered[1].descriptor), "pass");
}

#[test]
fn non_integral_descriptors_cannot_be_ordered() {
    let float = object(vec![("kind", JsonValue::Number(JsonNumber::Float(None)))]);
    let ordered = order_legal_actions(vec![LegalAction {
        action_id: IdentityHash::parse(&format!("sha256:{}", "a".repeat(64))).expect("hash"),
        descriptor: float,
        label: "x".to_owned(),
        seat: Seat::South,
        state_version: 1,
    }]);
    assert!(ordered.is_err());
}

#[test]
fn events_are_numbered_and_identified_then_bound_into_a_receipt() {
    let action_id = opaque_action_id("test-v1", Seat::South, 7, &object(vec![]))
        .expect("action identity");
    let events = create_events(
        &action_id,
        2,
        10,
        vec![
            ("card-drawn".to_owned(), object(vec![("count", JsonValue::Number(JsonNumber::PosInt(1)))])),
            ("turn-ended".to_owned(), JsonValue::Null),
        ],
    )
    .expect("events");
    assert_eq!(events.len(), 2);
    assert_eq!(events[0].event_sequence, 10);
    assert_eq!(events[1].event_sequence, 11);
    assert_eq!(events[1].event_type, "turn-ended");
    assert_eq!(events[0].cause.receipt_sequence, 2);
    assert_ne!(events[0].event_id, events[1].event_id);
    let again = create_events(&action_id, 2, 10, vec![("turn-ended".to_owned(), JsonValue::Null)])
        .expect("events");
    assert_ne!(again[0].event_id, events[1].event_id);

    let hash = |digit: char| IdentityHash::parse(&format!("sha256:{}", digit.to_string().repeat(64)));
    let receipt = create_receipt(ReceiptInput {
        action_id: action_id.clone(),
        events,
        next_state_version: 8,
        post_state_hash: hash('b').expect("hash"),
        pre_state_hash: hash('a').expect("hash"),
        random_draws: vec![],
        receipt_sequence: 2,
        seat: Seat::South,
        state_version: 7,
    })
    .expect("receipt");
    assert_eq!(receipt.events.len(), 2);
    assert_eq!(receipt.action_id, action_id);
    assert_eq!(receipt.receipt_id.as_str().len(), 71);
}

#[test]
fn rejections_and_attempts_record_the_checked_state() {
    let state = IdentityHash::parse(&format!("sha256:{}", "d".repeat(64))).expect("hash");
    let rejection = create_rejection(RejectionCode::StaleVersion, 5, state.clone());
    assert_eq!(rejection.code, RejectionCode::StaleVersion);
    assert_eq!(rejection.current_state_version, 5);
    assert_eq!(rejection.current_state_hash, state);
    assert_eq!(rejection.message, "That action belongs to an earlier game state.");
    assert_eq!(
        create_rejection(RejectionCode::TerminalState, 5, state.clone()).message,
        "The game is already over."
    );

    let request = ActionRequest {
        action_id: "unknown".to_owned(),
        seat: Seat::South,
        state_version: 4,
    };
    let receipt = IdentityHash::parse(&format!("sha256:{}", "e".repeat(64))).expect("hash");
    let accepted = accepted_attempt(1, request.clone(), 4, state.clone(), receipt.clone());
    assert_eq!(accepted.outcome, AttemptOutcome::Accepted);
    assert_eq!(accepted.receipt_id, Some(receipt));
    assert_eq!(accepted.reason_code, None);
    assert_eq!(accepted.request, request);
    let rejected = rejected_attempt(2, request, 4, state, RejectionCode::UnknownAction);
    assert_eq!(rejected.outcome, AttemptOutcome::Rejected);
    assert_eq!(rejected.reason_code, Some(RejectionCode::UnknownAction));
    assert_eq!(rejected.receipt_id, None);
    assert_eq!(rejected.attempt_sequence, 2);
}
