use sorcery_engine::canonical::{identity_hash, CanonicalError, IdentityHash};
use sorcery_engine::checkpoint::{
    checkpoint_identity, validate_checkpoint_header, validate_checkpoint_identity,
    validate_checkpoint_size, CheckpointError, GameCheckpoint, GAME_CHECKPOINT_MAX_BYTES,
};
use sorcery_engine::contract::{ActionRequest, Seat};
use sorcery_engine::json::{JsonMember, JsonNumber, JsonValue};

fn object(members: Vec<(&str, JsonValue)>) -> JsonValue {
    JsonValue::Object(
        members
            .into_iter()
            .map(|(key, value)| JsonMember {
                key: key.to_owned(),
                value,
            })
            .collect(),
    )
}

fn text(value: &str) -> JsonValue {
    JsonValue::String(value.to_owned())
}

fn integer(value: u64) -> JsonValue {
    JsonValue::Number(JsonNumber::PosInt(value))
}

fn hash(digit: char) -> IdentityHash {
    IdentityHash::parse(&format!("sha256:{}", digit.to_string().repeat(64))).expect("identity")
}

fn request(action_id: &str, seat: Seat, state_version: u64) -> ActionRequest {
    ActionRequest {
        action_id: action_id.to_owned(),
        seat,
        state_version,
    }
}

fn manifest() -> JsonValue {
    object(vec![("seed", integer(31)), ("engineVersion", text("test-engine"))])
}

fn checkpoint(requests: Vec<ActionRequest>) -> GameCheckpoint {
    let mut checkpoint = GameCheckpoint {
        checkpoint_id: hash('0'),
        expected_session_hash: hash('e'),
        kind: "sorcery-game-checkpoint".to_owned(),
        manifest: manifest(),
        requests,
        schema_version: 1,
    };
    checkpoint.checkpoint_id = checkpoint_identity(&checkpoint).expect("identity");
    checkpoint
}

#[test]
fn checkpoint_identity_is_the_identity_of_its_canonical_body() {
    let checkpoint = checkpoint(vec![
        request("action-1", Seat::North, 0),
        request("action-2", Seat::South, 1),
    ]);
    let body = object(vec![
        ("schemaVersion", integer(1)),
        ("requests", JsonValue::Array(vec![
            object(vec![
                ("stateVersion", integer(0)),
                ("seat", text("north")),
                ("actionId", text("action-1")),
            ]),
            object(vec![
                ("stateVersion", integer(1)),
                ("seat", text("south")),
                ("actionId", text("action-2")),
            ]),
        ])),
        ("manifest", manifest()),
        ("kind", text("sorcery-game-checkpoint")),
        ("expectedSessionHash", text(hash('e').as_str())),
    ]);
    assert_eq!(checkpoint.checkpoint_id, identity_hash(&body).expect("body identity"));
    assert!(validate_checkpoint_identity(&checkpoint).is_ok());
    assert!(validate_checkpoint_header(&checkpoint).is_ok());

    let mut tampered = checkpoint;
    tampered.requests[1].state_version = 2;
    assert_eq!(
        validate_checkpoint_identity(&tampered),
        Err(CheckpointError::Invalid("checkpoint identity is invalid".to_owned()))
    );
    let mut fractional = tampered;
    fractional.manifest = JsonValue::Number(JsonNumber::Float(None));
    assert_eq!(
        validate_checkpoint_identity(&fractional),
        Err(CheckpointError::Canonical(CanonicalError::NonIntegralNumber))
    );
}

#[test]
fn checkpoint_headers_bound_kind_schema_and_requests() {
    let mut wrong_kind = checkpoint(vec![]);
    wrong_kind.kind = "other".to_owned();
    assert_eq!(
        validate_checkpoint_header(&wrong_kind),
        Err(CheckpointError::Invalid(
            "checkpoint kind or schema version is unsupported".to_owned()
        ))
    );
    let mut wrong_schema = checkpoint(vec![]);
    wrong_schema.schema_version = 2;
    assert!(validate_checkpoint_header(&wrong_schema).is_err());

    let many = checkpoint((0..1001).map(|i| request("a", Seat::North, i)).collect());
    assert_eq!(
        validate_checkpoint_header(&many),
        Err(CheckpointError::Invalid(
            "checkpoint requests must contain at most 1000 entries".to_owned()
        ))
    );
    let bad = checkpoint(vec![
        request("a", Seat::North, 0),
        request("b", Seat::North, 9_007_199_254_740_992),
        request("", Seat::North, 0),
    ]);
    assert_eq!(
        validate_checkpoint_header(&bad),
        Err(CheckpointError::Invalid("checkpoint request 1 is invalid".to_owned()))
    );
    let long = checkpoint(vec![request(&"\u{1F600}".repeat(129), Seat::North, 0)]);
    assert_eq!(
        validate_checkpoint_header(&long),
        Err(CheckpointError::Invalid("checkpoint request 0 is invalid".to_owned()))
    );
    let longest = checkpoint(vec![request(&"\u{1F600}".repeat(128), Seat::North, 0)]);
    assert!(validate_checkpoint_header(&longest).is_ok());
}

#[test]
fn checkpoint_text_is_bounded_before_parsing() {
    assert!(validate_checkpoint_size(GAME_CHECKPOINT_MAX_BYTES).is_ok());
    assert_eq!(
        validate_checkpoint_size(GAME_CHECKPOINT_MAX_BYTES + 1),
        Err(CheckpointError::Invalid("checkpoint exceeds 16777216 bytes".to_owned()))
    );
}

#[test]
fn checkpoint_errors_describe_themselves() {
    assert_eq!(
        CheckpointError::Invalid("checkpoint identity is invalid".to_owned()).to_string(),
        "checkpoint identity is invalid"
    );
    assert_eq!(
        CheckpointError::Canonical(CanonicalError::NonIntegralNumber).to_string(),
        "canonical engine JSON requires integers"
    );
}
