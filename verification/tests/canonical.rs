use sorcery_engine::canonical::{canonical_json, identity_hash, CanonicalError, IdentityHash};
use sorcery_engine::json::{first_duplicate_key, JsonMember, JsonNumber, JsonValue};

fn object(members: Vec<(&str, JsonValue)>) -> JsonValue {
    JsonValue::Object(
        members
            .into_iter()
            .map(|(key, value)| JsonMember {
                key: key.to_owned(),
                value,
            })
            .collect(),
    )
}

fn integer(value: u64) -> JsonValue {
    JsonValue::Number(JsonNumber::PosInt(value))
}

fn text(value: &str) -> JsonValue {
    JsonValue::String(value.to_owned())
}

fn engine_state() -> JsonValue {
    object(vec![
        ("stateVersion", integer(0)),
        ("schemaVersion", integer(1)),
        (
            "prng",
            object(vec![
                ("word", integer(0)),
                ("draws", integer(0)),
                ("algorithm", text("mulberry32-v1")),
            ]),
        ),
    ])
}

#[test]
fn canonical_json_should_match_existing_engine_state_vector() {
    assert_eq!(
        canonical_json(&engine_state()).expect("canonical engine state"),
        r#"{"prng":{"algorithm":"mulberry32-v1","draws":0,"word":0},"schemaVersion":1,"stateVersion":0}"#
    );
}

#[test]
fn identity_hash_should_match_existing_engine_state_vector() {
    assert_eq!(
        identity_hash(&engine_state())
            .expect("hash engine state")
            .as_str(),
        "sha256:9ec0a8e3f08e46c6c6e2a44542de0a7c20a50a1fe6af9ea5b195dd0379d4e4b2"
    );
}

#[test]
fn identity_hash_deserialization_should_reject_noncanonical_syntax() {
    let result = IdentityHash::parse(
        "SHA256:9EC0A8E3F08E46C6C6E2A44542DE0A7C20A50A1FE6AF9EA5B195DD0379D4E4B2",
    );

    assert!(result.is_err());
}

#[test]
fn canonical_json_rejects_fractions_and_escapes_strings() {
    let fraction = object(vec![("x", JsonValue::Number(JsonNumber::Float(None)))]);
    assert_eq!(
        canonical_json(&fraction),
        Err(CanonicalError::NonIntegralNumber)
    );
    let value = JsonValue::Array(vec![
        text("a\"b\\c\n"),
        JsonValue::Null,
        JsonValue::Bool(true),
        JsonValue::Number(JsonNumber::NegInt(-12)),
        text("\u{1}"),
    ]);
    assert_eq!(
        canonical_json(&value).expect("canonical array"),
        r#"["a\"b\\c\n",null,true,-12,"\u0001"]"#
    );
}

#[test]
fn object_keys_sort_by_utf16_code_units() {
    let value = object(vec![("\u{10000}", integer(1)), ("\u{ffff}", integer(2)), ("b", integer(3))]);
    assert_eq!(
        canonical_json(&value).expect("canonical object"),
        "{\"b\":3,\"\u{10000}\":1,\"\u{ffff}\":2}"
    );
}

#[test]
fn identities_parse_only_lowercase_sha256_text() {
    let valid = format!("sha256:{}", "0123456789abcdef".repeat(4));
    assert_eq!(IdentityHash::parse(&valid).expect("valid").as_str(), valid);
    assert!(IdentityHash::parse(&valid[..70]).is_err());
    assert!(IdentityHash::parse(&format!("sha256:{}", "g".repeat(64))).is_err());
}

#[test]
fn nested_duplicate_keys_are_found_in_document_order() {
    let nested = object(vec![(
        "outer",
        object(vec![("same", integer(1)), ("same", integer(2))]),
    )]);
    assert_eq!(first_duplicate_key(&nested), Some("same".to_owned()));
    let later = object(vec![
        ("a", object(vec![("x", integer(1)), ("x", integer(2))])),
        ("a", integer(3)),
    ]);
    assert_eq!(first_duplicate_key(&later), Some("x".to_owned()));
    let top_first = object(vec![
        ("a", integer(1)),
        ("a", object(vec![("x", integer(1)), ("x", integer(2))])),
    ]);
    assert_eq!(first_duplicate_key(&top_first), Some("a".to_owned()));
    let in_array = JsonValue::Array(vec![
        object(vec![("k", integer(1))]),
        object(vec![("k", integer(1)), ("j", integer(2)), ("k", integer(3))]),
    ]);
    assert_eq!(first_duplicate_key(&in_array), Some("k".to_owned()));
    let distinct = object(vec![("a", object(vec![("a", integer(1))])), ("b", integer(2))]);
    assert_eq!(first_duplicate_key(&distinct), None);
}
