use sorcery_engine::facts::{
    parse_card_definition, validate_identifier, AvatarFacts, CardFacts, Element, MagicEffect,
    MinionGenesis,
};
use sorcery_engine::json::{JsonMember, JsonNumber, JsonValue};

fn object(members: Vec<(&str, JsonValue)>) -> JsonValue {
    JsonValue::Object(
        members
            .into_iter()
            .map(|(key, value)| JsonMember {
                key: key.to_owned(),
                value,
            })
            .collect(),
    )
}

fn integer(value: u64) -> JsonValue {
    JsonValue::Number(JsonNumber::PosInt(value))
}

fn text(value: &str) -> JsonValue {
    JsonValue::String(value.to_owned())
}

fn thresholds(earth: u64, fire: u64, water: u64, air: u64) -> JsonValue {
    object(vec![
        ("earth", integer(earth)),
        ("fire", integer(fire)),
        ("water", integer(water)),
        ("air", integer(air)),
    ])
}

fn failure(card_id: &str, value: &JsonValue) -> (String, String) {
    let error = parse_card_definition(card_id, value).expect_err("definition must be rejected");
    (error.path().to_owned(), error.problem().to_owned())
}

#[test]
fn avatar_definitions_read_their_stats() {
    let avatar = object(vec![
        ("cardType", text("avatar")),
        ("attack", integer(1)),
        ("defense", integer(2)),
        ("drawSpell", JsonValue::Bool(true)),
        ("life", integer(20)),
    ]);
    assert_eq!(
        parse_card_definition("sorcerer", &avatar),
        Ok(CardFacts::Avatar(AvatarFacts {
            attack: 1,
            defense: 2,
            draw_spell: true,
            earth_site_play_creates_adjacent_rubble: false,
            life: 20,
            replace_adjacent_rubble_with_top_atlas_site: false,
            tap_damage_random_other_unit_at_nearby_location_per_air_threshold_cast_this_turn: false,
        }))
    );
}

#[test]
fn avatar_life_is_required_and_bounded() {
    let without_life = object(vec![
        ("cardType", text("avatar")),
        ("attack", integer(1)),
        ("defense", integer(2)),
        ("drawSpell", JsonValue::Bool(true)),
    ]);
    assert_eq!(
        failure("sorcerer", &without_life),
        ("cards.sorcerer.life".to_owned(), "is required".to_owned())
    );
    let too_strong = object(vec![
        ("cardType", text("avatar")),
        ("attack", integer(101)),
    ]);
    assert_eq!(
        failure("sorcerer", &too_strong),
        (
            "cards.sorcerer.attack".to_owned(),
            "must be between 0 and 100".to_owned()
        )
    );
}

#[test]
fn unknown_fields_are_reported_in_string_order() {
    let avatar = object(vec![
        ("cardType", text("avatar")),
        ("zeta", integer(1)),
        ("alpha", integer(1)),
    ]);
    assert_eq!(
        failure("sorcerer", &avatar),
        ("cards.sorcerer.alpha".to_owned(), "is unsupported".to_owned())
    );
}

#[test]
fn card_shape_and_type_are_checked_first() {
    assert_eq!(
        failure("  ", &object(vec![])),
        ("cardId".to_owned(), "must be 1-256 UTF-16 code units".to_owned())
    );
    assert_eq!(
        failure("x", &integer(1)),
        ("cards.x".to_owned(), "must be an object".to_owned())
    );
    assert_eq!(
        failure("x", &object(vec![("cardType", text("token"))])),
        ("cards.x.cardType".to_owned(), "is unsupported".to_owned())
    );
    assert_eq!(
        failure(
            "x",
            &object(vec![
                ("cardType", text("minion")),
                ("genesisDrawSpell", JsonValue::Bool(true))
            ])
        ),
        (
            "cards.x.genesisDrawSpell".to_owned(),
            "is obsolete; use genesisDrawSpells".to_owned()
        )
    );
}

#[test]
fn magic_reads_exactly_one_effect() {
    let heal = object(vec![
        ("cardType", text("magic")),
        ("healController", integer(3)),
        ("manaCost", integer(2)),
        ("thresholds", thresholds(0, 0, 1, 0)),
    ]);
    let Ok(CardFacts::Magic(magic)) = parse_card_definition("heal", &heal) else {
        panic!("expected magic facts");
    };
    assert_eq!(magic.effect, MagicEffect::HealController(3));
    assert_eq!(magic.mana_cost, 2);
    assert_eq!(magic.thresholds.canonical(), [0, 0, 1, 0]);
    assert_eq!(magic.thresholds.get(Element::Water), 1);

    let none = object(vec![
        ("cardType", text("magic")),
        ("manaCost", integer(2)),
        ("thresholds", thresholds(0, 0, 1, 0)),
    ]);
    assert_eq!(
        failure("empty", &none),
        (
            "cards.empty".to_owned(),
            "must define exactly one supported effect".to_owned()
        )
    );
    let untargeted = object(vec![
        ("cardType", text("magic")),
        ("targetNearby", JsonValue::Bool(true)),
    ]);
    assert_eq!(
        failure("bolt", &untargeted),
        (
            "cards.bolt.targetNearby".to_owned(),
            "requires damageTargetUnit".to_owned()
        )
    );
}

#[test]
fn minion_facts_and_combinations() {
    let minion = object(vec![
        ("cardType", text("minion")),
        ("attack", integer(2)),
        ("defense", integer(3)),
        ("manaCost", integer(3)),
        ("thresholds", thresholds(1, 0, 0, 0)),
        ("genesisDrawSpells", integer(2)),
        ("provides", text("fire")),
        ("airborne", JsonValue::Bool(true)),
    ]);
    let Ok(CardFacts::Minion(facts)) = parse_card_definition("scout", &minion) else {
        panic!("expected minion facts");
    };
    assert_eq!(facts.attack, 2);
    assert_eq!(facts.defense, 3);
    assert!(facts.airborne);
    assert_eq!(facts.genesis.single(), Some(MinionGenesis::DrawSpells(2)));
    assert_eq!(facts.genesis.draw_spells, Some(2));
    assert!(!facts.genesis.draw_site);
    assert_eq!(facts.provides, Some(Element::Fire));

    let conflicting = object(vec![
        ("cardType", text("minion")),
        ("mayRangedStrikeOnceDuringBasicMovement", JsonValue::Bool(true)),
    ]);
    assert_eq!(
        failure("archer", &conflicting),
        (
            "cards.archer.mayRangedStrikeOnceDuringBasicMovement".to_owned(),
            "requires ranged".to_owned()
        )
    );
}

#[test]
fn site_elements_must_be_unique_and_ordered() {
    let site = object(vec![
        ("cardType", text("site")),
        (
            "elements",
            JsonValue::Array(vec![text("earth"), text("air")]),
        ),
    ]);
    let Ok(CardFacts::Site(facts)) = parse_card_definition("spire", &site) else {
        panic!("expected site facts");
    };
    assert!(facts.elements.contains(Element::Earth));
    assert!(facts.elements.contains(Element::Air));
    assert!(!facts.elements.contains(Element::Fire));
    assert_eq!(facts.elements.iter(), vec![Element::Earth, Element::Air]);

    let unordered = object(vec![
        ("cardType", text("site")),
        (
            "elements",
            JsonValue::Array(vec![text("air"), text("earth")]),
        ),
    ]);
    assert_eq!(
        failure("spire", &unordered),
        (
            "cards.spire.elements".to_owned(),
            "must contain unique elements in canonical order".to_owned()
        )
    );
}

#[test]
fn identifiers_count_utf16_units_and_reject_blank_text() {
    assert!(validate_identifier(&"a".repeat(256), "id").is_ok());
    assert!(validate_identifier(&"a".repeat(257), "id").is_err());
    assert!(validate_identifier(&"\u{10000}".repeat(128), "id").is_ok());
    assert!(validate_identifier(&"\u{10000}".repeat(129), "id").is_err());
    assert!(validate_identifier("\u{feff}\t", "id").is_err());
    assert!(validate_identifier("", "id").is_err());
}
