use sorcery_engine::action::DeckZone;
use sorcery_engine::compiled_ability::{CompiledAbilities, Effect, UnitSet};
use sorcery_engine::facts::parse_card_definition;
use sorcery_engine::json::{JsonMember, JsonNumber, JsonValue};

fn object(members: Vec<(&str, JsonValue)>) -> JsonValue {
    JsonValue::Object(
        members
            .into_iter()
            .map(|(key, value)| JsonMember {
                key: key.to_owned(),
                value,
            })
            .collect(),
    )
}

fn integer(value: u64) -> JsonValue {
    JsonValue::Number(JsonNumber::PosInt(value))
}

fn zero_thresholds() -> JsonValue {
    object(vec![
        ("air", integer(0)),
        ("earth", integer(0)),
        ("fire", integer(0)),
        ("water", integer(0)),
    ])
}

fn minion(extra: Vec<(&str, JsonValue)>) -> JsonValue {
    let mut members = vec![
        ("attack", integer(1)),
        ("cardType", JsonValue::String("minion".to_owned())),
        ("defense", integer(1)),
        ("manaCost", integer(1)),
        ("thresholds", zero_thresholds()),
    ];
    members.extend(extra);
    object(members)
}

#[test]
fn targeted_magic_preserves_damage_then_untap_order() {
    let facts = parse_card_definition(
        "test-magic",
        &object(vec![
            ("cardType", JsonValue::String("magic".to_owned())),
            ("damageTargetUnit", integer(2)),
            ("manaCost", integer(1)),
            ("thresholds", zero_thresholds()),
            ("untapTargetMinionAfterDamage", JsonValue::Bool(true)),
        ]),
    )
    .expect("valid synthetic magic");
    let compiled = CompiledAbilities::from_facts(&facts);
    assert_eq!(
        compiled.magic.expect("compiled magic").effects.as_slice(),
        &[
            Effect::Damage {
                recipients: UnitSet::Target,
                amount: 2
            },
            Effect::Untap {
                recipients: UnitSet::Target
            }
        ]
    );
}

#[test]
fn minion_genesis_and_activation_lower_to_fixed_programs() {
    let draw = parse_card_definition("test-minion", &minion(vec![("genesisDrawSite", JsonValue::Bool(true))]))
        .expect("valid synthetic minion");
    let compiled = CompiledAbilities::from_facts(&draw);
    assert_eq!(compiled.magic, None);
    assert_eq!(compiled.activated, None);
    assert_eq!(
        compiled.genesis.expect("compiled genesis").effects,
        vec![Effect::Draw {
            zone: DeckZone::Atlas,
            count: 1
        }]
    );

    let damage = parse_card_definition(
        "test-minion",
        &minion(vec![
            ("genesisDamageEachOtherUnitHere", integer(1)),
            ("tapToDamageEachUnitAtAdjacentLocation", integer(2)),
        ]),
    )
    .expect("valid synthetic minion");
    let compiled = CompiledAbilities::from_facts(&damage);
    assert_eq!(
        compiled.genesis.expect("compiled genesis").effects,
        vec![Effect::Damage {
            recipients: UnitSet::OtherUnitsHere,
            amount: 1
        }]
    );
    assert_eq!(
        compiled.activated.expect("compiled activation").effects,
        vec![Effect::Damage {
            recipients: UnitSet::Location,
            amount: 2
        }]
    );

    let heal = parse_card_definition("test-minion", &minion(vec![("genesisHealController", integer(2))]))
        .expect("valid synthetic minion");
    assert_eq!(CompiledAbilities::from_facts(&heal).genesis, None);
}

#[test]
fn untargeted_magic_and_other_cards_lower_as_supported() {
    let area = parse_card_definition(
        "test-magic",
        &object(vec![
            ("cardType", JsonValue::String("magic".to_owned())),
            ("damageEachAbovegroundMinion", integer(1)),
            ("manaCost", integer(1)),
            ("thresholds", zero_thresholds()),
        ]),
    )
    .expect("valid synthetic magic");
    assert_eq!(
        CompiledAbilities::from_facts(&area)
            .magic
            .expect("compiled magic")
            .effects,
        vec![Effect::Damage {
            recipients: UnitSet::SurfaceMinions,
            amount: 1
        }]
    );
    let plain = parse_card_definition("test-minion", &minion(vec![])).expect("valid minion");
    let compiled = CompiledAbilities::from_facts(&plain);
    assert_eq!((compiled.magic, compiled.genesis, compiled.activated), (None, None, None));
}

#[test]
fn mixed_genesis_stays_legacy_as_a_whole() {
    let facts = parse_card_definition(
        "test-minion",
        &minion(vec![
            ("genesisDamageEachOtherUnitHere", integer(1)),
            ("genesisDrawSite", JsonValue::Bool(true)),
        ]),
    )
    .expect("valid synthetic minion");
    let compiled = CompiledAbilities::from_facts(&facts);
    assert_eq!(compiled.genesis, None);
}
