use std::cmp::Ordering;

use sorcery_engine::action::{location_label, ActionDescriptor, DeckZone, SummonPaymentMode};
use sorcery_engine::action::UnitTarget;
use sorcery_engine::board::{Cell, Location, Region};
use sorcery_engine::canonical::{canonical_json, IdentityHash};
use sorcery_engine::contract::Seat;
use sorcery_engine::json::{JsonMember, JsonNumber, JsonValue};
use sorcery_engine::action_order::{compare_canonical, compare_json_integers, compare_json_strings};

#[test]
fn native_integer_order_should_match_typescript_locale_prefixes() {
    let values = [0, 1, 2, 9, 10, 11, 20, u64::MAX];
    for left in values {
        for right in values {
            let expected = left.to_string().cmp(&right.to_string());
            assert_eq!(
                compare_json_integers(left, right),
                expected,
                "{left} compared with {right}"
            );
        }
    }
}

#[test]
fn native_string_order_should_match_canonical_json_escaping() {
    let values = ["", " ", "a", "a ", "a\n", "a\"", "a\\", "é"];
    for left in values {
        for right in values {
            let left_json = format!(
                "{{\"cardId\":{}}}",
                serde_json::to_string(left).expect("left canonical JSON")
            );
            let right_json = format!(
                "{{\"cardId\":{}}}",
                serde_json::to_string(right).expect("right canonical JSON")
            );
            assert_eq!(
                compare_json_strings(left, right),
                left_json.cmp(&right_json),
                "{left:?} compared with {right:?}"
            );
        }
    }
}

#[test]
fn integers_compare_by_their_decimal_text() {
    assert_eq!(compare_json_integers(10, 9), Ordering::Less);
    assert_eq!(compare_json_integers(2, 10), Ordering::Greater);
    assert_eq!(compare_json_integers(7, 7), Ordering::Equal);
}

fn identity(digit: char) -> sorcery_engine::canonical::IdentityHash {
    sorcery_engine::canonical::IdentityHash::parse(&format!("sha256:{}", digit.to_string().repeat(64)))
        .expect("identity")
}

#[test]
fn canonical_descriptor_order_reverses_when_operands_swap() {
    let descriptors = vec![
        ActionDescriptor::ActivateMana {
            amount: 2,
            unit_instance_id: identity('a'),
        },
        ActionDescriptor::ActivateMana {
            amount: 10,
            unit_instance_id: identity('b'),
        },
        ActionDescriptor::Draw {
            zone: DeckZone::Atlas,
        },
        ActionDescriptor::Draw {
            zone: DeckZone::Spellbook,
        },
        ActionDescriptor::EndTurn,
        ActionDescriptor::Mulligan {
            atlas_order: vec![identity('c')],
            spellbook_order: vec![],
        },
        ActionDescriptor::Mulligan {
            atlas_order: vec![],
            spellbook_order: vec![],
        },
        ActionDescriptor::EndTurn,
        ActionDescriptor::DeclineAttack,
        ActionDescriptor::Draw {
            zone: DeckZone::Spellbook,
        },
        ActionDescriptor::Draw {
            zone: DeckZone::Atlas,
        },
        ActionDescriptor::Intercept {
            unit_instance_id: identity('d'),
        },
        ActionDescriptor::Intercept {
            unit_instance_id: identity('c'),
        },
    ];
    for left in &descriptors {
        for right in &descriptors {
            assert_eq!(
                compare_canonical(right, left),
                compare_canonical(left, right).reverse()
            );
        }
    }
    assert_eq!(
        compare_canonical(&descriptors[0], &descriptors[1]),
        Ordering::Greater
    );
    assert_eq!(
        compare_canonical(&descriptors[5], &descriptors[6]),
        Ordering::Less
    );
}

#[test]
fn state_independent_labels_describe_the_action() {
    assert_eq!(
        ActionDescriptor::ActivateMana {
            amount: 2,
            unit_instance_id: identity('a'),
        }
        .state_independent_label(),
        Some("Tap sha256:aaaaaaaa\u{2026} for 2 mana".to_owned())
    );
    assert_eq!(
        ActionDescriptor::Mulligan {
            atlas_order: vec![],
            spellbook_order: vec![],
        }
        .state_independent_label(),
        Some("Keep opening hand".to_owned())
    );
    assert_eq!(
        ActionDescriptor::Mulligan {
            atlas_order: vec![identity('a'), identity('b')],
            spellbook_order: vec![identity('c')],
        }
        .state_independent_label(),
        Some("Mulligan 3 (2 atlas, 1 spellbook)".to_owned())
    );
    assert_eq!(
        ActionDescriptor::Draw {
            zone: DeckZone::Spellbook,
        }
        .state_independent_label(),
        Some("Draw from spellbook".to_owned())
    );
    assert_eq!(
        ActionDescriptor::DrawSite.state_independent_label(),
        Some("Draw a site with Avatar".to_owned())
    );
    assert_eq!(
        ActionDescriptor::EndTurn.state_independent_label(),
        Some("End turn".to_owned())
    );
    assert_eq!(
        ActionDescriptor::DeclineAttack.state_independent_label(),
        Some("Decline attack".to_owned())
    );
    assert_eq!(ActionDescriptor::ResolveChainMagic.state_independent_label(), None);
}

#[test]
fn location_labels_name_the_cell_and_any_non_surface_region() {
    let cell = Cell::parse("C3").expect("cell");
    assert_eq!(
        location_label(Location {
            cell,
            region: Region::Surface,
        }),
        "C3"
    );
    assert_eq!(
        location_label(Location {
            cell,
            region: Region::Underground,
        }),
        "C3 underground"
    );
}

fn hash_text(digit: char) -> String {
    format!("sha256:{}", digit.to_string().repeat(64))
}

fn parsed(text: &str) -> IdentityHash {
    IdentityHash::parse(text).expect("identity")
}

fn json_object(members: Vec<(&str, JsonValue)>) -> JsonValue {
    JsonValue::Object(
        members
            .into_iter()
            .map(|(key, value)| JsonMember {
                key: key.to_owned(),
                value,
            })
            .collect(),
    )
}

fn json_text(value: &str) -> JsonValue {
    JsonValue::String(value.to_owned())
}

/// The external JSON shape of the descriptors these tests build.
fn descriptor_json(descriptor: &ActionDescriptor) -> JsonValue {
    match descriptor {
        ActionDescriptor::ActivateMana {
            amount,
            unit_instance_id,
        } => json_object(vec![
            ("amount", JsonValue::Number(JsonNumber::PosInt(*amount))),
            ("kind", json_text("activate-mana")),
            ("unitInstanceId", json_text(unit_instance_id.as_str())),
        ]),
        ActionDescriptor::AllocateStrike {
            amount,
            target_instance_id,
        } => json_object(vec![
            ("amount", JsonValue::Number(JsonNumber::PosInt(*amount))),
            ("kind", json_text("allocate-strike")),
            ("targetInstanceId", json_text(target_instance_id.as_str())),
        ]),
        ActionDescriptor::Mulligan {
            atlas_order,
            spellbook_order,
        } => json_object(vec![
            (
                "atlasOrder",
                JsonValue::Array(atlas_order.iter().map(|id| json_text(id.as_str())).collect()),
            ),
            ("kind", json_text("mulligan")),
            (
                "spellbookOrder",
                JsonValue::Array(spellbook_order.iter().map(|id| json_text(id.as_str())).collect()),
            ),
        ]),
        ActionDescriptor::CastMagic {
            ally,
            card_id,
            card_instance_id,
            caster_instance_id,
            target_location,
            target_site_instance_id,
            ..
        } => {
            let mut members = vec![];
            if let Some(UnitTarget::Minion { instance_id, seat }) = ally {
                members.push((
                    "ally",
                    json_object(vec![
                        ("instanceId", json_text(instance_id.as_str())),
                        ("kind", json_text("minion")),
                        (
                            "seat",
                            json_text(if *seat == Seat::North { "north" } else { "south" }),
                        ),
                    ]),
                ));
            }
            members.push(("cardId", json_text(card_id)));
            members.push(("cardInstanceId", json_text(card_instance_id.as_str())));
            members.push(("casterInstanceId", json_text(caster_instance_id.as_str())));
            members.push(("kind", json_text("cast-magic")));
            if let Some(location) = target_location {
                members.push((
                    "targetLocation",
                    json_object(vec![
                        ("cell", json_text(&location_label(Location {
                            cell: location.cell,
                            region: Region::Surface,
                        }))),
                        ("region", json_text("surface")),
                    ]),
                ));
            }
            if let Some(site) = target_site_instance_id {
                members.push(("targetSiteInstanceId", json_text(site.as_str())));
            }
            json_object(members)
        }
        ActionDescriptor::EndTurn => json_object(vec![("kind", json_text("end-turn"))]),
        ActionDescriptor::DeclineAttack => json_object(vec![("kind", json_text("decline-attack"))]),
        ActionDescriptor::Draw { zone } => json_object(vec![
            ("kind", json_text("draw")),
            (
                "zone",
                json_text(if *zone == DeckZone::Atlas { "atlas" } else { "spellbook" }),
            ),
        ]),
        ActionDescriptor::Intercept { unit_instance_id } => json_object(vec![
            ("kind", json_text("intercept")),
            ("unitInstanceId", json_text(unit_instance_id.as_str())),
        ]),
        ActionDescriptor::SummonMinion {
            card_id,
            card_instance_id,
            caster_instance_id,
            cell,
            mana_cost,
            payment_mode,
            ..
        } => {
            let mut members = vec![
                ("cardId", json_text(card_id)),
                ("cardInstanceId", json_text(card_instance_id.as_str())),
                ("casterInstanceId", json_text(caster_instance_id.as_str())),
                ("cell", json_text(&location_label(Location {
                    cell: *cell,
                    region: Region::Surface,
                }))),
                ("kind", json_text("summon-minion")),
                ("manaCost", JsonValue::Number(JsonNumber::PosInt(*mana_cost))),
            ];
            if payment_mode.is_some() {
                members.push(("paymentMode", json_text("random-card-discard")));
            }
            json_object(members)
        }
        ActionDescriptor::ResolveGenesisSpellOrder { order } => json_object(vec![
            ("kind", json_text("resolve-genesis-spell-order")),
            (
                "order",
                JsonValue::Array(
                    order
                        .iter()
                        .map(|entry| JsonValue::Number(JsonNumber::PosInt(u64::from(*entry))))
                        .collect(),
                ),
            ),
        ]),
        _ => panic!("descriptor outside these tests"),
    }
}

fn cast(
    card_id: &str,
    card_instance_id: &str,
    caster_instance_id: &str,
    ally: Option<UnitTarget>,
    target: Option<(&str, &str)>,
) -> ActionDescriptor {
    ActionDescriptor::CastMagic {
        ally,
        ally_destination: None,
        ally_strike_location: None,
        card_id: card_id.to_owned(),
        card_instance_id: parsed(card_instance_id),
        caster_instance_id: parsed(caster_instance_id),
        cemetery_minion_instance_id: None,
        target: None,
        target_location: target.map(|(cell, _)| Location {
            cell: Cell::parse(cell).expect("cell"),
            region: Region::Surface,
        }),
        target_site_instance_id: target.map(|(_, site)| parsed(site)),
    }
}

fn assert_canonical_order(descriptors: Vec<ActionDescriptor>) {
    let mut sorted: Vec<&ActionDescriptor> = descriptors.iter().collect();
    sorted.sort_unstable_by(|a, b| compare_canonical(a, b));
    let mut canonical: Vec<&ActionDescriptor> = descriptors.iter().collect();
    canonical.sort_unstable_by_key(|candidate| {
        canonical_json(&descriptor_json(candidate)).expect("canonical ordering candidate")
    });
    assert_eq!(sorted, canonical);
}

#[test]
fn cave_in_cast_magic_boundary_should_match_canonical_typescript_shape() {
    let card_instance_id = hash_text('1');
    let caster_instance_id = hash_text('2');
    let first_site_id = hash_text('3');
    let second_site_id = hash_text('4');
    let descriptor = |cell: Option<&str>, site_id: &str| {
        cast(
            "cave-in",
            &card_instance_id,
            &caster_instance_id,
            None,
            cell.map(|cell| (cell, site_id)),
        )
    };
    let cave_in = descriptor(Some("A1"), &first_site_id);
    assert_eq!(
        canonical_json(&descriptor_json(&cave_in)).expect("canonical Cave-In"),
        format!(
            "{{\"cardId\":\"cave-in\",\"cardInstanceId\":\"{card_instance_id}\",\"casterInstanceId\":\"{caster_instance_id}\",\"kind\":\"cast-magic\",\"targetLocation\":{{\"cell\":\"A1\",\"region\":\"surface\"}},\"targetSiteInstanceId\":\"{first_site_id}\"}}"
        )
    );
    assert_eq!(
        cave_in.state_independent_label().as_deref(),
        Some("Cast cave-in at A1 surface")
    );
    assert_canonical_order(vec![
        cave_in,
        descriptor(Some("A1"), &second_site_id),
        descriptor(Some("B1"), &first_site_id),
        descriptor(None, &first_site_id),
    ]);
}

#[test]
fn charge_magic_order_should_match_canonical_typescript_shape() {
    let card_id = hash_text('1');
    let caster_id = hash_text('2');
    let ally_id = hash_text('3');
    let charge = cast(
        "charge",
        &card_id,
        &caster_id,
        Some(UnitTarget::Minion {
            instance_id: parsed(&ally_id),
            seat: Seat::North,
        }),
        None,
    );
    assert_eq!(
        charge.state_independent_label().as_deref(),
        Some("Cast charge to grant Charge to minion sha256:33333333\u{2026}")
    );
    assert_canonical_order(vec![
        ActionDescriptor::ActivateMana {
            amount: 1,
            unit_instance_id: parsed(&caster_id),
        },
        ActionDescriptor::Mulligan {
            atlas_order: vec![],
            spellbook_order: vec![],
        },
        cast("ordinary", &card_id, &caster_id, None, None),
        charge,
    ]);
}

#[test]
fn string_and_integer_fields_compare_as_their_canonical_text_whatever_follows() {
    let strings = ["", "a", "a\"", "a\\", "ab", "\u{1}", "\u{7f}", "z", "\u{e9}"];
    for left in strings {
        for right in strings {
            let left_text = canonical_json(&JsonValue::String(left.to_owned())).expect("text");
            let right_text = canonical_json(&JsonValue::String(right.to_owned())).expect("text");
            let expected = compare_json_strings(left, right).then("}".cmp(","));
            assert_eq!(format!("{left_text}}}").cmp(&format!("{right_text},")), expected);
        }
    }
    let integers = [0u64, 1, 2, 9, 10, 12, 123, u64::MAX];
    for left in integers {
        for right in integers {
            let expected = compare_json_integers(left, right).then("a".cmp("b"));
            assert_eq!(format!("{left},a").cmp(&format!("{right},b")), expected);
        }
    }
}

#[test]
fn amount_actions_and_mulligans_sort_as_their_canonical_json() {
    let mana = |amount: u64, digit: char| ActionDescriptor::ActivateMana {
        amount,
        unit_instance_id: identity(digit),
    };
    let strike = |amount: u64, digit: char| ActionDescriptor::AllocateStrike {
        amount,
        target_instance_id: identity(digit),
    };
    let descriptors = vec![
        mana(12, 'a'),
        strike(1, 'b'),
        mana(1, 'c'),
        strike(12, 'a'),
        mana(1, 'a'),
        strike(2, 'f'),
        mana(2, 'f'),
        ActionDescriptor::Mulligan {
            atlas_order: vec![identity('b')],
            spellbook_order: vec![],
        },
        ActionDescriptor::Mulligan {
            atlas_order: vec![identity('b'), identity('a')],
            spellbook_order: vec![identity('c')],
        },
        ActionDescriptor::Mulligan {
            atlas_order: vec![],
            spellbook_order: vec![identity('c')],
        },
        ActionDescriptor::Mulligan {
            atlas_order: vec![],
            spellbook_order: vec![],
        },
        ActionDescriptor::EndTurn,
        ActionDescriptor::DeclineAttack,
        ActionDescriptor::Draw {
            zone: DeckZone::Spellbook,
        },
        ActionDescriptor::Draw {
            zone: DeckZone::Atlas,
        },
        ActionDescriptor::Intercept {
            unit_instance_id: identity('d'),
        },
        ActionDescriptor::Intercept {
            unit_instance_id: identity('c'),
        },
    ];
    for left in &descriptors {
        for right in &descriptors {
            let left_text = canonical_json(&descriptor_json(left)).expect("text");
            let right_text = canonical_json(&descriptor_json(right)).expect("text");
            assert_eq!(compare_canonical(left, right), left_text.cmp(&right_text));
        }
    }
}

fn summon(mana_cost: u64, discard: bool) -> ActionDescriptor {
    ActionDescriptor::SummonMinion {
        card_id: "minion".to_owned(),
        card_instance_id: identity('1'),
        caster_instance_id: identity('2'),
        cell: Cell::parse("C3").expect("cell"),
        cells: None,
        genesis_damage_choice: None,
        genesis_damage_target: None,
        mana_cost,
        payment_mode: if discard {
            Some(SummonPaymentMode::RandomCardDiscard)
        } else {
            None
        },
        sacrificed_minion_instance_ids: None,
    }
}

fn text_order(left: &ActionDescriptor, right: &ActionDescriptor) -> Ordering {
    let left_text = canonical_json(&descriptor_json(left)).expect("text");
    let right_text = canonical_json(&descriptor_json(right)).expect("text");
    left_text.cmp(&right_text)
}

#[test]
fn multi_digit_numbers_sort_as_their_canonical_json_where_comparable() {
    let comparable = [
        (summon(10, false), summon(20, false)),
        (summon(20, false), summon(3, false)),
        (summon(5, true), summon(50, true)),
        (summon(12, true), summon(123, false)),
    ];
    for (left, right) in comparable.iter() {
        assert_eq!(compare_canonical(left, right), text_order(left, right));
        assert_eq!(compare_canonical(right, left), text_order(right, left));
    }
    assert_eq!(compare_canonical(&summon(10, false), &summon(20, false)), Ordering::Less);
    let order = |entries: Vec<u8>| ActionDescriptor::ResolveGenesisSpellOrder { order: entries };
    let orders = [
        (order(vec![1, 0]), order(vec![0, 1])),
        (order(vec![10, 2]), order(vec![12, 0])),
        (order(vec![1, 10]), order(vec![10, 1])),
    ];
    for (left, right) in orders.iter() {
        assert_eq!(compare_canonical(left, right), text_order(left, right));
    }
}

#[test]
fn a_prefix_number_closed_by_a_brace_or_bracket_sorts_natively_first() {
    assert_eq!(compare_canonical(&summon(5, false), &summon(50, false)), Ordering::Less);
    assert_eq!(text_order(&summon(5, false), &summon(50, false)), Ordering::Greater);
    let order = |entries: Vec<u8>| ActionDescriptor::ResolveGenesisSpellOrder { order: entries };
    assert_eq!(compare_canonical(&order(vec![1]), &order(vec![10])), Ordering::Less);
    assert_eq!(text_order(&order(vec![1]), &order(vec![10])), Ordering::Greater);
}
