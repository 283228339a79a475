use sorcery_engine::canonical::IdentityHash;
use sorcery_engine::contract::{LegalAction, Seat};
use sorcery_engine::json::{JsonMember, JsonNumber, JsonValue};
use sorcery_engine::novelty::{
    action_kind, best_movement, cell_distance, prefer_frontier, prefer_probe, request_for,
    select_index, signal_key, signal_of, unique_kinds, Probe, RankedFrontier,
};

fn object(members: Vec<(&str, JsonValue)>) -> JsonValue {
    JsonValue::Object(
        members
            .into_iter()
            .map(|(key, value)| JsonMember {
                key: key.to_owned(),
                value,
            })
            .collect(),
    )
}

fn text(value: &str) -> JsonValue {
    JsonValue::String(value.to_owned())
}

fn integer(value: u64) -> JsonValue {
    JsonValue::Number(JsonNumber::PosInt(value))
}

fn items(count: usize) -> JsonValue {
    JsonValue::Array((0..count).map(|_| JsonValue::Null).collect())
}

fn action(index: usize, descriptor: JsonValue) -> LegalAction {
    LegalAction {
        action_id: IdentityHash::parse(&format!("sha256:{:064x}", index + 1)).expect("identity"),
        label: String::new(),
        descriptor,
        seat: Seat::North,
        state_version: 4,
    }
}

fn kind(kind: &str) -> JsonValue {
    object(vec![("kind", text(kind))])
}

fn movement(to_cell: &str, path: usize, unit: &str) -> JsonValue {
    object(vec![
        ("kind", text("move-and-attack")),
        ("path", items(path)),
        ("to", object(vec![("cell", text(to_cell)), ("region", text("surface"))])),
        ("unitInstanceId", text(unit)),
    ])
}

fn replay(atlas: usize, spellbook: usize, units: Vec<JsonValue>) -> JsonValue {
    object(vec![(
        "state",
        object(vec![
            ("decisionSeat", text("north")),
            (
                "players",
                object(vec![
                    (
                        "north",
                        object(vec![
                            ("airThresholdsCastThisTurn", integer(1)),
                            ("atlas", items(atlas)),
                            (
                                "avatar",
                                object(vec![
                                    ("card", object(vec![("instanceId", text("north-avatar"))])),
                                    ("location", text("c1")),
                                    ("region", text("surface")),
                                ]),
                            ),
                            ("spellbook", items(spellbook)),
                        ]),
                    ),
                    (
                        "south",
                        object(vec![(
                            "avatar",
                            object(vec![
                                ("card", object(vec![("instanceId", text("south-avatar"))])),
                                ("location", text("c4")),
                                ("region", text("surface")),
                            ]),
                        )]),
                    ),
                ]),
            ),
            ("realm", object(vec![("units", JsonValue::Array(units))])),
        ]),
    )])
}

fn actions(descriptors: Vec<JsonValue>) -> Vec<LegalAction> {
    descriptors
        .into_iter()
        .enumerate()
        .map(|(index, descriptor)| action(index, descriptor))
        .collect()
}

#[test]
fn cell_distance_adds_column_and_row_differences() {
    assert_eq!(cell_distance("a1", "c4"), 5);
    assert_eq!(cell_distance("c4", "a1"), 5);
    assert_eq!(cell_distance("b", "b9"), 9);
    assert_eq!(cell_distance("", "a1"), i64::MAX);
    assert_eq!(cell_distance("ax", "a7"), 7);
}

#[test]
fn selector_prefers_keep_then_sites_then_summons_then_draws() {
    let state = replay(10, 20, vec![]);
    let keep = object(vec![
        ("atlasOrder", items(0)),
        ("kind", text("mulligan")),
        ("spellbookOrder", items(0)),
    ]);
    let reorder = object(vec![
        ("atlasOrder", items(1)),
        ("kind", text("mulligan")),
        ("spellbookOrder", items(0)),
    ]);
    assert_eq!(
        select_index(&state, &actions(vec![kind("end-turn"), reorder.clone_value(), keep])),
        Some(2)
    );
    assert_eq!(
        select_index(&state, &actions(vec![kind("summon-minion"), kind("play-site")])),
        Some(1)
    );
    let draw_atlas = object(vec![("kind", text("draw")), ("zone", text("atlas"))]);
    let draw_spells = object(vec![("kind", text("draw")), ("zone", text("spellbook"))]);
    assert_eq!(
        select_index(&state, &actions(vec![draw_spells, draw_atlas, kind("summon-minion")])),
        Some(2)
    );
    let draw_atlas = object(vec![("kind", text("draw")), ("zone", text("atlas"))]);
    let draw_spells = object(vec![("kind", text("draw")), ("zone", text("spellbook"))]);
    assert_eq!(
        select_index(&state, &actions(vec![draw_spells, draw_atlas])),
        Some(1)
    );
    let small_atlas = replay(2, 5, vec![]);
    let draw_atlas = object(vec![("kind", text("draw")), ("zone", text("atlas"))]);
    let draw_spells = object(vec![("kind", text("draw")), ("zone", text("spellbook"))]);
    assert_eq!(
        select_index(&small_atlas, &actions(vec![draw_atlas, draw_spells])),
        Some(1)
    );
    assert_eq!(select_index(&state, &actions(vec![reorder])), Some(0));
    assert_eq!(select_index(&state, &[]), None);
}

trait CloneValue {
    fn clone_value(&self) -> JsonValue;
}

impl CloneValue for JsonValue {
    fn clone_value(&self) -> JsonValue {
        match self {
            JsonValue::Null => JsonValue::Null,
            JsonValue::Bool(b) => JsonValue::Bool(*b),
            JsonValue::Number(n) => JsonValue::Number(*n),
            JsonValue::String(s) => JsonValue::String(s.clone()),
            JsonValue::Array(values) => JsonValue::Array(values.iter().map(|v| v.clone_value()).collect()),
            JsonValue::Object(members) => JsonValue::Object(
                members
                    .iter()
                    .map(|m| JsonMember {
                        key: m.key.clone(),
                        value: m.value.clone_value(),
                    })
                    .collect(),
            ),
        }
    }
}

#[test]
fn selector_moves_toward_the_enemy_avatar_and_prefers_tactics() {
    let state = replay(10, 20, vec![]);
    let moves = actions(vec![
        kind("end-turn"),
        movement("c2", 2, "unit-1"),
        movement("c3", 2, "unit-2"),
        movement("b3", 2, "unit-3"),
    ]);
    assert_eq!(best_movement(&moves, "c4"), Some((2, 1)));
    assert_eq!(select_index(&state, &moves), Some(2));

    let adjacent_hit = actions(vec![movement("c3", 2, "unit-2"), movement("c4", 1, "unit-1")]);
    assert_eq!(best_movement(&adjacent_hit, "c4"), Some((1, -1)));

    let stuck = actions(vec![kind("end-turn"), movement("c3", 0, "unit-1")]);
    assert_eq!(best_movement(&stuck, "c4"), Some((1, i64::MAX)));
    assert_eq!(select_index(&state, &stuck), Some(0));

    let shot = object(vec![
        ("hit", object(vec![("seat", text("south"))])),
        ("kind", text("shoot-projectile")),
    ]);
    let with_tactic = actions(vec![movement("c3", 2, "unit-2"), shot]);
    assert_eq!(select_index(&state, &with_tactic), Some(1));

    let dragging = object(vec![
        ("fightOnArrival", JsonValue::Bool(true)),
        ("hit", object(vec![("seat", text("south"))])),
        ("kind", text("shoot-drag-projectile")),
    ]);
    let no_tactic = actions(vec![movement("c3", 2, "unit-2"), dragging]);
    assert_eq!(select_index(&state, &no_tactic), Some(0));
}

#[test]
fn selector_prefers_a_powered_movement_over_tactics() {
    let powered_unit = object(vec![
        ("instanceId", text("unit-2")),
        ("temporaryPowerSources", items(1)),
    ]);
    let state = replay(10, 20, vec![powered_unit]);
    let shot = object(vec![
        ("hit", object(vec![("seat", text("south"))])),
        ("kind", text("shoot-projectile")),
    ]);
    let choices = actions(vec![shot, movement("c3", 2, "unit-2")]);
    assert_eq!(select_index(&state, &choices), Some(1));
}

#[test]
fn sparkmage_is_a_tactic_only_against_enemy_targets() {
    let enemy_unit = object(vec![
        ("controller", text("south")),
        ("instanceId", text("enemy-1")),
        ("location", text("b2")),
        ("region", text("surface")),
    ]);
    let activation = object(vec![
        ("kind", text("activate-sparkmage")),
        ("sourceInstanceId", text("mage")),
        ("targetLocation", object(vec![("cell", text("b2")), ("region", text("surface"))])),
    ]);
    let state = replay(10, 20, vec![enemy_unit]);
    let choices = actions(vec![kind("end-turn"), activation.clone_value()]);
    assert_eq!(select_index(&state, &choices), Some(1));

    let own_unit = object(vec![
        ("controller", text("north")),
        ("instanceId", text("ally-1")),
        ("location", text("b2")),
        ("region", text("surface")),
    ]);
    let enemy_unit = object(vec![
        ("controller", text("south")),
        ("instanceId", text("enemy-1")),
        ("location", text("b2")),
        ("region", text("surface")),
    ]);
    let mixed = replay(10, 20, vec![enemy_unit, own_unit]);
    let choices = actions(vec![kind("end-turn"), activation]);
    assert_eq!(select_index(&mixed, &choices), Some(0));
}

#[test]
fn kinds_are_listed_once_in_first_seen_order() {
    let issued = actions(vec![
        kind("end-turn"),
        kind("draw"),
        kind("end-turn"),
        JsonValue::Null,
        kind("draw"),
    ]);
    assert_eq!(unique_kinds(&issued), vec!["end-turn", "draw", ""]);
    assert_eq!(action_kind(&issued[1]), "draw");
    let request = request_for(&issued[0]);
    assert_eq!(request.action_id, issued[0].action_id.as_str());
    assert_eq!(request.seat, Seat::North);
    assert_eq!(request.state_version, 4);
}

fn probe(index: usize, new_events: usize, new_kind: bool, fallback: bool) -> Probe {
    Probe {
        action: action(index, kind("end-turn")),
        event_types: vec![],
        index,
        new_action_kind: new_kind,
        new_event_count: new_events,
        selected_by_fallback: fallback,
        state_hash: String::new(),
    }
}

#[test]
fn probes_rank_by_novelty_then_selector_then_index() {
    assert!(prefer_probe(&probe(5, 2, false, false), &probe(0, 1, true, true)));
    assert!(prefer_probe(&probe(5, 1, true, false), &probe(0, 1, false, true)));
    assert!(prefer_probe(&probe(5, 1, true, true), &probe(0, 1, true, false)));
    assert!(prefer_probe(&probe(0, 1, true, true), &probe(5, 1, true, true)));
    assert!(!prefer_probe(&probe(5, 1, true, true), &probe(0, 1, true, true)));
    assert!(!prefer_probe(&probe(3, 1, true, true), &probe(3, 1, true, true)));
}

fn frontier(action_id: &str, legal: usize, decision: u64) -> RankedFrontier {
    RankedFrontier {
        candidate: object(vec![
            ("actionId", text(action_id)),
            ("signal", object(vec![("kind", text("event")), ("value", text("fight-started"))])),
        ]),
        decision_index: decision,
        legal_index: legal,
        new_action_kind: false,
        new_event_count: 1,
        selected_by_fallback: false,
    }
}

#[test]
fn frontier_candidates_break_ties_by_index_then_action_identity() {
    assert!(prefer_frontier(&frontier("b", 1, 9), &frontier("a", 2, 0)));
    assert!(prefer_frontier(&frontier("b", 1, 3), &frontier("a", 1, 4)));
    assert!(!prefer_frontier(&frontier("b", 1, 3), &frontier("a", 1, 3)));
    assert!(prefer_frontier(&frontier("a", 1, 3), &frontier("b", 1, 3)));
    assert!(prefer_frontier(&frontier("a", 1, 3), &frontier("a", 1, 3)));
    assert_eq!(signal_of(&frontier("a", 1, 3).candidate), "event\0fight-started");
    assert_eq!(signal_of(&JsonValue::Null), "\0");
    assert_eq!(signal_key("kind", "value"), "kind\u{0}value");
}
