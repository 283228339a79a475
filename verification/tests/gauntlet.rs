use sorcery_engine::batch::{
    BatchClassification, BatchJob, DeterministicGameReport, DrawReason, DrawResult, FinishedStatus,
    FinishedTerminal, GameBatchResult, WinReason,
};
use sorcery_engine::canonical::IdentityHash;
use sorcery_engine::contract::Seat;
use sorcery_engine::gauntlet::{
    check_gauntlet_pairs, manifest_facts, perspective, tally_game, total_turns, validate_pairs,
    DeckOutcomeCounts, DeckTally, GauntletError, GauntletGameResult, GauntletOrientation,
    GauntletPair, OutcomeCounts, Perspective, SeatOutcomeCounts,
};
use sorcery_engine::json::{JsonMember, JsonNumber, JsonValue};

fn north_wins() -> FinishedTerminal {
    FinishedTerminal::Win {
        loser: Seat::South,
        reason: WinReason::AvatarDefeated,
        status: FinishedStatus::Finished,
        winner: Seat::North,
    }
}

fn draw() -> FinishedTerminal {
    FinishedTerminal::Draw {
        reason: DrawReason::SimultaneousDefeat,
        result: DrawResult::Draw,
        status: FinishedStatus::Finished,
    }
}

fn hash(digit: char) -> IdentityHash {
    IdentityHash::parse(&format!("sha256:{}", digit.to_string().repeat(64))).expect("hash")
}

fn game(turns: u64) -> GauntletGameResult {
    GauntletGameResult {
        result: GameBatchResult {
            job_index: 0,
            manifest_id: hash('1'),
            report: DeterministicGameReport {
                accepted_action_count: 1,
                classification: BatchClassification::UnrankedPartialRulesUnverifiedAuthority,
                final_state_hash: hash('2'),
                fight_count: 0,
                replay_verified: true,
                terminal: draw(),
                transcript_hash: hash('3'),
                turn_count: turns,
            },
        },
        north_deck_id: "a".to_owned(),
        seed: 1,
        south_deck_id: "b".to_owned(),
    }
}

#[test]
fn perspectives_mirror_the_winner() {
    assert_eq!(perspective(north_wins(), Seat::North), Perspective::Win);
    assert_eq!(perspective(north_wins(), Seat::South), Perspective::Loss);
    assert_eq!(perspective(draw(), Seat::South), Perspective::Draw);
}

#[test]
fn tallies_count_each_deck_by_seat_in_deck_order() {
    let mut by_seat = SeatOutcomeCounts::default();
    let mut tallies: Vec<DeckTally> = Vec::new();
    tally_game(&mut by_seat, &mut tallies, north_wins(), "deck-b", "deck-a");
    tally_game(&mut by_seat, &mut tallies, draw(), "deck-a", "deck-b");
    assert_eq!(
        by_seat.north,
        OutcomeCounts {
            draws: 1,
            games: 2,
            losses: 0,
            wins: 1
        }
    );
    assert_eq!(by_seat.south.losses, 1);
    assert_eq!(by_seat.north.wins, by_seat.south.losses);
    assert_eq!(tallies.len(), 2);
    assert_eq!(tallies[0].deck_id, "deck-a");
    assert_eq!(
        tallies[1].counts,
        DeckOutcomeCounts {
            as_north: OutcomeCounts {
                draws: 0,
                games: 1,
                losses: 0,
                wins: 1
            },
            as_south: OutcomeCounts {
                draws: 1,
                games: 1,
                losses: 0,
                wins: 0
            },
            draws: 1,
            games: 2,
            losses: 0,
            wins: 1,
        }
    );
}

#[test]
fn turn_totals_are_checked() {
    assert_eq!(total_turns(&vec![game(3), game(4)]), Ok(7));
    assert_eq!(
        total_turns(&vec![game(u64::MAX), game(1)]),
        Err("gauntlet turn total overflowed")
    );
}

fn object(members: Vec<(&str, JsonValue)>) -> JsonValue {
    JsonValue::Object(
        members
            .into_iter()
            .map(|(key, value)| JsonMember {
                key: key.to_owned(),
                value,
            })
            .collect(),
    )
}

fn deck_value(avatar: &str) -> JsonValue {
    object(vec![
        ("atlas", JsonValue::Array(vec![JsonValue::String("site".to_owned())])),
        ("avatar", JsonValue::String(avatar.to_owned())),
    ])
}

fn gauntlet_manifest(seed: u64, north: &str, south: &str) -> Option<JsonValue> {
    Some(object(vec![
        ("decks", object(vec![("north", deck_value(north)), ("south", deck_value(south))])),
        ("firstSeat", JsonValue::String("north".to_owned())),
        ("seed", JsonValue::Number(JsonNumber::PosInt(seed))),
    ]))
}

fn identity(digit: char) -> IdentityHash {
    IdentityHash::parse(&format!("sha256:{}", digit.to_string().repeat(64))).expect("identity")
}

#[derive(Clone, Copy, Debug)]
struct Policy;

fn job<'a>(north: &'a IdentityHash, south: &'a IdentityHash, policy: &'a Policy) -> BatchJob<'a, Policy> {
    BatchJob {
        manifest_json: "{}",
        north_deck_id: north,
        north_policy: policy,
        south_deck_id: south,
        south_policy: policy,
    }
}

fn pair<'a>(
    seed: u32,
    a: &'a IdentityHash,
    b: &'a IdentityHash,
    policy: &'a Policy,
) -> GauntletPair<'a, Policy> {
    GauntletPair {
        seed,
        orientations: [
            GauntletOrientation {
                job: job(a, b, policy),
                north_deck_id: "deck-a",
                south_deck_id: "deck-b",
            },
            GauntletOrientation {
                job: job(b, a, policy),
                north_deck_id: "deck-b",
                south_deck_id: "deck-a",
            },
        ],
    }
}

fn invalid_message(result: Result<(), GauntletError>) -> &'static str {
    match result {
        Err(GauntletError::Invalid(message)) => message,
        other => panic!("expected an invalid gauntlet, got {other:?}"),
    }
}

#[test]
fn seat_swapped_pairs_with_matching_manifests_pass() {
    let (a, b, policy) = (identity('a'), identity('b'), Policy);
    let pairs = vec![pair(31, &a, &b, &policy), pair(23, &a, &b, &policy)];
    let manifests = vec![
        gauntlet_manifest(31, "A", "B"),
        gauntlet_manifest(31, "B", "A"),
        gauntlet_manifest(23, "A", "B"),
        gauntlet_manifest(23, "B", "A"),
    ];
    assert!(validate_pairs(&pairs, &manifests).is_ok());
    assert!(check_gauntlet_pairs(&pairs, &manifests).is_ok());
}

#[test]
fn gauntlet_pairs_report_the_first_violation() {
    let (a, b, policy) = (identity('a'), identity('b'), Policy);
    assert_eq!(
        invalid_message(check_gauntlet_pairs::<Policy>(&[], &[])),
        "gauntlet must contain 1-128 seed pairs"
    );

    let mut same_decks = pair(31, &a, &b, &policy);
    same_decks.orientations[0].south_deck_id = "deck-a";
    let manifests = vec![gauntlet_manifest(31, "A", "B"), gauntlet_manifest(31, "B", "A")];
    assert_eq!(
        invalid_message(validate_pairs(&[same_decks], &manifests)),
        "gauntlet requires two distinct decks swapped across seats"
    );

    let unswapped_jobs = GauntletPair {
        seed: 31,
        orientations: [
            pair(31, &a, &b, &policy).orientations[0],
            GauntletOrientation {
                job: job(a_ref(&a), a_ref(&a), &policy),
                north_deck_id: "deck-b",
                south_deck_id: "deck-a",
            },
        ],
    };
    assert_eq!(
        invalid_message(validate_pairs(&[unswapped_jobs], &manifests)),
        "gauntlet requires two distinct decks swapped across seats"
    );

    let pairs = vec![pair(31, &a, &b, &policy)];
    let wrong_seed = vec![gauntlet_manifest(31, "A", "B"), gauntlet_manifest(32, "B", "A")];
    assert_eq!(
        invalid_message(validate_pairs(&pairs, &wrong_seed)),
        "gauntlet seed does not match its manifest"
    );
    let unswapped = vec![gauntlet_manifest(31, "A", "B"), gauntlet_manifest(31, "A", "B")];
    assert_eq!(
        invalid_message(validate_pairs(&pairs, &unswapped)),
        "gauntlet manifests must contain the declared seat swap"
    );
    let not_json = vec![gauntlet_manifest(31, "A", "B"), None];
    assert!(matches!(
        validate_pairs(&pairs, &not_json),
        Err(GauntletError::Json(1))
    ));
}

fn a_ref(a: &IdentityHash) -> &IdentityHash {
    a
}

#[test]
fn gauntlet_manifests_must_start_north_with_a_seed_and_both_decks() {
    let manifest = gauntlet_manifest(31, "A", "B");
    let facts = manifest_facts(&manifest, 0).expect("facts");
    assert_eq!(facts.seed, 31);
    assert!(matches!(facts.north_deck, JsonValue::Object(_)));
    let south_first = Some(object(vec![
        ("decks", object(vec![("north", deck_value("A")), ("south", deck_value("B"))])),
        ("firstSeat", JsonValue::String("south".to_owned())),
        ("seed", JsonValue::Number(JsonNumber::PosInt(31))),
    ]));
    assert!(matches!(
        manifest_facts(&south_first, 0),
        Err(GauntletError::Invalid("gauntlet manifests must start with north"))
    ));
    let negative_seed = Some(object(vec![
        ("decks", object(vec![("north", deck_value("A")), ("south", deck_value("B"))])),
        ("firstSeat", JsonValue::String("north".to_owned())),
        ("seed", JsonValue::Number(JsonNumber::NegInt(-1))),
    ]));
    assert!(matches!(
        manifest_facts(&negative_seed, 0),
        Err(GauntletError::Invalid("gauntlet manifest must declare an unsigned seed"))
    ));
    let one_deck = Some(object(vec![
        ("decks", object(vec![("north", deck_value("A"))])),
        ("firstSeat", JsonValue::String("north".to_owned())),
        ("seed", JsonValue::Number(JsonNumber::PosInt(31))),
    ]));
    assert!(matches!(
        manifest_facts(&one_deck, 0),
        Err(GauntletError::Invalid("gauntlet manifest must declare both decks"))
    ));
    assert!(matches!(manifest_facts(&None, 3), Err(GauntletError::Json(3))));
}
