//! Deterministic seat-swapped gauntlet aggregation over native batches.

use vstd::pervasive::VecAdditionalExecFns;
use vstd::prelude::*;

use crate::batch::{
    terminal_winner, BatchError, BatchJob, FinishedTerminal, GameBatchResult, MAX_BATCH_JOBS,
};
use crate::deck::{blank, is_blank};
use crate::json::{
    as_text, json_equal, json_same, string_of, value_get, value_member, JsonNumber, JsonValue,
};
use crate::contract::Seat;
use crate::codes::{char_codes, usize_int};
use crate::order::{
    lemma_lex_order_antisymmetric, lemma_lex_order_equal, lemma_lex_order_transitive, precedes,
    text_precedes,
};
use crate::canonical::IdentityHash;
use crate::text::same_text;

verus! {

/// Win/draw/loss counts from one perspective.
#[derive(Clone, Copy, Debug, Eq, PartialEq, Structural)]
pub struct OutcomeCounts {
    /// Draws.
    pub draws: u64,
    /// Counted games.
    pub games: u64,
    /// Losses.
    pub losses: u64,
    /// Wins.
    pub wins: u64,
}

impl Default for OutcomeCounts {
    fn default() -> (r: Self)
        ensures
            r == (OutcomeCounts { draws: 0, games: 0, losses: 0, wins: 0 }),
    {
        OutcomeCounts { draws: 0, games: 0, losses: 0, wins: 0 }
    }
}

/// Aggregate results for one deck overall and by seat.
#[derive(Clone, Copy, Debug, Eq, PartialEq, Structural)]
pub struct DeckOutcomeCounts {
    /// Counts while occupying North.
    pub as_north: OutcomeCounts,
    /// Counts while occupying South.
    pub as_south: OutcomeCounts,
    /// Overall draws.
    pub draws: u64,
    /// Overall counted games.
    pub games: u64,
    /// Overall losses.
    pub losses: u64,
    /// Overall wins.
    pub wins: u64,
}

/// Counts before any game.
pub open spec fn no_outcomes() -> OutcomeCounts {
    OutcomeCounts { draws: 0, games: 0, losses: 0, wins: 0 }
}

/// Deck counts before any game.
pub open spec fn no_deck_outcomes() -> DeckOutcomeCounts {
    DeckOutcomeCounts {
        as_north: no_outcomes(),
        as_south: no_outcomes(),
        draws: 0,
        games: 0,
        losses: 0,
        wins: 0,
    }
}

impl Default for DeckOutcomeCounts {
    fn default() -> (r: Self)
        ensures
            r == no_deck_outcomes(),
    {
        DeckOutcomeCounts {
            as_north: OutcomeCounts { draws: 0, games: 0, losses: 0, wins: 0 },
            as_south: OutcomeCounts { draws: 0, games: 0, losses: 0, wins: 0 },
            draws: 0,
            games: 0,
            losses: 0,
            wins: 0,
        }
    }
}

/// One authoritative gauntlet game with deck and seed metadata.
#[derive(Clone, Debug, Eq, PartialEq)]
pub struct GauntletGameResult {
    /// Native authoritative result.
    pub result: GameBatchResult,
    /// Stable North deck identity.
    pub north_deck_id: String,
    /// Declared seed.
    pub seed: u32,
    /// Stable South deck identity.
    pub south_deck_id: String,
}

/// Seat-keyed outcome counts matching the public TypeScript contract.
#[derive(Clone, Copy, Debug, Eq, PartialEq, Structural)]
pub struct SeatOutcomeCounts {
    /// North-seat outcomes.
    pub north: OutcomeCounts,
    /// South-seat outcomes.
    pub south: OutcomeCounts,
}

impl Default for SeatOutcomeCounts {
    fn default() -> (r: Self)
        ensures
            r == (SeatOutcomeCounts { north: no_outcomes(), south: no_outcomes() }),
    {
        SeatOutcomeCounts {
            north: OutcomeCounts { draws: 0, games: 0, losses: 0, wins: 0 },
            south: OutcomeCounts { draws: 0, games: 0, losses: 0, wins: 0 },
        }
    }
}

/// A finished game from one seat's point of view.
#[derive(Clone, Copy, Debug, Eq, PartialEq, Structural)]
pub enum Perspective {
    /// Neither seat won.
    Draw,
    /// The other seat won.
    Loss,
    /// This seat won.
    Win,
}

/// How a finished game looks from `seat`.
pub open spec fn perspective_of(terminal: FinishedTerminal, seat: Seat) -> Perspective {
    match terminal_winner(terminal) {
        None => Perspective::Draw,
        Some(winner) => if winner == seat {
            Perspective::Win
        } else {
            Perspective::Loss
        },
    }
}

/// How a finished game looks from `seat`.
pub fn perspective(terminal: FinishedTerminal, seat: Seat) -> (r: Perspective)
    ensures
        r == perspective_of(terminal, seat),
{
    match terminal.winner() {
        None => Perspective::Draw,
        Some(winner) => if winner == seat {
            Perspective::Win
        } else {
            Perspective::Loss
        },
    }
}

/// Whether every count can grow by one more game.
pub open spec fn has_room(c: OutcomeCounts) -> bool {
    c.games < u64::MAX && c.draws < u64::MAX && c.losses < u64::MAX && c.wins < u64::MAX
}

/// Counts after one more game with `outcome`.
pub open spec fn recorded(c: OutcomeCounts, outcome: Perspective) -> OutcomeCounts {
    OutcomeCounts {
        games: (c.games + 1) as u64,
        draws: if outcome == Perspective::Draw {
            (c.draws + 1) as u64
        } else {
            c.draws
        },
        losses: if outcome == Perspective::Loss {
            (c.losses + 1) as u64
        } else {
            c.losses
        },
        wins: if outcome == Perspective::Win {
            (c.wins + 1) as u64
        } else {
            c.wins
        },
    }
}

/// Counts one more game.
pub fn record(counts: &mut OutcomeCounts, outcome: Perspective)
    requires
        has_room(*old(counts)),
    ensures
        *final(counts) == recorded(*old(counts), outcome),
{
    counts.games = counts.games + 1;
    match outcome {
        Perspective::Draw => counts.draws = counts.draws + 1,
        Perspective::Loss => counts.losses = counts.losses + 1,
        Perspective::Win => counts.wins = counts.wins + 1,
    }
}

/// Whether a deck's overall counts can grow by one more game.
pub open spec fn deck_has_room(c: DeckOutcomeCounts) -> bool {
    &&& c.games < u64::MAX && c.draws < u64::MAX && c.losses < u64::MAX && c.wins < u64::MAX
    &&& has_room(c.as_north)
    &&& has_room(c.as_south)
}

/// Deck counts after one more game with `outcome` overall.
pub open spec fn deck_total_recorded(c: DeckOutcomeCounts, outcome: Perspective) -> DeckOutcomeCounts {
    DeckOutcomeCounts {
        games: (c.games + 1) as u64,
        draws: if outcome == Perspective::Draw {
            (c.draws + 1) as u64
        } else {
            c.draws
        },
        losses: if outcome == Perspective::Loss {
            (c.losses + 1) as u64
        } else {
            c.losses
        },
        wins: if outcome == Perspective::Win {
            (c.wins + 1) as u64
        } else {
            c.wins
        },
        ..c
    }
}

/// Counts one more game in a deck's overall totals.
pub fn record_deck_total(counts: &mut DeckOutcomeCounts, outcome: Perspective)
    requires
        old(counts).games < u64::MAX,
        old(counts).draws < u64::MAX,
        old(counts).losses < u64::MAX,
        old(counts).wins < u64::MAX,
    ensures
        *final(counts) == deck_total_recorded(*old(counts), outcome),
{
    counts.games = counts.games + 1;
    match outcome {
        Perspective::Draw => counts.draws = counts.draws + 1,
        Perspective::Loss => counts.losses = counts.losses + 1,
        Perspective::Win => counts.wins = counts.wins + 1,
    }
}

/// A deck's counts after one more game in `seat` with `outcome`: its
/// overall totals and its totals for that seat.
pub open spec fn deck_recorded(c: DeckOutcomeCounts, seat: Seat, outcome: Perspective) -> DeckOutcomeCounts {
    let total = deck_total_recorded(c, outcome);
    match seat {
        Seat::North => DeckOutcomeCounts { as_north: recorded(c.as_north, outcome), ..total },
        Seat::South => DeckOutcomeCounts { as_south: recorded(c.as_south, outcome), ..total },
    }
}

/// Whether counts add up: every counted game is a win, a draw, or a loss.
pub open spec fn counts_add_up(c: OutcomeCounts) -> bool {
    c.games == c.wins + c.draws + c.losses
}

/// Whether deck counts add up overall and in each seat, and the seat games
/// make up the overall games.
pub open spec fn deck_counts_add_up(c: DeckOutcomeCounts) -> bool {
    &&& c.games == c.wins + c.draws + c.losses
    &&& counts_add_up(c.as_north)
    &&& counts_add_up(c.as_south)
    &&& c.games == c.as_north.games + c.as_south.games
}

/// Recording a game keeps counts adding up.
pub proof fn lemma_record_adds_up(c: OutcomeCounts, outcome: Perspective)
    requires
        counts_add_up(c),
        has_room(c),
    ensures
        counts_add_up(recorded(c, outcome)),
{
}

/// Recording a game for a deck keeps its counts adding up.
pub proof fn lemma_deck_record_adds_up(c: DeckOutcomeCounts, seat: Seat, outcome: Perspective)
    requires
        deck_counts_add_up(c),
        deck_has_room(c),
    ensures
        deck_counts_add_up(deck_recorded(c, seat, outcome)),
{
}

/// Recording one game from both seats wins for one seat exactly when it
/// loses for the other, and draws for both together.
pub proof fn lemma_perspectives_mirror(terminal: FinishedTerminal)
    ensures
        (perspective_of(terminal, Seat::North) == Perspective::Win) == (perspective_of(
            terminal,
            Seat::South,
        ) == Perspective::Loss),
        (perspective_of(terminal, Seat::North) == Perspective::Loss) == (perspective_of(
            terminal,
            Seat::South,
        ) == Perspective::Win),
        (perspective_of(terminal, Seat::North) == Perspective::Draw) == (perspective_of(
            terminal,
            Seat::South,
        ) == Perspective::Draw),
{
}

/// One deck's running counts.
#[derive(Clone, Debug, Eq, PartialEq)]
pub struct DeckTally {
    /// Stable deck identity.
    pub deck_id: String,
    /// Counts so far.
    pub counts: DeckOutcomeCounts,
}

/// Whether tallies are in strictly increasing deck-identity order.
pub open spec fn tallies_ordered(t: Seq<DeckTally>) -> bool {
    forall|i: int, j: int| 0 <= i < j < t.len() ==> text_precedes(t[i].deck_id@, t[j].deck_id@)
}

/// The counts of deck `id`, or none yet.
pub open spec fn tally_of(t: Seq<DeckTally>, id: Seq<char>) -> DeckOutcomeCounts
    decreases t.len(),
{
    if t.len() == 0 {
        no_deck_outcomes()
    } else if t[0].deck_id@ == id {
        t[0].counts
    } else {
        tally_of(t.skip(1), id)
    }
}

/// Whether tallies hold a deck.
pub open spec fn tallies_hold(t: Seq<DeckTally>, id: Seq<char>) -> bool {
    exists|i: int| 0 <= i < t.len() && (#[trigger] t[i]).deck_id@ == id
}

/// Ordered tallies name each deck at most once, so a deck's counts are those
/// of its one entry.
proof fn lemma_tally_at(t: Seq<DeckTally>, i: int)
    requires
        tallies_ordered(t),
        0 <= i < t.len(),
    ensures
        tally_of(t, t[i].deck_id@) == t[i].counts,
    decreases t.len(),
{
    if i > 0 {
        let id = t[i].deck_id@;
        assert(text_precedes(t[0].deck_id@, id));
        lemma_lex_order_antisymmetric(char_codes(id), char_codes(id));
        assert(t[0].deck_id@ != id);
        let rest = t.skip(1);
        assert forall|a: int, b: int| 0 <= a < b < rest.len() implies text_precedes(
            rest[a].deck_id@,
            rest[b].deck_id@,
        ) by {
            assert(rest[a] == t[a + 1]);
            assert(rest[b] == t[b + 1]);
        }
        assert(rest[i - 1] == t[i]);
        lemma_tally_at(rest, i - 1);
    }
}

/// A deck with no entry has no counts yet.
proof fn lemma_tally_absent(t: Seq<DeckTally>, id: Seq<char>)
    requires
        !tallies_hold(t, id),
    ensures
        tally_of(t, id) == no_deck_outcomes(),
    decreases t.len(),
{
    if t.len() > 0 {
        assert(t[0].deck_id@ != id);
        let rest = t.skip(1);
        assert forall|k: int| 0 <= k < rest.len() implies (#[trigger] rest[k]).deck_id@ != id by {
            assert(rest[k] == t[k + 1]);
        }
        lemma_tally_absent(rest, id);
    }
}

/// Adds one game to deck `deck_id`'s counts, creating them when the deck is new.
pub fn tally_deck(tallies: &mut Vec<DeckTally>, deck_id: &str, seat: Seat, outcome: Perspective)
    requires
        tallies_ordered(old(tallies)@),
        deck_has_room(tally_of(old(tallies)@, deck_id@)),
    ensures
        tallies_ordered(final(tallies)@),
        forall|x: Seq<char>|
            #[trigger] tallies_hold(final(tallies)@, x) == (tallies_hold(old(tallies)@, x) || x
                == deck_id@),
        forall|x: Seq<char>|
            #[trigger] tally_of(final(tallies)@, x) == if x == deck_id@ {
                deck_recorded(tally_of(old(tallies)@, x), seat, outcome)
            } else {
                tally_of(old(tallies)@, x)
            },
{
    let ghost before = tallies@;
    let mut j: usize = 0;
    while j < tallies.len()
        invariant
            j <= tallies@.len(),
            tallies@ == before,
            forall|a: int| 0 <= a < j ==> text_precedes((#[trigger] tallies@[a]).deck_id@, deck_id@),
        ensures
            j <= tallies@.len(),
            tallies@ == before,
            forall|a: int| 0 <= a < j ==> text_precedes((#[trigger] tallies@[a]).deck_id@, deck_id@),
            j < tallies@.len() ==> !text_precedes(tallies@[usize_int(j)].deck_id@, deck_id@),
        decreases tallies@.len() - j,
    {
        if !precedes(tallies[j].deck_id.as_str(), deck_id) {
            break;
        }
        j = j + 1;
    }
    let present = j < tallies.len() && same_text(tallies[j].deck_id.as_str(), deck_id);
    if present {
        proof {
            lemma_tally_at(before, usize_int(j));
        }
        let mut counts = tallies[j].counts;
        record_deck_total(&mut counts, outcome);
        match seat {
            Seat::North => record(&mut counts.as_north, outcome),
            Seat::South => record(&mut counts.as_south, outcome),
        }
        let updated = DeckTally { deck_id: tallies[j].deck_id.clone(), counts };
        tallies.set(j, updated);
        proof {
            let after = tallies@;
            assert forall|a: int, b: int| 0 <= a < b < after.len() implies text_precedes(
                after[a].deck_id@,
                after[b].deck_id@,
            ) by {
                assert(after[a].deck_id@ == before[a].deck_id@);
                assert(after[b].deck_id@ == before[b].deck_id@);
            }
            assert forall|x: Seq<char>| #[trigger] tallies_hold(after, x) == (tallies_hold(before, x) || x
                == deck_id@) by {
                if tallies_hold(before, x) {
                    let k = choose|k: int| 0 <= k < before.len() && (#[trigger] before[k]).deck_id@ == x;
                    assert(after[k].deck_id@ == x);
                }
                if tallies_hold(after, x) {
                    let k = choose|k: int| 0 <= k < after.len() && (#[trigger] after[k]).deck_id@ == x;
                    assert(before[k].deck_id@ == x);
                }
            }
            assert forall|x: Seq<char>| #[trigger] tally_of(after, x) == if x == deck_id@ {
                deck_recorded(tally_of(before, x), seat, outcome)
            } else {
                tally_of(before, x)
            } by {
                if tallies_hold(before, x) {
                    let k = choose|k: int| 0 <= k < before.len() && (#[trigger] before[k]).deck_id@ == x;
                    lemma_tally_at(before, k);
                    assert(after[k].deck_id@ == x);
                    lemma_tally_at(after, k);
                    if k != j {
                        assert(after[k] == before[k]);
                    }
                } else {
                    if tallies_hold(after, x) {
                        let k = choose|k: int| 0 <= k < after.len() && (#[trigger] after[k]).deck_id@ == x;
                        assert(before[k].deck_id@ == x);
                    }
                    lemma_tally_absent(before, x);
                    lemma_tally_absent(after, x);
                }
            }
        }
    } else {
        proof {
            if tallies_hold(before, deck_id@) {
                let k = choose|k: int| 0 <= k < before.len() && (#[trigger] before[k]).deck_id@ == deck_id@;
                lemma_lex_order_antisymmetric(char_codes(deck_id@), char_codes(deck_id@));
                if k < j {
                    assert(text_precedes(before[k].deck_id@, deck_id@));
                } else if k > j {
                    assert(text_precedes(before[usize_int(j)].deck_id@, before[k].deck_id@));
                    lemma_lex_order_antisymmetric(char_codes(before[usize_int(j)].deck_id@), char_codes(deck_id@));
                    lemma_lex_order_equal(char_codes(before[usize_int(j)].deck_id@), char_codes(deck_id@));
                }
                assert(false);
            }
        }
        let mut counts = DeckOutcomeCounts::default();
        record_deck_total(&mut counts, outcome);
        match seat {
            Seat::North => record(&mut counts.as_north, outcome),
            Seat::South => record(&mut counts.as_south, outcome),
        }
        let entry = DeckTally { deck_id: deck_id.to_owned(), counts };
        tallies.insert(j, entry);
        proof {
            let after = tallies@;
            if j < before.len() {
                lemma_lex_order_antisymmetric(char_codes(before[usize_int(j)].deck_id@), char_codes(deck_id@));
                lemma_lex_order_equal(char_codes(before[usize_int(j)].deck_id@), char_codes(deck_id@));
                if char_codes(before[usize_int(j)].deck_id@) == char_codes(deck_id@) {
                    assert forall|t: int| 0 <= t < deck_id@.len() implies before[usize_int(j)].deck_id@[t]
                        == deck_id@[t] by {
                        assert(char_codes(before[usize_int(j)].deck_id@)[t] == char_codes(deck_id@)[t]);
                    }
                    assert(before[usize_int(j)].deck_id@ =~= deck_id@);
                }
            }
            assert forall|a: int, b: int| 0 <= a < b < after.len() implies text_precedes(
                after[a].deck_id@,
                after[b].deck_id@,
            ) by {
                if b < j {
                    assert(after[a] == before[a]);
                    assert(after[b] == before[b]);
                } else if a > j {
                    assert(after[a] == before[a - 1]);
                    assert(after[b] == before[b - 1]);
                } else if b == j {
                    assert(after[a] == before[a]);
                } else if a == j {
                    assert(after[b] == before[b - 1]);
                    if b - 1 > usize_int(j) {
                        assert(text_precedes(before[usize_int(j)].deck_id@, before[b - 1].deck_id@));
                        lemma_lex_order_transitive(
                            char_codes(deck_id@),
                            char_codes(before[usize_int(j)].deck_id@),
                            char_codes(before[b - 1].deck_id@),
                        );
                    }
                } else {
                    assert(after[a] == before[a]);
                    assert(after[b] == before[b - 1]);
                }
            }
            assert forall|x: Seq<char>| #[trigger] tallies_hold(after, x) == (tallies_hold(before, x) || x
                == deck_id@) by {
                if tallies_hold(before, x) {
                    let k = choose|k: int| 0 <= k < before.len() && (#[trigger] before[k]).deck_id@ == x;
                    if k < j {
                        assert(after[k] == before[k]);
                    } else {
                        assert(after[k + 1] == before[k]);
                    }
                }
                if x == deck_id@ {
                    assert(after[usize_int(j)].deck_id@ == x);
                }
                if tallies_hold(after, x) {
                    let k = choose|k: int| 0 <= k < after.len() && (#[trigger] after[k]).deck_id@ == x;
                    if k < j {
                        assert(before[k] == after[k]);
                    } else if k > j {
                        assert(before[k - 1] == after[k]);
                    }
                }
            }
            assert forall|x: Seq<char>| #[trigger] tally_of(after, x) == if x == deck_id@ {
                deck_recorded(tally_of(before, x), seat, outcome)
            } else {
                tally_of(before, x)
            } by {
                if x == deck_id@ {
                    lemma_tally_at(after, usize_int(j));
                    lemma_tally_absent(before, x);
                } else if tallies_hold(before, x) {
                    let k = choose|k: int| 0 <= k < before.len() && (#[trigger] before[k]).deck_id@ == x;
                    lemma_tally_at(before, k);
                    if k < j {
                        assert(after[k] == before[k]);
                        lemma_tally_at(after, k);
                    } else {
                        assert(after[k + 1] == before[k]);
                        lemma_tally_at(after, k + 1);
                    }
                } else {
                    if tallies_hold(after, x) {
                        let k = choose|k: int| 0 <= k < after.len() && (#[trigger] after[k]).deck_id@ == x;
                        if k < j {
                            assert(before[k] == after[k]);
                            assert(tallies_hold(before, x));
                        } else if k > j {
                            assert(before[k - 1] == after[k]);
                            assert(tallies_hold(before, x));
                        }
                        assert(false);
                    }
                    lemma_tally_absent(before, x);
                    lemma_tally_absent(after, x);
                }
            }
        }
    }
}

/// Records one finished game from both seats: the seat counts and both
/// decks' counts.
pub fn tally_game(
    by_seat: &mut SeatOutcomeCounts,
    tallies: &mut Vec<DeckTally>,
    terminal: FinishedTerminal,
    north_deck_id: &str,
    south_deck_id: &str,
)
    requires
        north_deck_id@ != south_deck_id@,
        has_room(old(by_seat).north),
        has_room(old(by_seat).south),
        tallies_ordered(old(tallies)@),
        deck_has_room(tally_of(old(tallies)@, north_deck_id@)),
        deck_has_room(tally_of(old(tallies)@, south_deck_id@)),
    ensures
        final(by_seat).north == recorded(old(by_seat).north, perspective_of(terminal, Seat::North)),
        final(by_seat).south == recorded(old(by_seat).south, perspective_of(terminal, Seat::South)),
        tallies_ordered(final(tallies)@),
        forall|x: Seq<char>|
            #[trigger] tallies_hold(final(tallies)@, x) == (tallies_hold(old(tallies)@, x) || x
                == north_deck_id@ || x == south_deck_id@),
        forall|x: Seq<char>|
            #[trigger] tally_of(final(tallies)@, x) == if x == north_deck_id@ {
                deck_recorded(tally_of(old(tallies)@, x), Seat::North, perspective_of(terminal, Seat::North))
            } else if x == south_deck_id@ {
                deck_recorded(tally_of(old(tallies)@, x), Seat::South, perspective_of(terminal, Seat::South))
            } else {
                tally_of(old(tallies)@, x)
            },
{
    let north = perspective(terminal, Seat::North);
    let south = perspective(terminal, Seat::South);
    record(&mut by_seat.north, north);
    let ghost middle = tallies@;
    tally_deck(tallies, north_deck_id, Seat::North, north);
    assert(tally_of(tallies@, south_deck_id@) == tally_of(middle, south_deck_id@));
    record(&mut by_seat.south, south);
    tally_deck(tallies, south_deck_id, Seat::South, south);
}

/// Seat counts mirror each other: North's wins are South's losses, and both
/// seats count the same games and draws.
pub open spec fn seats_mirror(c: SeatOutcomeCounts) -> bool {
    &&& c.north.games == c.south.games
    &&& c.north.draws == c.south.draws
    &&& c.north.wins == c.south.losses
    &&& c.north.losses == c.south.wins
}

/// Tallying a game from both seats keeps the seat counts mirrored.
pub proof fn lemma_tally_keeps_seats_mirrored(c: SeatOutcomeCounts, terminal: FinishedTerminal)
    requires
        seats_mirror(c),
        has_room(c.north),
        has_room(c.south),
    ensures
        seats_mirror(
            SeatOutcomeCounts {
                north: recorded(c.north, perspective_of(terminal, Seat::North)),
                south: recorded(c.south, perspective_of(terminal, Seat::South)),
            },
        ),
{
    lemma_perspectives_mirror(terminal);
}

/// The summed final turn numbers of the first `n` games.
pub open spec fn turns_total(games: Seq<GauntletGameResult>, n: nat) -> nat
    decreases n,
{
    if n == 0 {
        0
    } else {
        turns_total(games, (n - 1) as nat) + games[n - 1].result.report.turn_count as nat
    }
}

/// The message for a turn total beyond `u64::MAX`.
pub open spec fn turn_total_overflow() -> Seq<char> {
    "gauntlet turn total overflowed"@
}

/// Sums the final turn numbers of a gauntlet's games.
pub fn total_turns(games: &Vec<GauntletGameResult>) -> (r: Result<u64, &'static str>)
    ensures
        r is Ok <==> turns_total(games@, games@.len()) <= u64::MAX,
        r matches Ok(t) ==> t == turns_total(games@, games@.len()),
        r matches Err(e) ==> e@ == turn_total_overflow(),
{
    let mut total: u64 = 0;
    let mut i: usize = 0;
    while i < games.len()
        invariant
            i <= games@.len(),
            total == turns_total(games@, i as nat),
        decreases games@.len() - i,
    {
        total = match total.checked_add(games[i].result.report.turn_count) {
            Some(t) => t,
            None => {
                proof {
                    lemma_turns_total_monotone(games@, (i + 1) as nat, games@.len());
                }
                return Err("gauntlet turn total overflowed");
            },
        };
        i = i + 1;
    }
    Ok(total)
}

/// Turn totals only grow.
proof fn lemma_turns_total_monotone(games: Seq<GauntletGameResult>, a: nat, b: nat)
    requires
        a <= b,
    ensures
        turns_total(games, a) <= turns_total(games, b),
    decreases b - a,
{
    if a < b {
        lemma_turns_total_monotone(games, a, (b - 1) as nat);
    }
}

/// One deck orientation for a gauntlet seed.
#[derive(Clone, Copy, Debug)]
pub struct GauntletOrientation<'a, P> {
    /// Complete native game job.
    pub job: BatchJob<'a, P>,
    /// Stable deck identity occupying North.
    pub north_deck_id: &'a str,
    /// Stable deck identity occupying South.
    pub south_deck_id: &'a str,
}

/// Both seat orientations for one seed and deck pairing.
#[derive(Clone, Copy, Debug)]
pub struct GauntletPair<'a, P> {
    /// Declared manifest seed.
    pub seed: u32,
    /// Same two decks in opposite seats.
    pub orientations: [GauntletOrientation<'a, P>; 2],
}

/// Gauntlet input, manifest metadata, or native batch execution failed.
#[derive(Debug)]
pub enum GauntletError {
    /// A gauntlet invariant was violated.
    Invalid(&'static str),
    /// The manifest of the job at this index (two per seed pair, in pair
    /// order) could not be decoded as JSON.
    Json(usize),
    /// Native batch execution failed.
    Batch(BatchError),
}

/// Whether two gauntlet errors are the same: the same message, or the same
/// job index.
pub open spec fn same_gauntlet_error(a: GauntletError, b: GauntletError) -> bool {
    match (a, b) {
        (GauntletError::Invalid(x), GauntletError::Invalid(y)) => x@ == y@,
        (GauntletError::Json(i), GauntletError::Json(j)) => i == j,
        _ => false,
    }
}

/// The facts a gauntlet reads from one manifest.
pub struct ManifestFacts<'a> {
    /// North's deck as declared.
    pub north_deck: &'a JsonValue,
    /// Declared seed.
    pub seed: u64,
    /// South's deck as declared.
    pub south_deck: &'a JsonValue,
}

/// The unsigned integer a value holds, if any.
pub open spec fn unsigned_of(v: Option<JsonValue>) -> Option<u64> {
    match v {
        Some(JsonValue::Number(JsonNumber::PosInt(u))) => Some(u),
        Some(JsonValue::Number(JsonNumber::NegInt(i))) => if i >= 0 {
            Some(i as u64)
        } else {
            None
        },
        _ => None,
    }
}

/// The deck a manifest declares for `seat` (`"north"` or `"south"`).
pub open spec fn declared_deck(manifest: JsonValue, seat: Seq<char>) -> Option<JsonValue> {
    match value_member(manifest, "decks"@) {
        Some(decks) => value_member(decks, seat),
        None => None,
    }
}

/// The fault of the manifest of job `job`, or `None` when it starts with
/// North and declares an unsigned seed and both decks.
pub open spec fn facts_fault(manifest: Option<JsonValue>, job: usize) -> Option<GauntletError> {
    match manifest {
        None => Some(GauntletError::Json(job)),
        Some(m) => if string_of(value_member(m, "firstSeat"@)) != Some("north"@) {
            Some(GauntletError::Invalid("gauntlet manifests must start with north"))
        } else if unsigned_of(value_member(m, "seed"@)) is None {
            Some(GauntletError::Invalid("gauntlet manifest must declare an unsigned seed"))
        } else if declared_deck(m, "north"@) is None || declared_deck(m, "south"@) is None {
            Some(GauntletError::Invalid("gauntlet manifest must declare both decks"))
        } else {
            None
        },
    }
}

/// Reads the facts a gauntlet checks from the manifest of job `job`.
pub fn manifest_facts(manifest: &Option<JsonValue>, job: usize) -> (r: Result<
    ManifestFacts<'_>,
    GauntletError,
>)
    ensures
        match facts_fault(*manifest, job) {
            Some(f) => r matches Err(e) && same_gauntlet_error(e, f),
            None => r matches Ok(facts) && facts.seed == unsigned_of(
                value_member(manifest->0, "seed"@),
            )->0 && declared_deck(manifest->0, "north"@) == Some(*facts.north_deck)
                && declared_deck(manifest->0, "south"@) == Some(*facts.south_deck),
        },
{
    let m = match manifest {
        Some(m) => m,
        None => {
            return Err(GauntletError::Json(job));
        },
    };
    let starts_north = match as_text(value_get(m, "firstSeat")) {
        Some(seat) => same_text(seat, "north"),
        None => false,
    };
    if !starts_north {
        return Err(GauntletError::Invalid("gauntlet manifests must start with north"));
    }
    let seed = match value_get(m, "seed") {
        Some(JsonValue::Number(JsonNumber::PosInt(u))) => *u,
        Some(JsonValue::Number(JsonNumber::NegInt(i))) => {
            if *i >= 0 {
                *i as u64
            } else {
                return Err(GauntletError::Invalid("gauntlet manifest must declare an unsigned seed"));
            }
        },
        _ => {
            return Err(GauntletError::Invalid("gauntlet manifest must declare an unsigned seed"));
        },
    };
    let decks = match value_get(m, "decks") {
        Some(d) => d,
        None => {
            return Err(GauntletError::Invalid("gauntlet manifest must declare both decks"));
        },
    };
    let north_deck = match value_get(decks, "north") {
        Some(d) => d,
        None => {
            return Err(GauntletError::Invalid("gauntlet manifest must declare both decks"));
        },
    };
    let south_deck = match value_get(decks, "south") {
        Some(d) => d,
        None => {
            return Err(GauntletError::Invalid("gauntlet manifest must declare both decks"));
        },
    };
    Ok(ManifestFacts { north_deck, seed, south_deck })
}

/// Whether the reference pair names two distinct nonblank decks and swaps
/// them, with their jobs' deck identities, across its two orientations.
pub open spec fn reference_swapped<P>(pair: GauntletPair<P>) -> bool {
    let first = pair.orientations@[0];
    let second = pair.orientations@[1];
    &&& !blank(first.north_deck_id@)
    &&& !blank(first.south_deck_id@)
    &&& first.north_deck_id@ != first.south_deck_id@
    &&& second.north_deck_id@ == first.south_deck_id@
    &&& second.south_deck_id@ == first.north_deck_id@
    &&& second.job.north_deck_id@ == first.job.south_deck_id@
    &&& second.job.south_deck_id@ == first.job.north_deck_id@
}

/// Whether a pair names the reference pair's decks in the same seats and
/// swaps them across its two orientations.
pub open spec fn follows_reference<P>(pair: GauntletPair<P>, reference: GauntletPair<P>) -> bool {
    let first = pair.orientations@[0];
    let second = pair.orientations@[1];
    let reference_first = reference.orientations@[0];
    let reference_second = reference.orientations@[1];
    &&& first.north_deck_id@ == reference_first.north_deck_id@
    &&& first.south_deck_id@ == reference_first.south_deck_id@
    &&& second.north_deck_id@ == first.south_deck_id@
    &&& second.south_deck_id@ == first.north_deck_id@
    &&& first.job.north_deck_id@ == reference_first.job.north_deck_id@
    &&& first.job.south_deck_id@ == reference_first.job.south_deck_id@
    &&& second.job.north_deck_id@ == reference_second.job.north_deck_id@
    &&& second.job.south_deck_id@ == reference_second.job.south_deck_id@
}

/// The seed a manifest declares.
pub open spec fn declared_seed(manifest: Option<JsonValue>) -> u64 {
    unsigned_of(value_member(manifest->0, "seed"@))->0
}

/// The deck a manifest declares for `seat`.
pub open spec fn deck_of(manifest: Option<JsonValue>, seat: Seq<char>) -> JsonValue {
    declared_deck(manifest->0, seat)->0
}

/// The fault of pair `i`, given the decks `deck_a` and `deck_b` that the
/// reference manifest seats North and South; `manifests[2 i]` and
/// `manifests[2 i + 1]` are the manifests of its two orientations.
pub open spec fn pair_fault<P>(
    pairs: Seq<GauntletPair<P>>,
    manifests: Seq<Option<JsonValue>>,
    deck_a: JsonValue,
    deck_b: JsonValue,
    i: int,
) -> Option<GauntletError> {
    let pair = pairs[i];
    let first = manifests[2 * i];
    let second = manifests[2 * i + 1];
    if !follows_reference(pair, pairs[0]) {
        Some(GauntletError::Invalid("gauntlet requires two distinct decks swapped across seats"))
    } else if facts_fault(first, (2 * i) as usize) is Some {
        facts_fault(first, (2 * i) as usize)
    } else if facts_fault(second, (2 * i + 1) as usize) is Some {
        facts_fault(second, (2 * i + 1) as usize)
    } else if declared_seed(first) != pair.seed || declared_seed(second) != pair.seed {
        Some(GauntletError::Invalid("gauntlet seed does not match its manifest"))
    } else if !json_same(deck_of(first, "north"@), deck_a) || !json_same(
        deck_of(first, "south"@),
        deck_b,
    ) || !json_same(deck_of(second, "north"@), deck_b) || !json_same(
        deck_of(second, "south"@),
        deck_a,
    ) {
        Some(GauntletError::Invalid("gauntlet manifests must contain the declared seat swap"))
    } else {
        None
    }
}

/// The first fault among the first `n` pairs.
pub open spec fn pairs_fault<P>(
    pairs: Seq<GauntletPair<P>>,
    manifests: Seq<Option<JsonValue>>,
    deck_a: JsonValue,
    deck_b: JsonValue,
    n: nat,
) -> Option<GauntletError>
    decreases n,
{
    if n == 0 {
        None
    } else if pairs_fault(pairs, manifests, deck_a, deck_b, (n - 1) as nat) is Some {
        pairs_fault(pairs, manifests, deck_a, deck_b, (n - 1) as nat)
    } else {
        pair_fault(pairs, manifests, deck_a, deck_b, n - 1)
    }
}

/// The first fault of a gauntlet's pairs: the reference pair's deck swap,
/// the reference manifest, then each pair in order.
pub open spec fn gauntlet_pairs_fault<P>(
    pairs: Seq<GauntletPair<P>>,
    manifests: Seq<Option<JsonValue>>,
) -> Option<GauntletError> {
    if !reference_swapped(pairs[0]) {
        Some(GauntletError::Invalid("gauntlet requires two distinct decks swapped across seats"))
    } else if facts_fault(manifests[0], 0) is Some {
        facts_fault(manifests[0], 0)
    } else {
        pairs_fault(
            pairs,
            manifests,
            deck_of(manifests[0], "north"@),
            deck_of(manifests[0], "south"@),
            pairs.len(),
        )
    }
}

fn same_hash(a: &IdentityHash, b: &IdentityHash) -> (r: bool)
    ensures
        r == (a@ == b@),
{
    a.same_as(b)
}

/// Checks that every pair swaps the same two decks across seats and that
/// each orientation's manifest declares the pair's seed and that swap.
/// `manifests[2 i + k]` is the decoded manifest of orientation `k` of pair
/// `i`, or `None` when it is not JSON.
pub fn validate_pairs<P>(pairs: &[GauntletPair<'_, P>], manifests: &[Option<JsonValue>]) -> (r:
    Result<(), GauntletError>)
    requires
        pairs@.len() >= 1,
        manifests@.len() == 2 * pairs@.len(),
    ensures
        match gauntlet_pairs_fault(pairs@, manifests@) {
            None => r is Ok,
            Some(f) => r matches Err(e) && same_gauntlet_error(e, f),
        },
{
    let reference_first = &pairs[0].orientations[0];
    let reference_second = &pairs[0].orientations[1];
    if is_blank(reference_first.north_deck_id) || is_blank(reference_first.south_deck_id)
        || same_text(reference_first.north_deck_id, reference_first.south_deck_id) || !same_text(
        reference_second.north_deck_id,
        reference_first.south_deck_id,
    ) || !same_text(reference_second.south_deck_id, reference_first.north_deck_id) || !same_hash(
        reference_second.job.north_deck_id,
        reference_first.job.south_deck_id,
    ) || !same_hash(reference_second.job.south_deck_id, reference_first.job.north_deck_id) {
        return Err(GauntletError::Invalid("gauntlet requires two distinct decks swapped across seats"));
    }
    let reference = manifest_facts(&manifests[0], 0)?;
    let deck_a = reference.north_deck;
    let deck_b = reference.south_deck;
    let ghost a = deck_of(manifests@[0], "north"@);
    let ghost b = deck_of(manifests@[0], "south"@);
    let manifest_count = manifests.len();
    let mut i: usize = 0;
    while i < pairs.len()
        invariant
            pairs@.len() >= 1,
            manifests@.len() == 2 * pairs@.len(),
            manifest_count == manifests@.len(),
            i <= pairs@.len(),
            reference_swapped(pairs@[0]),
            *reference_first == pairs@[0].orientations@[0],
            *reference_second == pairs@[0].orientations@[1],
            facts_fault(manifests@[0], 0) is None,
            *deck_a == a,
            *deck_b == b,
            a == deck_of(manifests@[0], "north"@),
            b == deck_of(manifests@[0], "south"@),
            pairs_fault(pairs@, manifests@, a, b, i as nat) is None,
        decreases pairs@.len() - i,
    {
        let pair = &pairs[i];
        let first = &pair.orientations[0];
        let second = &pair.orientations[1];
        if !same_text(first.north_deck_id, reference_first.north_deck_id) || !same_text(
            first.south_deck_id,
            reference_first.south_deck_id,
        ) || !same_text(second.north_deck_id, first.south_deck_id) || !same_text(
            second.south_deck_id,
            first.north_deck_id,
        ) || !same_hash(first.job.north_deck_id, reference_first.job.north_deck_id) || !same_hash(
            first.job.south_deck_id,
            reference_first.job.south_deck_id,
        ) || !same_hash(second.job.north_deck_id, reference_second.job.north_deck_id)
            || !same_hash(second.job.south_deck_id, reference_second.job.south_deck_id) {
            proof {
                lemma_pairs_fault_stays(pairs@, manifests@, a, b, (i + 1) as nat, pairs@.len());
            }
            return Err(GauntletError::Invalid("gauntlet requires two distinct decks swapped across seats"));
        }
        let first_facts = match manifest_facts(&manifests[2 * i], 2 * i) {
            Ok(f) => f,
            Err(e) => {
                proof {
                    lemma_pairs_fault_stays(pairs@, manifests@, a, b, (i + 1) as nat, pairs@.len());
                }
                return Err(e);
            },
        };
        let second_facts = match manifest_facts(&manifests[2 * i + 1], 2 * i + 1) {
            Ok(f) => f,
            Err(e) => {
                proof {
                    lemma_pairs_fault_stays(pairs@, manifests@, a, b, (i + 1) as nat, pairs@.len());
                }
                return Err(e);
            },
        };
        if first_facts.seed != pair.seed as u64 || second_facts.seed != pair.seed as u64 {
            proof {
                lemma_pairs_fault_stays(pairs@, manifests@, a, b, (i + 1) as nat, pairs@.len());
            }
            return Err(GauntletError::Invalid("gauntlet seed does not match its manifest"));
        }
        if !json_equal(first_facts.north_deck, deck_a) || !json_equal(first_facts.south_deck, deck_b)
            || !json_equal(second_facts.north_deck, deck_b) || !json_equal(
            second_facts.south_deck,
            deck_a,
        ) {
            proof {
                lemma_pairs_fault_stays(pairs@, manifests@, a, b, (i + 1) as nat, pairs@.len());
            }
            return Err(GauntletError::Invalid("gauntlet manifests must contain the declared seat swap"));
        }
        i = i + 1;
    }
    Ok(())
}

/// Once some pair has a fault, later pairs do not change the first fault.
proof fn lemma_pairs_fault_stays<P>(
    pairs: Seq<GauntletPair<P>>,
    manifests: Seq<Option<JsonValue>>,
    deck_a: JsonValue,
    deck_b: JsonValue,
    k: nat,
    n: nat,
)
    requires
        pairs_fault(pairs, manifests, deck_a, deck_b, k) is Some,
        k <= n,
    ensures
        pairs_fault(pairs, manifests, deck_a, deck_b, n) == pairs_fault(
            pairs,
            manifests,
            deck_a,
            deck_b,
            k,
        ),
    decreases n - k,
{
    if n > k {
        lemma_pairs_fault_stays(pairs, manifests, deck_a, deck_b, k, (n - 1) as nat);
    }
}

/// The message for a gauntlet with no pairs or more than half the batch job limit.
pub open spec fn pair_count_message() -> Seq<char> {
    "gauntlet must contain 1-128 seed pairs"@
}

/// Checks a gauntlet's pairs before any game runs: between one and half the
/// batch job limit of pairs, then [`validate_pairs`].
pub fn check_gauntlet_pairs<P>(pairs: &[GauntletPair<'_, P>], manifests: &[Option<JsonValue>]) -> (r:
    Result<(), GauntletError>)
    requires
        manifests@.len() == 2 * pairs@.len(),
    ensures
        pairs@.len() == 0 || pairs@.len() > MAX_BATCH_JOBS / 2 ==> (r matches Err(
            GauntletError::Invalid(m),
        ) && m@ == pair_count_message()),
        1 <= pairs@.len() <= MAX_BATCH_JOBS / 2 ==> match gauntlet_pairs_fault(pairs@, manifests@) {
            None => r is Ok,
            Some(f) => r matches Err(e) && same_gauntlet_error(e, f),
        },
{
    if pairs.len() == 0 || pairs.len() > MAX_BATCH_JOBS / 2 {
        return Err(GauntletError::Invalid("gauntlet must contain 1-128 seed pairs"));
    }
    validate_pairs(pairs, manifests)
}

} // verus!
