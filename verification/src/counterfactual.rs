//! Decision rules of the authority-private counterfactual root-action search:
//! how a finished branch is scored and which branch is recommended.

use vstd::prelude::*;

use crate::contract::Seat;
use crate::json::{as_text, string_of, value_get, value_member, JsonNumber, JsonValue};
use crate::text::same_text;

verus! {

/// Maximum root actions before the search reports `too-wide`.
pub const MAX_ROOT_ACTIONS: usize = 128;

/// Maximum continuation decisions after the root choice.
pub const MAX_CONTINUATION_ACTIONS: u64 = 32;

/// The wire name of a seat.
pub open spec fn seat_name(seat: Seat) -> Seq<char> {
    match seat {
        Seat::North => "north"@,
        Seat::South => "south"@,
    }
}

/// The score of a finished terminal from `perspective`: 0 for a draw (a
/// terminal with a `result`), 1 when `perspective` won, -1 otherwise.
pub open spec fn terminal_score_of(terminal: JsonValue, perspective: Seat) -> i8 {
    if value_member(terminal, "result"@) is Some {
        0i8
    } else if string_of(value_member(terminal, "winner"@)) == Some(seat_name(perspective)) {
        1i8
    } else {
        -1i8
    }
}

/// Scores a finished terminal from `perspective`.
pub fn terminal_score(terminal: &JsonValue, perspective: Seat) -> (r: i8)
    ensures
        r == terminal_score_of(*terminal, perspective),
{
    if value_get(terminal, "result").is_some() {
        return 0;
    }
    let name = match perspective {
        Seat::North => "north",
        Seat::South => "south",
    };
    match as_text(value_get(terminal, "winner")) {
        Some(winner) => {
            if same_text(winner, name) {
                1
            } else {
                -1
            }
        },
        None => -1,
    }
}

/// The signed integer a member holds, or 0 when it holds none.
pub open spec fn signed_member(v: JsonValue, key: Seq<char>) -> i64 {
    match value_member(v, key) {
        Some(JsonValue::Number(JsonNumber::PosInt(u))) => if u <= i64::MAX as u64 {
            u as i64
        } else {
            0
        },
        Some(JsonValue::Number(JsonNumber::NegInt(i))) => i,
        _ => 0,
    }
}

/// The unsigned integer a member holds, or 0 when it holds none.
pub open spec fn unsigned_member(v: JsonValue, key: Seq<char>) -> u64 {
    match value_member(v, key) {
        Some(JsonValue::Number(JsonNumber::PosInt(u))) => u,
        Some(JsonValue::Number(JsonNumber::NegInt(i))) => if i >= 0 {
            i as u64
        } else {
            0
        },
        _ => 0,
    }
}

fn signed_value(v: &JsonValue, key: &str) -> (r: i64)
    ensures
        r == signed_member(*v, key@),
{
    match value_get(v, key) {
        Some(JsonValue::Number(JsonNumber::PosInt(u))) => {
            if *u <= i64::MAX as u64 {
                *u as i64
            } else {
                0
            }
        },
        Some(JsonValue::Number(JsonNumber::NegInt(i))) => *i,
        _ => 0,
    }
}

fn unsigned_value(v: &JsonValue, key: &str) -> (r: u64)
    ensures
        r == unsigned_member(*v, key@),
{
    match value_get(v, key) {
        Some(JsonValue::Number(JsonNumber::PosInt(u))) => *u,
        Some(JsonValue::Number(JsonNumber::NegInt(i))) => {
            if *i >= 0 {
                *i as u64
            } else {
                0
            }
        },
        _ => 0,
    }
}

/// Whether branch `left` is kept over branch `right`: the higher score wins;
/// between equal wins the one with fewer decisions, between equal losses the
/// one with more decisions; otherwise `left` stays.
pub open spec fn keeps_left(left: JsonValue, right: JsonValue) -> bool {
    let left_score = signed_member(left, "score"@);
    let right_score = signed_member(right, "score"@);
    let left_decisions = unsigned_member(left, "decisionCount"@);
    let right_decisions = unsigned_member(right, "decisionCount"@);
    if left_score != right_score {
        left_score > right_score
    } else if left_score == 1 && left_decisions != right_decisions {
        left_decisions < right_decisions
    } else if left_score == -1 && left_decisions != right_decisions {
        left_decisions > right_decisions
    } else {
        true
    }
}

/// The index of the branch kept after folding [`keeps_left`] over the first
/// `n` branches from the left.
pub open spec fn preferred_index(branches: Seq<JsonValue>, n: nat) -> int
    decreases n,
{
    if n <= 1 {
        0
    } else {
        let kept = preferred_index(branches, (n - 1) as nat);
        if keeps_left(branches[kept], branches[n - 1]) {
            kept
        } else {
            n - 1
        }
    }
}

/// The index of the recommended branch among terminal branches, or `None`
/// when there are none.
pub fn preferred_branch(branches: &[JsonValue]) -> (r: Option<usize>)
    ensures
        r is None <==> branches@.len() == 0,
        r matches Some(i) ==> i == preferred_index(branches@, branches@.len()),
{
    if branches.len() == 0 {
        return None;
    }
    let mut kept: usize = 0;
    let mut i: usize = 1;
    while i < branches.len()
        invariant
            1 <= i <= branches@.len(),
            kept == preferred_index(branches@, i as nat),
            kept < i,
        decreases branches@.len() - i,
    {
        let left = &branches[kept];
        let right = &branches[i];
        let left_score = signed_value(left, "score");
        let right_score = signed_value(right, "score");
        let left_decisions = unsigned_value(left, "decisionCount");
        let right_decisions = unsigned_value(right, "decisionCount");
        let keep = if left_score != right_score {
            left_score > right_score
        } else if left_score == 1 && left_decisions != right_decisions {
            left_decisions < right_decisions
        } else if left_score == -1 && left_decisions != right_decisions {
            left_decisions > right_decisions
        } else {
            true
        };
        if !keep {
            kept = i;
        }
        i = i + 1;
    }
    Some(kept)
}

} // verus!
