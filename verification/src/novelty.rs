//! The deterministic action selector that drives novelty and counterfactual
//! rollouts: a fixed preference over the engine-issued legal actions, read
//! against the public replay state.

use vstd::prelude::*;

use crate::contract::{ActionRequest, LegalAction};
use crate::json::{json_same, value_member, JsonNumber, JsonValue};
use crate::order::{precedes, text_precedes};
use crate::text::{char_code, same_text, str_chars, string_from_chars};

verus! {

/// Maximum actions a novelty rollout may take.
pub const NOVELTY_ACTION_LIMIT: u64 = 500;

/// Maximum legal actions a novelty probe examines.
pub const NOVELTY_WIDTH_LIMIT: usize = 128;

/// The value behind an optional reference.
pub open spec fn opt(v: Option<&JsonValue>) -> Option<JsonValue> {
    match v {
        Some(x) => Some(*x),
        None => None,
    }
}

/// The member `key` of an optional value: `None` when the value is absent or
/// not an object holding `key`, as indexing a JSON value yields `null`.
pub open spec fn member(v: Option<JsonValue>, key: Seq<char>) -> Option<JsonValue> {
    match v {
        Some(x) => value_member(x, key),
        None => None,
    }
}

/// Whether an optional value is the string `text`.
pub open spec fn is_text(v: Option<JsonValue>, text: Seq<char>) -> bool {
    match v {
        Some(JsonValue::String(s)) => s@ == text,
        _ => false,
    }
}

/// The text of an optional string value, or `fallback`.
pub open spec fn text_or(v: Option<JsonValue>, fallback: Seq<char>) -> Seq<char> {
    match v {
        Some(JsonValue::String(s)) => s@,
        _ => fallback,
    }
}

/// The length of an optional array value, or 0.
pub open spec fn array_len(v: Option<JsonValue>) -> nat {
    match v {
        Some(JsonValue::Array(items)) => items@.len(),
        _ => 0,
    }
}

/// Whether an optional value is an array with no items.
pub open spec fn is_empty_array(v: Option<JsonValue>) -> bool {
    match v {
        Some(JsonValue::Array(items)) => items@.len() == 0,
        _ => false,
    }
}

/// Whether an optional value is an array with some item.
pub open spec fn is_nonempty_array(v: Option<JsonValue>) -> bool {
    match v {
        Some(JsonValue::Array(items)) => items@.len() > 0,
        _ => false,
    }
}

/// An absent value read as `null`.
pub open spec fn or_null(v: Option<JsonValue>) -> JsonValue {
    match v {
        Some(x) => x,
        None => JsonValue::Null,
    }
}

/// Whether two optional values are equal, absent values reading as `null`.
pub open spec fn same_or_null(a: Option<JsonValue>, b: Option<JsonValue>) -> bool {
    json_same(or_null(a), or_null(b))
}

fn get<'a>(v: Option<&'a JsonValue>, key: &str) -> (r: Option<&'a JsonValue>)
    ensures
        opt(r) == member(opt(v), key@),
{
    match v {
        Some(JsonValue::Object(members)) => crate::json::get_member(members, key),
        _ => None,
    }
}

fn text_is(v: Option<&JsonValue>, text: &str) -> (r: bool)
    ensures
        r == is_text(opt(v), text@),
{
    match v {
        Some(JsonValue::String(s)) => same_text(s.as_str(), text),
        _ => false,
    }
}

fn text_or_else<'a>(v: Option<&'a JsonValue>, fallback: &'a str) -> (r: &'a str)
    ensures
        r@ == text_or(opt(v), fallback@),
{
    match v {
        Some(JsonValue::String(s)) => s.as_str(),
        _ => fallback,
    }
}

fn length_of(v: Option<&JsonValue>) -> (r: usize)
    ensures
        r == array_len(opt(v)),
{
    match v {
        Some(JsonValue::Array(items)) => items.len(),
        _ => 0,
    }
}

fn empty_array(v: Option<&JsonValue>) -> (r: bool)
    ensures
        r == is_empty_array(opt(v)),
{
    match v {
        Some(JsonValue::Array(items)) => items.len() == 0,
        _ => false,
    }
}

fn nonempty_array(v: Option<&JsonValue>) -> (r: bool)
    ensures
        r == is_nonempty_array(opt(v)),
{
    match v {
        Some(JsonValue::Array(items)) => items.len() > 0,
        _ => false,
    }
}

fn same_values(a: Option<&JsonValue>, b: Option<&JsonValue>) -> (r: bool)
    ensures
        r == same_or_null(opt(a), opt(b)),
{
    match (a, b) {
        (Some(x), Some(y)) => crate::json::json_equal(x, y),
        (Some(x), None) => crate::json::json_equal(x, &JsonValue::Null),
        (None, Some(y)) => crate::json::json_equal(&JsonValue::Null, y),
        (None, None) => true,
    }
}

/// The value of an ASCII decimal digit, or 0 for any other character.
pub open spec fn digit_or_zero(c: char) -> int {
    if '0' <= c && c <= '9' {
        c as int - '0' as int
    } else {
        0
    }
}

/// The grid distance between two cells named by a column letter and a row
/// digit: the difference of their first characters plus the difference of
/// their second characters read as digits (0 when missing or not a digit);
/// `i64::MAX` when either name is empty.
pub open spec fn cell_distance_of(left: Seq<char>, right: Seq<char>) -> i64 {
    if left.len() == 0 || right.len() == 0 {
        i64::MAX
    } else {
        let left_row = if left.len() > 1 {
            digit_or_zero(left[1])
        } else {
            0
        };
        let right_row = if right.len() > 1 {
            digit_or_zero(right[1])
        } else {
            0
        };
        let columns = left[0] as int - right[0] as int;
        let rows = left_row - right_row;
        (if columns < 0 {
            -columns
        } else {
            columns
        } + if rows < 0 {
            -rows
        } else {
            rows
        }) as i64
    }
}

fn digit_value(c: char) -> (r: i64)
    ensures
        r == digit_or_zero(c),
        0 <= r <= 9,
{
    if '0' <= c && c <= '9' {
        (char_code(c) - 48) as i64
    } else {
        0
    }
}

/// Measures the grid distance between two cells.
pub fn cell_distance(left: &str, right: &str) -> (r: i64)
    ensures
        r == cell_distance_of(left@, right@),
{
    let left_chars = str_chars(left);
    let right_chars = str_chars(right);
    if left_chars.len() == 0 || right_chars.len() == 0 {
        return i64::MAX;
    }
    let left_row = if left_chars.len() > 1 {
        digit_value(left_chars[1])
    } else {
        0
    };
    let right_row = if right_chars.len() > 1 {
        digit_value(right_chars[1])
    } else {
        0
    };
    let a = char_code(left_chars[0]);
    let b = char_code(right_chars[0]);
    let columns: i64 = if a >= b {
        (a - b) as i64
    } else {
        (b - a) as i64
    };
    let rows: i64 = if left_row >= right_row {
        left_row - right_row
    } else {
        right_row - left_row
    };
    columns + rows
}

/// Builds the request that commits an issued action.
pub fn request_for(action: &LegalAction) -> (r: ActionRequest)
    ensures
        r.action_id@ == action.action_id@,
        r.seat == action.seat,
        r.state_version == action.state_version,
{
    ActionRequest {
        action_id: action.action_id.as_str().to_owned(),
        seat: action.seat,
        state_version: action.state_version,
    }
}

/// Whether an action's descriptor has kind `kind`.
pub open spec fn kind_is(a: LegalAction, kind: Seq<char>) -> bool {
    is_text(value_member(a.descriptor, "kind"@), kind)
}

/// Whether an action keeps the opening hand: a mulligan that reorders nothing.
pub open spec fn keeps_hand(a: LegalAction) -> bool {
    &&& kind_is(a, "mulligan"@)
    &&& is_empty_array(value_member(a.descriptor, "atlasOrder"@))
    &&& is_empty_array(value_member(a.descriptor, "spellbookOrder"@))
}

/// Whether an action draws from `zone`.
pub open spec fn draws_from(a: LegalAction, zone: Seq<char>) -> bool {
    kind_is(a, "draw"@) && is_text(value_member(a.descriptor, "zone"@), zone)
}

/// The first of the first `n` actions that keeps the opening hand.
pub open spec fn first_keep(s: Seq<LegalAction>, n: nat) -> Option<int>
    decreases n,
{
    if n == 0 || n > s.len() {
        None
    } else if first_keep(s, (n - 1) as nat) is Some {
        first_keep(s, (n - 1) as nat)
    } else if keeps_hand(s[n - 1]) {
        Some(n - 1)
    } else {
        None
    }
}

/// The first of the first `n` actions of kind `kind`.
pub open spec fn first_kind(s: Seq<LegalAction>, kind: Seq<char>, n: nat) -> Option<int>
    decreases n,
{
    if n == 0 || n > s.len() {
        None
    } else if first_kind(s, kind, (n - 1) as nat) is Some {
        first_kind(s, kind, (n - 1) as nat)
    } else if kind_is(s[n - 1], kind) {
        Some(n - 1)
    } else {
        None
    }
}

/// The first of the first `n` actions that draws from `zone`.
pub open spec fn first_draw(s: Seq<LegalAction>, zone: Seq<char>, n: nat) -> Option<int>
    decreases n,
{
    if n == 0 || n > s.len() {
        None
    } else if first_draw(s, zone, (n - 1) as nat) is Some {
        first_draw(s, zone, (n - 1) as nat)
    } else if draws_from(s[n - 1], zone) {
        Some(n - 1)
    } else {
        None
    }
}

proof fn lemma_first_keep_stays(s: Seq<LegalAction>, k: nat, n: nat)
    requires
        first_keep(s, k) is Some,
        k <= n <= s.len(),
    ensures
        first_keep(s, n) == first_keep(s, k),
    decreases n - k,
{
    if n > k {
        lemma_first_keep_stays(s, k, (n - 1) as nat);
    }
}

proof fn lemma_first_kind_stays(s: Seq<LegalAction>, kind: Seq<char>, k: nat, n: nat)
    requires
        first_kind(s, kind, k) is Some,
        k <= n <= s.len(),
    ensures
        first_kind(s, kind, n) == first_kind(s, kind, k),
    decreases n - k,
{
    if n > k {
        lemma_first_kind_stays(s, kind, k, (n - 1) as nat);
    }
}

proof fn lemma_first_draw_stays(s: Seq<LegalAction>, zone: Seq<char>, k: nat, n: nat)
    requires
        first_draw(s, zone, k) is Some,
        k <= n <= s.len(),
    ensures
        first_draw(s, zone, n) == first_draw(s, zone, k),
    decreases n - k,
{
    if n > k {
        lemma_first_draw_stays(s, zone, k, (n - 1) as nat);
    }
}

/// The index as an integer.
pub open spec fn index_of(r: Option<usize>) -> Option<int> {
    match r {
        Some(i) => Some(i as int),
        None => None,
    }
}

fn kind_of_is(a: &LegalAction, kind: &str) -> (r: bool)
    ensures
        r == kind_is(*a, kind@),
{
    text_is(get(Some(&a.descriptor), "kind"), kind)
}

/// Finds the first action that keeps the opening hand.
pub fn find_keep(actions: &[LegalAction]) -> (r: Option<usize>)
    ensures
        index_of(r) == first_keep(actions@, actions@.len()),
        r matches Some(i) ==> i < actions@.len(),
{
    let mut i: usize = 0;
    while i < actions.len()
        invariant
            i <= actions@.len(),
            first_keep(actions@, i as nat) is None,
        decreases actions@.len() - i,
    {
        let d = Some(&actions[i].descriptor);
        if kind_of_is(&actions[i], "mulligan") && empty_array(get(d, "atlasOrder")) && empty_array(
            get(d, "spellbookOrder"),
        ) {
            proof {
                lemma_first_keep_stays(actions@, (i + 1) as nat, actions@.len());
            }
            return Some(i);
        }
        i = i + 1;
    }
    None
}

/// Finds the first action of kind `kind`.
pub fn find_kind(actions: &[LegalAction], kind: &str) -> (r: Option<usize>)
    ensures
        index_of(r) == first_kind(actions@, kind@, actions@.len()),
        r matches Some(i) ==> i < actions@.len(),
{
    let mut i: usize = 0;
    while i < actions.len()
        invariant
            i <= actions@.len(),
            first_kind(actions@, kind@, i as nat) is None,
        decreases actions@.len() - i,
    {
        if kind_of_is(&actions[i], kind) {
            proof {
                lemma_first_kind_stays(actions@, kind@, (i + 1) as nat, actions@.len());
            }
            return Some(i);
        }
        i = i + 1;
    }
    None
}

/// Finds the first action that draws from `zone`.
pub fn find_draw(actions: &[LegalAction], zone: &str) -> (r: Option<usize>)
    ensures
        index_of(r) == first_draw(actions@, zone@, actions@.len()),
        r matches Some(i) ==> i < actions@.len(),
{
    let mut i: usize = 0;
    while i < actions.len()
        invariant
            i <= actions@.len(),
            first_draw(actions@, zone@, i as nat) is None,
        decreases actions@.len() - i,
    {
        if kind_of_is(&actions[i], "draw") && text_is(get(Some(&actions[i].descriptor), "zone"), zone) {
            proof {
                lemma_first_draw_stays(actions@, zone@, (i + 1) as nat, actions@.len());
            }
            return Some(i);
        }
        i = i + 1;
    }
    None
}

/// How far a move-and-attack action leaves its unit from the enemy Avatar:
/// -1 for a one-step move onto the Avatar's surface cell, the cell distance
/// for a longer path, and `i64::MAX` otherwise.
pub open spec fn move_distance(a: LegalAction, enemy_avatar: Seq<char>) -> i64 {
    let d = a.descriptor;
    let path_len = array_len(value_member(d, "path"@));
    let to = value_member(d, "to"@);
    let to_cell = text_or(member(to, "cell"@), ""@);
    let to_region = text_or(member(to, "region"@), ""@);
    if path_len == 1 && to_cell == enemy_avatar && to_region == "surface"@ {
        -1i64
    } else if path_len > 1 {
        cell_distance_of(to_cell, enemy_avatar)
    } else {
        i64::MAX
    }
}

/// The first move-and-attack action among the first `n` with the least
/// distance, with that distance.
pub open spec fn best_move(s: Seq<LegalAction>, enemy_avatar: Seq<char>, n: nat) -> Option<(int, i64)>
    decreases n,
{
    if n == 0 || n > s.len() {
        None
    } else {
        let previous = best_move(s, enemy_avatar, (n - 1) as nat);
        if kind_is(s[n - 1], "move-and-attack"@) {
            let distance = move_distance(s[n - 1], enemy_avatar);
            match previous {
                Some((i, best)) => if distance < best {
                    Some((n - 1, distance))
                } else {
                    previous
                },
                None => Some((n - 1, distance)),
            }
        } else {
            previous
        }
    }
}

/// A movement choice with its index as an integer.
pub open spec fn movement_of(m: Option<(usize, i64)>) -> Option<(int, i64)> {
    match m {
        Some((i, d)) => Some((i as int, d)),
        None => None,
    }
}

fn distance_of(a: &LegalAction, enemy_avatar: &str) -> (r: i64)
    ensures
        r == move_distance(*a, enemy_avatar@),
{
    let d = Some(&a.descriptor);
    let path_len = length_of(get(d, "path"));
    let to = get(d, "to");
    let to_cell = text_or_else(get(to, "cell"), "");
    let to_region = text_or_else(get(to, "region"), "");
    if path_len == 1 && same_text(to_cell, enemy_avatar) && same_text(to_region, "surface") {
        -1
    } else if path_len > 1 {
        cell_distance(to_cell, enemy_avatar)
    } else {
        i64::MAX
    }
}

/// Finds the move-and-attack action that ends closest to the enemy Avatar,
/// the first one among equally close moves.
pub fn best_movement(actions: &[LegalAction], enemy_avatar: &str) -> (r: Option<(usize, i64)>)
    ensures
        movement_of(r) == best_move(actions@, enemy_avatar@, actions@.len()),
        r matches Some((i, d)) ==> i < actions@.len(),
{
    let mut best: Option<(usize, i64)> = None;
    let mut i: usize = 0;
    while i < actions.len()
        invariant
            i <= actions@.len(),
            movement_of(best) == best_move(actions@, enemy_avatar@, i as nat),
            best matches Some((k, d)) ==> k < i,
        decreases actions@.len() - i,
    {
        if kind_of_is(&actions[i], "move-and-attack") {
            let distance = distance_of(&actions[i], enemy_avatar);
            match best {
                Some((_, current)) => {
                    if distance < current {
                        best = Some((i, distance));
                    }
                },
                None => {
                    best = Some((i, distance));
                },
            }
        }
        i = i + 1;
    }
    best
}

/// The movement's action when its distance is finite.
pub open spec fn finite_move(movement: Option<(int, i64)>) -> Option<int> {
    match movement {
        Some((i, d)) => if d != i64::MAX {
            Some(i)
        } else {
            None
        },
        None => None,
    }
}

/// Returns the movement's action when its distance is finite.
pub fn finite_movement(actions: &[LegalAction], movement: Option<(usize, i64)>) -> (r: Option<usize>)
    requires
        movement matches Some((i, d)) ==> i < actions@.len(),
    ensures
        index_of(r) == finite_move(movement_of(movement)),
        r matches Some(i) ==> i < actions@.len(),
{
    match movement {
        Some((index, distance)) => {
            if distance != i64::MAX {
                Some(index)
            } else {
                None
            }
        },
        None => None,
    }
}

/// The value at `players.<seat>` of a state.
pub open spec fn player(state: JsonValue, seat: Seq<char>) -> Option<JsonValue> {
    member(value_member(state, "players"@), seat)
}

/// The units on the realm of a state, or none.
pub open spec fn realm_units(state: JsonValue) -> Seq<JsonValue> {
    match member(value_member(state, "realm"@), "units"@) {
        Some(JsonValue::Array(units)) => units@,
        _ => Seq::empty(),
    }
}

/// Whether a unit value is `unit_id` and carries a temporary power source.
pub open spec fn unit_powered(unit: JsonValue, unit_id: Seq<char>) -> bool {
    is_text(value_member(unit, "instanceId"@), unit_id) && is_nonempty_array(
        value_member(unit, "temporaryPowerSources"@),
    )
}

/// The movement's action when the moving unit, the seat's Avatar or a realm
/// unit, carries a temporary power source.
pub open spec fn powered_move(
    state: JsonValue,
    s: Seq<LegalAction>,
    seat: Seq<char>,
    movement: Option<(int, i64)>,
) -> Option<int> {
    match movement {
        None => None,
        Some((index, _)) => {
            let avatar = member(player(state, seat), "avatar"@);
            match (
                value_member(s[index].descriptor, "unitInstanceId"@),
                member(member(avatar, "card"@), "instanceId"@),
            ) {
                (Some(JsonValue::String(unit_id)), Some(JsonValue::String(avatar_id))) => {
                    let powered = if unit_id@ == avatar_id@ {
                        is_nonempty_array(member(avatar, "temporaryPowerSources"@))
                    } else {
                        exists|k: int|
                            0 <= k < realm_units(state).len() && unit_powered(
                                #[trigger] realm_units(state)[k],
                                unit_id@,
                            )
                    };
                    if powered {
                        Some(index)
                    } else {
                        None
                    }
                },
                _ => None,
            }
        },
    }
}

fn units_of(state: &JsonValue) -> (r: &[JsonValue])
    ensures
        r@ == realm_units(*state),
{
    match get(get(Some(state), "realm"), "units") {
        Some(JsonValue::Array(units)) => units.as_slice(),
        _ => &[],
    }
}

/// Returns the movement's action when the moving unit carries a temporary
/// power source.
pub fn powered_movement(
    state: &JsonValue,
    actions: &[LegalAction],
    seat: &str,
    movement: Option<(usize, i64)>,
) -> (r: Option<usize>)
    requires
        movement matches Some((i, d)) ==> i < actions@.len(),
    ensures
        index_of(r) == powered_move(*state, actions@, seat@, movement_of(movement)),
        r matches Some(i) ==> i < actions@.len(),
{
    let index = match movement {
        Some((index, _)) => index,
        None => {
            return None;
        },
    };
    let unit_id = match get(Some(&actions[index].descriptor), "unitInstanceId") {
        Some(JsonValue::String(u)) => u.as_str(),
        _ => {
            return None;
        },
    };
    let avatar = get(get(get(Some(state), "players"), seat), "avatar");
    let avatar_id = match get(get(avatar, "card"), "instanceId") {
        Some(JsonValue::String(a)) => a.as_str(),
        _ => {
            return None;
        },
    };
    let powered = if same_text(unit_id, avatar_id) {
        nonempty_array(get(avatar, "temporaryPowerSources"))
    } else {
        let units = units_of(state);
        let mut found = false;
        let mut k: usize = 0;
        while k < units.len()
            invariant
                units@ == realm_units(*state),
                k <= units@.len(),
                found == exists|j: int| 0 <= j < k && unit_powered(#[trigger] units@[j], unit_id@),
            decreases units@.len() - k,
        {
            let unit = Some(&units[k]);
            if text_is(get(unit, "instanceId"), unit_id) && nonempty_array(
                get(unit, "temporaryPowerSources"),
            ) {
                found = true;
            }
            proof {
                if unit_powered(units@[k as int], unit_id@) {
                    assert(exists|j: int| 0 <= j < k + 1 && unit_powered(#[trigger] units@[j], unit_id@));
                }
                if exists|j: int| 0 <= j < k + 1 && unit_powered(#[trigger] units@[j], unit_id@) {
                    let j = choose|j: int| 0 <= j < k + 1 && unit_powered(#[trigger] units@[j], unit_id@);
                    if j < k {
                        assert(exists|j: int| 0 <= j < k && unit_powered(#[trigger] units@[j], unit_id@));
                    }
                }
            }
            k = k + 1;
        }
        found
    };
    if powered {
        Some(index)
    } else {
        None
    }
}

/// Whether an optional value is `true`.
pub open spec fn is_true(v: Option<JsonValue>) -> bool {
    match v {
        Some(JsonValue::Bool(b)) => b,
        _ => false,
    }
}

/// An optional unsigned count, or 0.
pub open spec fn count_or_zero(v: Option<JsonValue>) -> u64 {
    match v {
        Some(JsonValue::Number(JsonNumber::PosInt(u))) => u,
        Some(JsonValue::Number(JsonNumber::NegInt(i))) => if i >= 0 {
            i as u64
        } else {
            0
        },
        _ => 0,
    }
}

/// Whether a cast of Magic is a tactic: it damages an enemy target, or it
/// grants power to an ally of `seat` that the chosen movement then takes
/// onto the enemy Avatar's surface cell.
pub open spec fn magic_tactic_of(
    state: JsonValue,
    descriptor: JsonValue,
    seat: Seq<char>,
    enemy: Seq<char>,
    movement: Option<(int, i64)>,
    s: Seq<LegalAction>,
) -> bool {
    match value_member(descriptor, "cardId"@) {
        Some(JsonValue::String(card_id)) => {
            let definition = member(value_member(state, "cards"@), card_id@);
            if !is_text(member(definition, "cardType"@), "magic"@) {
                false
            } else if member(definition, "damageTargetUnit"@) is Some && is_text(
                member(value_member(descriptor, "target"@), "seat"@),
                enemy,
            ) {
                true
            } else if member(definition, "grantPowerToAllyThisTurn"@) is None || !is_text(
                member(value_member(descriptor, "ally"@), "seat"@),
                seat,
            ) {
                false
            } else {
                match movement {
                    None => false,
                    Some((index, _)) => {
                        let moving = s[index].descriptor;
                        &&& is_text(value_member(moving, "kind"@), "move-and-attack"@)
                        &&& same_or_null(
                            value_member(moving, "unitInstanceId"@),
                            member(value_member(descriptor, "ally"@), "instanceId"@),
                        )
                        &&& same_or_null(
                            member(value_member(moving, "to"@), "cell"@),
                            member(member(player(state, enemy), "avatar"@), "location"@),
                        )
                        &&& is_text(member(value_member(moving, "to"@), "region"@), "surface"@)
                    },
                }
            }
        },
        _ => false,
    }
}

/// Decides whether a cast of Magic is a tactic.
pub fn magic_tactic(
    state: &JsonValue,
    descriptor: &JsonValue,
    seat: &str,
    enemy: &str,
    movement: Option<(usize, i64)>,
    actions: &[LegalAction],
) -> (r: bool)
    requires
        movement matches Some((i, d)) ==> i < actions@.len(),
    ensures
        r == magic_tactic_of(*state, *descriptor, seat@, enemy@, movement_of(movement), actions@),
{
    let d = Some(descriptor);
    let card_id = match get(d, "cardId") {
        Some(JsonValue::String(c)) => c.as_str(),
        _ => {
            return false;
        },
    };
    let definition = get(get(Some(state), "cards"), card_id);
    if !text_is(get(definition, "cardType"), "magic") {
        return false;
    }
    if get(definition, "damageTargetUnit").is_some() && text_is(get(get(d, "target"), "seat"), enemy) {
        return true;
    }
    if get(definition, "grantPowerToAllyThisTurn").is_none() || !text_is(
        get(get(d, "ally"), "seat"),
        seat,
    ) {
        return false;
    }
    let index = match movement {
        Some((index, _)) => index,
        None => {
            return false;
        },
    };
    let moving = Some(&actions[index].descriptor);
    text_is(get(moving, "kind"), "move-and-attack") && same_values(
        get(moving, "unitInstanceId"),
        get(get(d, "ally"), "instanceId"),
    ) && same_values(
        get(get(moving, "to"), "cell"),
        get(get(get(get(Some(state), "players"), enemy), "avatar"), "location"),
    ) && text_is(get(get(moving, "to"), "region"), "surface")
}

/// A cast of a Magic card that deals damage to a target unit is a tactic
/// whenever its target belongs to the enemy seat, whatever the movement and
/// the other legal actions; aimed at a unit of the deciding seat's own, it is
/// not one, unless the card instead grants power to an ally.
pub proof fn lemma_damage_spell_tactic_follows_target_seat(
    state: JsonValue,
    descriptor: JsonValue,
    card_id: Seq<char>,
    seat: Seq<char>,
    enemy: Seq<char>,
    movement: Option<(int, i64)>,
    s: Seq<LegalAction>,
)
    requires
        value_member(descriptor, "cardId"@) matches Some(JsonValue::String(c)) && c@ == card_id,
        is_text(member(member(value_member(state, "cards"@), card_id), "cardType"@), "magic"@),
        member(member(value_member(state, "cards"@), card_id), "damageTargetUnit"@) is Some,
        seat != enemy,
    ensures
        is_text(member(value_member(descriptor, "target"@), "seat"@), enemy) ==> magic_tactic_of(
            state,
            descriptor,
            seat,
            enemy,
            movement,
            s,
        ),
        is_text(member(value_member(descriptor, "target"@), "seat"@), seat) && member(
            member(value_member(state, "cards"@), card_id),
            "grantPowerToAllyThisTurn"@,
        ) is None ==> !magic_tactic_of(state, descriptor, seat, enemy, movement, s),
{
}

/// Whether the Avatar of `name` stands at `cell` in `region` and is not
/// `source`.
pub open spec fn avatar_here(
    state: JsonValue,
    name: Seq<char>,
    source: Seq<char>,
    cell: Seq<char>,
    region: Seq<char>,
) -> bool {
    let avatar = member(player(state, name), "avatar"@);
    &&& !is_text(member(member(avatar, "card"@), "instanceId"@), source)
    &&& is_text(member(avatar, "location"@), cell)
    &&& is_text(member(avatar, "region"@), region)
}

/// Whether a realm unit stands at `cell` in `region`, is not `source`, and
/// names its controller.
pub open spec fn unit_here(unit: JsonValue, source: Seq<char>, cell: Seq<char>, region: Seq<char>) -> bool {
    &&& !is_text(value_member(unit, "instanceId"@), source)
    &&& is_text(value_member(unit, "location"@), cell)
    &&& is_text(value_member(unit, "region"@), region)
    &&& value_member(unit, "controller"@) matches Some(JsonValue::String(_))
}

/// Whether an activation of a Sparkmage is a tactic: the deciding seat has
/// cast an air threshold this turn, and some Avatar or unit other than the
/// source stands at the target location, all of them controlled by `enemy`.
pub open spec fn sparkmage_tactic_of(state: JsonValue, descriptor: JsonValue, enemy: Seq<char>) -> bool {
    let seat = text_or(value_member(state, "decisionSeat"@), "north"@);
    let target = value_member(descriptor, "targetLocation"@);
    let source = text_or(value_member(descriptor, "sourceInstanceId"@), ""@);
    let cell = text_or(member(target, "cell"@), ""@);
    let region = text_or(member(target, "region"@), ""@);
    let units = realm_units(state);
    if count_or_zero(member(player(state, seat), "airThresholdsCastThisTurn"@)) == 0 {
        false
    } else {
        let north = avatar_here(state, "north"@, source, cell, region);
        let south = avatar_here(state, "south"@, source, cell, region);
        &&& (north || south || exists|k: int|
            0 <= k < units.len() && unit_here(#[trigger] units[k], source, cell, region))
        &&& (north ==> "north"@ == enemy)
        &&& (south ==> "south"@ == enemy)
        &&& forall|k: int|
            0 <= k < units.len() && unit_here(#[trigger] units[k], source, cell, region)
                ==> is_text(value_member(units[k], "controller"@), enemy)
    }
}

fn count_value(v: Option<&JsonValue>) -> (r: u64)
    ensures
        r == count_or_zero(opt(v)),
{
    match v {
        Some(JsonValue::Number(JsonNumber::PosInt(u))) => *u,
        Some(JsonValue::Number(JsonNumber::NegInt(i))) => {
            if *i >= 0 {
                *i as u64
            } else {
                0
            }
        },
        _ => 0,
    }
}

fn avatar_stands(state: &JsonValue, name: &str, source: &str, cell: &str, region: &str) -> (r: bool)
    ensures
        r == avatar_here(*state, name@, source@, cell@, region@),
{
    let avatar = get(get(get(Some(state), "players"), name), "avatar");
    !text_is(get(get(avatar, "card"), "instanceId"), source) && text_is(get(avatar, "location"), cell)
        && text_is(get(avatar, "region"), region)
}

/// Decides whether an activation of a Sparkmage is a tactic.
pub fn sparkmage_tactic(state: &JsonValue, descriptor: &JsonValue, enemy: &str) -> (r: bool)
    ensures
        r == sparkmage_tactic_of(*state, *descriptor, enemy@),
{
    let seat = text_or_else(get(Some(state), "decisionSeat"), "north");
    let d = Some(descriptor);
    if count_value(get(get(get(Some(state), "players"), seat), "airThresholdsCastThisTurn")) == 0 {
        return false;
    }
    let source = text_or_else(get(d, "sourceInstanceId"), "");
    let target = get(d, "targetLocation");
    let cell = text_or_else(get(target, "cell"), "");
    let region = text_or_else(get(target, "region"), "");
    let north = avatar_stands(state, "north", source, cell, region);
    let south = avatar_stands(state, "south", source, cell, region);
    let mut any = north || south;
    let mut all = (!north || same_text("north", enemy)) && (!south || same_text("south", enemy));
    let units = units_of(state);
    let mut k: usize = 0;
    while k < units.len()
        invariant
            units@ == realm_units(*state),
            k <= units@.len(),
            any == (north || south || exists|j: int|
                0 <= j < k && unit_here(#[trigger] units@[j], source@, cell@, region@)),
            all == ((north ==> "north"@ == enemy@) && (south ==> "south"@ == enemy@) && forall|j: int|
                0 <= j < k && unit_here(#[trigger] units@[j], source@, cell@, region@) ==> is_text(
                    value_member(units@[j], "controller"@),
                    enemy@,
                )),
        decreases units@.len() - k,
    {
        let unit = Some(&units[k]);
        let here = !text_is(get(unit, "instanceId"), source) && text_is(get(unit, "location"), cell)
            && text_is(get(unit, "region"), region) && match get(unit, "controller") {
            Some(JsonValue::String(_)) => true,
            _ => false,
        };
        if here {
            any = true;
            if !text_is(get(unit, "controller"), enemy) {
                all = false;
            }
        }
        proof {
            let ghost next = (k + 1) as int;
            if here {
                assert(exists|j: int| 0 <= j < next && unit_here(#[trigger] units@[j], source@, cell@, region@));
            } else {
                if exists|j: int| 0 <= j < next && unit_here(#[trigger] units@[j], source@, cell@, region@) {
                    let j = choose|j: int| 0 <= j < next && unit_here(#[trigger] units@[j], source@, cell@, region@);
                    assert(j < k);
                }
            }
        }
        k = k + 1;
    }
    any && all
}

/// Whether an action is a tactic: a cast of Magic or Sparkmage activation
/// that is one, or a projectile that hits an enemy (a drag projectile only
/// when it does not fight on arrival).
pub open spec fn is_tactic(
    state: JsonValue,
    s: Seq<LegalAction>,
    a: LegalAction,
    seat: Seq<char>,
    enemy: Seq<char>,
    movement: Option<(int, i64)>,
) -> bool {
    let d = a.descriptor;
    let hits_enemy = is_text(member(value_member(d, "hit"@), "seat"@), enemy);
    if kind_is(a, "cast-magic"@) {
        magic_tactic_of(state, d, seat, enemy, movement, s)
    } else if kind_is(a, "shoot-projectile"@) {
        hits_enemy
    } else if kind_is(a, "shoot-drag-projectile"@) {
        hits_enemy && !is_true(value_member(d, "fightOnArrival"@))
    } else if kind_is(a, "activate-sparkmage"@) {
        sparkmage_tactic_of(state, d, enemy)
    } else {
        false
    }
}

/// The first tactic among the first `n` actions.
pub open spec fn first_tactic(
    state: JsonValue,
    s: Seq<LegalAction>,
    seat: Seq<char>,
    enemy: Seq<char>,
    movement: Option<(int, i64)>,
    n: nat,
) -> Option<int>
    decreases n,
{
    if n == 0 || n > s.len() {
        None
    } else if first_tactic(state, s, seat, enemy, movement, (n - 1) as nat) is Some {
        first_tactic(state, s, seat, enemy, movement, (n - 1) as nat)
    } else if is_tactic(state, s, s[n - 1], seat, enemy, movement) {
        Some(n - 1)
    } else {
        None
    }
}

proof fn lemma_first_tactic_stays(
    state: JsonValue,
    s: Seq<LegalAction>,
    seat: Seq<char>,
    enemy: Seq<char>,
    movement: Option<(int, i64)>,
    k: nat,
    n: nat,
)
    requires
        first_tactic(state, s, seat, enemy, movement, k) is Some,
        k <= n <= s.len(),
    ensures
        first_tactic(state, s, seat, enemy, movement, n) == first_tactic(
            state,
            s,
            seat,
            enemy,
            movement,
            k,
        ),
    decreases n - k,
{
    if n > k {
        lemma_first_tactic_stays(state, s, seat, enemy, movement, k, (n - 1) as nat);
    }
}

fn tactic_at(
    state: &JsonValue,
    actions: &[LegalAction],
    i: usize,
    seat: &str,
    enemy: &str,
    movement: Option<(usize, i64)>,
) -> (r: bool)
    requires
        i < actions@.len(),
        movement matches Some((k, d)) ==> k < actions@.len(),
    ensures
        r == is_tactic(*state, actions@, actions@[i as int], seat@, enemy@, movement_of(movement)),
{
    let action = &actions[i];
    let d = Some(&action.descriptor);
    let hits_enemy = text_is(get(get(d, "hit"), "seat"), enemy);
    if kind_of_is(action, "cast-magic") {
        magic_tactic(state, &action.descriptor, seat, enemy, movement, actions)
    } else if kind_of_is(action, "shoot-projectile") {
        hits_enemy
    } else if kind_of_is(action, "shoot-drag-projectile") {
        let fights = match get(d, "fightOnArrival") {
            Some(JsonValue::Bool(b)) => *b,
            _ => false,
        };
        hits_enemy && !fights
    } else if kind_of_is(action, "activate-sparkmage") {
        sparkmage_tactic(state, &action.descriptor, enemy)
    } else {
        false
    }
}

/// Finds the first tactic among the actions.
pub fn tactic_index(
    state: &JsonValue,
    actions: &[LegalAction],
    seat: &str,
    enemy: &str,
    movement: Option<(usize, i64)>,
) -> (r: Option<usize>)
    requires
        movement matches Some((k, d)) ==> k < actions@.len(),
    ensures
        index_of(r) == first_tactic(
            *state,
            actions@,
            seat@,
            enemy@,
            movement_of(movement),
            actions@.len(),
        ),
        r matches Some(i) ==> i < actions@.len(),
{
    let mut i: usize = 0;
    while i < actions.len()
        invariant
            i <= actions@.len(),
            movement matches Some((k, d)) ==> k < actions@.len(),
            first_tactic(*state, actions@, seat@, enemy@, movement_of(movement), i as nat) is None,
        decreases actions@.len() - i,
    {
        if tactic_at(state, actions, i, seat, enemy, movement) {
            proof {
                lemma_first_tactic_stays(
                    *state,
                    actions@,
                    seat@,
                    enemy@,
                    movement_of(movement),
                    (i + 1) as nat,
                    actions@.len(),
                );
            }
            return Some(i);
        }
        i = i + 1;
    }
    None
}

/// `first`, or `second` when `first` is `None`.
pub open spec fn or_else(first: Option<int>, second: Option<int>) -> Option<int> {
    if first is Some {
        first
    } else {
        second
    }
}

/// The action the selector commits in `replay`'s position, by preference:
/// keeping the opening hand, playing a site, summoning a minion, drawing
/// (from the Atlas while it holds more than three sites or the Spellbook is
/// no larger, else from the Spellbook), a powered movement, a tactic, a
/// movement that approaches the enemy Avatar, ending the turn, and finally
/// the first action.
pub open spec fn selected(replay: JsonValue, s: Seq<LegalAction>) -> Option<int> {
    let state = or_null(value_member(replay, "state"@));
    let seat = text_or(value_member(state, "decisionSeat"@), "north"@);
    let enemy = if seat == "north"@ {
        "south"@
    } else {
        "north"@
    };
    let atlas_len = array_len(member(player(state, seat), "atlas"@));
    let spellbook_len = array_len(member(player(state, seat), "spellbook"@));
    let draw_zone = if atlas_len > 3 || spellbook_len <= atlas_len {
        "atlas"@
    } else {
        "spellbook"@
    };
    let enemy_avatar = text_or(member(member(player(state, enemy), "avatar"@), "location"@), ""@);
    let movement = best_move(s, enemy_avatar, s.len());
    let n = s.len();
    or_else(
        first_keep(s, n),
        or_else(
            first_kind(s, "play-site"@, n),
            or_else(
                first_kind(s, "summon-minion"@, n),
                or_else(
                    first_draw(s, draw_zone, n),
                    or_else(
                        powered_move(state, s, seat, movement),
                        or_else(
                            first_tactic(state, s, seat, enemy, movement, n),
                            or_else(
                                finite_move(movement),
                                or_else(
                                    first_kind(s, "end-turn"@, n),
                                    if n == 0 {
                                        None
                                    } else {
                                        Some(0)
                                    },
                                ),
                            ),
                        ),
                    ),
                ),
            ),
        ),
    )
}

/// Chooses the action the deterministic selector commits in `replay`'s
/// position, or `None` when no action is issued.
pub fn select_index(replay: &JsonValue, actions: &[LegalAction]) -> (r: Option<usize>)
    ensures
        index_of(r) == selected(*replay, actions@),
        r is Some <==> actions@.len() > 0,
        r matches Some(i) ==> i < actions@.len(),
{
    let null = JsonValue::Null;
    let state = match get(Some(replay), "state") {
        Some(s) => s,
        None => &null,
    };
    let seat = text_or_else(get(Some(state), "decisionSeat"), "north");
    let enemy = if same_text(seat, "north") {
        "south"
    } else {
        "north"
    };
    let player_value = get(get(Some(state), "players"), seat);
    let atlas_len = length_of(get(player_value, "atlas"));
    let spellbook_len = length_of(get(player_value, "spellbook"));
    let draw_zone = if atlas_len > 3 || spellbook_len <= atlas_len {
        "atlas"
    } else {
        "spellbook"
    };
    let enemy_avatar = text_or_else(
        get(get(get(get(Some(state), "players"), enemy), "avatar"), "location"),
        "",
    );
    let movement = best_movement(actions, enemy_avatar);
    let tactic = tactic_index(state, actions, seat, enemy, movement);
    let powered = powered_movement(state, actions, seat, movement);
    if let Some(i) = find_keep(actions) {
        return Some(i);
    }
    if let Some(i) = find_kind(actions, "play-site") {
        return Some(i);
    }
    if let Some(i) = find_kind(actions, "summon-minion") {
        return Some(i);
    }
    if let Some(i) = find_draw(actions, draw_zone) {
        return Some(i);
    }
    if powered.is_some() {
        return powered;
    }
    if tactic.is_some() {
        return tactic;
    }
    let finite = finite_movement(actions, movement);
    if finite.is_some() {
        return finite;
    }
    if let Some(i) = find_kind(actions, "end-turn") {
        return Some(i);
    }
    if actions.len() == 0 {
        None
    } else {
        Some(0)
    }
}

/// The descriptor kind of an action, or empty text.
pub open spec fn kind_text(a: LegalAction) -> Seq<char> {
    text_or(value_member(a.descriptor, "kind"@), ""@)
}

/// The distinct kinds of the first `n` actions, in first-seen order.
pub open spec fn first_seen_kinds(s: Seq<LegalAction>, n: nat) -> Seq<Seq<char>>
    decreases n,
{
    if n == 0 || n > s.len() {
        Seq::empty()
    } else {
        let seen = first_seen_kinds(s, (n - 1) as nat);
        if seen.contains(kind_text(s[n - 1])) {
            seen
        } else {
            seen.push(kind_text(s[n - 1]))
        }
    }
}

/// The texts of a sequence of strings.
pub open spec fn texts_of(v: Seq<String>) -> Seq<Seq<char>> {
    v.map_values(|t: String| t@)
}

/// Returns the descriptor kind of an action, or empty text.
pub fn action_kind(action: &LegalAction) -> (r: String)
    ensures
        r@ == kind_text(*action),
{
    text_or_else(get(Some(&action.descriptor), "kind"), "").to_owned()
}

/// Lists the distinct kinds of the issued actions in first-seen order.
pub fn unique_kinds(actions: &[LegalAction]) -> (r: Vec<String>)
    ensures
        texts_of(r@) == first_seen_kinds(actions@, actions@.len()),
{
    let mut kinds: Vec<String> = Vec::new();
    let mut i: usize = 0;
    while i < actions.len()
        invariant
            i <= actions@.len(),
            texts_of(kinds@) == first_seen_kinds(actions@, i as nat),
        decreases actions@.len() - i,
    {
        let kind = action_kind(&actions[i]);
        let mut seen = false;
        let mut j: usize = 0;
        while j < kinds.len()
            invariant
                j <= kinds@.len(),
                seen == exists|k: int| 0 <= k < j && kinds@[k]@ == kind@,
            decreases kinds@.len() - j,
        {
            if same_text(kinds[j].as_str(), kind.as_str()) {
                seen = true;
            }
            proof {
                if exists|k: int| 0 <= k < j + 1 && kinds@[k]@ == kind@ {
                    let k = choose|k: int| 0 <= k < j + 1 && kinds@[k]@ == kind@;
                    if k < j {
                        assert(exists|k: int| 0 <= k < j && kinds@[k]@ == kind@);
                    }
                }
            }
            j = j + 1;
        }
        proof {
            let t = texts_of(kinds@);
            if seen {
                let k = choose|k: int| 0 <= k < kinds@.len() && kinds@[k]@ == kind@;
                assert(t[k] == kind@);
                assert(t.contains(kind@));
            } else {
                assert forall|k: int| 0 <= k < t.len() implies t[k] != kind@ by {
                    assert(t[k] == kinds@[k]@);
                }
                assert(!t.contains(kind@));
            }
        }
        if !seen {
            let ghost before = kinds@;
            kinds.push(kind);
            assert(texts_of(kinds@) =~= texts_of(before).push(kinds@[kinds@.len() - 1]@));
        }
        i = i + 1;
    }
    kinds
}

/// One probed legal action of the novelty search.
#[derive(Debug)]
pub struct Probe {
    /// The probed action.
    pub action: LegalAction,
    /// Sorted unique event types its receipt emitted.
    pub event_types: Vec<String>,
    /// Its index among the legal actions.
    pub index: usize,
    /// Whether its kind had not been committed before.
    pub new_action_kind: bool,
    /// How many of its event types had not been committed before.
    pub new_event_count: usize,
    /// Whether the deterministic selector would have chosen it.
    pub selected_by_fallback: bool,
    /// The state identity after it.
    pub state_hash: String,
}

/// Whether `left` ranks before `right` among probes: more new event types,
/// then a new action kind, then the selector's own choice, then the earlier
/// legal index.
pub open spec fn probe_precedes(left: Probe, right: Probe) -> bool {
    if left.new_event_count != right.new_event_count {
        left.new_event_count > right.new_event_count
    } else if left.new_action_kind != right.new_action_kind {
        left.new_action_kind
    } else if left.selected_by_fallback != right.selected_by_fallback {
        left.selected_by_fallback
    } else {
        left.index < right.index
    }
}

/// Decides whether probe `left` ranks before probe `right`.
pub fn prefer_probe(left: &Probe, right: &Probe) -> (r: bool)
    ensures
        r == probe_precedes(*left, *right),
{
    if left.new_event_count != right.new_event_count {
        return left.new_event_count > right.new_event_count;
    }
    if left.new_action_kind != right.new_action_kind {
        return left.new_action_kind;
    }
    if left.selected_by_fallback != right.selected_by_fallback {
        return left.selected_by_fallback;
    }
    left.index < right.index
}

/// One ranked frontier candidate of the novelty search.
#[derive(Debug)]
pub struct RankedFrontier {
    /// The candidate object.
    pub candidate: JsonValue,
    /// The decision at which it was found.
    pub decision_index: u64,
    /// Its index among the legal actions.
    pub legal_index: usize,
    /// Whether its kind had not been committed before.
    pub new_action_kind: bool,
    /// How many of its event types had not been committed before.
    pub new_event_count: usize,
    /// Whether the deterministic selector would have chosen it.
    pub selected_by_fallback: bool,
}

/// The `actionId` text of a candidate, or empty text.
pub open spec fn candidate_action_id(candidate: JsonValue) -> Seq<char> {
    text_or(value_member(candidate, "actionId"@), ""@)
}

/// Whether `left` ranks before `right` among frontier candidates: as probes
/// rank, then the earlier decision, then the action identity in `String`
/// order, `left` winning ties.
pub open spec fn frontier_precedes(left: RankedFrontier, right: RankedFrontier) -> bool {
    if left.new_event_count != right.new_event_count {
        left.new_event_count > right.new_event_count
    } else if left.new_action_kind != right.new_action_kind {
        left.new_action_kind
    } else if left.selected_by_fallback != right.selected_by_fallback {
        left.selected_by_fallback
    } else if left.legal_index != right.legal_index {
        left.legal_index < right.legal_index
    } else if left.decision_index != right.decision_index {
        left.decision_index < right.decision_index
    } else {
        !text_precedes(candidate_action_id(right.candidate), candidate_action_id(left.candidate))
    }
}

/// Returns the `actionId` text of a candidate, or empty text.
pub fn signal_action_id(candidate: &JsonValue) -> (r: String)
    ensures
        r@ == candidate_action_id(*candidate),
{
    text_or_else(get(Some(candidate), "actionId"), "").to_owned()
}

/// Decides whether frontier candidate `left` ranks before `right`.
pub fn prefer_frontier(left: &RankedFrontier, right: &RankedFrontier) -> (r: bool)
    ensures
        r == frontier_precedes(*left, *right),
{
    if left.new_event_count != right.new_event_count {
        return left.new_event_count > right.new_event_count;
    }
    if left.new_action_kind != right.new_action_kind {
        return left.new_action_kind;
    }
    if left.selected_by_fallback != right.selected_by_fallback {
        return left.selected_by_fallback;
    }
    if left.legal_index != right.legal_index {
        return left.legal_index < right.legal_index;
    }
    if left.decision_index != right.decision_index {
        return left.decision_index < right.decision_index;
    }
    let left_id = signal_action_id(&left.candidate);
    let right_id = signal_action_id(&right.candidate);
    !precedes(right_id.as_str(), left_id.as_str())
}

/// The key of a novelty signal: its kind, a NUL character, and its value.
pub open spec fn signal_key_of(kind: Seq<char>, value: Seq<char>) -> Seq<char> {
    kind + seq!['\0'] + value
}

/// Builds the key of a novelty signal.
pub fn signal_key(kind: &str, value: &str) -> (r: String)
    ensures
        r@ == signal_key_of(kind@, value@),
{
    let mut chars = str_chars(kind);
    chars.push('\0');
    let mut rest = str_chars(value);
    chars.append(&mut rest);
    string_from_chars(chars.as_slice())
}

/// The signal key of a candidate's `signal.kind` and `signal.value`, each
/// empty when absent.
pub open spec fn candidate_signal(candidate: JsonValue) -> Seq<char> {
    let signal = value_member(candidate, "signal"@);
    signal_key_of(text_or(member(signal, "kind"@), ""@), text_or(member(signal, "value"@), ""@))
}

/// Returns the signal key of a candidate.
pub fn signal_of(candidate: &JsonValue) -> (r: String)
    ensures
        r@ == candidate_signal(*candidate),
{
    let signal = get(Some(candidate), "signal");
    signal_key(text_or_else(get(signal, "kind"), ""), text_or_else(get(signal, "value"), ""))
}

} // verus!
