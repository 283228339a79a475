//! Typed legal-action contract shared by engine consumers.

use std::cmp::Ordering;

use vstd::prelude::*;

use crate::canonical::{
    canonical_json, canonical_text, items_text, lemma_items_text_fails, identity_of_canonical_text, identity_of_text, write_value, CanonicalError,
    IdentityHash,
};
use crate::json::{push_string_text, string_text, JsonValue};
use crate::codes::{u32_codes, usize_int};
use crate::deck::{push_text_key, text_key};
use crate::order::{
    compare_lex, lemma_lex_order_antisymmetric, lemma_lex_order_not_greater_transitive, lex_order,
};
use crate::text::{decimal_char_vec, decimal_chars, str_chars, string_from_chars};

verus! {

/// A player seat.
#[derive(Clone, Copy, Debug, Eq, Hash, PartialEq, Structural)]
pub enum Seat {
    /// North player.
    North,
    /// South player.
    South,
}

/// A version-bound request referencing an engine-issued action.
#[derive(Clone, Debug, Eq, PartialEq)]
pub struct ActionRequest {
    /// Opaque action identity as supplied by the caller. Unknown strings are
    /// preserved in rejected-attempt journals.
    pub action_id: String,
    /// Acting seat.
    pub seat: Seat,
    /// State version that issued the action.
    pub state_version: u64,
}

/// A rejected action category.
#[derive(Clone, Copy, Debug, Eq, PartialEq, Structural)]
pub enum RejectionCode {
    /// The request targets an earlier or later state version.
    StaleVersion,
    /// The game has already finished.
    TerminalState,
    /// The action identity was not issued for the current state.
    UnknownAction,
    /// The request names the non-deciding seat.
    WrongSeat,
}

/// A stable rejection returned without changing authoritative game state.
#[derive(Clone, Debug, Eq, PartialEq)]
pub struct Rejection {
    /// Stable machine-readable category.
    pub code: RejectionCode,
    /// Hash of the unchanged authoritative state.
    pub current_state_hash: IdentityHash,
    /// Version of the unchanged authoritative state.
    pub current_state_version: u64,
    /// Stable user-facing explanation.
    pub message: String,
}

/// One accepted or rejected request audit record.
#[derive(Clone, Debug, Eq, PartialEq)]
pub struct Attempt {
    /// One-based attempt sequence.
    pub attempt_sequence: u64,
    /// Hash of the state against which the request was checked.
    pub authoritative_state_hash: IdentityHash,
    /// Version against which the request was checked.
    pub authoritative_state_version: u64,
    /// Stable accepted/rejected outcome.
    pub outcome: AttemptOutcome,
    /// Rejection category, when rejected.
    pub reason_code: Option<RejectionCode>,
    /// Receipt identity, when accepted.
    pub receipt_id: Option<IdentityHash>,
    /// Original typed request.
    pub request: ActionRequest,
}

/// Stable attempt outcome.
#[derive(Clone, Copy, Debug, Eq, PartialEq, Structural)]
pub enum AttemptOutcome {
    /// The request produced a receipt.
    Accepted,
    /// The request was rejected.
    Rejected,
}

/// The action and receipt that caused an event.
#[derive(Clone, Debug, Eq, PartialEq)]
pub struct EventCause {
    /// Opaque action identity.
    pub action_id: IdentityHash,
    /// One-based receipt sequence.
    pub receipt_sequence: u64,
}

/// The stable user-facing explanation for each rejection category.
pub open spec fn rejection_message(code: RejectionCode) -> Seq<char> {
    match code {
        RejectionCode::StaleVersion => "That action belongs to an earlier game state."@,
        RejectionCode::TerminalState => "The game is already over."@,
        RejectionCode::UnknownAction => "That action is not available."@,
        RejectionCode::WrongSeat => "That action belongs to the other seat."@,
    }
}

/// Creates a stable rejection response.
pub fn create_rejection(
    code: RejectionCode,
    current_state_version: u64,
    current_state_hash: IdentityHash,
) -> (r: Rejection)
    ensures
        r.code == code,
        r.current_state_version == current_state_version,
        r.current_state_hash == current_state_hash,
        r.message@ == rejection_message(code),
{
    let message = match code {
        RejectionCode::StaleVersion => "That action belongs to an earlier game state.",
        RejectionCode::TerminalState => "The game is already over.",
        RejectionCode::UnknownAction => "That action is not available.",
        RejectionCode::WrongSeat => "That action belongs to the other seat.",
    }.to_owned();
    Rejection { code, current_state_hash, current_state_version, message }
}

/// Creates an accepted request audit record.
pub fn accepted_attempt(
    attempt_sequence: u64,
    request: ActionRequest,
    authoritative_state_version: u64,
    authoritative_state_hash: IdentityHash,
    receipt_id: IdentityHash,
) -> (r: Attempt)
    ensures
        r == (Attempt {
            attempt_sequence,
            authoritative_state_hash,
            authoritative_state_version,
            outcome: AttemptOutcome::Accepted,
            reason_code: None,
            receipt_id: Some(receipt_id),
            request,
        }),
{
    Attempt {
        attempt_sequence,
        authoritative_state_hash,
        authoritative_state_version,
        outcome: AttemptOutcome::Accepted,
        reason_code: None,
        receipt_id: Some(receipt_id),
        request,
    }
}

/// Creates a rejected request audit record.
pub fn rejected_attempt(
    attempt_sequence: u64,
    request: ActionRequest,
    authoritative_state_version: u64,
    authoritative_state_hash: IdentityHash,
    reason_code: RejectionCode,
) -> (r: Attempt)
    ensures
        r == (Attempt {
            attempt_sequence,
            authoritative_state_hash,
            authoritative_state_version,
            outcome: AttemptOutcome::Rejected,
            reason_code: Some(reason_code),
            receipt_id: None,
            request,
        }),
{
    Attempt {
        attempt_sequence,
        authoritative_state_hash,
        authoritative_state_version,
        outcome: AttemptOutcome::Rejected,
        reason_code: Some(reason_code),
        receipt_id: None,
        request,
    }
}

/// The JSON text of a seat.
pub open spec fn seat_text(seat: Seat) -> Seq<char> {
    match seat {
        Seat::North => "\"north\""@,
        Seat::South => "\"south\""@,
    }
}

/// The canonical JSON text that an action identity hashes: the contract,
/// the descriptor's canonical text, the seat, and the state version.
pub open spec fn action_identity_text(
    contract: Seq<char>,
    seat: Seat,
    state_version: u64,
    descriptor_text: Seq<char>,
) -> Seq<char> {
    "{\"contract\":"@ + string_text(contract) + ",\"descriptor\":"@ + descriptor_text
        + ",\"seat\":"@ + seat_text(seat) + ",\"stateVersion\":"@ + decimal_chars(
        state_version as nat,
    ) + "}"@
}

/// Appends the characters of `s`.
pub(crate) fn push_literal(out: &mut Vec<char>, s: &str)
    ensures
        final(out)@ == old(out)@ + s@,
{
    let mut chars = str_chars(s);
    out.append(&mut chars);
}

/// Appends the JSON text of a seat.
pub(crate) fn push_seat(out: &mut Vec<char>, seat: Seat)
    ensures
        final(out)@ == old(out)@ + seat_text(seat),
{
    match seat {
        Seat::North => push_literal(out, "\"north\""),
        Seat::South => push_literal(out, "\"south\""),
    }
}

/// Binds an action descriptor to its contract, seat, and state version.
pub fn opaque_action_id(contract: &str, seat: Seat, state_version: u64, descriptor: &JsonValue) -> (r:
    Result<IdentityHash, CanonicalError>)
    ensures
        r is Ok <==> canonical_text(*descriptor) is Some,
        r matches Ok(h) ==> h@ == identity_of_text(
            action_identity_text(contract@, seat, state_version, canonical_text(*descriptor)->0),
        ),
{
    let mut out: Vec<char> = Vec::new();
    push_literal(&mut out, "{\"contract\":");
    push_string_text(contract, &mut out);
    push_literal(&mut out, ",\"descriptor\":");
    match write_value(descriptor, &mut out) {
        Ok(()) => {},
        Err(e) => {
            return Err(e);
        },
    }
    push_literal(&mut out, ",\"seat\":");
    push_seat(&mut out, seat);
    push_literal(&mut out, ",\"stateVersion\":");
    let mut digits = decimal_char_vec(state_version);
    out.append(&mut digits);
    push_literal(&mut out, "}");
    assert(out@ =~= action_identity_text(
        contract@,
        seat,
        state_version,
        canonical_text(*descriptor)->0,
    ));
    let text = string_from_chars(out.as_slice());
    Ok(identity_of_canonical_text(text.as_str()))
}

/// An engine-issued legal action.
#[derive(Debug)]
pub struct LegalAction {
    /// Opaque action identity.
    pub action_id: IdentityHash,
    /// Typed action payload at the external boundary.
    pub descriptor: JsonValue,
    /// Human-readable action label.
    pub label: String,
    /// Acting seat.
    pub seat: Seat,
    /// State version that issued the action.
    pub state_version: u64,
}

/// An action as a sort key: its descriptor's canonical text, then its
/// identity, each compared as `String`s are.
pub open spec fn action_rank(a: LegalAction) -> Seq<int> {
    text_key(canonical_text(a.descriptor)->0) + text_key(a.action_id@)
}

/// Whether actions are in canonical order.
pub open spec fn actions_ordered(s: Seq<LegalAction>) -> bool {
    forall|i: int, j: int|
        0 <= i < j < s.len() ==> lex_order(action_rank(s[i]), action_rank(s[j]))
            != Ordering::Greater
}

/// Whether every descriptor has canonical text.
pub open spec fn all_canonical(s: Seq<LegalAction>) -> bool {
    forall|i: int| 0 <= i < s.len() ==> (#[trigger] canonical_text(s[i].descriptor)) is Some
}

/// Builds the sort key of an action.
fn action_rank_vec(a: &LegalAction) -> (r: Vec<u32>)
    requires
        canonical_text(a.descriptor) is Some,
    ensures
        u32_codes(r@) == action_rank(*a),
{
    let mut key: Vec<u32> = Vec::new();
    match canonical_json(&a.descriptor) {
        Ok(text) => push_text_key(&mut key, text.as_str()),
        Err(_) => {},
    }
    push_text_key(&mut key, a.action_id.as_str());
    assert(u32_codes(key@) =~= action_rank(*a));
    key
}

/// Inserting an action after those that do not sort after it keeps order.
proof fn lemma_insert_action_ordered(s: Seq<LegalAction>, j: int, x: LegalAction)
    requires
        actions_ordered(s),
        0 <= j <= s.len(),
        j > 0 ==> lex_order(action_rank(s[j - 1]), action_rank(x)) != Ordering::Greater,
        forall|t: int|
            j <= t < s.len() ==> lex_order(action_rank(#[trigger] s[t]), action_rank(x))
                == Ordering::Greater,
    ensures
        actions_ordered(s.insert(j, x)),
{
    let r = s.insert(j, x);
    assert forall|a: int, b: int| 0 <= a < b < r.len() implies lex_order(
        action_rank(r[a]),
        action_rank(r[b]),
    ) != Ordering::Greater by {
        if b < j {
        } else if a > j {
            assert(r[a] == s[a - 1]);
            assert(r[b] == s[b - 1]);
        } else if b == j {
            if a < j - 1 {
                lemma_lex_order_not_greater_transitive(
                    action_rank(s[a]),
                    action_rank(s[j - 1]),
                    action_rank(x),
                );
            }
        } else if a == j {
            assert(r[b] == s[b - 1]);
            lemma_lex_order_antisymmetric(action_rank(s[b - 1]), action_rank(x));
        } else {
            assert(r[b] == s[b - 1]);
        }
    }
}

/// Returns the actions in canonical order: by descriptor canonical text,
/// then by action identity.
pub fn order_legal_actions(actions: Vec<LegalAction>) -> (r: Result<Vec<LegalAction>, CanonicalError>)
    ensures
        r is Ok <==> all_canonical(actions@),
        r matches Ok(out) ==> actions_ordered(out@) && out@.to_multiset() == actions@.to_multiset(),
{
    let mut i: usize = 0;
    while i < actions.len()
        invariant
            i <= actions@.len(),
            forall|j: int| 0 <= j < i ==> (#[trigger] canonical_text(actions@[j].descriptor)) is Some,
        decreases actions@.len() - i,
    {
        match canonical_json(&actions[i].descriptor) {
            Ok(_) => {},
            Err(e) => {
                return Err(e);
            },
        }
        i = i + 1;
    }
    let ghost all = actions@;
    let mut rest = actions;
    let mut sorted: Vec<LegalAction> = Vec::new();
    let ghost mut k: int = 0;
    assert(all.take(0) =~= Seq::<LegalAction>::empty());
    while rest.len() > 0
        invariant
            0 <= k <= all.len(),
            all_canonical(all),
            rest@ == all.skip(k),
            sorted@.to_multiset() == all.take(k).to_multiset(),
            actions_ordered(sorted@),
            all_canonical(sorted@),
        decreases rest@.len(),
    {
        let ghost before = rest@;
        let x = rest.remove(0);
        assert(before.skip(1) =~= rest@);
        assert(all.skip(k + 1) =~= all.skip(k).skip(1));
        assert(all.take(k + 1) =~= all.take(k).push(x));
        assert(canonical_text(all[k].descriptor) is Some);
        let kx = action_rank_vec(&x);
        let mut j: usize = sorted.len();
        while j > 0
            invariant
                j <= sorted@.len(),
                all_canonical(sorted@),
                u32_codes(kx@) == action_rank(x),
                forall|t: int|
                    j <= t < sorted@.len() ==> lex_order(
                        action_rank(#[trigger] sorted@[t]),
                        action_rank(x),
                    ) == Ordering::Greater,
            ensures
                j <= sorted@.len(),
                forall|t: int|
                    j <= t < sorted@.len() ==> lex_order(
                        action_rank(#[trigger] sorted@[t]),
                        action_rank(x),
                    ) == Ordering::Greater,
                j > 0 ==> lex_order(action_rank(sorted@[j - 1]), action_rank(x))
                    != Ordering::Greater,
            decreases j,
        {
            assert(canonical_text(sorted@[j - 1].descriptor) is Some);
            let kj = action_rank_vec(&sorted[j - 1]);
            match compare_lex(&kj, &kx) {
                Ordering::Greater => {},
                _ => {
                    break;
                },
            }
            j = j - 1;
        }
        proof {
            lemma_insert_action_ordered(sorted@, usize_int(j), x);
        }
        let ghost old_sorted = sorted@;
        sorted.insert(j, x);
        assert(sorted@ == old_sorted.insert(usize_int(j), x));
        proof {
            vstd::seq_lib::to_multiset_insert(old_sorted, usize_int(j), x);
            vstd::seq_lib::to_multiset_build(all.take(k), x);
            assert forall|t: int| 0 <= t < sorted@.len() implies (#[trigger] canonical_text(
                sorted@[t].descriptor,
            )) is Some by {
                if t < usize_int(j) {
                    assert(sorted@[t] == old_sorted[t]);
                } else if t > usize_int(j) {
                    assert(sorted@[t] == old_sorted[t - 1]);
                }
            }
            k = k + 1;
        }
    }
    assert(all.take(k) =~= all);
    Ok(sorted)
}

/// One authoritative game event.
#[derive(Debug)]
pub struct Event {
    /// Receipt cause.
    pub cause: EventCause,
    /// Canonical event identity.
    pub event_id: IdentityHash,
    /// One-based global event sequence.
    pub event_sequence: u64,
    /// Typed event data at the external boundary.
    pub payload: JsonValue,
    /// Stable event category.
    pub event_type: String,
}

/// The canonical JSON text of an event cause.
pub open spec fn cause_text(action_id: Seq<char>, receipt_sequence: u64) -> Seq<char> {
    "{\"actionId\":"@ + string_text(action_id) + ",\"receiptSequence\":"@ + decimal_chars(
        receipt_sequence as nat,
    ) + "}"@
}

/// The canonical JSON text an event identity hashes: its cause, sequence,
/// payload, and type.
pub open spec fn event_identity_text(
    action_id: Seq<char>,
    receipt_sequence: u64,
    event_sequence: u64,
    payload_text: Seq<char>,
    event_type: Seq<char>,
) -> Seq<char> {
    "{\"cause\":"@ + cause_text(action_id, receipt_sequence) + ",\"eventSequence\":"@
        + decimal_chars(event_sequence as nat) + ",\"payload\":"@ + payload_text + ",\"type\":"@
        + string_text(event_type) + "}"@
}

/// Appends the canonical JSON text of an event cause.
fn push_cause_text(out: &mut Vec<char>, action_id: &IdentityHash, receipt_sequence: u64)
    ensures
        final(out)@ == old(out)@ + cause_text(action_id@, receipt_sequence),
{
    push_literal(out, "{\"actionId\":");
    push_string_text(action_id.as_str(), out);
    push_literal(out, ",\"receiptSequence\":");
    let mut digits = decimal_char_vec(receipt_sequence);
    out.append(&mut digits);
    push_literal(out, "}");
    assert(final(out)@ =~= old(out)@ + cause_text(action_id@, receipt_sequence));
}

/// Whether every outcome payload has canonical text.
pub open spec fn payloads_canonical(outcomes: Seq<(String, JsonValue)>) -> bool {
    forall|i: int| 0 <= i < outcomes.len() ==> (#[trigger] canonical_text(outcomes[i].1)) is Some
}

/// Whether `e` is the event created for outcome `i`.
pub open spec fn event_created(
    e: Event,
    action_id: Seq<char>,
    receipt_sequence: u64,
    first_event_sequence: u64,
    outcomes: Seq<(String, JsonValue)>,
    i: int,
) -> bool {
    &&& e.cause.action_id@ == action_id
    &&& e.cause.receipt_sequence == receipt_sequence
    &&& e.event_sequence == first_event_sequence + i
    &&& e.payload == outcomes[i].1
    &&& e.event_type == outcomes[i].0
    &&& e.event_id@ == identity_of_text(
        event_identity_text(
            action_id,
            receipt_sequence,
            e.event_sequence,
            canonical_text(outcomes[i].1)->0,
            outcomes[i].0@,
        ),
    )
}

/// Creates stable authoritative events from typed outcome pairs, numbered
/// from `first_event_sequence`.
pub fn create_events(
    action_id: &IdentityHash,
    receipt_sequence: u64,
    first_event_sequence: u64,
    outcomes: Vec<(String, JsonValue)>,
) -> (r: Result<Vec<Event>, CanonicalError>)
    requires
        first_event_sequence + outcomes@.len() <= u64::MAX + 1,
    ensures
        r is Ok <==> payloads_canonical(outcomes@),
        r matches Ok(events) ==> events@.len() == outcomes@.len() && forall|i: int|
            0 <= i < events@.len() ==> event_created(
                #[trigger] events@[i],
                action_id@,
                receipt_sequence,
                first_event_sequence,
                outcomes@,
                i,
            ),
{
    let ghost all = outcomes@;
    let count = outcomes.len();
    let mut rest = outcomes;
    let mut events: Vec<Event> = Vec::new();
    let mut index: usize = 0;
    while rest.len() > 0
        invariant
            all == outcomes@,
            count == all.len(),
            index as int + rest@.len() == all.len(),
            first_event_sequence + all.len() <= u64::MAX + 1,
            rest@ == all.skip(index as int),
            events@.len() == index,
            forall|i: int| 0 <= i < index ==> (#[trigger] canonical_text(all[i].1)) is Some,
            forall|i: int|
                0 <= i < events@.len() ==> event_created(
                    #[trigger] events@[i],
                    action_id@,
                    receipt_sequence,
                    first_event_sequence,
                    all,
                    i,
                ),
        decreases rest@.len(),
    {
        let ghost before = rest@;
        let (event_type, payload) = rest.remove(0);
        assert(before.skip(1) =~= rest@);
        assert(all.skip(index as int + 1) =~= all.skip(index as int).skip(1));
        assert(all[index as int] == (event_type, payload));
        let event_sequence = first_event_sequence + index as u64;
        let mut out: Vec<char> = Vec::new();
        push_literal(&mut out, "{\"cause\":");
        push_cause_text(&mut out, action_id, receipt_sequence);
        push_literal(&mut out, ",\"eventSequence\":");
        let mut digits = decimal_char_vec(event_sequence);
        out.append(&mut digits);
        push_literal(&mut out, ",\"payload\":");
        match write_value(&payload, &mut out) {
            Ok(()) => {},
            Err(e) => {
                assert(canonical_text(all[index as int].1) is None);
                assert(!payloads_canonical(outcomes@));
                return Err(e);
            },
        }
        push_literal(&mut out, ",\"type\":");
        push_string_text(event_type.as_str(), &mut out);
        push_literal(&mut out, "}");
        assert(out@ =~= event_identity_text(
            action_id@,
            receipt_sequence,
            event_sequence,
            canonical_text(payload)->0,
            event_type@,
        ));
        let text = string_from_chars(out.as_slice());
        let event_id = identity_of_canonical_text(text.as_str());
        let cause = EventCause { action_id: action_id.clone(), receipt_sequence };
        events.push(Event { cause, event_id, event_sequence, payload, event_type });
        index = index + 1;
    }
    Ok(events)
}

/// An authoritative accepted-action receipt.
#[derive(Debug)]
pub struct Receipt {
    /// Accepted action identity.
    pub action_id: IdentityHash,
    /// Events caused by the action.
    pub events: Vec<Event>,
    /// Resulting state version.
    pub next_state_version: u64,
    /// Resulting state hash.
    pub post_state_hash: IdentityHash,
    /// Previous state hash.
    pub pre_state_hash: IdentityHash,
    /// Action-time random draw records.
    pub random_draws: Vec<JsonValue>,
    /// Canonical receipt identity.
    pub receipt_id: IdentityHash,
    /// One-based receipt sequence.
    pub receipt_sequence: u64,
    /// Acting seat.
    pub seat: Seat,
    /// Previous state version.
    pub state_version: u64,
}

/// Receipt data before its self-identity is attached.
#[derive(Debug)]
pub struct ReceiptInput {
    /// Accepted action identity.
    pub action_id: IdentityHash,
    /// Events caused by the action.
    pub events: Vec<Event>,
    /// Resulting state version.
    pub next_state_version: u64,
    /// Resulting state hash.
    pub post_state_hash: IdentityHash,
    /// Previous state hash.
    pub pre_state_hash: IdentityHash,
    /// Action-time random draw records.
    pub random_draws: Vec<JsonValue>,
    /// One-based receipt sequence.
    pub receipt_sequence: u64,
    /// Acting seat.
    pub seat: Seat,
    /// Previous state version.
    pub state_version: u64,
}

/// The canonical JSON text of an event, when its payload has one.
pub open spec fn event_text(e: Event) -> Option<Seq<char>> {
    match canonical_text(e.payload) {
        Some(payload) => Some(
            "{\"cause\":"@ + cause_text(e.cause.action_id@, e.cause.receipt_sequence)
                + ",\"eventId\":"@ + string_text(e.event_id@) + ",\"eventSequence\":"@
                + decimal_chars(e.event_sequence as nat) + ",\"payload\":"@ + payload
                + ",\"type\":"@ + string_text(e.event_type@) + "}"@,
        ),
        None => None,
    }
}

/// The canonical JSON texts of the first `n` events, separated by commas.
pub open spec fn events_text(events: Seq<Event>, n: nat) -> Option<Seq<char>>
    decreases n,
{
    if n == 0 || n > events.len() {
        Some(Seq::empty())
    } else {
        match (events_text(events, (n - 1) as nat), event_text(events[n - 1])) {
            (Some(a), Some(b)) => Some(
                if n == 1 {
                    b
                } else {
                    a + ","@ + b
                },
            ),
            _ => None,
        }
    }
}

/// The canonical JSON text a receipt identity hashes, when its events and
/// random draws have canonical text.
pub open spec fn receipt_identity_text(input: ReceiptInput) -> Option<Seq<char>> {
    match (
        events_text(input.events@, input.events@.len()),
        items_text(input.random_draws@, input.random_draws@.len()),
    ) {
        (Some(events), Some(draws)) => Some(
            "{\"actionId\":"@ + string_text(input.action_id@) + ",\"events\":["@ + events
                + "],\"nextStateVersion\":"@ + decimal_chars(input.next_state_version as nat)
                + ",\"postStateHash\":"@ + string_text(input.post_state_hash@)
                + ",\"preStateHash\":"@ + string_text(input.pre_state_hash@)
                + ",\"randomDraws\":["@ + draws + "],\"receiptSequence\":"@ + decimal_chars(
                input.receipt_sequence as nat,
            ) + ",\"seat\":"@ + seat_text(input.seat) + ",\"stateVersion\":"@ + decimal_chars(
                input.state_version as nat,
            ) + "}"@,
        ),
        _ => None,
    }
}

/// Once the events text fails, it fails for every longer prefix.
proof fn lemma_events_text_fails(events: Seq<Event>, k: nat, n: nat)
    requires
        events_text(events, k) is None,
        k <= n <= events.len(),
    ensures
        events_text(events, n) is None,
    decreases n - k,
{
    if n > k {
        lemma_events_text_fails(events, k, (n - 1) as nat);
    }
}

/// Appends the canonical JSON text of an event; fails when its payload has none.
pub(crate) fn push_event_text(out: &mut Vec<char>, e: &Event) -> (r: bool)
    ensures
        r == event_text(*e) is Some,
        r ==> final(out)@ == old(out)@ + event_text(*e)->0,
{
    push_literal(out, "{\"cause\":");
    push_cause_text(out, &e.cause.action_id, e.cause.receipt_sequence);
    push_literal(out, ",\"eventId\":");
    push_string_text(e.event_id.as_str(), out);
    push_literal(out, ",\"eventSequence\":");
    let mut digits = decimal_char_vec(e.event_sequence);
    out.append(&mut digits);
    push_literal(out, ",\"payload\":");
    match write_value(&e.payload, out) {
        Ok(()) => {},
        Err(_) => {
            return false;
        },
    }
    push_literal(out, ",\"type\":");
    push_string_text(e.event_type.as_str(), out);
    push_literal(out, "}");
    assert(final(out)@ =~= old(out)@ + event_text(*e)->0);
    true
}

/// Appends the canonical JSON texts of events, separated by commas.
fn push_events_text(out: &mut Vec<char>, events: &Vec<Event>) -> (r: bool)
    ensures
        r == events_text(events@, events@.len()) is Some,
        r ==> final(out)@ == old(out)@ + events_text(events@, events@.len())->0,
{
    let mut i: usize = 0;
    while i < events.len()
        invariant
            i <= events@.len(),
            events_text(events@, i as nat) is Some,
            out@ == old(out)@ + events_text(events@, i as nat)->0,
        decreases events@.len() - i,
    {
        let ghost before = out@;
        if i > 0 {
            push_literal(out, ",");
        }
        if !push_event_text(out, &events[i]) {
            proof {
                lemma_events_text_fails(events@, (i + 1) as nat, events@.len());
            }
            return false;
        }
        proof {
            let b = event_text(events@[i as int])->0;
            if i > 0 {
                assert(out@ =~= old(out)@ + (events_text(events@, i as nat)->0 + ","@ + b));
            } else {
                assert(out@ =~= old(out)@ + b);
            }
        }
        i = i + 1;
    }
    true
}

/// Appends the canonical JSON texts of values, separated by commas.
fn push_items_text(out: &mut Vec<char>, items: &Vec<JsonValue>) -> (r: bool)
    ensures
        r == items_text(items@, items@.len()) is Some,
        r ==> final(out)@ == old(out)@ + items_text(items@, items@.len())->0,
{
    let mut i: usize = 0;
    while i < items.len()
        invariant
            i <= items@.len(),
            items_text(items@, i as nat) is Some,
            out@ == old(out)@ + items_text(items@, i as nat)->0,
        decreases items@.len() - i,
    {
        if i > 0 {
            out.push(',');
        }
        match write_value(&items[i], out) {
            Ok(()) => {},
            Err(_) => {
                proof {
                    lemma_items_text_fails(items@, (i + 1) as nat, items@.len());
                }
                return false;
            },
        }
        proof {
            let b = canonical_text(items@[i as int])->0;
            if i > 0 {
                assert(out@ =~= old(out)@ + (items_text(items@, i as nat)->0 + seq![','] + b));
            } else {
                assert(out@ =~= old(out)@ + b);
            }
        }
        i = i + 1;
    }
    true
}

/// Whether `r` is the receipt for `input`: its fields, and the identity of
/// their canonical text.
pub open spec fn receipt_of(r: Receipt, input: ReceiptInput) -> bool {
    &&& r.action_id == input.action_id
    &&& r.events == input.events
    &&& r.next_state_version == input.next_state_version
    &&& r.post_state_hash == input.post_state_hash
    &&& r.pre_state_hash == input.pre_state_hash
    &&& r.random_draws == input.random_draws
    &&& r.receipt_sequence == input.receipt_sequence
    &&& r.seat == input.seat
    &&& r.state_version == input.state_version
    &&& r.receipt_id@ == identity_of_text(receipt_identity_text(input)->0)
}

/// Creates a self-identifying authoritative receipt.
pub fn create_receipt(input: ReceiptInput) -> (r: Result<Receipt, CanonicalError>)
    ensures
        r is Ok <==> receipt_identity_text(input) is Some,
        r matches Ok(receipt) ==> receipt_of(receipt, input),
{
    let mut out: Vec<char> = Vec::new();
    push_literal(&mut out, "{\"actionId\":");
    push_string_text(input.action_id.as_str(), &mut out);
    push_literal(&mut out, ",\"events\":[");
    if !push_events_text(&mut out, &input.events) {
        return Err(CanonicalError::NonIntegralNumber);
    }
    push_literal(&mut out, "],\"nextStateVersion\":");
    let mut digits = decimal_char_vec(input.next_state_version);
    out.append(&mut digits);
    push_literal(&mut out, ",\"postStateHash\":");
    push_string_text(input.post_state_hash.as_str(), &mut out);
    push_literal(&mut out, ",\"preStateHash\":");
    push_string_text(input.pre_state_hash.as_str(), &mut out);
    push_literal(&mut out, ",\"randomDraws\":[");
    if !push_items_text(&mut out, &input.random_draws) {
        return Err(CanonicalError::NonIntegralNumber);
    }
    push_literal(&mut out, "],\"receiptSequence\":");
    let mut digits = decimal_char_vec(input.receipt_sequence);
    out.append(&mut digits);
    push_literal(&mut out, ",\"seat\":");
    push_seat(&mut out, input.seat);
    push_literal(&mut out, ",\"stateVersion\":");
    let mut digits = decimal_char_vec(input.state_version);
    out.append(&mut digits);
    push_literal(&mut out, "}");
    assert(out@ =~= receipt_identity_text(input)->0);
    let text = string_from_chars(out.as_slice());
    let receipt_id = identity_of_canonical_text(text.as_str());
    let ReceiptInput {
        action_id,
        events,
        next_state_version,
        post_state_hash,
        pre_state_hash,
        random_draws,
        receipt_sequence,
        seat,
        state_version,
    } = input;
    Ok(
        Receipt {
            action_id,
            events,
            next_state_version,
            post_state_hash,
            pre_state_hash,
            random_draws,
            receipt_id,
            receipt_sequence,
            seat,
            state_version,
        },
    )
}

} // verus!
