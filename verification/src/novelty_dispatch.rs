//! Forced engine-issued action plus novelty rollout from the resulting snapshot.

use vstd::prelude::*;

use crate::canonical::IdentityHash;
use crate::codes::{char_codes, len_code, usize_int};
use crate::contract::RejectionCode;
use crate::json::{JsonMember, JsonValue};
use crate::order::{
    lemma_lex_order_antisymmetric, lemma_lex_order_equal, lemma_lex_order_transitive, precedes,
    text_precedes,
};
use crate::text::same_text;

verus! {

/// Public prediction-check for one forced engine-issued action.
#[derive(Clone, Debug, Eq, PartialEq)]
pub struct ForcedNoveltyEntry {
    action_id: IdentityHash,
    action_kind: String,
    event_types: Vec<String>,
    state_hash: IdentityHash,
}

/// Inputs that identify one engine-issued action and its probe prediction.
#[derive(Clone, Copy, Debug, Eq, PartialEq)]
pub struct ForcedNoveltyInput<'a> {
    /// Engine-issued action identity to force.
    pub action_id: &'a str,
    /// Descriptor kind that must still be bound to that action.
    pub action_kind: &'a str,
    /// Novelty horizon after the forced action.
    pub max_actions: usize,
    /// Sorted unique event types predicted by the one-step probe.
    pub predicted_event_types: &'a [String],
    /// Authoritative state hash predicted by the one-step probe.
    pub predicted_state_hash: &'a str,
}

/// Whether event types strictly increase in `String` order.
pub open spec fn event_types_ordered(types: Seq<String>) -> bool {
    forall|i: int, j: int| 0 <= i < j < types.len() ==> text_precedes(types[i]@, types[j]@)
}

/// Whether some event type is `x`.
pub open spec fn names_event(types: Seq<String>, x: Seq<char>) -> bool {
    exists|i: int| 0 <= i < types.len() && (#[trigger] types[i])@ == x
}

/// Whether `out` is `types` sorted with duplicates removed.
pub open spec fn sorted_unique_events(types: Seq<String>, out: Seq<String>) -> bool {
    &&& event_types_ordered(out)
    &&& forall|x: Seq<char>|
        #![trigger names_event(types, x)]
        #![trigger names_event(out, x)]
        names_event(types, x) <==> names_event(out, x)
}

/// Sorts event types and removes duplicates.
pub fn sorted_event_types(types: &Vec<String>) -> (r: Vec<String>)
    ensures
        sorted_unique_events(types@, r@),
{
    let mut out: Vec<String> = Vec::new();
    let mut i: usize = 0;
    while i < types.len()
        invariant
            i <= types@.len(),
            sorted_unique_events(types@.take(usize_int(i)), out@),
        decreases types@.len() - i,
    {
        let ghost old_out = out@;
        let ghost prefix = types@.take(usize_int(i));
        let ghost next = types@.take(i + 1);
        assert(next =~= prefix.push(types@[usize_int(i)]));
        let x = &types[i];
        let mut j: usize = 0;
        while j < out.len()
            invariant
                j <= out@.len(),
                i < types@.len(),
                *x == types@[usize_int(i)],
                out@ == old_out,
                forall|a: int| 0 <= a < j ==> text_precedes((#[trigger] out@[a])@, x@),
            ensures
                j <= out@.len(),
                out@ == old_out,
                forall|a: int| 0 <= a < j ==> text_precedes((#[trigger] out@[a])@, x@),
                j < out@.len() ==> !text_precedes(out@[usize_int(j)]@, x@),
            decreases out@.len() - j,
        {
            if !precedes(out[j].as_str(), x.as_str()) {
                break;
            }
            j = j + 1;
        }
        if j < out.len() && same_text(out[j].as_str(), x.as_str()) {
            proof {
                assert forall|y: Seq<char>|
                    #![trigger names_event(next, y)]
                    #![trigger names_event(out@, y)]
                    names_event(next, y) <==> names_event(out@, y) by {
                    if names_event(next, y) {
                        let t = choose|t: int| 0 <= t < next.len() && (#[trigger] next[t])@ == y;
                        if t < i {
                            assert(prefix[t] == next[t]);
                            assert(names_event(prefix, y));
                        } else {
                            assert(out@[usize_int(j)]@ == y);
                        }
                    }
                    if names_event(out@, y) {
                        assert(names_event(prefix, y));
                        let t = choose|t: int| 0 <= t < prefix.len() && (#[trigger] prefix[t])@ == y;
                        assert(next[t] == prefix[t]);
                    }
                }
            }
        } else {
            let item = x.clone();
            out.insert(j, item);
            proof {
                let r = out@;
                if j < old_out.len() {
                    lemma_lex_order_antisymmetric(char_codes(old_out[usize_int(j)]@), char_codes(x@));
                    lemma_lex_order_equal(char_codes(old_out[usize_int(j)]@), char_codes(x@));
                    if char_codes(old_out[usize_int(j)]@) == char_codes(x@) {
                        assert forall|t: int| 0 <= t < x@.len() implies old_out[usize_int(j)]@[t] == x@[t] by {
                            assert(char_codes(old_out[usize_int(j)]@)[t] == char_codes(x@)[t]);
                        }
                        assert(old_out[usize_int(j)]@ =~= x@);
                    }
                }
                assert forall|a: int, b: int| 0 <= a < b < r.len() implies text_precedes(
                    r[a]@,
                    r[b]@,
                ) by {
                    if b < j {
                        assert(r[a] == old_out[a]);
                        assert(r[b] == old_out[b]);
                    } else if a > j {
                        assert(r[a] == old_out[a - 1]);
                        assert(r[b] == old_out[b - 1]);
                    } else if b == j {
                        assert(r[a] == old_out[a]);
                    } else if a == j {
                        assert(r[b] == old_out[b - 1]);
                        if b - 1 > j {
                            assert(text_precedes(old_out[usize_int(j)]@, old_out[b - 1]@));
                            lemma_lex_order_transitive(
                                char_codes(x@),
                                char_codes(old_out[usize_int(j)]@),
                                char_codes(old_out[b - 1]@),
                            );
                        }
                    } else {
                        assert(r[a] == old_out[a]);
                        assert(r[b] == old_out[b - 1]);
                    }
                }
                assert forall|y: Seq<char>|
                    #![trigger names_event(next, y)]
                    #![trigger names_event(r, y)]
                    names_event(next, y) <==> names_event(r, y) by {
                    if names_event(next, y) {
                        let t = choose|t: int| 0 <= t < next.len() && (#[trigger] next[t])@ == y;
                        if t < i {
                            assert(prefix[t] == next[t]);
                            assert(names_event(prefix, y));
                            let a = choose|a: int| 0 <= a < old_out.len() && (#[trigger] old_out[a])@ == y;
                            if a < j {
                                assert(r[a] == old_out[a]);
                            } else {
                                assert(r[a + 1] == old_out[a]);
                            }
                        } else {
                            assert(r[usize_int(j)]@ == y);
                        }
                    }
                    if names_event(r, y) {
                        let a = choose|a: int| 0 <= a < r.len() && (#[trigger] r[a])@ == y;
                        if a == j {
                            assert(next[usize_int(i)] == types@[usize_int(i)]);
                        } else {
                            let b = if a < j {
                                a
                            } else {
                                a - 1
                            };
                            assert(old_out[b] == r[a]);
                            assert(names_event(old_out, y));
                            let t = choose|t: int| 0 <= t < prefix.len() && (#[trigger] prefix[t])@ == y;
                            assert(next[t] == prefix[t]);
                        }
                    }
                }
            }
        }
        i = i + 1;
    }
    assert(types@.take(len_code(types@.len())) =~= types@);
    out
}

impl ForcedNoveltyEntry {
    /// The forced action identity.
    pub closed spec fn spec_action_id(self) -> Seq<char> {
        self.action_id@
    }

    /// The forced descriptor kind.
    pub closed spec fn spec_action_kind(self) -> Seq<char> {
        self.action_kind@
    }

    /// The event types of the accepted receipt.
    pub closed spec fn spec_event_types(self) -> Seq<String> {
        self.event_types@
    }

    /// The authoritative hash after the forced action.
    pub closed spec fn spec_state_hash(self) -> Seq<char> {
        self.state_hash@
    }

    /// Builds the entry for an accepted forced action from its receipt's event
    /// types, which are sorted and made unique.
    pub fn new(
        action_id: IdentityHash,
        action_kind: String,
        receipt_event_types: &Vec<String>,
        state_hash: IdentityHash,
    ) -> (r: ForcedNoveltyEntry)
        ensures
            r.spec_action_id() == action_id@,
            r.spec_action_kind() == action_kind@,
            sorted_unique_events(receipt_event_types@, r.spec_event_types()),
            r.spec_state_hash() == state_hash@,
    {
        ForcedNoveltyEntry {
            action_id,
            action_kind,
            event_types: sorted_event_types(receipt_event_types),
            state_hash,
        }
    }

    /// Returns the forced action identity.
    pub fn action_id(&self) -> (r: &IdentityHash)
        ensures
            r@ == self.spec_action_id(),
    {
        &self.action_id
    }

    /// Returns the forced descriptor kind.
    pub fn action_kind(&self) -> (r: &str)
        ensures
            r@ == self.spec_action_kind(),
    {
        self.action_kind.as_str()
    }

    /// Returns sorted unique event types from the accepted receipt.
    pub fn event_types(&self) -> (r: &[String])
        ensures
            r@ == self.spec_event_types(),
    {
        self.event_types.as_slice()
    }

    /// Returns the authoritative hash after the forced action.
    pub fn state_hash(&self) -> (r: &IdentityHash)
        ensures
            r@ == self.spec_state_hash(),
    {
        &self.state_hash
    }

    /// Materializes the public entry object: `actionId`, `actionKind`,
    /// `eventTypes` and `stateHash`, in that key order.
    pub fn to_value(&self) -> (r: JsonValue)
        ensures
            entry_value(r, *self),
    {
        let mut events: Vec<JsonValue> = Vec::new();
        let mut i: usize = 0;
        while i < self.event_types.len()
            invariant
                i <= self.event_types@.len(),
                events@.len() == i,
                forall|j: int|
                    0 <= j < i ==> text_value(#[trigger] events@[j], self.event_types@[j]@),
            decreases self.event_types@.len() - i,
        {
            events.push(JsonValue::String(self.event_types[i].clone()));
            i = i + 1;
        }
        let members = vec![
            JsonMember {
                key: "actionId".to_owned(),
                value: JsonValue::String(self.action_id.as_str().to_owned()),
            },
            JsonMember {
                key: "actionKind".to_owned(),
                value: JsonValue::String(self.action_kind.clone()),
            },
            JsonMember { key: "eventTypes".to_owned(), value: JsonValue::Array(events) },
            JsonMember {
                key: "stateHash".to_owned(),
                value: JsonValue::String(self.state_hash.as_str().to_owned()),
            },
        ];
        JsonValue::Object(members)
    }
}

/// Whether `v` is the JSON string `text`.
pub open spec fn text_value(v: JsonValue, text: Seq<char>) -> bool {
    match v {
        JsonValue::String(s) => s@ == text,
        _ => false,
    }
}

/// Whether `v` is an array of the strings `texts`.
pub open spec fn texts_value(v: JsonValue, texts: Seq<String>) -> bool {
    match v {
        JsonValue::Array(items) => items@.len() == texts.len() && forall|j: int|
            0 <= j < texts.len() ==> text_value(#[trigger] items@[j], texts[j]@),
        _ => false,
    }
}

/// Whether `v` is the public object of `entry`.
pub open spec fn entry_value(v: JsonValue, entry: ForcedNoveltyEntry) -> bool {
    match v {
        JsonValue::Object(members) => {
            let ms = members@;
            &&& ms.len() == 4
            &&& ms[0].key@ == "actionId"@ && text_value(ms[0].value, entry.spec_action_id())
            &&& ms[1].key@ == "actionKind"@ && text_value(ms[1].value, entry.spec_action_kind())
            &&& ms[2].key@ == "eventTypes"@ && texts_value(ms[2].value, entry.spec_event_types())
            &&& ms[3].key@ == "stateHash"@ && text_value(ms[3].value, entry.spec_state_hash())
        },
        _ => false,
    }
}

/// The wire name of a rejection code.
pub open spec fn rejection_code_text(code: RejectionCode) -> Seq<char> {
    match code {
        RejectionCode::StaleVersion => "stale_version"@,
        RejectionCode::TerminalState => "terminal_state"@,
        RejectionCode::UnknownAction => "unknown_action"@,
        RejectionCode::WrongSeat => "wrong_seat"@,
    }
}

/// Returns the wire name of a rejection code.
pub fn rejection_code_name(code: RejectionCode) -> (r: &'static str)
    ensures
        r@ == rejection_code_text(code),
{
    match code {
        RejectionCode::StaleVersion => "stale_version",
        RejectionCode::TerminalState => "terminal_state",
        RejectionCode::UnknownAction => "unknown_action",
        RejectionCode::WrongSeat => "wrong_seat",
    }
}

/// The message for a forced action that is no longer issued exactly once.
pub open spec fn stale_forced_action() -> Seq<char> {
    "forced novelty action is stale"@
}

/// Whether issued action `i` carries identity `id`.
pub open spec fn issues(issued: Seq<IdentityHash>, id: Seq<char>, i: int) -> bool {
    0 <= i < issued.len() && issued[i]@ == id
}

/// Finds the one issued action with identity `action_id`; the forced action
/// is stale when none or several carry it.
pub fn select_forced_action(issued: &Vec<IdentityHash>, action_id: &str) -> (r: Result<usize, &'static str>)
    ensures
        r is Ok <==> exists|i: int|
            #[trigger] issues(issued@, action_id@, i) && forall|j: int|
                #[trigger] issues(issued@, action_id@, j) ==> j == i,
        r matches Ok(i) ==> issues(issued@, action_id@, i as int),
        r matches Err(e) ==> e@ == stale_forced_action(),
{
    let mut found: Option<usize> = None;
    let mut k: usize = 0;
    while k < issued.len()
        invariant
            k <= issued@.len(),
            found is None ==> forall|j: int| 0 <= j < k ==> !#[trigger] issues(issued@, action_id@, j),
            found matches Some(i) ==> i < k && issues(issued@, action_id@, i as int) && forall|j: int|
                0 <= j < k && #[trigger] issues(issued@, action_id@, j) ==> j == i,
        decreases issued@.len() - k,
    {
        if same_text(issued[k].as_str(), action_id) {
            match found {
                Some(i) => {
                    assert(issues(issued@, action_id@, k as int));
                    return Err("forced novelty action is stale");
                },
                None => {
                    found = Some(k);
                },
            }
        }
        k = k + 1;
    }
    match found {
        Some(i) => Ok(i),
        None => Err("forced novelty action is stale"),
    }
}

/// Why the forced action's kind does not match, if it does not.
pub open spec fn kind_problem(actual: Option<Seq<char>>, expected: Seq<char>) -> Option<Seq<char>> {
    match actual {
        None => Some("forced novelty action omitted kind"@),
        Some(kind) => if kind == expected {
            None
        } else {
            Some("forced novelty action kind changed"@)
        },
    }
}

/// Checks that the forced action still has the expected descriptor kind.
pub fn check_forced_kind(actual: Option<&str>, expected: &str) -> (r: Result<(), &'static str>)
    ensures
        r is Ok <==> kind_problem(
            match actual {
                Some(k) => Some(k@),
                None => None,
            },
            expected@,
        ) is None,
        r matches Err(e) ==> kind_problem(
            match actual {
                Some(k) => Some(k@),
                None => None,
            },
            expected@,
        ) == Some(e@),
{
    match actual {
        None => Err("forced novelty action omitted kind"),
        Some(kind) => if same_text(kind, expected) {
            Ok(())
        } else {
            Err("forced novelty action kind changed")
        },
    }
}

/// Whether two lists of event types hold the same texts in the same order.
pub open spec fn same_event_types(a: Seq<String>, b: Seq<String>) -> bool {
    a.len() == b.len() && forall|i: int| 0 <= i < a.len() ==> (#[trigger] a[i])@ == b[i]@
}

/// Why a forced action's outcome differs from its probe prediction, if it does.
pub open spec fn prediction_problem(
    state_hash: Seq<char>,
    event_types: Seq<String>,
    predicted_state_hash: Seq<char>,
    predicted_event_types: Seq<String>,
) -> Option<Seq<char>> {
    if !crate::canonical::valid_identity(predicted_state_hash) {
        Some("forced novelty predictedStateHash is invalid"@)
    } else if state_hash != predicted_state_hash || !same_event_types(
        event_types,
        predicted_event_types,
    ) {
        Some("forced novelty prediction did not replay exactly"@)
    } else {
        None
    }
}

/// Checks the forced action's outcome against its probe prediction.
pub fn check_forced_prediction(
    state_hash: &IdentityHash,
    event_types: &[String],
    input: &ForcedNoveltyInput,
) -> (r: Result<(), &'static str>)
    ensures
        r is Ok <==> prediction_problem(
            state_hash@,
            event_types@,
            input.predicted_state_hash@,
            input.predicted_event_types@,
        ) is None,
        r matches Err(e) ==> prediction_problem(
            state_hash@,
            event_types@,
            input.predicted_state_hash@,
            input.predicted_event_types@,
        ) == Some(e@),
{
    let predicted = match IdentityHash::parse(input.predicted_state_hash) {
        Ok(h) => h,
        Err(_) => {
            return Err("forced novelty predictedStateHash is invalid");
        },
    };
    if !state_hash.same_as(&predicted) {
        return Err("forced novelty prediction did not replay exactly");
    }
    let expected = input.predicted_event_types;
    if event_types.len() != expected.len() {
        return Err("forced novelty prediction did not replay exactly");
    }
    let mut i: usize = 0;
    while i < event_types.len()
        invariant
            i <= event_types@.len(),
            event_types@.len() == expected@.len(),
            expected@ == input.predicted_event_types@,
            crate::canonical::valid_identity(input.predicted_state_hash@),
            state_hash@ == input.predicted_state_hash@,
            forall|j: int| 0 <= j < i ==> (#[trigger] event_types@[j])@ == expected@[j]@,
        decreases event_types@.len() - i,
    {
        if !same_text(event_types[i].as_str(), expected[i].as_str()) {
            assert(!same_event_types(event_types@, input.predicted_event_types@));
            return Err("forced novelty prediction did not replay exactly");
        }
        i = i + 1;
    }
    Ok(())
}

} // verus!
