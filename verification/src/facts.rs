//! Validated, normalized card facts used by the authoritative engine.

use vstd::prelude::*;

use crate::json::{
    find_member, get_member, has_member, magnitude, member_value, JsonMember, JsonNumber, JsonValue,
};
use crate::codes::char_codes;
use crate::order::{
    lemma_lex_order_antisymmetric, lemma_text_order_total, lemma_text_precedes_transitive,
    precedes, text_precedes,
};
use crate::text::{decimal_chars, push_decimal, push_str, same_text, str_chars, utf16_len, utf16_units};

verus! {

/// The largest integer that a JavaScript number holds exactly.
pub const MAX_SAFE_INTEGER: u64 = 9_007_199_254_740_991;

/// The largest supported attack, defense, life, or damage value.
pub const MAX_COMBAT_STAT: u64 = 100;

/// The largest supported number of cards drawn at once.
pub const MAX_DECK_CARDS: u64 = 200;

/// An elemental threshold or affinity in canonical rules order.
#[derive(Clone, Copy, Debug, Eq, PartialEq, Structural)]
pub enum Element {
    /// Earth.
    Earth,
    /// Fire.
    Fire,
    /// Water.
    Water,
    /// Air.
    Air,
}

/// The canonical position of an element: Earth, Fire, Water, Air.
pub open spec fn element_index(e: Element) -> nat {
    match e {
        Element::Earth => 0,
        Element::Fire => 1,
        Element::Water => 2,
        Element::Air => 3,
    }
}

/// The element named `name`, if any.
pub open spec fn element_named(name: Seq<char>) -> Option<Element> {
    if name == "earth"@ {
        Some(Element::Earth)
    } else if name == "fire"@ {
        Some(Element::Fire)
    } else if name == "water"@ {
        Some(Element::Water)
    } else if name == "air"@ {
        Some(Element::Air)
    } else {
        None
    }
}

/// The bit that marks an element in an element set.
pub open spec fn element_bit(e: Element) -> u8 {
    match e {
        Element::Earth => 1,
        Element::Fire => 2,
        Element::Water => 4,
        Element::Air => 8,
    }
}

impl Element {
    /// The canonical position of the element.
    pub fn index(self) -> (r: usize)
        ensures
            r == element_index(self),
    {
        match self {
            Element::Earth => 0,
            Element::Fire => 1,
            Element::Water => 2,
            Element::Air => 3,
        }
    }

    /// The bit that marks the element in an [`ElementSet`].
    pub fn bit(self) -> (r: u8)
        ensures
            r == element_bit(self),
    {
        match self {
            Element::Earth => 1,
            Element::Fire => 2,
            Element::Water => 4,
            Element::Air => 8,
        }
    }

    /// Parses a lowercase element name.
    pub fn parse(value: &str) -> (r: Option<Element>)
        ensures
            r == element_named(value@),
    {
        proof {
            reveal_strlit("earth");
            reveal_strlit("fire");
            reveal_strlit("water");
            reveal_strlit("air");
        }
        if same_text(value, "earth") {
            Some(Element::Earth)
        } else if same_text(value, "fire") {
            Some(Element::Fire)
        } else if same_text(value, "water") {
            Some(Element::Water)
        } else if same_text(value, "air") {
            Some(Element::Air)
        } else {
            None
        }
    }
}

/// All elements in canonical rules order.
pub open spec fn all_elements() -> Seq<Element> {
    seq![Element::Earth, Element::Fire, Element::Water, Element::Air]
}

/// A compact set of elements.
#[derive(Clone, Copy, Debug, Eq, PartialEq, Structural)]
pub struct ElementSet(u8);

impl View for ElementSet {
    type V = u8;

    /// The membership bits, one per element.
    closed spec fn view(&self) -> u8 {
        self.0
    }
}

/// Whether the bits `bits` mark element `e`.
pub open spec fn bits_contain(bits: u8, e: Element) -> bool {
    bits & element_bit(e) != 0
}

impl ElementSet {
    /// The empty set.
    pub fn empty() -> (r: ElementSet)
        ensures
            r@ == 0,
    {
        ElementSet(0)
    }

    /// Returns whether the set contains `element`.
    pub fn contains(self, element: Element) -> (r: bool)
        ensures
            r == bits_contain(self@, element),
    {
        self.0 & element.bit() != 0
    }

    /// The present elements in canonical rules order.
    pub fn iter(self) -> (r: Vec<Element>)
        ensures
            r@ == all_elements().filter(|e: Element| bits_contain(self@, e)),
    {
        let all: [Element; 4] = [Element::Earth, Element::Fire, Element::Water, Element::Air];
        let mut out: Vec<Element> = Vec::new();
        let mut i: usize = 0;
        assert(all@ =~= all_elements());
        while i < 4
            invariant
                i <= 4,
                all@ == all_elements(),
                out@ == all_elements().take(i as int).filter(|e: Element| bits_contain(self@, e)),
            decreases 4 - i,
        {
            let e = all[i];
            if self.contains(e) {
                out.push(e);
            }
            proof {
                reveal(Seq::filter);
                assert(all_elements().take(i + 1).drop_last() =~= all_elements().take(i as int));
                assert(all_elements().take(i + 1).last() == e);
            }
            i = i + 1;
        }
        assert(all_elements().take(4) =~= all_elements());
        assert(all_elements().take(0) =~= Seq::<Element>::empty());
        out
    }
}

/// Four elemental thresholds stored as Earth, Fire, Water, Air.
#[derive(Clone, Copy, Debug, Eq, PartialEq)]
pub struct Thresholds([u64; 4]);

impl View for Thresholds {
    type V = Seq<u64>;

    /// The thresholds in canonical order.
    closed spec fn view(&self) -> Seq<u64> {
        self.0@
    }
}

impl Thresholds {
    /// Returns the threshold for `element`.
    pub fn get(self, element: Element) -> (r: u64)
        ensures
            r == self@[element_index(element) as int],
    {
        self.0[element.index()]
    }

    /// Returns thresholds in canonical Earth, Fire, Water, Air order.
    pub fn canonical(self) -> (r: [u64; 4])
        ensures
            r@ == self@,
    {
        self.0
    }
}

/// A rejected input path and the reason, as plain text.
pub type FactFault = (Seq<char>, Seq<char>);

/// A rejected card-fact definition.
#[derive(Clone, Debug, Eq, PartialEq)]
pub struct FactError {
    path: String,
    problem: String,
}

impl View for FactError {
    type V = FactFault;

    closed spec fn view(&self) -> FactFault {
        (self.path@, self.problem@)
    }
}

impl FactError {
    /// Builds an error for `path`.
    pub fn new(path: String, problem: String) -> (r: FactError)
        ensures
            r@ == (path@, problem@),
    {
        FactError { path, problem }
    }

    /// Returns the rejected input path.
    pub fn path(&self) -> (r: &str)
        ensures
            r@ == self@.0,
    {
        self.path.as_str()
    }

    /// Returns the reason the input was rejected.
    pub fn problem(&self) -> (r: &str)
        ensures
            r@ == self@.1,
    {
        self.problem.as_str()
    }

    /// The error as `path problem`.
    pub fn to_string(&self) -> (r: String)
        ensures
            r@ == self@.0 + seq![' '] + self@.1,
    {
        let mut out = self.path.clone();
        push_str(&mut out, " ");
        push_str(&mut out, self.problem.as_str());
        proof {
            reveal_strlit(" ");
        }
        out
    }
}

/// Whether an exec result agrees with a specified outcome.
pub open spec fn fact_outcome<T>(r: Result<T, FactError>, s: Result<T, FactFault>) -> bool {
    match r {
        Ok(a) => s == Ok::<T, FactFault>(a),
        Err(e) => s == Err::<T, FactFault>(e@),
    }
}

/// Whether `c` is ECMAScript whitespace (`WhiteSpace` or `LineTerminator`).
pub open spec fn ecmascript_whitespace(c: char) -> bool {
    ('\u{0009}' <= c && c <= '\u{000D}') || c == '\u{0020}' || c == '\u{00A0}' || c == '\u{1680}'
        || ('\u{2000}' <= c && c <= '\u{200A}') || c == '\u{2028}' || c == '\u{2029}' || c
        == '\u{202F}' || c == '\u{205F}' || c == '\u{3000}' || c == '\u{FEFF}'
}

/// Whether `c` is ECMAScript whitespace.
pub fn is_ecmascript_whitespace(c: char) -> (r: bool)
    ensures
        r == ecmascript_whitespace(c),
{
    ('\u{0009}' <= c && c <= '\u{000D}') || c == '\u{0020}' || c == '\u{00A0}' || c == '\u{1680}'
        || ('\u{2000}' <= c && c <= '\u{200A}') || c == '\u{2028}' || c == '\u{2029}' || c
        == '\u{202F}' || c == '\u{205F}' || c == '\u{3000}' || c == '\u{FEFF}'
}

/// Whether an identifier is acceptable: not blank (empty or all ECMAScript
/// whitespace) and at most 256 UTF-16 code units long.
pub open spec fn valid_identifier(value: Seq<char>) -> bool {
    &&& exists|i: int| 0 <= i < value.len() && !ecmascript_whitespace(#[trigger] value[i])
    &&& utf16_units(value).len() <= 256
}

/// The problem reported for an unacceptable identifier.
pub open spec fn identifier_problem() -> Seq<char> {
    "must be 1-256 UTF-16 code units"@
}

/// Validates an engine identifier using the TypeScript contract's UTF-16 and
/// ECMAScript-whitespace rules.
pub fn validate_identifier(value: &str, path: &str) -> (r: Result<(), FactError>)
    ensures
        r is Ok <==> valid_identifier(value@),
        r matches Err(e) ==> e@ == (path@, identifier_problem()),
{
    let chars = str_chars(value);
    let mut blank = true;
    let mut i: usize = 0;
    while i < chars.len()
        invariant
            i <= chars@.len(),
            chars@ == value@,
            blank == forall|j: int| 0 <= j < i ==> ecmascript_whitespace(#[trigger] chars@[j]),
        decreases chars@.len() - i,
    {
        if !is_ecmascript_whitespace(chars[i]) {
            blank = false;
        }
        i = i + 1;
    }
    if blank || utf16_len(value) > 256 {
        return Err(FactError::new(path.to_owned(), "must be 1-256 UTF-16 code units".to_owned()));
    }
    Ok(())
}

/// `path.field`.
pub open spec fn field_path(path: Seq<char>, field: Seq<char>) -> Seq<char> {
    path + seq!['.'] + field
}

/// Builds `path.field`.
pub fn make_field_path(path: &str, field: &str) -> (r: String)
    ensures
        r@ == field_path(path@, field@),
{
    let mut out = path.to_owned();
    push_str(&mut out, ".");
    push_str(&mut out, field);
    proof {
        reveal_strlit(".");
    }
    out
}

/// The integer a JSON value holds exactly within the JavaScript safe range.
pub open spec fn safe_integer_value(v: JsonValue) -> Option<int> {
    match v {
        JsonValue::Number(JsonNumber::PosInt(u)) => if u <= MAX_SAFE_INTEGER {
            Some(u as int)
        } else {
            None
        },
        JsonValue::Number(JsonNumber::NegInt(i)) => if magnitude(i) <= MAX_SAFE_INTEGER {
            Some(i as int)
        } else {
            None
        },
        JsonValue::Number(JsonNumber::Float(Some(i))) => if magnitude(i) <= MAX_SAFE_INTEGER {
            Some(i as int)
        } else {
            None
        },
        _ => None,
    }
}

/// Returns the integer `value` holds exactly within the safe range.
pub fn safe_integer(value: &JsonValue) -> (r: Option<i64>)
    ensures
        r matches Some(i) ==> safe_integer_value(*value) == Some(i as int),
        r is None ==> safe_integer_value(*value) is None,
{
    match value {
        JsonValue::Number(JsonNumber::PosInt(u)) => if *u <= MAX_SAFE_INTEGER {
            Some(*u as i64)
        } else {
            None
        },
        JsonValue::Number(JsonNumber::NegInt(i)) => if *i >= -9_007_199_254_740_991i64 && *i
            <= 9_007_199_254_740_991i64 {
            Some(*i)
        } else {
            None
        },
        JsonValue::Number(JsonNumber::Float(Some(i))) => if *i >= -9_007_199_254_740_991i64 && *i
            <= 9_007_199_254_740_991i64 {
            Some(*i)
        } else {
            None
        },
        _ => None,
    }
}

/// The reason given for a value outside `minimum..=maximum`.
pub open spec fn between_problem(minimum: nat, maximum: nat) -> Seq<char> {
    "must be between "@ + decimal_chars(minimum) + " and "@ + decimal_chars(maximum)
}

/// The reason given for a value other than `expected`.
pub open spec fn fixed_problem(expected: nat) -> Seq<char> {
    "must be "@ + decimal_chars(expected)
}

/// Builds `must be between {minimum} and {maximum}`.
fn make_between_problem(minimum: u64, maximum: u64) -> (r: String)
    ensures
        r@ == between_problem(minimum as nat, maximum as nat),
{
    let mut out = "must be between ".to_owned();
    push_decimal(&mut out, minimum as u128);
    push_str(&mut out, " and ");
    push_decimal(&mut out, maximum as u128);
    out
}

/// A required boolean field.
#[verifier::opaque]
pub open spec fn required_bool_spec(ms: Seq<JsonMember>, field: Seq<char>, path: Seq<char>) -> Result<
    bool,
    FactFault,
> {
    match member_value(ms, field) {
        Some(JsonValue::Bool(b)) => Ok(b),
        _ => Err((field_path(path, field), "must be boolean"@)),
    }
}

/// An optional boolean field; absent reads as `false`.
#[verifier::opaque]
pub open spec fn optional_bool_spec(ms: Seq<JsonMember>, field: Seq<char>, path: Seq<char>) -> Result<
    bool,
    FactFault,
> {
    match member_value(ms, field) {
        None => Ok(false),
        Some(JsonValue::Bool(b)) => Ok(b),
        Some(_) => Err((field_path(path, field), "must be boolean"@)),
    }
}

/// A field that is either absent (`false`) or exactly `true`.
#[verifier::opaque]
pub open spec fn true_only_spec(ms: Seq<JsonMember>, field: Seq<char>, path: Seq<char>) -> Result<
    bool,
    FactFault,
> {
    match member_value(ms, field) {
        None => Ok(false),
        Some(JsonValue::Bool(true)) => Ok(true),
        Some(_) => Err((field_path(path, field), "must be true when defined"@)),
    }
}

/// A required integer field within `0..=maximum`.
#[verifier::opaque]
pub open spec fn required_integer_spec(
    ms: Seq<JsonMember>,
    field: Seq<char>,
    maximum: nat,
    path: Seq<char>,
) -> Result<u64, FactFault> {
    match member_value(ms, field) {
        Some(v) => match safe_integer_value(v) {
            Some(n) => if 0 <= n <= maximum {
                Ok(n as u64)
            } else {
                Err((field_path(path, field), between_problem(0, maximum)))
            },
            None => Err((field_path(path, field), "must be a supported safe integer"@)),
        },
        None => Err((field_path(path, field), "must be a supported safe integer"@)),
    }
}

/// An optional integer field within `minimum..=maximum`.
#[verifier::opaque]
pub open spec fn optional_integer_spec(
    ms: Seq<JsonMember>,
    field: Seq<char>,
    minimum: nat,
    maximum: nat,
    path: Seq<char>,
) -> Result<Option<u64>, FactFault> {
    match member_value(ms, field) {
        None => Ok(None),
        Some(v) => match safe_integer_value(v) {
            Some(n) => if minimum <= n <= maximum {
                Ok(Some(n as u64))
            } else {
                Err((field_path(path, field), between_problem(minimum, maximum)))
            },
            None => Err((field_path(path, field), "must be a supported safe integer"@)),
        },
    }
}

/// A field that is either absent (`false`) or exactly the integer `expected`.
#[verifier::opaque]
pub open spec fn fixed_integer_spec(
    ms: Seq<JsonMember>,
    field: Seq<char>,
    expected: nat,
    path: Seq<char>,
) -> Result<bool, FactFault> {
    match member_value(ms, field) {
        None => Ok(false),
        Some(v) => if safe_integer_value(v) == Some(expected as int) {
            Ok(true)
        } else {
            Err((field_path(path, field), fixed_problem(expected)))
        },
    }
}

/// Reads a required boolean field.
fn required_bool(object: &Vec<JsonMember>, field: &str, path: &str) -> (r: Result<bool, FactError>)
    ensures
        fact_outcome(r, required_bool_spec(object@, field@, path@)),
{
    proof {
        reveal(required_bool_spec);
    }
    match get_member(object, field) {
        Some(JsonValue::Bool(b)) => Ok(*b),
        _ => Err(FactError::new(make_field_path(path, field), "must be boolean".to_owned())),
    }
}

/// Reads an optional boolean field.
fn optional_bool(object: &Vec<JsonMember>, field: &str, path: &str) -> (r: Result<bool, FactError>)
    ensures
        fact_outcome(r, optional_bool_spec(object@, field@, path@)),
{
    proof {
        reveal(optional_bool_spec);
    }
    match get_member(object, field) {
        None => Ok(false),
        Some(JsonValue::Bool(b)) => Ok(*b),
        Some(_) => Err(FactError::new(make_field_path(path, field), "must be boolean".to_owned())),
    }
}

/// Reads a field that may only be `true` when present.
fn true_only(object: &Vec<JsonMember>, field: &str, path: &str) -> (r: Result<bool, FactError>)
    ensures
        fact_outcome(r, true_only_spec(object@, field@, path@)),
{
    proof {
        reveal(true_only_spec);
    }
    match get_member(object, field) {
        None => Ok(false),
        Some(JsonValue::Bool(true)) => Ok(true),
        Some(_) => Err(
            FactError::new(make_field_path(path, field), "must be true when defined".to_owned()),
        ),
    }
}

/// Reads a required integer field within `0..=maximum`.
fn required_nonnegative_integer(object: &Vec<JsonMember>, field: &str, maximum: u64, path: &str) -> (r:
    Result<u64, FactError>)
    ensures
        fact_outcome(r, required_integer_spec(object@, field@, maximum as nat, path@)),
{
    proof {
        reveal(required_integer_spec);
    }
    let value = match get_member(object, field) {
        Some(v) => safe_integer(v),
        None => None,
    };
    match value {
        None => Err(
            FactError::new(
                make_field_path(path, field),
                "must be a supported safe integer".to_owned(),
            ),
        ),
        Some(n) => {
            if n < 0 || n as u64 > maximum {
                Err(FactError::new(make_field_path(path, field), make_between_problem(0, maximum)))
            } else {
                Ok(n as u64)
            }
        },
    }
}

/// Reads an optional integer field within `minimum..=maximum`.
fn optional_bounded_integer(
    object: &Vec<JsonMember>,
    field: &str,
    minimum: u64,
    maximum: u64,
    path: &str,
) -> (r: Result<Option<u64>, FactError>)
    ensures
        fact_outcome(r, optional_integer_spec(object@, field@, minimum as nat, maximum as nat, path@)),
{
    proof {
        reveal(optional_integer_spec);
    }
    let raw = match get_member(object, field) {
        Some(v) => v,
        None => {
            return Ok(None);
        },
    };
    match safe_integer(raw) {
        None => Err(
            FactError::new(
                make_field_path(path, field),
                "must be a supported safe integer".to_owned(),
            ),
        ),
        Some(n) => {
            if n < 0 || (n as u64) < minimum || n as u64 > maximum {
                Err(
                    FactError::new(
                        make_field_path(path, field),
                        make_between_problem(minimum, maximum),
                    ),
                )
            } else {
                Ok(Some(n as u64))
            }
        },
    }
}

/// Reads a field that may only hold the integer `expected` when present.
fn fixed_integer(object: &Vec<JsonMember>, field: &str, expected: u64, path: &str) -> (r: Result<
    bool,
    FactError,
>)
    requires
        expected <= MAX_SAFE_INTEGER,
    ensures
        fact_outcome(r, fixed_integer_spec(object@, field@, expected as nat, path@)),
{
    proof {
        reveal(fixed_integer_spec);
    }
    match get_member(object, field) {
        None => Ok(false),
        Some(v) => {
            let n = safe_integer(v);
            if n == Some(expected as i64) {
                Ok(true)
            } else {
                let mut problem = "must be ".to_owned();
                push_decimal(&mut problem, expected as u128);
                Err(FactError::new(make_field_path(path, field), problem))
            }
        },
    }
}

/// The names in a list of field names.
pub open spec fn names(allowed: Seq<&str>) -> Seq<Seq<char>> {
    allowed.map_values(|f: &str| f@)
}

/// Whether member `i` has a name outside `allowed`.
pub open spec fn unknown_at(ms: Seq<JsonMember>, allowed: Seq<Seq<char>>, i: int) -> bool {
    0 <= i < ms.len() && !allowed.contains(ms[i].key@)
}

/// Whether `key` is the least (in `String` order) of the member names outside `allowed`.
pub open spec fn least_unknown(ms: Seq<JsonMember>, allowed: Seq<Seq<char>>, key: Seq<char>) -> bool {
    &&& exists|i: int| #[trigger] unknown_at(ms, allowed, i) && ms[i].key@ == key
    &&& forall|j: int| #[trigger] unknown_at(ms, allowed, j) ==> !text_precedes(ms[j].key@, key)
}

/// The first unsupported member name in `String` order, reported at `path.name`.
#[verifier::opaque]
pub open spec fn unknown_fault(ms: Seq<JsonMember>, allowed: Seq<Seq<char>>, path: Seq<char>) -> Option<
    FactFault,
> {
    if exists|i: int| #[trigger] unknown_at(ms, allowed, i) {
        Some(
            (
                field_path(path, choose|k: Seq<char>| least_unknown(ms, allowed, k)),
                "is unsupported"@,
            ),
        )
    } else {
        None
    }
}

/// Whether `field` is one of `allowed`.
fn is_allowed(field: &str, allowed: &[&str]) -> (r: bool)
    ensures
        r == names(allowed@).contains(field@),
{
    let mut i: usize = 0;
    while i < allowed.len()
        invariant
            i <= allowed@.len(),
            forall|j: int| 0 <= j < i ==> names(allowed@)[j] != field@,
        decreases allowed@.len() - i,
    {
        if same_text(field, allowed[i]) {
            assert(names(allowed@)[i as int] == field@);
            return true;
        }
        i = i + 1;
    }
    false
}

/// Rejects the first member, in `String` order, whose name is not in `allowed`.
fn reject_unknown(object: &Vec<JsonMember>, allowed: &[&str], path: &str) -> (r: Result<(), FactError>)
    ensures
        r is Ok <==> unknown_fault(object@, names(allowed@), path@) is None,
        r matches Err(e) ==> unknown_fault(object@, names(allowed@), path@) == Some(e@),
{
    proof {
        reveal(unknown_fault);
    }
    let ghost al = names(allowed@);
    let mut best: Option<usize> = None;
    let mut i: usize = 0;
    while i < object.len()
        invariant
            i <= object@.len(),
            al == names(allowed@),
            best is None ==> forall|j: int| 0 <= j < i ==> !unknown_at(object@, al, j),
            best matches Some(b) ==> {
                &&& b < i
                &&& unknown_at(object@, al, b as int)
                &&& forall|j: int|
                    0 <= j < i && #[trigger] unknown_at(object@, al, j) ==> !text_precedes(
                        object@[j].key@,
                        object@[b as int].key@,
                    )
            },
        decreases object@.len() - i,
    {
        if !is_allowed(object[i].key.as_str(), allowed) {
            match best {
                None => {
                    proof {
                        lemma_lex_order_antisymmetric(
                            char_codes(object@[i as int].key@),
                            char_codes(object@[i as int].key@),
                        );
                    }
                    best = Some(i);
                },
                Some(b) => {
                    if precedes(object[i].key.as_str(), object[b].key.as_str()) {
                        proof {
                            assert forall|j: int|
                                0 <= j < i + 1 && #[trigger] unknown_at(
                                    object@,
                                    al,
                                    j,
                                ) implies !text_precedes(
                                object@[j].key@,
                                object@[i as int].key@,
                            ) by {
                                if j < i && text_precedes(object@[j].key@, object@[i as int].key@) {
                                    lemma_text_precedes_transitive(
                                        object@[j].key@,
                                        object@[i as int].key@,
                                        object@[b as int].key@,
                                    );
                                }
                                if j == i {
                                    lemma_lex_order_antisymmetric(
                                        char_codes(object@[j].key@),
                                        char_codes(object@[j].key@),
                                    );
                                }
                            }
                        }
                        best = Some(i);
                    }
                },
            }
        }
        i = i + 1;
    }
    match best {
        None => Ok(()),
        Some(b) => {
            proof {
                let k = object@[b as int].key@;
                assert(least_unknown(object@, al, k));
                let c = choose|k: Seq<char>| least_unknown(object@, al, k);
                assert(least_unknown(object@, al, c));
                let ic = choose|i: int| #[trigger] unknown_at(object@, al, i) && object@[i].key@ == c;
                assert(!text_precedes(object@[ic].key@, k));
                assert(!text_precedes(object@[b as int].key@, c));
                lemma_text_order_total(k, c);
            }
            Err(FactError::new(make_field_path(path, object[b].key.as_str()), "is unsupported".to_owned()))
        },
    }
}

/// The fields of a thresholds object.
pub open spec fn element_fields() -> Seq<Seq<char>> {
    seq!["earth"@, "fire"@, "water"@, "air"@]
}

/// The `thresholds` object: exactly the four element fields, each a safe
/// non-negative integer, read in Earth, Fire, Water, Air order.
#[verifier::opaque]
pub open spec fn thresholds_spec(ms: Seq<JsonMember>, path: Seq<char>) -> Result<Seq<u64>, FactFault> {
    let tp = field_path(path, "thresholds"@);
    match member_value(ms, "thresholds"@) {
        Some(JsonValue::Object(thr)) => {
            let t = thr@;
            let earth = required_integer_spec(t, "earth"@, MAX_SAFE_INTEGER as nat, tp);
            let fire = required_integer_spec(t, "fire"@, MAX_SAFE_INTEGER as nat, tp);
            let water = required_integer_spec(t, "water"@, MAX_SAFE_INTEGER as nat, tp);
            let air = required_integer_spec(t, "air"@, MAX_SAFE_INTEGER as nat, tp);
            if unknown_fault(t, element_fields(), tp) is Some {
                Err(unknown_fault(t, element_fields(), tp)->0)
            } else if earth is Err {
                Err(earth->Err_0)
            } else if fire is Err {
                Err(fire->Err_0)
            } else if water is Err {
                Err(water->Err_0)
            } else if air is Err {
                Err(air->Err_0)
            } else {
                Ok(seq![earth->Ok_0, fire->Ok_0, water->Ok_0, air->Ok_0])
            }
        },
        _ => Err((tp, "must be an object"@)),
    }
}

/// Whether an exec thresholds result agrees with a specified one.
pub open spec fn thresholds_outcome(r: Result<Thresholds, FactError>, s: Result<Seq<u64>, FactFault>) -> bool {
    match r {
        Ok(t) => s == Ok::<Seq<u64>, FactFault>(t@),
        Err(e) => s == Err::<Seq<u64>, FactFault>(e@),
    }
}

/// Reads the `thresholds` object.
fn parse_thresholds(object: &Vec<JsonMember>, path: &str) -> (r: Result<Thresholds, FactError>)
    ensures
        thresholds_outcome(r, thresholds_spec(object@, path@)),
{
    proof {
        reveal(thresholds_spec);
    }
    let threshold_path = make_field_path(path, "thresholds");
    let thresholds = match get_member(object, "thresholds") {
        Some(JsonValue::Object(t)) => t,
        _ => {
            return Err(FactError::new(threshold_path, "must be an object".to_owned()));
        },
    };
    let fields: [&str; 4] = ["earth", "fire", "water", "air"];
    assert(names(fields@) =~= element_fields());
    match reject_unknown(thresholds, &fields, threshold_path.as_str()) {
        Ok(()) => {},
        Err(e) => {
            return Err(e);
        },
    }
    let tp = threshold_path.as_str();
    let earth = match required_nonnegative_integer(thresholds, "earth", MAX_SAFE_INTEGER, tp) {
        Ok(v) => v,
        Err(e) => {
            return Err(e);
        },
    };
    let fire = match required_nonnegative_integer(thresholds, "fire", MAX_SAFE_INTEGER, tp) {
        Ok(v) => v,
        Err(e) => {
            return Err(e);
        },
    };
    let water = match required_nonnegative_integer(thresholds, "water", MAX_SAFE_INTEGER, tp) {
        Ok(v) => v,
        Err(e) => {
            return Err(e);
        },
    };
    let air = match required_nonnegative_integer(thresholds, "air", MAX_SAFE_INTEGER, tp) {
        Ok(v) => v,
        Err(e) => {
            return Err(e);
        },
    };
    let values: [u64; 4] = [earth, fire, water, air];
    assert(values@ =~= seq![earth, fire, water, air]);
    Ok(Thresholds(values))
}

/// A thresholds object that reads holds four values, and the value kept for
/// each element is the integer written under that element's name ("earth",
/// "fire", "water" or "air"), whatever order the members come in.
pub proof fn lemma_thresholds_follow_element_names(
    ms: Seq<JsonMember>,
    path: Seq<char>,
    values: Seq<u64>,
    name: Seq<char>,
    element: Element,
)
    requires
        thresholds_spec(ms, path) == Ok::<Seq<u64>, FactFault>(values),
        element_named(name) == Some(element),
    ensures
        values.len() == 4,
        member_value(ms, "thresholds"@) matches Some(JsonValue::Object(thr)) && member_value(
            thr@,
            name,
        ) matches Some(v) && safe_integer_value(v) == Some(values[element_index(element) as int] as int),
{
    reveal(thresholds_spec);
    let tp = field_path(path, "thresholds"@);
    let thr = member_value(ms, "thresholds"@)->0->Object_0;
    let t = thr@;
    let i = element_index(element) as int;
    assert(name == element_fields()[i]);
    let read = required_integer_spec(t, name, MAX_SAFE_INTEGER as nat, tp);
    assert(read == Ok::<u64, FactFault>(values[i]));
    reveal(required_integer_spec);
    let v = member_value(t, name)->0;
    let n = safe_integer_value(v)->0;
    assert(0 <= n <= MAX_SAFE_INTEGER);
    assert(n as u64 == values[i]);
}

/// The element named by array item `i`, if it names one.
pub open spec fn element_at(values: Seq<JsonValue>, i: int) -> Option<Element> {
    match values[i] {
        JsonValue::String(s) => element_named(s@),
        _ => None,
    }
}

/// The first problem among the first `n` items of an `elements` array.
pub open spec fn elements_fault(values: Seq<JsonValue>, n: nat, ep: Seq<char>) -> Option<FactFault>
    decreases n,
{
    if n == 0 {
        None
    } else {
        match elements_fault(values, (n - 1) as nat, ep) {
            Some(f) => Some(f),
            None => if element_at(values, n - 1) is None {
                Some((ep, "contains an unsupported element"@))
            } else if n >= 2 && element_index(element_at(values, n - 1)->0) <= element_index(
                element_at(values, n - 2)->0,
            ) {
                Some((ep, "must contain unique elements in canonical order"@))
            } else {
                None
            },
        }
    }
}

/// Once the scan of an `elements` array fails, it fails the same way for
/// every longer prefix.
proof fn lemma_elements_fault_stays(values: Seq<JsonValue>, k: nat, n: nat, ep: Seq<char>)
    requires
        elements_fault(values, k, ep) is Some,
        k <= n,
    ensures
        elements_fault(values, n, ep) == elements_fault(values, k, ep),
    decreases n - k,
{
    if n > k {
        lemma_elements_fault_stays(values, k, (n - 1) as nat, ep);
    }
}

/// The set bits of the elements named by the first `n` items.
pub open spec fn elements_bits(values: Seq<JsonValue>, n: nat) -> u8
    decreases n,
{
    if n == 0 {
        0
    } else {
        elements_bits(values, (n - 1) as nat) | element_bit(element_at(values, n - 1)->0)
    }
}

/// The `elements` array: supported element names in strictly increasing
/// canonical order.
#[verifier::opaque]
pub open spec fn elements_spec(ms: Seq<JsonMember>, path: Seq<char>) -> Result<u8, FactFault> {
    let ep = field_path(path, "elements"@);
    match member_value(ms, "elements"@) {
        Some(JsonValue::Array(vs)) => match elements_fault(vs@, vs@.len(), ep) {
            Some(f) => Err(f),
            None => Ok(elements_bits(vs@, vs@.len())),
        },
        _ => Err((ep, "must be an array"@)),
    }
}

/// Whether an exec element-set result agrees with a specified one.
pub open spec fn elements_outcome(r: Result<ElementSet, FactError>, s: Result<u8, FactFault>) -> bool {
    match r {
        Ok(t) => s == Ok::<u8, FactFault>(t@),
        Err(e) => s == Err::<u8, FactFault>(e@),
    }
}

/// The element named by a JSON value, if any.
fn element_of(value: &JsonValue) -> (r: Option<Element>)
    ensures
        r == match *value {
            JsonValue::String(s) => element_named(s@),
            _ => None,
        },
{
    match value {
        JsonValue::String(s) => Element::parse(s.as_str()),
        _ => None,
    }
}

/// Reads the `elements` array.
fn parse_elements(object: &Vec<JsonMember>, path: &str) -> (r: Result<ElementSet, FactError>)
    ensures
        elements_outcome(r, elements_spec(object@, path@)),
{
    proof {
        reveal(elements_spec);
    }
    let field_path = make_field_path(path, "elements");
    let values = match get_member(object, "elements") {
        Some(JsonValue::Array(vs)) => vs,
        _ => {
            return Err(FactError::new(field_path, "must be an array".to_owned()));
        },
    };
    let mut bits: u8 = 0;
    let mut previous: Option<usize> = None;
    let mut i: usize = 0;
    while i < values.len()
        invariant
            i <= values@.len(),
            field_path@ == crate::facts::field_path(path@, "elements"@),
            elements_fault(values@, i as nat, field_path@) is None,
            bits == elements_bits(values@, i as nat),
            i == 0 ==> previous is None,
            i > 0 ==> previous == Some(element_index(element_at(values@, i - 1)->0) as usize),
            member_value(object@, "elements"@) == Some(JsonValue::Array(*values)),
        decreases values@.len() - i,
    {
        let element = match element_of(&values[i]) {
            Some(e) => e,
            None => {
                proof {
                    reveal(elements_spec);
                    lemma_elements_fault_stays(values@, (i + 1) as nat, values@.len(), field_path@);
                }
                return Err(
                    FactError::new(field_path, "contains an unsupported element".to_owned()),
                );
            },
        };
        match previous {
            Some(p) => {
                if element.index() <= p {
                    proof {
                        reveal(elements_spec);
                        lemma_elements_fault_stays(values@, (i + 1) as nat, values@.len(), field_path@);
                    }
                    return Err(
                        FactError::new(
                            field_path,
                            "must contain unique elements in canonical order".to_owned(),
                        ),
                    );
                }
            },
            None => {},
        }
        bits = bits | element.bit();
        previous = Some(element.index());
        i = i + 1;
    }
    Ok(ElementSet(bits))
}

/// A card reference: absent, or a string that is a valid identifier. The
/// reference is the string held in the document.
#[verifier::opaque]
pub open spec fn reference_spec(ms: Seq<JsonMember>, field: Seq<char>, path: Seq<char>) -> Result<
    Option<String>,
    FactFault,
> {
    match member_value(ms, field) {
        None => Ok(None),
        Some(JsonValue::String(s)) => if valid_identifier(s@) {
            Ok(Some(s))
        } else {
            Err((field_path(path, field), identifier_problem()))
        },
        Some(_) => Err((field_path(path, field), "must be a card ID"@)),
    }
}

/// Reads an optional card reference.
fn parse_reference(object: &Vec<JsonMember>, field: &str, path: &str) -> (r: Result<
    Option<String>,
    FactError,
>)
    ensures
        fact_outcome(r, reference_spec(object@, field@, path@)),
{
    proof {
        reveal(reference_spec);
    }
    match get_member(object, field) {
        None => Ok(None),
        Some(JsonValue::String(s)) => {
            let reference_path = make_field_path(path, field);
            match validate_identifier(s.as_str(), reference_path.as_str()) {
                Ok(()) => Ok(Some(s.clone())),
                Err(e) => Err(e),
            }
        },
        Some(_) => Err(FactError::new(make_field_path(path, field), "must be a card ID".to_owned())),
    }
}

/// The number of present entries.
pub open spec fn some_count<T>(s: Seq<Option<T>>) -> nat
    decreases s.len(),
{
    if s.len() == 0 {
        0
    } else {
        (if s[0] is Some {
            1nat
        } else {
            0nat
        }) + some_count(s.skip(1))
    }
}

/// The first present entry.
pub open spec fn first_some<T>(s: Seq<Option<T>>) -> Option<T>
    decreases s.len(),
{
    if s.len() == 0 {
        None
    } else if s[0] is Some {
        s[0]
    } else {
        first_some(s.skip(1))
    }
}

/// The single present effect; a fault at `path` unless exactly one is present.
#[verifier::opaque]
pub open spec fn one_effect_spec<T>(s: Seq<Option<T>>, path: Seq<char>) -> Result<T, FactFault> {
    if some_count(s) == 1 {
        Ok(first_some(s)->0)
    } else {
        Err((path, "must define exactly one supported effect"@))
    }
}

/// The present effect, if any; a fault at `path` when more than one is present.
#[verifier::opaque]
pub open spec fn at_most_one_spec<T>(s: Seq<Option<T>>, path: Seq<char>, problem: Seq<char>) -> Result<
    Option<T>,
    FactFault,
> {
    if some_count(s) <= 1 {
        Ok(first_some(s))
    } else {
        Err((path, problem))
    }
}

/// Scans `effects` for present entries; returns the first and whether more
/// than one is present.
fn scan_effects<T>(effects: Vec<Option<T>>) -> (r: (Option<T>, bool))
    ensures
        r.0 == first_some(effects@),
        r.1 == (some_count(effects@) > 1),
{
    let ghost all = effects@;
    let mut rest = effects;
    let mut found: Option<T> = None;
    let ghost mut k: int = 0;
    while rest.len() > 0
        invariant
            0 <= k <= all.len(),
            all == effects@,
            rest@ == all.skip(k),
            found is None ==> some_count(all) == some_count(rest@) && first_some(all) == first_some(
                rest@,
            ),
            found is Some ==> some_count(all) == 1 + some_count(rest@) && first_some(all) == found,
        decreases rest@.len(),
    {
        let ghost before = rest@;
        let x = rest.remove(0);
        assert(before.skip(1) =~= rest@);
        assert(all.skip(k + 1) =~= all.skip(k).skip(1));
        assert(x == before[0]);
        match x {
            Some(v) => {
                if found.is_some() {
                    return (found, true);
                }
                found = Some(v);
            },
            None => {},
        }
        proof {
            k = k + 1;
        }
    }
    (found, false)
}

/// Exactly one effect must be present.
fn one_effect<T>(effects: Vec<Option<T>>, path: &str) -> (r: Result<T, FactError>)
    ensures
        fact_outcome(r, one_effect_spec(effects@, path@)),
{
    proof {
        reveal(one_effect_spec);
    }
    let ghost s = effects@;
    let (first, many) = scan_effects(effects);
    if many {
        return Err(
            FactError::new(path.to_owned(), "must define exactly one supported effect".to_owned()),
        );
    }
    match first {
        Some(v) => {
            proof {
                lemma_some_count_first(s);
            }
            Ok(v)
        },
        None => {
            proof {
                lemma_some_count_first(s);
            }
            Err(
                FactError::new(
                    path.to_owned(),
                    "must define exactly one supported effect".to_owned(),
                ),
            )
        },
    }
}

/// At most one effect may be present.
fn at_most_one<T>(effects: Vec<Option<T>>, path: &str, problem: &str) -> (r: Result<
    Option<T>,
    FactError,
>)
    ensures
        fact_outcome(r, at_most_one_spec(effects@, path@, problem@)),
{
    proof {
        reveal(at_most_one_spec);
    }
    let (first, many) = scan_effects(effects);
    if many {
        return Err(FactError::new(path.to_owned(), problem.to_owned()));
    }
    Ok(first)
}

/// No present entry exactly when the count is zero.
proof fn lemma_some_count_first<T>(s: Seq<Option<T>>)
    ensures
        (first_some(s) is None) <==> (some_count(s) == 0),
    decreases s.len(),
{
    if s.len() > 0 {
        lemma_some_count_first(s.skip(1));
    }
}

/// A validated card definition.
#[derive(Clone, Debug, Eq, PartialEq)]
pub enum CardFacts {
    /// Avatar facts.
    Avatar(AvatarFacts),
    /// Artifact facts.
    Artifact(ArtifactFacts),
    /// Aura facts.
    Aura(AuraFacts),
    /// Magic facts.
    Magic(MagicFacts),
    /// Minion facts.
    Minion(MinionFacts),
    /// Site facts.
    Site(SiteFacts),
}

/// Avatar facts.
#[derive(Clone, Copy, Debug, Eq, PartialEq)]
pub struct AvatarFacts {
    pub attack: u8,
    pub defense: u8,
    pub draw_spell: bool,
    pub earth_site_play_creates_adjacent_rubble: bool,
    pub life: u8,
    pub replace_adjacent_rubble_with_top_atlas_site: bool,
    pub tap_damage_random_other_unit_at_nearby_location_per_air_threshold_cast_this_turn: bool,
}

/// Site facts.
#[derive(Clone, Debug, Eq, PartialEq)]
pub struct SiteFacts {
    pub airborne_minions_atop_move_freely_away: bool,
    pub blocks_ground_minion_entry_while_minion_atop: bool,
    pub cannot_be_moved_destroyed_or_modified: bool,
    pub connects_burrowed_allies: bool,
    pub elements: ElementSet,
    pub fly_to_nearby_void_once_per_turn_at_air_threshold: bool,
    pub genesis_discard_top_spells: bool,
    pub genesis_draw_spell_per_adjacent_same_card: bool,
    pub genesis_enemies_lose_stealth: bool,
    pub genesis_gain_mana: Option<u8>,
    pub genesis_gain_mana_if_only_controlled_copy: bool,
    pub genesis_heal_nearby_avatars: bool,
    pub genesis_immobilize_nearby_until_next_turn: bool,
    pub genesis_may_bottom_next_spell: bool,
    pub genesis_pay_one_mana_to_summon_token: Option<String>,
    pub genesis_reorder_next_spells: bool,
    pub is_tower: bool,
    pub minions_here_gain_voidwalk_until_leaving_void: bool,
    pub ordinary_minion_mana_discount: bool,
    pub prevents_units_with_power_at_least_from_entering: Option<u8>,
    pub ranged_units_here_range_bonus: bool,
    pub sacrifice_to_destroy_nearby_site: bool,
}

/// The single supported effect carried by an Artifact.
#[derive(Clone, Copy, Debug, Eq, PartialEq, Structural)]
pub enum ArtifactEffect {
    AtEndOfEachTurnSiteControllerLosesLife(u8),
    BearerControllerChoosesExtraRandomOutcome,
    GrantsBearerLethal,
    GrantsBearerPowerTwo,
    TapBearerAndAnotherAllyHereAndDiscardCardToDamageEachUnitAtLocationWithinThreeSteps,
    TapBearerAndAnotherAllyHereToDamageTargetWithinTwoStepsThree,
    TapUnitHereToRollInCardinalDirectionAndDamageOtherUnitsAlongPathFour,
}

/// Artifact facts.
#[derive(Clone, Copy, Debug, Eq, PartialEq)]
pub struct ArtifactFacts {
    pub effect: ArtifactEffect,
    pub mana_cost: u64,
    pub thresholds: Thresholds,
}

/// The single supported effect carried by an Aura.
#[derive(Clone, Copy, Debug, Eq, PartialEq, Structural)]
pub enum AuraEffect {
    AtEndOfControllerTurnDamageRandomUnitAtAffectedSitesThenMayMoveOneStepThree,
    ImmobilizeAndGroundMinionsAtAffectedSitesForThreeControllerTurns,
}

/// Aura facts.
#[derive(Clone, Copy, Debug, Eq, PartialEq)]
pub struct AuraFacts {
    pub effect: AuraEffect,
    pub mana_cost: u64,
    pub thresholds: Thresholds,
}

/// The single supported effect carried by Magic.
#[derive(Clone, Debug, Eq, PartialEq)]
pub enum MagicEffect {
    BurrowAllMinionsAndArtifactsAtTargetLandSite,
    BurrowTargetMinionOrArtifact,
    DamageChainNearbyUnits,
    DamageEachAbovegroundMinionOne,
    DamageEachUnitAtLocationWithinTwoSteps(u8),
    DamageRandomUnitAtLocation(u8),
    DamageTargetUnit { amount: u8, target_nearby: bool, untap_target_minion_after_damage: bool },
    DestroyTargetSiteWithDamageGrid([u8; 5]),
    DisableTargetNearbyMinionUntilNextTurn,
    FightAllyWithAdjacentEnemy,
    GainControlOfTargetNearbyMinion,
    GrantChargeToAllyThisTurn,
    GrantPowerTwoToAllyThisTurn,
    HealController(u8),
    KillTargetWoundedMinion,
    LeapAttackAlly,
    LureEnemyMinionOneStepCloser,
    ReturnMinionFromOwnCemetery,
    SubmergeTargetMinion,
    SummonRandomMinionFromAnyCemetery,
    SummonTokenToEachControlledSiteBorderingEnemySite(String),
    TeleportAllyToTargetSite,
    TeleportNearbyAllyThenDrawCard,
}

/// Magic facts.
#[derive(Clone, Debug, Eq, PartialEq)]
pub struct MagicFacts {
    pub effect: MagicEffect,
    pub mana_cost: u64,
    pub thresholds: Thresholds,
}

/// One Genesis effect of a minion.
#[derive(Clone, Copy, Debug, Eq, PartialEq, Structural)]
pub enum MinionGenesis {
    DamageEachOtherUnitHereOne,
    DisableSelfUntilDamaged,
    DrawSite,
    DrawSpells(u8),
    HealControllerTwo,
    LoseControllerLifeTwo,
    MayDamageTargetAdjacentUnitTwo,
    StrikeEachEnemyHere,
}

/// The Genesis effects a minion declares, each independently. The engine
/// resolves a compiled Genesis only when exactly one is declared.
#[derive(Clone, Copy, Debug, Eq, PartialEq, Structural)]
pub struct GenesisEffects {
    pub damage_each_other_unit_here: bool,
    pub disable_self_until_damaged: bool,
    pub draw_site: bool,
    pub draw_spells: Option<u8>,
    pub heal_controller: bool,
    pub lose_controller_life: bool,
    pub may_damage_target_adjacent_unit: bool,
    pub strike_each_enemy_here: bool,
}

/// The declared Genesis effects, in field order, as optional entries.
pub open spec fn genesis_candidates(g: GenesisEffects) -> Seq<Option<MinionGenesis>> {
    seq![
        present_if(g.damage_each_other_unit_here, MinionGenesis::DamageEachOtherUnitHereOne),
        present_if(g.disable_self_until_damaged, MinionGenesis::DisableSelfUntilDamaged),
        present_if(g.draw_site, MinionGenesis::DrawSite),
        match g.draw_spells {
            Some(count) => Some(MinionGenesis::DrawSpells(count)),
            None => None,
        },
        present_if(g.heal_controller, MinionGenesis::HealControllerTwo),
        present_if(g.lose_controller_life, MinionGenesis::LoseControllerLifeTwo),
        present_if(g.may_damage_target_adjacent_unit, MinionGenesis::MayDamageTargetAdjacentUnitTwo),
        present_if(g.strike_each_enemy_here, MinionGenesis::StrikeEachEnemyHere),
    ]
}

/// Whether a minion declares any Genesis effect.
pub open spec fn declares_genesis(g: GenesisEffects) -> bool {
    g.damage_each_other_unit_here || g.disable_self_until_damaged || g.draw_site
        || g.draw_spells is Some || g.heal_controller || g.lose_controller_life
        || g.may_damage_target_adjacent_unit || g.strike_each_enemy_here
}

/// The one declared Genesis effect, or `None` when none or several are declared.
pub open spec fn single_genesis(g: GenesisEffects) -> Option<MinionGenesis> {
    if some_count(genesis_candidates(g)) == 1 {
        first_some(genesis_candidates(g))
    } else {
        None
    }
}

impl GenesisEffects {
    /// Returns whether any Genesis effect is declared.
    pub fn any(&self) -> (r: bool)
        ensures
            r == declares_genesis(*self),
    {
        self.damage_each_other_unit_here || self.disable_self_until_damaged || self.draw_site
            || self.draw_spells.is_some() || self.heal_controller || self.lose_controller_life
            || self.may_damage_target_adjacent_unit || self.strike_each_enemy_here
    }

    /// Returns the one declared Genesis effect, or `None` when none or
    /// several are declared.
    pub fn single(&self) -> (r: Option<MinionGenesis>)
        ensures
            r == single_genesis(*self),
    {
        let mut effects: Vec<Option<MinionGenesis>> = Vec::new();
        effects.push(present(self.damage_each_other_unit_here, MinionGenesis::DamageEachOtherUnitHereOne));
        effects.push(present(self.disable_self_until_damaged, MinionGenesis::DisableSelfUntilDamaged));
        effects.push(present(self.draw_site, MinionGenesis::DrawSite));
        effects.push(
            match self.draw_spells {
                Some(count) => Some(MinionGenesis::DrawSpells(count)),
                None => None,
            },
        );
        effects.push(present(self.heal_controller, MinionGenesis::HealControllerTwo));
        effects.push(present(self.lose_controller_life, MinionGenesis::LoseControllerLifeTwo));
        effects.push(
            present(self.may_damage_target_adjacent_unit, MinionGenesis::MayDamageTargetAdjacentUnitTwo),
        );
        effects.push(present(self.strike_each_enemy_here, MinionGenesis::StrikeEachEnemyHere));
        assert(effects@ =~= genesis_candidates(*self));
        let ghost all = effects@;
        let (first, many) = scan_effects(effects);
        if many {
            return None;
        }
        if first.is_none() {
            return None;
        }
        proof {
            lemma_some_count_first(all);
        }
        first
    }
}

/// A minion's alternative summon payment.
#[derive(Clone, Copy, Debug, Eq, PartialEq, Structural)]
pub enum AlternativeSummonPayment {
    DiscardRandomCardInsteadOfMana,
    SacrificeMinionAtSummoningLocationForManaDiscountTwo,
}

/// A minion's end-turn Stealth rule.
#[derive(Clone, Copy, Debug, Eq, PartialEq, Structural)]
pub enum EndTurnStealth {
    Always,
    IfNoEnemiesNearby,
}

/// A minion's basic movement restriction.
#[derive(Clone, Copy, Debug, Eq, PartialEq, Structural)]
pub enum BasicMovementRestriction {
    ForwardOnly,
    SidewaysOnly,
}

/// A minion's required cast region.
#[derive(Clone, Copy, Debug, Eq, PartialEq, Structural)]
pub enum RequiredCastRegion {
    Underground,
    Underwater,
}

/// A minion's single supported damage-prevention rule.
#[derive(Clone, Copy, Debug, Eq, PartialEq, Structural)]
pub enum DamagePrevention {
    TakesOneLessDamage,
    PreventsDamageFromUnitsWithPowerAtLeast(u8),
    Ward,
}

/// Minion facts.
#[derive(Clone, Debug, Eq, PartialEq)]
pub struct MinionFacts {
    pub airborne: bool,
    pub alternative_summon_payment: Option<AlternativeSummonPayment>,
    pub at_start_of_controller_turn_teleport_to_random_site_or_void: bool,
    pub attack: u8,
    pub burrowing: bool,
    pub cannot_attack_sites: bool,
    pub cannot_defend: bool,
    pub cannot_defend_or_intercept: bool,
    pub charge: bool,
    pub connects_top_bottom: bool,
    pub damage_prevention: Option<DamagePrevention>,
    pub deathrite_damage_each_unit_here: Option<u8>,
    pub deathrite_draw_site: bool,
    pub deathrite_heal: Option<u8>,
    pub deathrite_lose_life_per_nearby_site_controlled: bool,
    pub defense: u8,
    pub dies_at_end_of_controller_turn: bool,
    pub discard_spell_to_damage_random_other_unit_here: Option<u8>,
    pub end_turn_stealth: Option<EndTurnStealth>,
    pub gains_power_ranged_and_spellcaster_atop_tower: bool,
    pub genesis: GenesisEffects,
    pub immobile: bool,
    pub lance_count: Option<u8>,
    pub lethal: bool,
    pub mana_cost: u64,
    pub may_ranged_strike_once_during_basic_movement: bool,
    pub may_step_after_ranged_strike: bool,
    pub mortal: bool,
    pub movement_bonus: Option<u8>,
    pub movement_restriction: Option<BasicMovementRestriction>,
    pub must_be_cast_to_outer_column: bool,
    pub must_be_cast_to_water_site: bool,
    pub nearby_enemies_permanently_lose_stealth: bool,
    pub occupies_square_area_two: bool,
    pub ordinary: bool,
    pub other_controlled_mortals_power_bonus: bool,
    pub other_nearby_allies_power_bonus: bool,
    pub provides: Option<Element>,
    pub ranged: bool,
    pub required_cast_region: Option<RequiredCastRegion>,
    pub shoots_drag_projectile: bool,
    pub site_provides_no_threshold: bool,
    pub spellcaster: bool,
    pub stealth: bool,
    pub strikes_first_while_attacking: bool,
    pub submerge: bool,
    pub summon_to_any_site: bool,
    pub tap_for_mana: Option<u8>,
    pub tap_to_damage_each_unit_at_adjacent_location: bool,
    pub tap_to_shoot_projectile_damage: Option<u8>,
    pub thresholds: Thresholds,
    pub token: bool,
    pub untaps_at_end_of_controller_turn: bool,
    pub voidwalk: bool,
    pub waterbound: bool,
}

/// A bounded integer narrowed to a byte.
pub open spec fn byte_of(o: Option<u64>) -> Option<u8> {
    match o {
        Some(v) => Some(v as u8),
        None => None,
    }
}

/// Narrows a bounded integer to a byte.
fn compact(o: Option<u64>) -> (r: Option<u8>)
    ensures
        r == byte_of(o),
{
    match o {
        Some(v) => Some(v as u8),
        None => None,
    }
}

/// The fields an avatar card definition may hold.
pub open spec fn avatar_field_names() -> Seq<Seq<char>> {
    seq![
        "attack"@,
        "cardType"@,
        "defense"@,
        "drawSpell"@,
        "earthSitePlayCreatesAdjacentRubble"@,
        "life"@,
        "replaceAdjacentRubbleWithTopAtlasSite"@,
        "tapDamageRandomOtherUnitAtNearbyLocationPerAirThresholdCastThisTurn"@,
    ]
}

/// The fields an avatar card definition may hold.
fn avatar_fields() -> (r: [&'static str; 8])
    ensures
        names(r@) == avatar_field_names(),
{
    let r: [&'static str; 8] = [
        "attack",
        "cardType",
        "defense",
        "drawSpell",
        "earthSitePlayCreatesAdjacentRubble",
        "life",
        "replaceAdjacentRubbleWithTopAtlasSite",
        "tapDamageRandomOtherUnitAtNearbyLocationPerAirThresholdCastThisTurn",
    ];
    assert(names(r@) =~= avatar_field_names());
    r
}

/// The fields an artifact card definition may hold.
pub open spec fn artifact_field_names() -> Seq<Seq<char>> {
    seq![
        "atEndOfEachTurnSiteControllerLosesLife"@,
        "bearerControllerChoosesExtraRandomOutcome"@,
        "cardType"@,
        "grantsBearerLethal"@,
        "grantsBearerPower"@,
        "manaCost"@,
        "tapBearerAndAnotherAllyHereAndDiscardCardToDamageEachUnitAtLocationWithinThreeSteps"@,
        "tapBearerAndAnotherAllyHereToDamageTargetWithinTwoSteps"@,
        "tapUnitHereToRollInCardinalDirectionAndDamageOtherUnitsAlongPath"@,
        "thresholds"@,
    ]
}

/// The fields an artifact card definition may hold.
fn artifact_fields() -> (r: [&'static str; 10])
    ensures
        names(r@) == artifact_field_names(),
{
    let r: [&'static str; 10] = [
        "atEndOfEachTurnSiteControllerLosesLife",
        "bearerControllerChoosesExtraRandomOutcome",
        "cardType",
        "grantsBearerLethal",
        "grantsBearerPower",
        "manaCost",
        "tapBearerAndAnotherAllyHereAndDiscardCardToDamageEachUnitAtLocationWithinThreeSteps",
        "tapBearerAndAnotherAllyHereToDamageTargetWithinTwoSteps",
        "tapUnitHereToRollInCardinalDirectionAndDamageOtherUnitsAlongPath",
        "thresholds",
    ];
    assert(names(r@) =~= artifact_field_names());
    r
}

/// The fields an aura card definition may hold.
pub open spec fn aura_field_names() -> Seq<Seq<char>> {
    seq![
        "atEndOfControllerTurnDamageRandomUnitAtAffectedSitesThenMayMoveOneStep"@,
        "cardType"@,
        "immobilizeAndGroundMinionsAtAffectedSitesForThreeControllerTurns"@,
        "manaCost"@,
        "thresholds"@,
    ]
}

/// The fields an aura card definition may hold.
fn aura_fields() -> (r: [&'static str; 5])
    ensures
        names(r@) == aura_field_names(),
{
    let r: [&'static str; 5] = [
        "atEndOfControllerTurnDamageRandomUnitAtAffectedSitesThenMayMoveOneStep",
        "cardType",
        "immobilizeAndGroundMinionsAtAffectedSitesForThreeControllerTurns",
        "manaCost",
        "thresholds",
    ];
    assert(names(r@) =~= aura_field_names());
    r
}

/// The first fault of an Avatar definition, in the order the fields are read.
pub open spec fn avatar_fault(ms: Seq<JsonMember>, path: Seq<char>) -> Option<FactFault> {
    let unknown = unknown_fault(ms, avatar_field_names(), path);
    let attack_read = required_integer_spec(ms, "attack"@, MAX_COMBAT_STAT as nat, path);
    let attack = attack_read->Ok_0;
    let defense_read = required_integer_spec(ms, "defense"@, MAX_COMBAT_STAT as nat, path);
    let defense = defense_read->Ok_0;
    let draw_spell_read = required_bool_spec(ms, "drawSpell"@, path);
    let draw_spell = draw_spell_read->Ok_0;
    let earth_site_play_creates_adjacent_rubble_read = true_only_spec(ms, "earthSitePlayCreatesAdjacentRubble"@, path);
    let earth_site_play_creates_adjacent_rubble = earth_site_play_creates_adjacent_rubble_read->Ok_0;
    let life_read = optional_integer_spec(ms, "life"@, 1, MAX_COMBAT_STAT as nat, path);
    let life = life_read->Ok_0;
    let replace_adjacent_rubble_with_top_atlas_site_read = true_only_spec(ms, "replaceAdjacentRubbleWithTopAtlasSite"@, path);
    let replace_adjacent_rubble_with_top_atlas_site = replace_adjacent_rubble_with_top_atlas_site_read->Ok_0;
    let tap_damage_random_other_unit_at_nearby_location_per_air_threshold_cast_this_turn_read = true_only_spec(ms, "tapDamageRandomOtherUnitAtNearbyLocationPerAirThresholdCastThisTurn"@, path);
    let tap_damage_random_other_unit_at_nearby_location_per_air_threshold_cast_this_turn = tap_damage_random_other_unit_at_nearby_location_per_air_threshold_cast_this_turn_read->Ok_0;
    if unknown is Some {
        Some(unknown->0)
    } else if attack_read is Err {
        Some(attack_read->Err_0)
    } else if defense_read is Err {
        Some(defense_read->Err_0)
    } else if draw_spell_read is Err {
        Some(draw_spell_read->Err_0)
    } else if earth_site_play_creates_adjacent_rubble_read is Err {
        Some(earth_site_play_creates_adjacent_rubble_read->Err_0)
    } else if life_read is Err {
        Some(life_read->Err_0)
    } else if life is None {
        Some((field_path(path, "life"@), "is required"@))
    } else if replace_adjacent_rubble_with_top_atlas_site_read is Err {
        Some(replace_adjacent_rubble_with_top_atlas_site_read->Err_0)
    } else if tap_damage_random_other_unit_at_nearby_location_per_air_threshold_cast_this_turn_read is Err {
        Some(tap_damage_random_other_unit_at_nearby_location_per_air_threshold_cast_this_turn_read->Err_0)
    } else {
        None
    }
}

/// The Avatar facts that a definition without faults reads to.
pub open spec fn avatar_read(f: AvatarFacts, ms: Seq<JsonMember>, path: Seq<char>) -> bool {
    let attack = required_integer_spec(ms, "attack"@, MAX_COMBAT_STAT as nat, path)->Ok_0;
    let defense = required_integer_spec(ms, "defense"@, MAX_COMBAT_STAT as nat, path)->Ok_0;
    let draw_spell = required_bool_spec(ms, "drawSpell"@, path)->Ok_0;
    let earth_site_play_creates_adjacent_rubble = true_only_spec(ms, "earthSitePlayCreatesAdjacentRubble"@, path)->Ok_0;
    let life = optional_integer_spec(ms, "life"@, 1, MAX_COMBAT_STAT as nat, path)->Ok_0;
    let replace_adjacent_rubble_with_top_atlas_site = true_only_spec(ms, "replaceAdjacentRubbleWithTopAtlasSite"@, path)->Ok_0;
    let tap_damage_random_other_unit_at_nearby_location_per_air_threshold_cast_this_turn = true_only_spec(ms, "tapDamageRandomOtherUnitAtNearbyLocationPerAirThresholdCastThisTurn"@, path)->Ok_0;
    &&& f.attack == attack as u8
    &&& f.defense == defense as u8
    &&& f.draw_spell == draw_spell
    &&& f.earth_site_play_creates_adjacent_rubble == earth_site_play_creates_adjacent_rubble
    &&& f.life == (life->0) as u8
    &&& f.replace_adjacent_rubble_with_top_atlas_site == replace_adjacent_rubble_with_top_atlas_site
    &&& f.tap_damage_random_other_unit_at_nearby_location_per_air_threshold_cast_this_turn == tap_damage_random_other_unit_at_nearby_location_per_air_threshold_cast_this_turn
}

/// Parses an Avatar definition.
fn parse_avatar(object: &Vec<JsonMember>, path: &str) -> (r: Result<AvatarFacts, FactError>)
    ensures
        r is Ok <==> avatar_fault(object@, path@) is None,
        r matches Err(e) ==> avatar_fault(object@, path@) == Some(e@),
        r matches Ok(f) ==> avatar_read(f, object@, path@),
{
    let allowed = avatar_fields();
    match reject_unknown(object, &allowed, path) {
        Ok(()) => {},
        Err(e) => {
            return Err(e);
        },
    }
    let attack = match required_nonnegative_integer(object, "attack", MAX_COMBAT_STAT, path) {
        Ok(v) => v,
        Err(e) => {
            return Err(e);
        },
    };
    let defense = match required_nonnegative_integer(object, "defense", MAX_COMBAT_STAT, path) {
        Ok(v) => v,
        Err(e) => {
            return Err(e);
        },
    };
    let draw_spell = match required_bool(object, "drawSpell", path) {
        Ok(v) => v,
        Err(e) => {
            return Err(e);
        },
    };
    let earth_site_play_creates_adjacent_rubble = match true_only(object, "earthSitePlayCreatesAdjacentRubble", path) {
        Ok(v) => v,
        Err(e) => {
            return Err(e);
        },
    };
    let life = match optional_bounded_integer(object, "life", 1, MAX_COMBAT_STAT, path) {
        Ok(v) => v,
        Err(e) => {
            return Err(e);
        },
    };
    if life.is_none() {
        return Err(FactError::new(make_field_path(path, "life"), "is required".to_owned()));
    }
    let replace_adjacent_rubble_with_top_atlas_site = match true_only(object, "replaceAdjacentRubbleWithTopAtlasSite", path) {
        Ok(v) => v,
        Err(e) => {
            return Err(e);
        },
    };
    let tap_damage_random_other_unit_at_nearby_location_per_air_threshold_cast_this_turn = match true_only(object, "tapDamageRandomOtherUnitAtNearbyLocationPerAirThresholdCastThisTurn", path) {
        Ok(v) => v,
        Err(e) => {
            return Err(e);
        },
    };
    Ok(AvatarFacts {
        attack: attack as u8,
        defense: defense as u8,
        draw_spell,
        earth_site_play_creates_adjacent_rubble,
        life: life.unwrap() as u8,
        replace_adjacent_rubble_with_top_atlas_site,
        tap_damage_random_other_unit_at_nearby_location_per_air_threshold_cast_this_turn,
    })
}

/// The first fault of an Artifact definition, in the order the fields are read.
pub open spec fn artifact_fault(ms: Seq<JsonMember>, path: Seq<char>) -> Option<FactFault> {
    let unknown = unknown_fault(ms, artifact_field_names(), path);
    let life_loss_read = optional_integer_spec(ms, "atEndOfEachTurnSiteControllerLosesLife"@, 1, MAX_COMBAT_STAT as nat, path);
    let life_loss = life_loss_read->Ok_0;
    let extra_random_outcome_read = true_only_spec(ms, "bearerControllerChoosesExtraRandomOutcome"@, path);
    let extra_random_outcome = extra_random_outcome_read->Ok_0;
    let lethal_read = true_only_spec(ms, "grantsBearerLethal"@, path);
    let lethal = lethal_read->Ok_0;
    let power_read = fixed_integer_spec(ms, "grantsBearerPower"@, 2, path);
    let power = power_read->Ok_0;
    let discard_damage_read = true_only_spec(ms, "tapBearerAndAnotherAllyHereAndDiscardCardToDamageEachUnitAtLocationWithinThreeSteps"@, path);
    let discard_damage = discard_damage_read->Ok_0;
    let target_damage_read = fixed_integer_spec(ms, "tapBearerAndAnotherAllyHereToDamageTargetWithinTwoSteps"@, 3, path);
    let target_damage = target_damage_read->Ok_0;
    let roll_damage_read = fixed_integer_spec(ms, "tapUnitHereToRollInCardinalDirectionAndDamageOtherUnitsAlongPath"@, 4, path);
    let roll_damage = roll_damage_read->Ok_0;
    let effect_read = one_effect_spec(
        Seq::empty()
            .push(present_if(life_loss.is_some(), ArtifactEffect::AtEndOfEachTurnSiteControllerLosesLife(amount_of(life_loss))))
            .push(present_if(extra_random_outcome, ArtifactEffect::BearerControllerChoosesExtraRandomOutcome))
            .push(present_if(lethal, ArtifactEffect::GrantsBearerLethal))
            .push(present_if(power, ArtifactEffect::GrantsBearerPowerTwo))
            .push(present_if(discard_damage, ArtifactEffect::TapBearerAndAnotherAllyHereAndDiscardCardToDamageEachUnitAtLocationWithinThreeSteps))
            .push(present_if(target_damage, ArtifactEffect::TapBearerAndAnotherAllyHereToDamageTargetWithinTwoStepsThree))
            .push(present_if(roll_damage, ArtifactEffect::TapUnitHereToRollInCardinalDirectionAndDamageOtherUnitsAlongPathFour)),
        path,
    );
    let effect = effect_read->Ok_0;
    let mana_cost_read = required_integer_spec(ms, "manaCost"@, MAX_SAFE_INTEGER as nat, path);
    let mana_cost = mana_cost_read->Ok_0;
    let thresholds_read = thresholds_spec(ms, path);
    let thresholds = thresholds_read->Ok_0;
    if unknown is Some {
        Some(unknown->0)
    } else if life_loss_read is Err {
        Some(life_loss_read->Err_0)
    } else if extra_random_outcome_read is Err {
        Some(extra_random_outcome_read->Err_0)
    } else if lethal_read is Err {
        Some(lethal_read->Err_0)
    } else if power_read is Err {
        Some(power_read->Err_0)
    } else if discard_damage_read is Err {
        Some(discard_damage_read->Err_0)
    } else if target_damage_read is Err {
        Some(target_damage_read->Err_0)
    } else if roll_damage_read is Err {
        Some(roll_damage_read->Err_0)
    } else if effect_read is Err {
        Some(effect_read->Err_0)
    } else if mana_cost_read is Err {
        Some(mana_cost_read->Err_0)
    } else if thresholds_read is Err {
        Some(thresholds_read->Err_0)
    } else {
        None
    }
}

/// The Artifact facts that a definition without faults reads to.
pub open spec fn artifact_read(f: ArtifactFacts, ms: Seq<JsonMember>, path: Seq<char>) -> bool {
    let life_loss = optional_integer_spec(ms, "atEndOfEachTurnSiteControllerLosesLife"@, 1, MAX_COMBAT_STAT as nat, path)->Ok_0;
    let extra_random_outcome = true_only_spec(ms, "bearerControllerChoosesExtraRandomOutcome"@, path)->Ok_0;
    let lethal = true_only_spec(ms, "grantsBearerLethal"@, path)->Ok_0;
    let power = fixed_integer_spec(ms, "grantsBearerPower"@, 2, path)->Ok_0;
    let discard_damage = true_only_spec(ms, "tapBearerAndAnotherAllyHereAndDiscardCardToDamageEachUnitAtLocationWithinThreeSteps"@, path)->Ok_0;
    let target_damage = fixed_integer_spec(ms, "tapBearerAndAnotherAllyHereToDamageTargetWithinTwoSteps"@, 3, path)->Ok_0;
    let roll_damage = fixed_integer_spec(ms, "tapUnitHereToRollInCardinalDirectionAndDamageOtherUnitsAlongPath"@, 4, path)->Ok_0;
    let effect = one_effect_spec(
        Seq::empty()
            .push(present_if(life_loss.is_some(), ArtifactEffect::AtEndOfEachTurnSiteControllerLosesLife(amount_of(life_loss))))
            .push(present_if(extra_random_outcome, ArtifactEffect::BearerControllerChoosesExtraRandomOutcome))
            .push(present_if(lethal, ArtifactEffect::GrantsBearerLethal))
            .push(present_if(power, ArtifactEffect::GrantsBearerPowerTwo))
            .push(present_if(discard_damage, ArtifactEffect::TapBearerAndAnotherAllyHereAndDiscardCardToDamageEachUnitAtLocationWithinThreeSteps))
            .push(present_if(target_damage, ArtifactEffect::TapBearerAndAnotherAllyHereToDamageTargetWithinTwoStepsThree))
            .push(present_if(roll_damage, ArtifactEffect::TapUnitHereToRollInCardinalDirectionAndDamageOtherUnitsAlongPathFour)),
        path,
    )->Ok_0;
    let mana_cost = required_integer_spec(ms, "manaCost"@, MAX_SAFE_INTEGER as nat, path)->Ok_0;
    let thresholds = thresholds_spec(ms, path)->Ok_0;
    &&& f.effect == effect
    &&& f.mana_cost == mana_cost
    &&& f.thresholds@ == thresholds
}

/// Parses an Artifact definition.
fn parse_artifact(object: &Vec<JsonMember>, path: &str) -> (r: Result<ArtifactFacts, FactError>)
    ensures
        r is Ok <==> artifact_fault(object@, path@) is None,
        r matches Err(e) ==> artifact_fault(object@, path@) == Some(e@),
        r matches Ok(f) ==> artifact_read(f, object@, path@),
{
    let allowed = artifact_fields();
    match reject_unknown(object, &allowed, path) {
        Ok(()) => {},
        Err(e) => {
            return Err(e);
        },
    }
    let life_loss = match optional_bounded_integer(object, "atEndOfEachTurnSiteControllerLosesLife", 1, MAX_COMBAT_STAT, path) {
        Ok(v) => v,
        Err(e) => {
            return Err(e);
        },
    };
    let extra_random_outcome = match true_only(object, "bearerControllerChoosesExtraRandomOutcome", path) {
        Ok(v) => v,
        Err(e) => {
            return Err(e);
        },
    };
    let lethal = match true_only(object, "grantsBearerLethal", path) {
        Ok(v) => v,
        Err(e) => {
            return Err(e);
        },
    };
    let power = match fixed_integer(object, "grantsBearerPower", 2, path) {
        Ok(v) => v,
        Err(e) => {
            return Err(e);
        },
    };
    let discard_damage = match true_only(object, "tapBearerAndAnotherAllyHereAndDiscardCardToDamageEachUnitAtLocationWithinThreeSteps", path) {
        Ok(v) => v,
        Err(e) => {
            return Err(e);
        },
    };
    let target_damage = match fixed_integer(object, "tapBearerAndAnotherAllyHereToDamageTargetWithinTwoSteps", 3, path) {
        Ok(v) => v,
        Err(e) => {
            return Err(e);
        },
    };
    let roll_damage = match fixed_integer(object, "tapUnitHereToRollInCardinalDirectionAndDamageOtherUnitsAlongPath", 4, path) {
        Ok(v) => v,
        Err(e) => {
            return Err(e);
        },
    };
    let candidate_1 = present(life_loss.is_some(), ArtifactEffect::AtEndOfEachTurnSiteControllerLosesLife(amount(life_loss)));
    let candidate_2 = present(extra_random_outcome, ArtifactEffect::BearerControllerChoosesExtraRandomOutcome);
    let candidate_3 = present(lethal, ArtifactEffect::GrantsBearerLethal);
    let candidate_4 = present(power, ArtifactEffect::GrantsBearerPowerTwo);
    let candidate_5 = present(discard_damage, ArtifactEffect::TapBearerAndAnotherAllyHereAndDiscardCardToDamageEachUnitAtLocationWithinThreeSteps);
    let candidate_6 = present(target_damage, ArtifactEffect::TapBearerAndAnotherAllyHereToDamageTargetWithinTwoStepsThree);
    let candidate_7 = present(roll_damage, ArtifactEffect::TapUnitHereToRollInCardinalDirectionAndDamageOtherUnitsAlongPathFour);
    let mut effects: Vec<Option<ArtifactEffect>> = Vec::new();
    effects.push(candidate_1);
    effects.push(candidate_2);
    effects.push(candidate_3);
    effects.push(candidate_4);
    effects.push(candidate_5);
    effects.push(candidate_6);
    effects.push(candidate_7);
    let effect = match one_effect(effects, path) {
        Ok(v) => v,
        Err(e) => {
            return Err(e);
        },
    };
    let mana_cost = match required_nonnegative_integer(object, "manaCost", MAX_SAFE_INTEGER, path) {
        Ok(v) => v,
        Err(e) => {
            return Err(e);
        },
    };
    let thresholds = match parse_thresholds(object, path) {
        Ok(v) => v,
        Err(e) => {
            return Err(e);
        },
    };
    Ok(ArtifactFacts {
        effect,
        mana_cost,
        thresholds,
    })
}

/// The first fault of an Aura definition, in the order the fields are read.
pub open spec fn aura_fault(ms: Seq<JsonMember>, path: Seq<char>) -> Option<FactFault> {
    let unknown = unknown_fault(ms, aura_field_names(), path);
    let damage_then_move_read = fixed_integer_spec(ms, "atEndOfControllerTurnDamageRandomUnitAtAffectedSitesThenMayMoveOneStep"@, 3, path);
    let damage_then_move = damage_then_move_read->Ok_0;
    let immobilize_read = true_only_spec(ms, "immobilizeAndGroundMinionsAtAffectedSitesForThreeControllerTurns"@, path);
    let immobilize = immobilize_read->Ok_0;
    let effect_read = one_effect_spec(
        Seq::empty()
            .push(present_if(damage_then_move, AuraEffect::AtEndOfControllerTurnDamageRandomUnitAtAffectedSitesThenMayMoveOneStepThree))
            .push(present_if(immobilize, AuraEffect::ImmobilizeAndGroundMinionsAtAffectedSitesForThreeControllerTurns)),
        path,
    );
    let effect = effect_read->Ok_0;
    let mana_cost_read = required_integer_spec(ms, "manaCost"@, MAX_SAFE_INTEGER as nat, path);
    let mana_cost = mana_cost_read->Ok_0;
    let thresholds_read = thresholds_spec(ms, path);
    let thresholds = thresholds_read->Ok_0;
    if unknown is Some {
        Some(unknown->0)
    } else if damage_then_move_read is Err {
        Some(damage_then_move_read->Err_0)
    } else if immobilize_read is Err {
        Some(immobilize_read->Err_0)
    } else if effect_read is Err {
        Some(effect_read->Err_0)
    } else if mana_cost_read is Err {
        Some(mana_cost_read->Err_0)
    } else if thresholds_read is Err {
        Some(thresholds_read->Err_0)
    } else {
        None
    }
}

/// The Aura facts that a definition without faults reads to.
pub open spec fn aura_read(f: AuraFacts, ms: Seq<JsonMember>, path: Seq<char>) -> bool {
    let damage_then_move = fixed_integer_spec(ms, "atEndOfControllerTurnDamageRandomUnitAtAffectedSitesThenMayMoveOneStep"@, 3, path)->Ok_0;
    let immobilize = true_only_spec(ms, "immobilizeAndGroundMinionsAtAffectedSitesForThreeControllerTurns"@, path)->Ok_0;
    let effect = one_effect_spec(
        Seq::empty()
            .push(present_if(damage_then_move, AuraEffect::AtEndOfControllerTurnDamageRandomUnitAtAffectedSitesThenMayMoveOneStepThree))
            .push(present_if(immobilize, AuraEffect::ImmobilizeAndGroundMinionsAtAffectedSitesForThreeControllerTurns)),
        path,
    )->Ok_0;
    let mana_cost = required_integer_spec(ms, "manaCost"@, MAX_SAFE_INTEGER as nat, path)->Ok_0;
    let thresholds = thresholds_spec(ms, path)->Ok_0;
    &&& f.effect == effect
    &&& f.mana_cost == mana_cost
    &&& f.thresholds@ == thresholds
}

/// Parses an Aura definition.
fn parse_aura(object: &Vec<JsonMember>, path: &str) -> (r: Result<AuraFacts, FactError>)
    ensures
        r is Ok <==> aura_fault(object@, path@) is None,
        r matches Err(e) ==> aura_fault(object@, path@) == Some(e@),
        r matches Ok(f) ==> aura_read(f, object@, path@),
{
    let allowed = aura_fields();
    match reject_unknown(object, &allowed, path) {
        Ok(()) => {},
        Err(e) => {
            return Err(e);
        },
    }
    let damage_then_move = match fixed_integer(object, "atEndOfControllerTurnDamageRandomUnitAtAffectedSitesThenMayMoveOneStep", 3, path) {
        Ok(v) => v,
        Err(e) => {
            return Err(e);
        },
    };
    let immobilize = match true_only(object, "immobilizeAndGroundMinionsAtAffectedSitesForThreeControllerTurns", path) {
        Ok(v) => v,
        Err(e) => {
            return Err(e);
        },
    };
    let candidate_1 = present(damage_then_move, AuraEffect::AtEndOfControllerTurnDamageRandomUnitAtAffectedSitesThenMayMoveOneStepThree);
    let candidate_2 = present(immobilize, AuraEffect::ImmobilizeAndGroundMinionsAtAffectedSitesForThreeControllerTurns);
    let mut effects: Vec<Option<AuraEffect>> = Vec::new();
    effects.push(candidate_1);
    effects.push(candidate_2);
    let effect = match one_effect(effects, path) {
        Ok(v) => v,
        Err(e) => {
            return Err(e);
        },
    };
    let mana_cost = match required_nonnegative_integer(object, "manaCost", MAX_SAFE_INTEGER, path) {
        Ok(v) => v,
        Err(e) => {
            return Err(e);
        },
    };
    let thresholds = match parse_thresholds(object, path) {
        Ok(v) => v,
        Err(e) => {
            return Err(e);
        },
    };
    Ok(AuraFacts {
        effect,
        mana_cost,
        thresholds,
    })
}

/// A damage value of a site-destruction grid: a safe integer in `1..=100`.
pub open spec fn grid_amount(v: JsonValue) -> Option<u8> {
    match safe_integer_value(v) {
        Some(n) => if 1 <= n <= 100 {
            Some(n as u8)
        } else {
            None
        },
        None => None,
    }
}

/// The site-destruction damage grid: absent, or an array of exactly five
/// damage values.
#[verifier::opaque]
pub open spec fn damage_grid_spec(ms: Seq<JsonMember>, path: Seq<char>) -> Result<
    Option<[u8; 5]>,
    FactFault,
> {
    let field = "damageUnitsAboveAndBelowTargetSiteByManhattanDistance"@;
    let fault = (field_path(path, field), "must contain five supported positive damage values"@);
    match member_value(ms, field) {
        None => Ok(None),
        Some(JsonValue::Array(vs)) => if vs@.len() == 5 && forall|i: int|
            0 <= i < 5 ==> #[trigger] grid_amount(vs@[i]) is Some {
            Ok(
                Some(
                    [
                        grid_amount(vs@[0])->0,
                        grid_amount(vs@[1])->0,
                        grid_amount(vs@[2])->0,
                        grid_amount(vs@[3])->0,
                        grid_amount(vs@[4])->0,
                    ],
                ),
            )
        } else {
            Err(fault)
        },
        Some(_) => Err(fault),
    }
}

/// Reads one damage value of a grid.
fn grid_amount_of(v: &JsonValue) -> (r: Option<u8>)
    ensures
        r == grid_amount(*v),
{
    match safe_integer(v) {
        Some(n) => if 1 <= n && n <= 100 {
            Some(n as u8)
        } else {
            None
        },
        None => None,
    }
}

/// Reads the site-destruction damage grid.
fn parse_damage_grid(object: &Vec<JsonMember>, path: &str) -> (r: Result<Option<[u8; 5]>, FactError>)
    ensures
        fact_outcome(r, damage_grid_spec(object@, path@)),
{
    proof {
        reveal(damage_grid_spec);
    }
    let field = "damageUnitsAboveAndBelowTargetSiteByManhattanDistance";
    let values = match get_member(object, field) {
        None => {
            return Ok(None);
        },
        Some(JsonValue::Array(vs)) => vs,
        Some(_) => {
            return Err(
                FactError::new(
                    make_field_path(path, field),
                    "must contain five supported positive damage values".to_owned(),
                ),
            );
        },
    };
    let mut amounts: Vec<u8> = Vec::new();
    if values.len() == 5 {
        let mut i: usize = 0;
        while i < 5
            invariant
                i <= 5,
                values@.len() == 5,
                amounts@.len() == i,
                field@ == "damageUnitsAboveAndBelowTargetSiteByManhattanDistance"@,
                member_value(object@, field@) == Some(JsonValue::Array(*values)),
                forall|j: int| 0 <= j < i ==> grid_amount(values@[j]) == Some(#[trigger] amounts@[j]),
            decreases 5 - i,
        {
            match grid_amount_of(&values[i]) {
                Some(a) => amounts.push(a),
                None => {
                    proof {
                        reveal(damage_grid_spec);
                        assert(grid_amount(values@[i as int]) is None);
                    }
                    return Err(
                        FactError::new(
                            make_field_path(path, field),
                            "must contain five supported positive damage values".to_owned(),
                        ),
                    );
                },
            }
            i = i + 1;
        }
        assert forall|i: int| 0 <= i < 5 implies #[trigger] grid_amount(values@[i]) is Some by {
            assert(grid_amount(values@[i]) == Some(amounts@[i]));
        }
        Ok(Some([amounts[0], amounts[1], amounts[2], amounts[3], amounts[4]]))
    } else {
        Err(
            FactError::new(
                make_field_path(path, field),
                "must contain five supported positive damage values".to_owned(),
            ),
        )
    }
}

/// The element a minion provides: absent, or a supported element name.
#[verifier::opaque]
pub open spec fn provides_spec(ms: Seq<JsonMember>, path: Seq<char>) -> Result<Option<Element>, FactFault> {
    match member_value(ms, "provides"@) {
        None => Ok(None),
        Some(JsonValue::String(s)) if element_named(s@) is Some => Ok(element_named(s@)),
        Some(_) => Err((field_path(path, "provides"@), "must be a supported element"@)),
    }
}

/// Reads the element a minion provides.
fn parse_provides(object: &Vec<JsonMember>, path: &str) -> (r: Result<Option<Element>, FactError>)
    ensures
        fact_outcome(r, provides_spec(object@, path@)),
{
    proof {
        reveal(provides_spec);
    }
    let parsed = match get_member(object, "provides") {
        None => {
            return Ok(None);
        },
        Some(JsonValue::String(s)) => Element::parse(s.as_str()),
        Some(_) => None,
    };
    match parsed {
        Some(e) => Ok(Some(e)),
        None => Err(
            FactError::new(make_field_path(path, "provides"), "must be a supported element".to_owned()),
        ),
    }
}

/// `Some(value)` when `flag` holds, else `None`.
#[verifier::opaque]
pub open spec fn present_if<T>(flag: bool, value: T) -> Option<T> {
    if flag {
        Some(value)
    } else {
        None
    }
}

/// `Some(value)` when `flag` holds, else `None`.
fn present<T>(flag: bool, value: T) -> (r: Option<T>)
    ensures
        r == present_if(flag, value),
{
    proof {
        reveal(present_if);
    }
    if flag {
        Some(value)
    } else {
        None
    }
}

/// The byte an optional bounded amount narrows to, or zero.
#[verifier::opaque]
pub open spec fn amount_of(o: Option<u64>) -> u8 {
    match o {
        Some(v) => v as u8,
        None => 0,
    }
}

/// Narrows an optional bounded amount to a byte, or zero.
fn amount(o: Option<u64>) -> (r: u8)
    ensures
        r == amount_of(o),
{
    proof {
        reveal(amount_of);
    }
    match o {
        Some(v) => v as u8,
        None => 0,
    }
}

/// `present_if` gives equal results for equal flags and, where the flag holds,
/// equal values.
proof fn lemma_present_if_agrees<T>(flag: bool, value: T, other_flag: bool, other_value: T)
    requires
        flag == other_flag,
        flag ==> value == other_value,
    ensures
        present_if(flag, value) == present_if(other_flag, other_value),
{
    reveal(present_if);
}

/// The fields a magic card definition may hold.
pub open spec fn magic_field_names() -> Seq<Seq<char>> {
    seq![
        "burrowAllMinionsAndArtifactsAtTargetLandSite"@,
        "burrowTargetMinionOrArtifact"@,
        "cardType"@,
        "damageChainNearbyUnits"@,
        "damageEachAbovegroundMinion"@,
        "damageEachUnitAtLocationWithinTwoSteps"@,
        "damageRandomUnitAtLocation"@,
        "damageTargetUnit"@,
        "damageUnitsAboveAndBelowTargetSiteByManhattanDistance"@,
        "destroyTargetSite"@,
        "disableTargetNearbyMinionUntilNextTurn"@,
        "discardSiteAsAdditionalCost"@,
        "fightAllyWithAdjacentEnemy"@,
        "gainControlOfTargetNearbyMinion"@,
        "grantChargeToAllyThisTurn"@,
        "grantPowerToAllyThisTurn"@,
        "healController"@,
        "killTargetWoundedMinion"@,
        "leapAttackAlly"@,
        "lureEnemyMinionOneStepCloser"@,
        "manaCost"@,
        "returnMinionFromOwnCemetery"@,
        "submergeTargetMinion"@,
        "summonRandomMinionFromAnyCemetery"@,
        "summonTokenToEachControlledSiteBorderingEnemySite"@,
        "targetNearby"@,
        "teleportAllyToTargetSite"@,
        "teleportNearbyAllyThenDrawCard"@,
        "thresholds"@,
        "untapTargetMinionAfterDamage"@,
    ]
}

/// The fields a magic card definition may hold.
fn magic_fields() -> (r: [&'static str; 30])
    ensures
        names(r@) == magic_field_names(),
{
    let r: [&'static str; 30] = [
        "burrowAllMinionsAndArtifactsAtTargetLandSite",
        "burrowTargetMinionOrArtifact",
        "cardType",
        "damageChainNearbyUnits",
        "damageEachAbovegroundMinion",
        "damageEachUnitAtLocationWithinTwoSteps",
        "damageRandomUnitAtLocation",
        "damageTargetUnit",
        "damageUnitsAboveAndBelowTargetSiteByManhattanDistance",
        "destroyTargetSite",
        "disableTargetNearbyMinionUntilNextTurn",
        "discardSiteAsAdditionalCost",
        "fightAllyWithAdjacentEnemy",
        "gainControlOfTargetNearbyMinion",
        "grantChargeToAllyThisTurn",
        "grantPowerToAllyThisTurn",
        "healController",
        "killTargetWoundedMinion",
        "leapAttackAlly",
        "lureEnemyMinionOneStepCloser",
        "manaCost",
        "returnMinionFromOwnCemetery",
        "submergeTargetMinion",
        "summonRandomMinionFromAnyCemetery",
        "summonTokenToEachControlledSiteBorderingEnemySite",
        "targetNearby",
        "teleportAllyToTargetSite",
        "teleportNearbyAllyThenDrawCard",
        "thresholds",
        "untapTargetMinionAfterDamage",
    ];
    assert(names(r@) =~= magic_field_names());
    r
}

/// The fields a site card definition may hold.
pub open spec fn site_field_names() -> Seq<Seq<char>> {
    seq![
        "airborneMinionsAtopMoveFreelyAway"@,
        "blocksGroundMinionEntryWhileMinionAtop"@,
        "cannotBeMovedDestroyedOrModified"@,
        "cardType"@,
        "connectsBurrowedAllies"@,
        "elements"@,
        "flyToNearbyVoidOncePerTurnAtAirThreshold"@,
        "genesisDiscardTopSpells"@,
        "genesisDrawSpellPerAdjacentSameCard"@,
        "genesisEnemiesLoseStealth"@,
        "genesisGainMana"@,
        "genesisGainManaIfOnlyControlledCopy"@,
        "genesisHealNearbyAvatars"@,
        "genesisImmobilizeNearbyUntilNextTurn"@,
        "genesisMayBottomNextSpell"@,
        "genesisPayOneManaToSummonToken"@,
        "genesisReorderNextSpells"@,
        "isTower"@,
        "minionsHereGainVoidwalkUntilLeavingVoid"@,
        "ordinaryMinionManaDiscount"@,
        "preventsUnitsWithPowerAtLeastFromEntering"@,
        "rangedUnitsHereRangeBonus"@,
        "sacrificeToDestroyNearbySite"@,
    ]
}

/// The fields a site card definition may hold.
fn site_fields() -> (r: [&'static str; 23])
    ensures
        names(r@) == site_field_names(),
{
    let r: [&'static str; 23] = [
        "airborneMinionsAtopMoveFreelyAway",
        "blocksGroundMinionEntryWhileMinionAtop",
        "cannotBeMovedDestroyedOrModified",
        "cardType",
        "connectsBurrowedAllies",
        "elements",
        "flyToNearbyVoidOncePerTurnAtAirThreshold",
        "genesisDiscardTopSpells",
        "genesisDrawSpellPerAdjacentSameCard",
        "genesisEnemiesLoseStealth",
        "genesisGainMana",
        "genesisGainManaIfOnlyControlledCopy",
        "genesisHealNearbyAvatars",
        "genesisImmobilizeNearbyUntilNextTurn",
        "genesisMayBottomNextSpell",
        "genesisPayOneManaToSummonToken",
        "genesisReorderNextSpells",
        "isTower",
        "minionsHereGainVoidwalkUntilLeavingVoid",
        "ordinaryMinionManaDiscount",
        "preventsUnitsWithPowerAtLeastFromEntering",
        "rangedUnitsHereRangeBonus",
        "sacrificeToDestroyNearbySite",
    ];
    assert(names(r@) =~= site_field_names());
    r
}

/// The fields a minion card definition may hold.
pub open spec fn minion_field_names() -> Seq<Seq<char>> {
    seq![
        "airborne"@,
        "atStartOfControllerTurnTeleportToRandomSiteOrVoid"@,
        "attack"@,
        "burrowing"@,
        "cannotAttackSites"@,
        "cannotDefend"@,
        "cannotDefendOrIntercept"@,
        "cardType"@,
        "charge"@,
        "connectsTopBottom"@,
        "deathriteDamageEachUnitHere"@,
        "deathriteDrawSite"@,
        "deathriteHeal"@,
        "deathriteLoseLifePerNearbySiteControlled"@,
        "defense"@,
        "diesAtEndOfControllerTurn"@,
        "discardRandomCardInsteadOfMana"@,
        "discardSpellToDamageRandomOtherUnitHere"@,
        "gainsPowerRangedAndSpellcasterAtopTower"@,
        "gainsStealthAtEndOfTurn"@,
        "gainsStealthAtEndOfTurnIfNoEnemiesNearby"@,
        "genesisDamageEachOtherUnitHere"@,
        "genesisDisableSelfUntilDamaged"@,
        "genesisDrawSite"@,
        "genesisDrawSpells"@,
        "genesisHealController"@,
        "genesisLoseControllerLife"@,
        "genesisMayDamageTargetAdjacentUnit"@,
        "genesisStrikeEachEnemyHere"@,
        "immobile"@,
        "lanceCount"@,
        "lethal"@,
        "manaCost"@,
        "mayRangedStrikeOnceDuringBasicMovement"@,
        "mayStepAfterRangedStrike"@,
        "mortal"@,
        "movementBonus"@,
        "movesOnlyForward"@,
        "movesOnlySideways"@,
        "mustBeCastBurrowed"@,
        "mustBeCastSubmerged"@,
        "mustBeCastToOuterColumn"@,
        "mustBeCastToWaterSite"@,
        "nearbyEnemiesPermanentlyLoseStealth"@,
        "occupiesSquareArea"@,
        "ordinary"@,
        "otherControlledMortalsPowerBonus"@,
        "otherNearbyAlliesPowerBonus"@,
        "preventsDamageFromUnitsWithPowerAtLeast"@,
        "provides"@,
        "ranged"@,
        "sacrificeMinionAtSummoningLocationForManaDiscount"@,
        "shootsDragProjectile"@,
        "siteProvidesNoThreshold"@,
        "spellcaster"@,
        "stealth"@,
        "strikesFirstWhileAttacking"@,
        "submerge"@,
        "summonToAnySite"@,
        "takesLessDamage"@,
        "tapForMana"@,
        "tapToDamageEachUnitAtAdjacentLocation"@,
        "tapToShootProjectileDamage"@,
        "thresholds"@,
        "token"@,
        "untapsAtEndOfControllerTurn"@,
        "voidwalk"@,
        "ward"@,
        "waterbound"@,
    ]
}

/// The fields a minion card definition may hold.
fn minion_fields() -> (r: [&'static str; 69])
    ensures
        names(r@) == minion_field_names(),
{
    let r: [&'static str; 69] = [
        "airborne",
        "atStartOfControllerTurnTeleportToRandomSiteOrVoid",
        "attack",
        "burrowing",
        "cannotAttackSites",
        "cannotDefend",
        "cannotDefendOrIntercept",
        "cardType",
        "charge",
        "connectsTopBottom",
        "deathriteDamageEachUnitHere",
        "deathriteDrawSite",
        "deathriteHeal",
        "deathriteLoseLifePerNearbySiteControlled",
        "defense",
        "diesAtEndOfControllerTurn",
        "discardRandomCardInsteadOfMana",
        "discardSpellToDamageRandomOtherUnitHere",
        "gainsPowerRangedAndSpellcasterAtopTower",
        "gainsStealthAtEndOfTurn",
        "gainsStealthAtEndOfTurnIfNoEnemiesNearby",
        "genesisDamageEachOtherUnitHere",
        "genesisDisableSelfUntilDamaged",
        "genesisDrawSite",
        "genesisDrawSpells",
        "genesisHealController",
        "genesisLoseControllerLife",
        "genesisMayDamageTargetAdjacentUnit",
        "genesisStrikeEachEnemyHere",
        "immobile",
        "lanceCount",
        "lethal",
        "manaCost",
        "mayRangedStrikeOnceDuringBasicMovement",
        "mayStepAfterRangedStrike",
        "mortal",
        "movementBonus",
        "movesOnlyForward",
        "movesOnlySideways",
        "mustBeCastBurrowed",
        "mustBeCastSubmerged",
        "mustBeCastToOuterColumn",
        "mustBeCastToWaterSite",
        "nearbyEnemiesPermanentlyLoseStealth",
        "occupiesSquareArea",
        "ordinary",
        "otherControlledMortalsPowerBonus",
        "otherNearbyAlliesPowerBonus",
        "preventsDamageFromUnitsWithPowerAtLeast",
        "provides",
        "ranged",
        "sacrificeMinionAtSummoningLocationForManaDiscount",
        "shootsDragProjectile",
        "siteProvidesNoThreshold",
        "spellcaster",
        "stealth",
        "strikesFirstWhileAttacking",
        "submerge",
        "summonToAnySite",
        "takesLessDamage",
        "tapForMana",
        "tapToDamageEachUnitAtAdjacentLocation",
        "tapToShootProjectileDamage",
        "thresholds",
        "token",
        "untapsAtEndOfControllerTurn",
        "voidwalk",
        "ward",
        "waterbound",
    ];
    assert(names(r@) =~= minion_field_names());
    r
}

/// The first fault among the first ten Magic effect fields.
#[verifier::opaque]
pub open spec fn magic_targeting_effects_fault(ms: Seq<JsonMember>, path: Seq<char>) -> Option<FactFault> {
    match true_only_spec(ms, "burrowAllMinionsAndArtifactsAtTargetLandSite"@, path) {
        Err(fault) => Some(fault),
        Ok(burrow_all) => {
    match true_only_spec(ms, "burrowTargetMinionOrArtifact"@, path) {
        Err(fault) => Some(fault),
        Ok(burrow_target) => {
    match true_only_spec(ms, "damageChainNearbyUnits"@, path) {
        Err(fault) => Some(fault),
        Ok(damage_chain) => {
    match fixed_integer_spec(ms, "damageEachAbovegroundMinion"@, 1, path) {
        Err(fault) => Some(fault),
        Ok(damage_each_aboveground) => {
    match optional_integer_spec(ms, "damageEachUnitAtLocationWithinTwoSteps"@, 1, MAX_COMBAT_STAT as nat, path) {
        Err(fault) => Some(fault),
        Ok(damage_each_within_two) => {
    match optional_integer_spec(ms, "damageRandomUnitAtLocation"@, 1, MAX_COMBAT_STAT as nat, path) {
        Err(fault) => Some(fault),
        Ok(damage_random_unit) => {
    match true_only_spec(ms, "disableTargetNearbyMinionUntilNextTurn"@, path) {
        Err(fault) => Some(fault),
        Ok(disable_target) => {
    match true_only_spec(ms, "fightAllyWithAdjacentEnemy"@, path) {
        Err(fault) => Some(fault),
        Ok(fight_ally) => {
    match true_only_spec(ms, "gainControlOfTargetNearbyMinion"@, path) {
        Err(fault) => Some(fault),
        Ok(gain_control) => {
    match true_only_spec(ms, "grantChargeToAllyThisTurn"@, path) {
        Err(fault) => Some(fault),
        Ok(grant_charge) => {
    None
    },
    }
    },
    }
    },
    }
    },
    }
    },
    }
    },
    }
    },
    }
    },
    }
    },
    }
    },
    }
}

/// The values of the first ten Magic effect fields without faults.
#[verifier::opaque]
pub open spec fn magic_targeting_effects_value(ms: Seq<JsonMember>, path: Seq<char>) -> (bool, bool, bool, bool, Option<u64>, Option<u64>, bool, bool, bool, bool) {
    let burrow_all = true_only_spec(ms, "burrowAllMinionsAndArtifactsAtTargetLandSite"@, path)->Ok_0;
    let burrow_target = true_only_spec(ms, "burrowTargetMinionOrArtifact"@, path)->Ok_0;
    let damage_chain = true_only_spec(ms, "damageChainNearbyUnits"@, path)->Ok_0;
    let damage_each_aboveground = fixed_integer_spec(ms, "damageEachAbovegroundMinion"@, 1, path)->Ok_0;
    let damage_each_within_two = optional_integer_spec(ms, "damageEachUnitAtLocationWithinTwoSteps"@, 1, MAX_COMBAT_STAT as nat, path)->Ok_0;
    let damage_random_unit = optional_integer_spec(ms, "damageRandomUnitAtLocation"@, 1, MAX_COMBAT_STAT as nat, path)->Ok_0;
    let disable_target = true_only_spec(ms, "disableTargetNearbyMinionUntilNextTurn"@, path)->Ok_0;
    let fight_ally = true_only_spec(ms, "fightAllyWithAdjacentEnemy"@, path)->Ok_0;
    let gain_control = true_only_spec(ms, "gainControlOfTargetNearbyMinion"@, path)->Ok_0;
    let grant_charge = true_only_spec(ms, "grantChargeToAllyThisTurn"@, path)->Ok_0;
    (burrow_all, burrow_target, damage_chain, damage_each_aboveground, damage_each_within_two, damage_random_unit, disable_target, fight_ally, gain_control, grant_charge)
}

/// Reads the first ten Magic effect fields.
fn parse_magic_targeting_effects(object: &Vec<JsonMember>, path: &str) -> (r: Result<(bool, bool, bool, bool, Option<u64>, Option<u64>, bool, bool, bool, bool), FactError>)
    ensures
        r is Ok <==> magic_targeting_effects_fault(object@, path@) is None,
        r matches Err(e) ==> magic_targeting_effects_fault(object@, path@) == Some(e@),
        r matches Ok(v) ==> v == magic_targeting_effects_value(object@, path@),
{
    proof {
        reveal(magic_targeting_effects_fault);
    }
    let burrow_all = match true_only(object, "burrowAllMinionsAndArtifactsAtTargetLandSite", path) {
        Ok(v) => v,
        Err(e) => {
            return Err(e);
        },
    };
    let burrow_target = match true_only(object, "burrowTargetMinionOrArtifact", path) {
        Ok(v) => v,
        Err(e) => {
            return Err(e);
        },
    };
    let damage_chain = match true_only(object, "damageChainNearbyUnits", path) {
        Ok(v) => v,
        Err(e) => {
            return Err(e);
        },
    };
    let damage_each_aboveground = match fixed_integer(object, "damageEachAbovegroundMinion", 1, path) {
        Ok(v) => v,
        Err(e) => {
            return Err(e);
        },
    };
    let damage_each_within_two = match optional_bounded_integer(object, "damageEachUnitAtLocationWithinTwoSteps", 1, MAX_COMBAT_STAT, path) {
        Ok(v) => v,
        Err(e) => {
            return Err(e);
        },
    };
    let damage_random_unit = match optional_bounded_integer(object, "damageRandomUnitAtLocation", 1, MAX_COMBAT_STAT, path) {
        Ok(v) => v,
        Err(e) => {
            return Err(e);
        },
    };
    let disable_target = match true_only(object, "disableTargetNearbyMinionUntilNextTurn", path) {
        Ok(v) => v,
        Err(e) => {
            return Err(e);
        },
    };
    let fight_ally = match true_only(object, "fightAllyWithAdjacentEnemy", path) {
        Ok(v) => v,
        Err(e) => {
            return Err(e);
        },
    };
    let gain_control = match true_only(object, "gainControlOfTargetNearbyMinion", path) {
        Ok(v) => v,
        Err(e) => {
            return Err(e);
        },
    };
    let grant_charge = match true_only(object, "grantChargeToAllyThisTurn", path) {
        Ok(v) => v,
        Err(e) => {
            return Err(e);
        },
    };
    proof {
        reveal(magic_targeting_effects_value);
    }
    Ok((burrow_all, burrow_target, damage_chain, damage_each_aboveground, damage_each_within_two, damage_random_unit, disable_target, fight_ally, gain_control, grant_charge))
}

/// The first fault among the remaining Magic effect fields.
#[verifier::opaque]
pub open spec fn magic_support_effects_fault(ms: Seq<JsonMember>, path: Seq<char>) -> Option<FactFault> {
    match fixed_integer_spec(ms, "grantPowerToAllyThisTurn"@, 2, path) {
        Err(fault) => Some(fault),
        Ok(grant_power) => {
    match optional_integer_spec(ms, "healController"@, 1, MAX_COMBAT_STAT as nat, path) {
        Err(fault) => Some(fault),
        Ok(heal_controller) => {
    match true_only_spec(ms, "killTargetWoundedMinion"@, path) {
        Err(fault) => Some(fault),
        Ok(kill_wounded) => {
    match true_only_spec(ms, "leapAttackAlly"@, path) {
        Err(fault) => Some(fault),
        Ok(leap_attack) => {
    match true_only_spec(ms, "lureEnemyMinionOneStepCloser"@, path) {
        Err(fault) => Some(fault),
        Ok(lure_enemy) => {
    match true_only_spec(ms, "returnMinionFromOwnCemetery"@, path) {
        Err(fault) => Some(fault),
        Ok(return_minion) => {
    match true_only_spec(ms, "submergeTargetMinion"@, path) {
        Err(fault) => Some(fault),
        Ok(submerge_target) => {
    match true_only_spec(ms, "summonRandomMinionFromAnyCemetery"@, path) {
        Err(fault) => Some(fault),
        Ok(summon_random) => {
    match true_only_spec(ms, "teleportAllyToTargetSite"@, path) {
        Err(fault) => Some(fault),
        Ok(teleport_ally) => {
    match true_only_spec(ms, "teleportNearbyAllyThenDrawCard"@, path) {
        Err(fault) => Some(fault),
        Ok(teleport_nearby) => {
    None
    },
    }
    },
    }
    },
    }
    },
    }
    },
    }
    },
    }
    },
    }
    },
    }
    },
    }
    },
    }
}

/// The values of the remaining Magic effect fields without faults.
#[verifier::opaque]
pub open spec fn magic_support_effects_value(ms: Seq<JsonMember>, path: Seq<char>) -> (bool, Option<u64>, bool, bool, bool, bool, bool, bool, bool, bool) {
    let grant_power = fixed_integer_spec(ms, "grantPowerToAllyThisTurn"@, 2, path)->Ok_0;
    let heal_controller = optional_integer_spec(ms, "healController"@, 1, MAX_COMBAT_STAT as nat, path)->Ok_0;
    let kill_wounded = true_only_spec(ms, "killTargetWoundedMinion"@, path)->Ok_0;
    let leap_attack = true_only_spec(ms, "leapAttackAlly"@, path)->Ok_0;
    let lure_enemy = true_only_spec(ms, "lureEnemyMinionOneStepCloser"@, path)->Ok_0;
    let return_minion = true_only_spec(ms, "returnMinionFromOwnCemetery"@, path)->Ok_0;
    let submerge_target = true_only_spec(ms, "submergeTargetMinion"@, path)->Ok_0;
    let summon_random = true_only_spec(ms, "summonRandomMinionFromAnyCemetery"@, path)->Ok_0;
    let teleport_ally = true_only_spec(ms, "teleportAllyToTargetSite"@, path)->Ok_0;
    let teleport_nearby = true_only_spec(ms, "teleportNearbyAllyThenDrawCard"@, path)->Ok_0;
    (grant_power, heal_controller, kill_wounded, leap_attack, lure_enemy, return_minion, submerge_target, summon_random, teleport_ally, teleport_nearby)
}

/// Reads the remaining Magic effect fields.
fn parse_magic_support_effects(object: &Vec<JsonMember>, path: &str) -> (r: Result<(bool, Option<u64>, bool, bool, bool, bool, bool, bool, bool, bool), FactError>)
    ensures
        r is Ok <==> magic_support_effects_fault(object@, path@) is None,
        r matches Err(e) ==> magic_support_effects_fault(object@, path@) == Some(e@),
        r matches Ok(v) ==> v == magic_support_effects_value(object@, path@),
{
    proof {
        reveal(magic_support_effects_fault);
    }
    let grant_power = match fixed_integer(object, "grantPowerToAllyThisTurn", 2, path) {
        Ok(v) => v,
        Err(e) => {
            return Err(e);
        },
    };
    let heal_controller = match optional_bounded_integer(object, "healController", 1, MAX_COMBAT_STAT, path) {
        Ok(v) => v,
        Err(e) => {
            return Err(e);
        },
    };
    let kill_wounded = match true_only(object, "killTargetWoundedMinion", path) {
        Ok(v) => v,
        Err(e) => {
            return Err(e);
        },
    };
    let leap_attack = match true_only(object, "leapAttackAlly", path) {
        Ok(v) => v,
        Err(e) => {
            return Err(e);
        },
    };
    let lure_enemy = match true_only(object, "lureEnemyMinionOneStepCloser", path) {
        Ok(v) => v,
        Err(e) => {
            return Err(e);
        },
    };
    let return_minion = match true_only(object, "returnMinionFromOwnCemetery", path) {
        Ok(v) => v,
        Err(e) => {
            return Err(e);
        },
    };
    let submerge_target = match true_only(object, "submergeTargetMinion", path) {
        Ok(v) => v,
        Err(e) => {
            return Err(e);
        },
    };
    let summon_random = match true_only(object, "summonRandomMinionFromAnyCemetery", path) {
        Ok(v) => v,
        Err(e) => {
            return Err(e);
        },
    };
    let teleport_ally = match true_only(object, "teleportAllyToTargetSite", path) {
        Ok(v) => v,
        Err(e) => {
            return Err(e);
        },
    };
    let teleport_nearby = match true_only(object, "teleportNearbyAllyThenDrawCard", path) {
        Ok(v) => v,
        Err(e) => {
            return Err(e);
        },
    };
    proof {
        reveal(magic_support_effects_value);
    }
    Ok((grant_power, heal_controller, kill_wounded, leap_attack, lure_enemy, return_minion, submerge_target, summon_random, teleport_ally, teleport_nearby))
}

/// The Magic effects that the effect fields define, in canonical order; each is present only where its field is set.
#[verifier::opaque]
pub open spec fn magic_effect_flags(burrow_all: bool, burrow_target: bool, damage_chain: bool, damage_each_aboveground: bool, damage_each_within_two: Option<u64>, damage_random_unit: Option<u64>, disable_target: bool, fight_ally: bool, gain_control: bool, grant_charge: bool, grant_power: bool, heal_controller: Option<u64>, kill_wounded: bool, leap_attack: bool, lure_enemy: bool, return_minion: bool, submerge_target: bool, summon_random: bool, teleport_ally: bool, teleport_nearby: bool, damage_target: Option<u64>, target_nearby: bool, untap_target_minion_after_damage: bool, damage_grid: Option<[u8; 5]>, token_reference: Option<String>) -> Seq<Option<MagicEffect>> {
    seq![
        present_if(burrow_all, MagicEffect::BurrowAllMinionsAndArtifactsAtTargetLandSite),
        present_if(burrow_target, MagicEffect::BurrowTargetMinionOrArtifact),
        present_if(damage_chain, MagicEffect::DamageChainNearbyUnits),
        present_if(damage_each_aboveground, MagicEffect::DamageEachAbovegroundMinionOne),
        present_if(damage_each_within_two.is_some(), MagicEffect::DamageEachUnitAtLocationWithinTwoSteps(amount_of(damage_each_within_two))),
        present_if(damage_random_unit.is_some(), MagicEffect::DamageRandomUnitAtLocation(amount_of(damage_random_unit))),
        present_if(damage_target.is_some(), MagicEffect::DamageTargetUnit { amount: amount_of(damage_target), target_nearby, untap_target_minion_after_damage }),
        present_if(damage_grid is Some, MagicEffect::DestroyTargetSiteWithDamageGrid(damage_grid->0)),
        present_if(disable_target, MagicEffect::DisableTargetNearbyMinionUntilNextTurn),
        present_if(fight_ally, MagicEffect::FightAllyWithAdjacentEnemy),
        present_if(gain_control, MagicEffect::GainControlOfTargetNearbyMinion),
        present_if(grant_charge, MagicEffect::GrantChargeToAllyThisTurn),
        present_if(grant_power, MagicEffect::GrantPowerTwoToAllyThisTurn),
        present_if(heal_controller.is_some(), MagicEffect::HealController(amount_of(heal_controller))),
        present_if(kill_wounded, MagicEffect::KillTargetWoundedMinion),
        present_if(leap_attack, MagicEffect::LeapAttackAlly),
        present_if(lure_enemy, MagicEffect::LureEnemyMinionOneStepCloser),
        present_if(return_minion, MagicEffect::ReturnMinionFromOwnCemetery),
        present_if(submerge_target, MagicEffect::SubmergeTargetMinion),
        present_if(summon_random, MagicEffect::SummonRandomMinionFromAnyCemetery),
        present_if(token_reference is Some, MagicEffect::SummonTokenToEachControlledSiteBorderingEnemySite(token_reference->0)),
        present_if(teleport_ally, MagicEffect::TeleportAllyToTargetSite),
        present_if(teleport_nearby, MagicEffect::TeleportNearbyAllyThenDrawCard),
    ]
}

/// The Magic effects that the effect fields define, in canonical order; each is present only where its field is set.
fn magic_effect_flag_list(burrow_all: bool, burrow_target: bool, damage_chain: bool, damage_each_aboveground: bool, damage_each_within_two: Option<u64>, damage_random_unit: Option<u64>, disable_target: bool, fight_ally: bool, gain_control: bool, grant_charge: bool, grant_power: bool, heal_controller: Option<u64>, kill_wounded: bool, leap_attack: bool, lure_enemy: bool, return_minion: bool, submerge_target: bool, summon_random: bool, teleport_ally: bool, teleport_nearby: bool, damage_target: Option<u64>, target_nearby: bool, untap_target_minion_after_damage: bool, damage_grid: Option<[u8; 5]>, token_reference: Option<String>) -> (r: Vec<Option<MagicEffect>>)
    ensures
        r@ == magic_effect_flags(burrow_all, burrow_target, damage_chain, damage_each_aboveground, damage_each_within_two, damage_random_unit, disable_target, fight_ally, gain_control, grant_charge, grant_power, heal_controller, kill_wounded, leap_attack, lure_enemy, return_minion, submerge_target, summon_random, teleport_ally, teleport_nearby, damage_target, target_nearby, untap_target_minion_after_damage, damage_grid, token_reference),
{
    proof {
        reveal(magic_effect_flags);
    }
    let candidate_1 = present(burrow_all, MagicEffect::BurrowAllMinionsAndArtifactsAtTargetLandSite);
    let candidate_2 = present(burrow_target, MagicEffect::BurrowTargetMinionOrArtifact);
    let candidate_3 = present(damage_chain, MagicEffect::DamageChainNearbyUnits);
    let candidate_4 = present(damage_each_aboveground, MagicEffect::DamageEachAbovegroundMinionOne);
    let candidate_5 = present(damage_each_within_two.is_some(), MagicEffect::DamageEachUnitAtLocationWithinTwoSteps(amount(damage_each_within_two)));
    let candidate_6 = present(damage_random_unit.is_some(), MagicEffect::DamageRandomUnitAtLocation(amount(damage_random_unit)));
    let candidate_7 = present(damage_target.is_some(), MagicEffect::DamageTargetUnit { amount: amount(damage_target), target_nearby, untap_target_minion_after_damage });
    let has_grid = damage_grid.is_some();
    let grid = damage_grid.unwrap_or([0u8; 5]);
    let candidate_8 = present(has_grid, MagicEffect::DestroyTargetSiteWithDamageGrid(grid));
    proof {
        lemma_present_if_agrees(has_grid, MagicEffect::DestroyTargetSiteWithDamageGrid(grid), damage_grid is Some, MagicEffect::DestroyTargetSiteWithDamageGrid(damage_grid->0));
    }
    let candidate_9 = present(disable_target, MagicEffect::DisableTargetNearbyMinionUntilNextTurn);
    let candidate_10 = present(fight_ally, MagicEffect::FightAllyWithAdjacentEnemy);
    let candidate_11 = present(gain_control, MagicEffect::GainControlOfTargetNearbyMinion);
    let candidate_12 = present(grant_charge, MagicEffect::GrantChargeToAllyThisTurn);
    let candidate_13 = present(grant_power, MagicEffect::GrantPowerTwoToAllyThisTurn);
    let candidate_14 = present(heal_controller.is_some(), MagicEffect::HealController(amount(heal_controller)));
    let candidate_15 = present(kill_wounded, MagicEffect::KillTargetWoundedMinion);
    let candidate_16 = present(leap_attack, MagicEffect::LeapAttackAlly);
    let candidate_17 = present(lure_enemy, MagicEffect::LureEnemyMinionOneStepCloser);
    let candidate_18 = present(return_minion, MagicEffect::ReturnMinionFromOwnCemetery);
    let candidate_19 = present(submerge_target, MagicEffect::SubmergeTargetMinion);
    let candidate_20 = present(summon_random, MagicEffect::SummonRandomMinionFromAnyCemetery);
    let candidate_21 = match token_reference { Some(t) => Some(MagicEffect::SummonTokenToEachControlledSiteBorderingEnemySite(t)), None => None };
    assert(candidate_21 == present_if(token_reference is Some, MagicEffect::SummonTokenToEachControlledSiteBorderingEnemySite(token_reference->0))) by {
        reveal(present_if);
    }
    let candidate_22 = present(teleport_ally, MagicEffect::TeleportAllyToTargetSite);
    let candidate_23 = present(teleport_nearby, MagicEffect::TeleportNearbyAllyThenDrawCard);
    vec![candidate_1, candidate_2, candidate_3, candidate_4, candidate_5, candidate_6, candidate_7, candidate_8, candidate_9, candidate_10, candidate_11, candidate_12, candidate_13, candidate_14, candidate_15, candidate_16, candidate_17, candidate_18, candidate_19, candidate_20, candidate_21, candidate_22, candidate_23]
}

/// The Magic effects that the effect fields define, in canonical order; each is present only where its field is set.
#[verifier::opaque]
pub open spec fn magic_effect_candidates(first_group: (bool, bool, bool, bool, Option<u64>, Option<u64>, bool, bool, bool, bool), second_group: (bool, Option<u64>, bool, bool, bool, bool, bool, bool, bool, bool), damage_target: Option<u64>, target_nearby: bool, untap_target_minion_after_damage: bool, damage_grid: Option<[u8; 5]>, token_reference: Option<String>) -> Seq<Option<MagicEffect>> {
    magic_effect_flags(first_group.0, first_group.1, first_group.2, first_group.3, first_group.4, first_group.5, first_group.6, first_group.7, first_group.8, first_group.9, second_group.0, second_group.1, second_group.2, second_group.3, second_group.4, second_group.5, second_group.6, second_group.7, second_group.8, second_group.9, damage_target, target_nearby, untap_target_minion_after_damage, damage_grid, token_reference)
}

/// The Magic effects that the effect fields define, in canonical order; each is present only where its field is set.
fn magic_effect_candidates_list(first_group: (bool, bool, bool, bool, Option<u64>, Option<u64>, bool, bool, bool, bool), second_group: (bool, Option<u64>, bool, bool, bool, bool, bool, bool, bool, bool), damage_target: Option<u64>, target_nearby: bool, untap_target_minion_after_damage: bool, damage_grid: Option<[u8; 5]>, token_reference: Option<String>) -> (r: Vec<Option<MagicEffect>>)
    ensures
        r@ == magic_effect_candidates(first_group, second_group, damage_target, target_nearby, untap_target_minion_after_damage, damage_grid, token_reference),
{
    proof {
        reveal(magic_effect_candidates);
    }
    let (burrow_all, burrow_target, damage_chain, damage_each_aboveground, damage_each_within_two, damage_random_unit, disable_target, fight_ally, gain_control, grant_charge) = first_group;
    let (grant_power, heal_controller, kill_wounded, leap_attack, lure_enemy, return_minion, submerge_target, summon_random, teleport_ally, teleport_nearby) = second_group;
    magic_effect_flag_list(burrow_all, burrow_target, damage_chain, damage_each_aboveground, damage_each_within_two, damage_random_unit, disable_target, fight_ally, gain_control, grant_charge, grant_power, heal_controller, kill_wounded, leap_attack, lure_enemy, return_minion, submerge_target, summon_random, teleport_ally, teleport_nearby, damage_target, target_nearby, untap_target_minion_after_damage, damage_grid, token_reference)
}

/// The first fault among the effect fields of a Magic definition, given the fields read before them.
#[verifier::opaque]
pub open spec fn magic_effect_fault(ms: Seq<JsonMember>, path: Seq<char>, target_nearby: bool, untap_target_minion_after_damage: bool, damage_target: Option<u64>, damage_grid: Option<[u8; 5]>, token_reference: Option<String>) -> Option<FactFault> {
    if magic_targeting_effects_fault(ms, path) is Some {
        Some(magic_targeting_effects_fault(ms, path)->0)
    } else {
        let first_group = magic_targeting_effects_value(ms, path);
    if magic_support_effects_fault(ms, path) is Some {
        Some(magic_support_effects_fault(ms, path)->0)
    } else {
        let second_group = magic_support_effects_value(ms, path);
    let candidates = magic_effect_candidates(first_group, second_group, damage_target, target_nearby, untap_target_minion_after_damage, damage_grid, token_reference);
    match one_effect_spec(candidates, path) {
        Err(fault) => Some(fault),
        Ok(effect) => {
    None
    },
    }
    }
    }
}

/// The single effect of a Magic definition without faults.
#[verifier::opaque]
pub open spec fn magic_effect_value(ms: Seq<JsonMember>, path: Seq<char>, target_nearby: bool, untap_target_minion_after_damage: bool, damage_target: Option<u64>, damage_grid: Option<[u8; 5]>, token_reference: Option<String>) -> MagicEffect {
    let first_group = magic_targeting_effects_value(ms, path);
    let second_group = magic_support_effects_value(ms, path);
    let candidates = magic_effect_candidates(first_group, second_group, damage_target, target_nearby, untap_target_minion_after_damage, damage_grid, token_reference);
    let effect = one_effect_spec(candidates, path)->Ok_0;
    effect
}

/// Parses the single effect of a Magic definition.
fn parse_magic_effect(object: &Vec<JsonMember>, path: &str, target_nearby: bool, untap_target_minion_after_damage: bool, damage_target: Option<u64>, damage_grid: Option<[u8; 5]>, token_reference: Option<String>) -> (r: Result<MagicEffect, FactError>)
    ensures
        r is Ok <==> magic_effect_fault(object@, path@, target_nearby, untap_target_minion_after_damage, damage_target, damage_grid, token_reference) is None,
        r matches Err(e) ==> magic_effect_fault(object@, path@, target_nearby, untap_target_minion_after_damage, damage_target, damage_grid, token_reference) == Some(e@),
        r matches Ok(v) ==> v == magic_effect_value(object@, path@, target_nearby, untap_target_minion_after_damage, damage_target, damage_grid, token_reference),
{
    proof {
        reveal(magic_effect_fault);
    }
    let first_group = match parse_magic_targeting_effects(object, path) {
        Ok(v) => v,
        Err(e) => {
            return Err(e);
        },
    };
    let second_group = match parse_magic_support_effects(object, path) {
        Ok(v) => v,
        Err(e) => {
            return Err(e);
        },
    };
    let candidates = magic_effect_candidates_list(first_group, second_group, damage_target, target_nearby, untap_target_minion_after_damage, damage_grid, token_reference);
    let effect = match one_effect(candidates, path) {
        Ok(v) => v,
        Err(e) => {
            return Err(e);
        },
    };
    proof {
        reveal(magic_effect_value);
    }
    Ok(effect)
}

/// The first fault of a Magic definition, in the order the fields are read.
pub open spec fn magic_fault(ms: Seq<JsonMember>, path: Seq<char>) -> Option<FactFault> {
    let unknown = unknown_fault(ms, magic_field_names(), path);
    let target_nearby_read = optional_bool_spec(ms, "targetNearby"@, path);
    let target_nearby = target_nearby_read->Ok_0;
    let untap_target_minion_after_damage_read = true_only_spec(ms, "untapTargetMinionAfterDamage"@, path);
    let untap_target_minion_after_damage = untap_target_minion_after_damage_read->Ok_0;
    let damage_target_read = optional_integer_spec(ms, "damageTargetUnit"@, 1, MAX_COMBAT_STAT as nat, path);
    let damage_target = damage_target_read->Ok_0;
    let discard_site_read = true_only_spec(ms, "discardSiteAsAdditionalCost"@, path);
    let discard_site = discard_site_read->Ok_0;
    let destroy_site_read = true_only_spec(ms, "destroyTargetSite"@, path);
    let destroy_site = destroy_site_read->Ok_0;
    let damage_grid_read = damage_grid_spec(ms, path);
    let damage_grid = damage_grid_read->Ok_0;
    let site_fact_count = (if discard_site { 1u8 } else { 0u8 }) + (if destroy_site { 1u8 } else { 0u8 }) + (if damage_grid is Some { 1u8 } else { 0u8 });
    let token_reference_read = reference_spec(ms, "summonTokenToEachControlledSiteBorderingEnemySite"@, path);
    let token_reference = token_reference_read->Ok_0;
    let effect_fault = magic_effect_fault(ms, path, target_nearby, untap_target_minion_after_damage, damage_target, damage_grid, token_reference);
    let effect = magic_effect_value(ms, path, target_nearby, untap_target_minion_after_damage, damage_target, damage_grid, token_reference);
    let mana_cost_read = required_integer_spec(ms, "manaCost"@, MAX_SAFE_INTEGER as nat, path);
    let mana_cost = mana_cost_read->Ok_0;
    let thresholds_read = thresholds_spec(ms, path);
    let thresholds = thresholds_read->Ok_0;
    if unknown is Some {
        Some(unknown->0)
    } else if target_nearby_read is Err {
        Some(target_nearby_read->Err_0)
    } else if untap_target_minion_after_damage_read is Err {
        Some(untap_target_minion_after_damage_read->Err_0)
    } else if damage_target_read is Err {
        Some(damage_target_read->Err_0)
    } else if member_value(ms, "targetNearby"@) is Some && damage_target is None {
        Some((field_path(path, "targetNearby"@), "requires damageTargetUnit"@))
    } else if untap_target_minion_after_damage && damage_target is None {
        Some((field_path(path, "untapTargetMinionAfterDamage"@), "requires damageTargetUnit"@))
    } else if discard_site_read is Err {
        Some(discard_site_read->Err_0)
    } else if destroy_site_read is Err {
        Some(destroy_site_read->Err_0)
    } else if damage_grid_read is Err {
        Some(damage_grid_read->Err_0)
    } else if site_fact_count != 0 && site_fact_count != 3 {
        Some((path, "site-destruction grid damage facts must be defined together"@))
    } else if token_reference_read is Err {
        Some(token_reference_read->Err_0)
    } else if effect_fault is Some {
        Some(effect_fault->0)
    } else if mana_cost_read is Err {
        Some(mana_cost_read->Err_0)
    } else if thresholds_read is Err {
        Some(thresholds_read->Err_0)
    } else {
        None
    }
}

/// The Magic facts that a definition without faults reads to.
pub open spec fn magic_read(f: MagicFacts, ms: Seq<JsonMember>, path: Seq<char>) -> bool {
    let target_nearby = optional_bool_spec(ms, "targetNearby"@, path)->Ok_0;
    let untap_target_minion_after_damage = true_only_spec(ms, "untapTargetMinionAfterDamage"@, path)->Ok_0;
    let damage_target = optional_integer_spec(ms, "damageTargetUnit"@, 1, MAX_COMBAT_STAT as nat, path)->Ok_0;
    let discard_site = true_only_spec(ms, "discardSiteAsAdditionalCost"@, path)->Ok_0;
    let destroy_site = true_only_spec(ms, "destroyTargetSite"@, path)->Ok_0;
    let damage_grid = damage_grid_spec(ms, path)->Ok_0;
    let site_fact_count = (if discard_site { 1u8 } else { 0u8 }) + (if destroy_site { 1u8 } else { 0u8 }) + (if damage_grid is Some { 1u8 } else { 0u8 });
    let token_reference = reference_spec(ms, "summonTokenToEachControlledSiteBorderingEnemySite"@, path)->Ok_0;
    let effect = magic_effect_value(ms, path, target_nearby, untap_target_minion_after_damage, damage_target, damage_grid, token_reference);
    let mana_cost = required_integer_spec(ms, "manaCost"@, MAX_SAFE_INTEGER as nat, path)->Ok_0;
    let thresholds = thresholds_spec(ms, path)->Ok_0;
    &&& f.effect == effect
    &&& f.mana_cost == mana_cost
    &&& f.thresholds@ == thresholds
}

/// Parses a Magic definition.
fn parse_magic(object: &Vec<JsonMember>, path: &str) -> (r: Result<MagicFacts, FactError>)
    ensures
        r is Ok <==> magic_fault(object@, path@) is None,
        r matches Err(e) ==> magic_fault(object@, path@) == Some(e@),
        r matches Ok(f) ==> magic_read(f, object@, path@),
{
    let allowed = magic_fields();
    match reject_unknown(object, &allowed, path) {
        Ok(()) => {},
        Err(e) => {
            return Err(e);
        },
    }
    let target_nearby = match optional_bool(object, "targetNearby", path) {
        Ok(v) => v,
        Err(e) => {
            return Err(e);
        },
    };
    let untap_target_minion_after_damage = match true_only(object, "untapTargetMinionAfterDamage", path) {
        Ok(v) => v,
        Err(e) => {
            return Err(e);
        },
    };
    let damage_target = match optional_bounded_integer(object, "damageTargetUnit", 1, MAX_COMBAT_STAT, path) {
        Ok(v) => v,
        Err(e) => {
            return Err(e);
        },
    };
    if find_member(object, "targetNearby").is_some() && damage_target.is_none() {
        return Err(FactError::new(make_field_path(path, "targetNearby"), "requires damageTargetUnit".to_owned()));
    }
    if untap_target_minion_after_damage && damage_target.is_none() {
        return Err(FactError::new(make_field_path(path, "untapTargetMinionAfterDamage"), "requires damageTargetUnit".to_owned()));
    }
    let discard_site = match true_only(object, "discardSiteAsAdditionalCost", path) {
        Ok(v) => v,
        Err(e) => {
            return Err(e);
        },
    };
    let destroy_site = match true_only(object, "destroyTargetSite", path) {
        Ok(v) => v,
        Err(e) => {
            return Err(e);
        },
    };
    let damage_grid = match parse_damage_grid(object, path) {
        Ok(v) => v,
        Err(e) => {
            return Err(e);
        },
    };
    let site_fact_count = (if discard_site { 1u8 } else { 0u8 }) + (if destroy_site { 1u8 } else { 0u8 }) + (if damage_grid.is_some() { 1u8 } else { 0u8 });
    if site_fact_count != 0 && site_fact_count != 3 {
        return Err(FactError::new(path.to_owned(), "site-destruction grid damage facts must be defined together".to_owned()));
    }
    let token_reference = match parse_reference(object, "summonTokenToEachControlledSiteBorderingEnemySite", path) {
        Ok(v) => v,
        Err(e) => {
            return Err(e);
        },
    };
    let effect = match parse_magic_effect(object, path, target_nearby, untap_target_minion_after_damage, damage_target, damage_grid, token_reference) {
        Ok(v) => v,
        Err(e) => {
            return Err(e);
        },
    };
    let mana_cost = match required_nonnegative_integer(object, "manaCost", MAX_SAFE_INTEGER, path) {
        Ok(v) => v,
        Err(e) => {
            return Err(e);
        },
    };
    let thresholds = match parse_thresholds(object, path) {
        Ok(v) => v,
        Err(e) => {
            return Err(e);
        },
    };
    Ok(MagicFacts {
        effect,
        mana_cost,
        thresholds,
    })
}

/// The first fault of a Site definition, in the order the fields and combinations are checked.
pub open spec fn site_fault(ms: Seq<JsonMember>, path: Seq<char>) -> Option<FactFault> {
    let unknown = unknown_fault(ms, site_field_names(), path);
    let genesis_gain_mana_read = optional_integer_spec(ms, "genesisGainMana"@, 1, MAX_COMBAT_STAT as nat, path);
    let genesis_gain_mana = genesis_gain_mana_read->Ok_0;
    let genesis_gain_mana_if_only_controlled_copy_read = fixed_integer_spec(ms, "genesisGainManaIfOnlyControlledCopy"@, 1, path);
    let genesis_gain_mana_if_only_controlled_copy = genesis_gain_mana_if_only_controlled_copy_read->Ok_0;
    let genesis_discard_top_spells_read = fixed_integer_spec(ms, "genesisDiscardTopSpells"@, 2, path);
    let genesis_discard_top_spells = genesis_discard_top_spells_read->Ok_0;
    let genesis_draw_spell_per_adjacent_same_card_read = optional_bool_spec(ms, "genesisDrawSpellPerAdjacentSameCard"@, path);
    let genesis_draw_spell_per_adjacent_same_card = genesis_draw_spell_per_adjacent_same_card_read->Ok_0;
    let genesis_enemies_lose_stealth_read = true_only_spec(ms, "genesisEnemiesLoseStealth"@, path);
    let genesis_enemies_lose_stealth = genesis_enemies_lose_stealth_read->Ok_0;
    let genesis_heal_nearby_avatars_read = fixed_integer_spec(ms, "genesisHealNearbyAvatars"@, 3, path);
    let genesis_heal_nearby_avatars = genesis_heal_nearby_avatars_read->Ok_0;
    let genesis_immobilize_nearby_until_next_turn_read = true_only_spec(ms, "genesisImmobilizeNearbyUntilNextTurn"@, path);
    let genesis_immobilize_nearby_until_next_turn = genesis_immobilize_nearby_until_next_turn_read->Ok_0;
    let genesis_may_bottom_next_spell_read = true_only_spec(ms, "genesisMayBottomNextSpell"@, path);
    let genesis_may_bottom_next_spell = genesis_may_bottom_next_spell_read->Ok_0;
    let genesis_pay_one_mana_to_summon_token_read = reference_spec(ms, "genesisPayOneManaToSummonToken"@, path);
    let genesis_pay_one_mana_to_summon_token = genesis_pay_one_mana_to_summon_token_read->Ok_0;
    let genesis_reorder_next_spells_read = fixed_integer_spec(ms, "genesisReorderNextSpells"@, 3, path);
    let genesis_reorder_next_spells = genesis_reorder_next_spells_read->Ok_0;
    let other_genesis = genesis_discard_top_spells || genesis_draw_spell_per_adjacent_same_card || genesis_enemies_lose_stealth || genesis_gain_mana is Some || genesis_gain_mana_if_only_controlled_copy || genesis_heal_nearby_avatars || genesis_immobilize_nearby_until_next_turn;
    let airborne_minions_atop_move_freely_away_read = true_only_spec(ms, "airborneMinionsAtopMoveFreelyAway"@, path);
    let airborne_minions_atop_move_freely_away = airborne_minions_atop_move_freely_away_read->Ok_0;
    let blocks_ground_minion_entry_while_minion_atop_read = true_only_spec(ms, "blocksGroundMinionEntryWhileMinionAtop"@, path);
    let blocks_ground_minion_entry_while_minion_atop = blocks_ground_minion_entry_while_minion_atop_read->Ok_0;
    let cannot_be_moved_destroyed_or_modified_read = true_only_spec(ms, "cannotBeMovedDestroyedOrModified"@, path);
    let cannot_be_moved_destroyed_or_modified = cannot_be_moved_destroyed_or_modified_read->Ok_0;
    let connects_burrowed_allies_read = optional_bool_spec(ms, "connectsBurrowedAllies"@, path);
    let connects_burrowed_allies = connects_burrowed_allies_read->Ok_0;
    let elements_read = elements_spec(ms, path);
    let elements = elements_read->Ok_0;
    let fly_to_nearby_void_once_per_turn_at_air_threshold_read = fixed_integer_spec(ms, "flyToNearbyVoidOncePerTurnAtAirThreshold"@, 3, path);
    let fly_to_nearby_void_once_per_turn_at_air_threshold = fly_to_nearby_void_once_per_turn_at_air_threshold_read->Ok_0;
    let is_tower_read = true_only_spec(ms, "isTower"@, path);
    let is_tower = is_tower_read->Ok_0;
    let minions_here_gain_voidwalk_until_leaving_void_read = true_only_spec(ms, "minionsHereGainVoidwalkUntilLeavingVoid"@, path);
    let minions_here_gain_voidwalk_until_leaving_void = minions_here_gain_voidwalk_until_leaving_void_read->Ok_0;
    let ordinary_minion_mana_discount_read = fixed_integer_spec(ms, "ordinaryMinionManaDiscount"@, 1, path);
    let ordinary_minion_mana_discount = ordinary_minion_mana_discount_read->Ok_0;
    let prevents_units_with_power_at_least_from_entering_read = optional_integer_spec(ms, "preventsUnitsWithPowerAtLeastFromEntering"@, 1, MAX_COMBAT_STAT as nat, path);
    let prevents_units_with_power_at_least_from_entering = prevents_units_with_power_at_least_from_entering_read->Ok_0;
    let ranged_units_here_range_bonus_read = fixed_integer_spec(ms, "rangedUnitsHereRangeBonus"@, 1, path);
    let ranged_units_here_range_bonus = ranged_units_here_range_bonus_read->Ok_0;
    let sacrifice_to_destroy_nearby_site_read = true_only_spec(ms, "sacrificeToDestroyNearbySite"@, path);
    let sacrifice_to_destroy_nearby_site = sacrifice_to_destroy_nearby_site_read->Ok_0;
    if unknown is Some {
        Some(unknown->0)
    } else if genesis_gain_mana_read is Err {
        Some(genesis_gain_mana_read->Err_0)
    } else if genesis_gain_mana_if_only_controlled_copy_read is Err {
        Some(genesis_gain_mana_if_only_controlled_copy_read->Err_0)
    } else if genesis_gain_mana is Some && genesis_gain_mana_if_only_controlled_copy {
        Some((path, "simultaneous unconditional and conditional Genesis mana are unsupported"@))
    } else if genesis_discard_top_spells_read is Err {
        Some(genesis_discard_top_spells_read->Err_0)
    } else if genesis_draw_spell_per_adjacent_same_card_read is Err {
        Some(genesis_draw_spell_per_adjacent_same_card_read->Err_0)
    } else if genesis_discard_top_spells && genesis_draw_spell_per_adjacent_same_card {
        Some((path, "simultaneous Genesis spell discard and draw are unsupported"@))
    } else if genesis_enemies_lose_stealth_read is Err {
        Some(genesis_enemies_lose_stealth_read->Err_0)
    } else if genesis_heal_nearby_avatars_read is Err {
        Some(genesis_heal_nearby_avatars_read->Err_0)
    } else if genesis_immobilize_nearby_until_next_turn_read is Err {
        Some(genesis_immobilize_nearby_until_next_turn_read->Err_0)
    } else if genesis_may_bottom_next_spell_read is Err {
        Some(genesis_may_bottom_next_spell_read->Err_0)
    } else if genesis_pay_one_mana_to_summon_token_read is Err {
        Some(genesis_pay_one_mana_to_summon_token_read->Err_0)
    } else if genesis_reorder_next_spells_read is Err {
        Some(genesis_reorder_next_spells_read->Err_0)
    } else if genesis_pay_one_mana_to_summon_token is Some && (other_genesis || genesis_may_bottom_next_spell || genesis_reorder_next_spells) {
        Some((path, "simultaneous paid-token and another site Genesis are unsupported"@))
    } else if genesis_may_bottom_next_spell && (other_genesis || genesis_pay_one_mana_to_summon_token is Some || genesis_reorder_next_spells) {
        Some((path, "simultaneous next-spell and another site Genesis are unsupported"@))
    } else if genesis_reorder_next_spells && (other_genesis || genesis_may_bottom_next_spell || genesis_pay_one_mana_to_summon_token is Some) {
        Some((path, "simultaneous spell-order and another site Genesis are unsupported"@))
    } else if airborne_minions_atop_move_freely_away_read is Err {
        Some(airborne_minions_atop_move_freely_away_read->Err_0)
    } else if blocks_ground_minion_entry_while_minion_atop_read is Err {
        Some(blocks_ground_minion_entry_while_minion_atop_read->Err_0)
    } else if cannot_be_moved_destroyed_or_modified_read is Err {
        Some(cannot_be_moved_destroyed_or_modified_read->Err_0)
    } else if connects_burrowed_allies_read is Err {
        Some(connects_burrowed_allies_read->Err_0)
    } else if elements_read is Err {
        Some(elements_read->Err_0)
    } else if fly_to_nearby_void_once_per_turn_at_air_threshold_read is Err {
        Some(fly_to_nearby_void_once_per_turn_at_air_threshold_read->Err_0)
    } else if is_tower_read is Err {
        Some(is_tower_read->Err_0)
    } else if minions_here_gain_voidwalk_until_leaving_void_read is Err {
        Some(minions_here_gain_voidwalk_until_leaving_void_read->Err_0)
    } else if ordinary_minion_mana_discount_read is Err {
        Some(ordinary_minion_mana_discount_read->Err_0)
    } else if prevents_units_with_power_at_least_from_entering_read is Err {
        Some(prevents_units_with_power_at_least_from_entering_read->Err_0)
    } else if ranged_units_here_range_bonus_read is Err {
        Some(ranged_units_here_range_bonus_read->Err_0)
    } else if sacrifice_to_destroy_nearby_site_read is Err {
        Some(sacrifice_to_destroy_nearby_site_read->Err_0)
    } else {
        None
    }
}

/// The Site facts that a definition without faults reads to.
pub open spec fn site_read(f: SiteFacts, ms: Seq<JsonMember>, path: Seq<char>) -> bool {
    let genesis_gain_mana = optional_integer_spec(ms, "genesisGainMana"@, 1, MAX_COMBAT_STAT as nat, path)->Ok_0;
    let genesis_gain_mana_if_only_controlled_copy = fixed_integer_spec(ms, "genesisGainManaIfOnlyControlledCopy"@, 1, path)->Ok_0;
    let genesis_discard_top_spells = fixed_integer_spec(ms, "genesisDiscardTopSpells"@, 2, path)->Ok_0;
    let genesis_draw_spell_per_adjacent_same_card = optional_bool_spec(ms, "genesisDrawSpellPerAdjacentSameCard"@, path)->Ok_0;
    let genesis_enemies_lose_stealth = true_only_spec(ms, "genesisEnemiesLoseStealth"@, path)->Ok_0;
    let genesis_heal_nearby_avatars = fixed_integer_spec(ms, "genesisHealNearbyAvatars"@, 3, path)->Ok_0;
    let genesis_immobilize_nearby_until_next_turn = true_only_spec(ms, "genesisImmobilizeNearbyUntilNextTurn"@, path)->Ok_0;
    let genesis_may_bottom_next_spell = true_only_spec(ms, "genesisMayBottomNextSpell"@, path)->Ok_0;
    let genesis_pay_one_mana_to_summon_token = reference_spec(ms, "genesisPayOneManaToSummonToken"@, path)->Ok_0;
    let genesis_reorder_next_spells = fixed_integer_spec(ms, "genesisReorderNextSpells"@, 3, path)->Ok_0;
    let other_genesis = genesis_discard_top_spells || genesis_draw_spell_per_adjacent_same_card || genesis_enemies_lose_stealth || genesis_gain_mana is Some || genesis_gain_mana_if_only_controlled_copy || genesis_heal_nearby_avatars || genesis_immobilize_nearby_until_next_turn;
    let airborne_minions_atop_move_freely_away = true_only_spec(ms, "airborneMinionsAtopMoveFreelyAway"@, path)->Ok_0;
    let blocks_ground_minion_entry_while_minion_atop = true_only_spec(ms, "blocksGroundMinionEntryWhileMinionAtop"@, path)->Ok_0;
    let cannot_be_moved_destroyed_or_modified = true_only_spec(ms, "cannotBeMovedDestroyedOrModified"@, path)->Ok_0;
    let connects_burrowed_allies = optional_bool_spec(ms, "connectsBurrowedAllies"@, path)->Ok_0;
    let elements = elements_spec(ms, path)->Ok_0;
    let fly_to_nearby_void_once_per_turn_at_air_threshold = fixed_integer_spec(ms, "flyToNearbyVoidOncePerTurnAtAirThreshold"@, 3, path)->Ok_0;
    let is_tower = true_only_spec(ms, "isTower"@, path)->Ok_0;
    let minions_here_gain_voidwalk_until_leaving_void = true_only_spec(ms, "minionsHereGainVoidwalkUntilLeavingVoid"@, path)->Ok_0;
    let ordinary_minion_mana_discount = fixed_integer_spec(ms, "ordinaryMinionManaDiscount"@, 1, path)->Ok_0;
    let prevents_units_with_power_at_least_from_entering = optional_integer_spec(ms, "preventsUnitsWithPowerAtLeastFromEntering"@, 1, MAX_COMBAT_STAT as nat, path)->Ok_0;
    let ranged_units_here_range_bonus = fixed_integer_spec(ms, "rangedUnitsHereRangeBonus"@, 1, path)->Ok_0;
    let sacrifice_to_destroy_nearby_site = true_only_spec(ms, "sacrificeToDestroyNearbySite"@, path)->Ok_0;
    &&& f.airborne_minions_atop_move_freely_away == airborne_minions_atop_move_freely_away
    &&& f.blocks_ground_minion_entry_while_minion_atop == blocks_ground_minion_entry_while_minion_atop
    &&& f.cannot_be_moved_destroyed_or_modified == cannot_be_moved_destroyed_or_modified
    &&& f.connects_burrowed_allies == connects_burrowed_allies
    &&& f.elements@ == elements
    &&& f.fly_to_nearby_void_once_per_turn_at_air_threshold == fly_to_nearby_void_once_per_turn_at_air_threshold
    &&& f.genesis_discard_top_spells == genesis_discard_top_spells
    &&& f.genesis_draw_spell_per_adjacent_same_card == genesis_draw_spell_per_adjacent_same_card
    &&& f.genesis_enemies_lose_stealth == genesis_enemies_lose_stealth
    &&& f.genesis_gain_mana == byte_of(genesis_gain_mana)
    &&& f.genesis_gain_mana_if_only_controlled_copy == genesis_gain_mana_if_only_controlled_copy
    &&& f.genesis_heal_nearby_avatars == genesis_heal_nearby_avatars
    &&& f.genesis_immobilize_nearby_until_next_turn == genesis_immobilize_nearby_until_next_turn
    &&& f.genesis_may_bottom_next_spell == genesis_may_bottom_next_spell
    &&& f.genesis_pay_one_mana_to_summon_token == genesis_pay_one_mana_to_summon_token
    &&& f.genesis_reorder_next_spells == genesis_reorder_next_spells
    &&& f.is_tower == is_tower
    &&& f.minions_here_gain_voidwalk_until_leaving_void == minions_here_gain_voidwalk_until_leaving_void
    &&& f.ordinary_minion_mana_discount == ordinary_minion_mana_discount
    &&& f.prevents_units_with_power_at_least_from_entering == byte_of(prevents_units_with_power_at_least_from_entering)
    &&& f.ranged_units_here_range_bonus == ranged_units_here_range_bonus
    &&& f.sacrifice_to_destroy_nearby_site == sacrifice_to_destroy_nearby_site
}

/// Parses a Site definition.
fn parse_site(object: &Vec<JsonMember>, path: &str) -> (r: Result<SiteFacts, FactError>)
    ensures
        r is Ok <==> site_fault(object@, path@) is None,
        r matches Err(e) ==> site_fault(object@, path@) == Some(e@),
        r matches Ok(f) ==> site_read(f, object@, path@),
{
    let allowed = site_fields();
    match reject_unknown(object, &allowed, path) {
        Ok(()) => {},
        Err(e) => {
            return Err(e);
        },
    }
    let genesis_gain_mana = match optional_bounded_integer(object, "genesisGainMana", 1, MAX_COMBAT_STAT, path) {
        Ok(v) => v,
        Err(e) => {
            return Err(e);
        },
    };
    let genesis_gain_mana_if_only_controlled_copy = match fixed_integer(object, "genesisGainManaIfOnlyControlledCopy", 1, path) {
        Ok(v) => v,
        Err(e) => {
            return Err(e);
        },
    };
    if genesis_gain_mana.is_some() && genesis_gain_mana_if_only_controlled_copy {
        return Err(FactError::new(path.to_owned(), "simultaneous unconditional and conditional Genesis mana are unsupported".to_owned()));
    }
    let genesis_discard_top_spells = match fixed_integer(object, "genesisDiscardTopSpells", 2, path) {
        Ok(v) => v,
        Err(e) => {
            return Err(e);
        },
    };
    let genesis_draw_spell_per_adjacent_same_card = match optional_bool(object, "genesisDrawSpellPerAdjacentSameCard", path) {
        Ok(v) => v,
        Err(e) => {
            return Err(e);
        },
    };
    if genesis_discard_top_spells && genesis_draw_spell_per_adjacent_same_card {
        return Err(FactError::new(path.to_owned(), "simultaneous Genesis spell discard and draw are unsupported".to_owned()));
    }
    let genesis_enemies_lose_stealth = match true_only(object, "genesisEnemiesLoseStealth", path) {
        Ok(v) => v,
        Err(e) => {
            return Err(e);
        },
    };
    let genesis_heal_nearby_avatars = match fixed_integer(object, "genesisHealNearbyAvatars", 3, path) {
        Ok(v) => v,
        Err(e) => {
            return Err(e);
        },
    };
    let genesis_immobilize_nearby_until_next_turn = match true_only(object, "genesisImmobilizeNearbyUntilNextTurn", path) {
        Ok(v) => v,
        Err(e) => {
            return Err(e);
        },
    };
    let genesis_may_bottom_next_spell = match true_only(object, "genesisMayBottomNextSpell", path) {
        Ok(v) => v,
        Err(e) => {
            return Err(e);
        },
    };
    let genesis_pay_one_mana_to_summon_token = match parse_reference(object, "genesisPayOneManaToSummonToken", path) {
        Ok(v) => v,
        Err(e) => {
            return Err(e);
        },
    };
    let genesis_reorder_next_spells = match fixed_integer(object, "genesisReorderNextSpells", 3, path) {
        Ok(v) => v,
        Err(e) => {
            return Err(e);
        },
    };
    let other_genesis = genesis_discard_top_spells || genesis_draw_spell_per_adjacent_same_card || genesis_enemies_lose_stealth || genesis_gain_mana.is_some() || genesis_gain_mana_if_only_controlled_copy || genesis_heal_nearby_avatars || genesis_immobilize_nearby_until_next_turn;
    if genesis_pay_one_mana_to_summon_token.is_some() && (other_genesis || genesis_may_bottom_next_spell || genesis_reorder_next_spells) {
        return Err(FactError::new(path.to_owned(), "simultaneous paid-token and another site Genesis are unsupported".to_owned()));
    }
    if genesis_may_bottom_next_spell && (other_genesis || genesis_pay_one_mana_to_summon_token.is_some() || genesis_reorder_next_spells) {
        return Err(FactError::new(path.to_owned(), "simultaneous next-spell and another site Genesis are unsupported".to_owned()));
    }
    if genesis_reorder_next_spells && (other_genesis || genesis_may_bottom_next_spell || genesis_pay_one_mana_to_summon_token.is_some()) {
        return Err(FactError::new(path.to_owned(), "simultaneous spell-order and another site Genesis are unsupported".to_owned()));
    }
    let airborne_minions_atop_move_freely_away = match true_only(object, "airborneMinionsAtopMoveFreelyAway", path) {
        Ok(v) => v,
        Err(e) => {
            return Err(e);
        },
    };
    let blocks_ground_minion_entry_while_minion_atop = match true_only(object, "blocksGroundMinionEntryWhileMinionAtop", path) {
        Ok(v) => v,
        Err(e) => {
            return Err(e);
        },
    };
    let cannot_be_moved_destroyed_or_modified = match true_only(object, "cannotBeMovedDestroyedOrModified", path) {
        Ok(v) => v,
        Err(e) => {
            return Err(e);
        },
    };
    let connects_burrowed_allies = match optional_bool(object, "connectsBurrowedAllies", path) {
        Ok(v) => v,
        Err(e) => {
            return Err(e);
        },
    };
    let elements = match parse_elements(object, path) {
        Ok(v) => v,
        Err(e) => {
            return Err(e);
        },
    };
    let fly_to_nearby_void_once_per_turn_at_air_threshold = match fixed_integer(object, "flyToNearbyVoidOncePerTurnAtAirThreshold", 3, path) {
        Ok(v) => v,
        Err(e) => {
            return Err(e);
        },
    };
    let is_tower = match true_only(object, "isTower", path) {
        Ok(v) => v,
        Err(e) => {
            return Err(e);
        },
    };
    let minions_here_gain_voidwalk_until_leaving_void = match true_only(object, "minionsHereGainVoidwalkUntilLeavingVoid", path) {
        Ok(v) => v,
        Err(e) => {
            return Err(e);
        },
    };
    let ordinary_minion_mana_discount = match fixed_integer(object, "ordinaryMinionManaDiscount", 1, path) {
        Ok(v) => v,
        Err(e) => {
            return Err(e);
        },
    };
    let prevents_units_with_power_at_least_from_entering = match optional_bounded_integer(object, "preventsUnitsWithPowerAtLeastFromEntering", 1, MAX_COMBAT_STAT, path) {
        Ok(v) => v,
        Err(e) => {
            return Err(e);
        },
    };
    let ranged_units_here_range_bonus = match fixed_integer(object, "rangedUnitsHereRangeBonus", 1, path) {
        Ok(v) => v,
        Err(e) => {
            return Err(e);
        },
    };
    let sacrifice_to_destroy_nearby_site = match true_only(object, "sacrificeToDestroyNearbySite", path) {
        Ok(v) => v,
        Err(e) => {
            return Err(e);
        },
    };
    Ok(SiteFacts {
        airborne_minions_atop_move_freely_away,
        blocks_ground_minion_entry_while_minion_atop,
        cannot_be_moved_destroyed_or_modified,
        connects_burrowed_allies,
        elements,
        fly_to_nearby_void_once_per_turn_at_air_threshold,
        genesis_discard_top_spells,
        genesis_draw_spell_per_adjacent_same_card,
        genesis_enemies_lose_stealth,
        genesis_gain_mana: compact(genesis_gain_mana),
        genesis_gain_mana_if_only_controlled_copy,
        genesis_heal_nearby_avatars,
        genesis_immobilize_nearby_until_next_turn,
        genesis_may_bottom_next_spell,
        genesis_pay_one_mana_to_summon_token,
        genesis_reorder_next_spells,
        is_tower,
        minions_here_gain_voidwalk_until_leaving_void,
        ordinary_minion_mana_discount,
        prevents_units_with_power_at_least_from_entering: compact(prevents_units_with_power_at_least_from_entering),
        ranged_units_here_range_bonus,
        sacrifice_to_destroy_nearby_site,
    })
}

/// The Genesis effects a minion declares; any number may be defined, each
/// read and checked on its own.
#[verifier::opaque]
pub open spec fn minion_genesis_spec(ms: Seq<JsonMember>, path: Seq<char>) -> Result<GenesisEffects, FactFault> {
    let damage_each_other_read = fixed_integer_spec(ms, "genesisDamageEachOtherUnitHere"@, 1, path);
    let damage_each_other = damage_each_other_read->Ok_0;
    let disable_self_read = true_only_spec(ms, "genesisDisableSelfUntilDamaged"@, path);
    let disable_self = disable_self_read->Ok_0;
    let draw_site_read = optional_bool_spec(ms, "genesisDrawSite"@, path);
    let draw_site = draw_site_read->Ok_0;
    let draw_spells_read = optional_integer_spec(ms, "genesisDrawSpells"@, 1, MAX_DECK_CARDS as nat, path);
    let draw_spells = draw_spells_read->Ok_0;
    let heal_controller_read = fixed_integer_spec(ms, "genesisHealController"@, 2, path);
    let heal_controller = heal_controller_read->Ok_0;
    let lose_life_read = fixed_integer_spec(ms, "genesisLoseControllerLife"@, 2, path);
    let lose_life = lose_life_read->Ok_0;
    let damage_adjacent_read = fixed_integer_spec(ms, "genesisMayDamageTargetAdjacentUnit"@, 2, path);
    let damage_adjacent = damage_adjacent_read->Ok_0;
    let strike_each_enemy_read = true_only_spec(ms, "genesisStrikeEachEnemyHere"@, path);
    let strike_each_enemy = strike_each_enemy_read->Ok_0;
    let genesis = GenesisEffects {
        damage_each_other_unit_here: damage_each_other,
        disable_self_until_damaged: disable_self,
        draw_site,
        draw_spells: byte_of(draw_spells),
        heal_controller,
        lose_controller_life: lose_life,
        may_damage_target_adjacent_unit: damage_adjacent,
        strike_each_enemy_here: strike_each_enemy,
    };
    if damage_each_other_read is Err {
        Err(damage_each_other_read->Err_0)
    } else if disable_self_read is Err {
        Err(disable_self_read->Err_0)
    } else if draw_site_read is Err {
        Err(draw_site_read->Err_0)
    } else if draw_spells_read is Err {
        Err(draw_spells_read->Err_0)
    } else if heal_controller_read is Err {
        Err(heal_controller_read->Err_0)
    } else if lose_life_read is Err {
        Err(lose_life_read->Err_0)
    } else if damage_adjacent_read is Err {
        Err(damage_adjacent_read->Err_0)
    } else if strike_each_enemy_read is Err {
        Err(strike_each_enemy_read->Err_0)
    } else {
        Ok(genesis)
    }
}

/// Parses the Genesis effects a minion declares.
fn parse_minion_genesis(object: &Vec<JsonMember>, path: &str) -> (r: Result<GenesisEffects, FactError>)
    ensures
        fact_outcome(r, minion_genesis_spec(object@, path@)),
{
    proof {
        reveal(minion_genesis_spec);
    }
    let damage_each_other = match fixed_integer(object, "genesisDamageEachOtherUnitHere", 1, path) {
        Ok(v) => v,
        Err(e) => {
            return Err(e);
        },
    };
    let disable_self = match true_only(object, "genesisDisableSelfUntilDamaged", path) {
        Ok(v) => v,
        Err(e) => {
            return Err(e);
        },
    };
    let draw_site = match optional_bool(object, "genesisDrawSite", path) {
        Ok(v) => v,
        Err(e) => {
            return Err(e);
        },
    };
    let draw_spells = match optional_bounded_integer(object, "genesisDrawSpells", 1, MAX_DECK_CARDS, path) {
        Ok(v) => v,
        Err(e) => {
            return Err(e);
        },
    };
    let heal_controller = match fixed_integer(object, "genesisHealController", 2, path) {
        Ok(v) => v,
        Err(e) => {
            return Err(e);
        },
    };
    let lose_life = match fixed_integer(object, "genesisLoseControllerLife", 2, path) {
        Ok(v) => v,
        Err(e) => {
            return Err(e);
        },
    };
    let damage_adjacent = match fixed_integer(object, "genesisMayDamageTargetAdjacentUnit", 2, path) {
        Ok(v) => v,
        Err(e) => {
            return Err(e);
        },
    };
    let strike_each_enemy = match true_only(object, "genesisStrikeEachEnemyHere", path) {
        Ok(v) => v,
        Err(e) => {
            return Err(e);
        },
    };
    let genesis = GenesisEffects {
        damage_each_other_unit_here: damage_each_other,
        disable_self_until_damaged: disable_self,
        draw_site,
        draw_spells: compact(draw_spells),
        heal_controller,
        lose_controller_life: lose_life,
        may_damage_target_adjacent_unit: damage_adjacent,
        strike_each_enemy_here: strike_each_enemy,
    };
    Ok(genesis)
}

/// A minion's alternative summon payment: at most one may be defined.
#[verifier::opaque]
pub open spec fn alternative_summon_payment_spec(ms: Seq<JsonMember>, path: Seq<char>) -> Result<Option<AlternativeSummonPayment>, FactFault> {
    let discard_random_read = true_only_spec(ms, "discardRandomCardInsteadOfMana"@, path);
    let discard_random = discard_random_read->Ok_0;
    let sacrifice_read = fixed_integer_spec(ms, "sacrificeMinionAtSummoningLocationForManaDiscount"@, 2, path);
    let sacrifice = sacrifice_read->Ok_0;
    let payment_read = at_most_one_spec(
        Seq::empty()
            .push(present_if(discard_random, AlternativeSummonPayment::DiscardRandomCardInsteadOfMana))
            .push(present_if(sacrifice, AlternativeSummonPayment::SacrificeMinionAtSummoningLocationForManaDiscountTwo)),
        path,
        "competing alternative summon payments are unsupported"@,
    );
    let payment = payment_read->Ok_0;
    if discard_random_read is Err {
        Err(discard_random_read->Err_0)
    } else if sacrifice_read is Err {
        Err(sacrifice_read->Err_0)
    } else if payment_read is Err {
        Err(payment_read->Err_0)
    } else {
        Ok(payment)
    }
}

/// Parses a minion's alternative summon payment.
fn parse_alternative_summon_payment(object: &Vec<JsonMember>, path: &str) -> (r: Result<Option<AlternativeSummonPayment>, FactError>)
    ensures
        fact_outcome(r, alternative_summon_payment_spec(object@, path@)),
{
    proof {
        reveal(alternative_summon_payment_spec);
    }
    let discard_random = match true_only(object, "discardRandomCardInsteadOfMana", path) {
        Ok(v) => v,
        Err(e) => {
            return Err(e);
        },
    };
    let sacrifice = match fixed_integer(object, "sacrificeMinionAtSummoningLocationForManaDiscount", 2, path) {
        Ok(v) => v,
        Err(e) => {
            return Err(e);
        },
    };
    let candidate_1 = present(discard_random, AlternativeSummonPayment::DiscardRandomCardInsteadOfMana);
    let candidate_2 = present(sacrifice, AlternativeSummonPayment::SacrificeMinionAtSummoningLocationForManaDiscountTwo);
    let mut effects: Vec<Option<AlternativeSummonPayment>> = Vec::new();
    effects.push(candidate_1);
    effects.push(candidate_2);
    let payment = match at_most_one(effects, path, "competing alternative summon payments are unsupported") {
        Ok(v) => v,
        Err(e) => {
            return Err(e);
        },
    };
    Ok(payment)
}

/// A minion's end-turn Stealth rule: at most one may be defined.
#[verifier::opaque]
pub open spec fn end_turn_stealth_spec(ms: Seq<JsonMember>, path: Seq<char>) -> Result<Option<EndTurnStealth>, FactFault> {
    let always_read = optional_bool_spec(ms, "gainsStealthAtEndOfTurn"@, path);
    let always = always_read->Ok_0;
    let if_no_enemies_read = optional_bool_spec(ms, "gainsStealthAtEndOfTurnIfNoEnemiesNearby"@, path);
    let if_no_enemies = if_no_enemies_read->Ok_0;
    let stealth_read = at_most_one_spec(
        Seq::empty()
            .push(present_if(always, EndTurnStealth::Always))
            .push(present_if(if_no_enemies, EndTurnStealth::IfNoEnemiesNearby)),
        path,
        "simultaneous unconditional and conditional end-turn Stealth are unsupported"@,
    );
    let stealth = stealth_read->Ok_0;
    if always_read is Err {
        Err(always_read->Err_0)
    } else if if_no_enemies_read is Err {
        Err(if_no_enemies_read->Err_0)
    } else if stealth_read is Err {
        Err(stealth_read->Err_0)
    } else {
        Ok(stealth)
    }
}

/// Parses a minion's end-turn Stealth rule.
fn parse_end_turn_stealth(object: &Vec<JsonMember>, path: &str) -> (r: Result<Option<EndTurnStealth>, FactError>)
    ensures
        fact_outcome(r, end_turn_stealth_spec(object@, path@)),
{
    proof {
        reveal(end_turn_stealth_spec);
    }
    let always = match optional_bool(object, "gainsStealthAtEndOfTurn", path) {
        Ok(v) => v,
        Err(e) => {
            return Err(e);
        },
    };
    let if_no_enemies = match optional_bool(object, "gainsStealthAtEndOfTurnIfNoEnemiesNearby", path) {
        Ok(v) => v,
        Err(e) => {
            return Err(e);
        },
    };
    let candidate_1 = present(always, EndTurnStealth::Always);
    let candidate_2 = present(if_no_enemies, EndTurnStealth::IfNoEnemiesNearby);
    let mut effects: Vec<Option<EndTurnStealth>> = Vec::new();
    effects.push(candidate_1);
    effects.push(candidate_2);
    let stealth = match at_most_one(effects, path, "simultaneous unconditional and conditional end-turn Stealth are unsupported") {
        Ok(v) => v,
        Err(e) => {
            return Err(e);
        },
    };
    Ok(stealth)
}

/// A minion's basic movement restriction: at most one may be defined.
#[verifier::opaque]
pub open spec fn movement_restriction_spec(ms: Seq<JsonMember>, path: Seq<char>) -> Result<Option<BasicMovementRestriction>, FactFault> {
    let forward_read = optional_bool_spec(ms, "movesOnlyForward"@, path);
    let forward = forward_read->Ok_0;
    let sideways_read = optional_bool_spec(ms, "movesOnlySideways"@, path);
    let sideways = sideways_read->Ok_0;
    let restriction_read = at_most_one_spec(
        Seq::empty()
            .push(present_if(forward, BasicMovementRestriction::ForwardOnly))
            .push(present_if(sideways, BasicMovementRestriction::SidewaysOnly)),
        path,
        "cannot move only forward and only sideways"@,
    );
    let restriction = restriction_read->Ok_0;
    if forward_read is Err {
        Err(forward_read->Err_0)
    } else if sideways_read is Err {
        Err(sideways_read->Err_0)
    } else if restriction_read is Err {
        Err(restriction_read->Err_0)
    } else {
        Ok(restriction)
    }
}

/// Parses a minion's basic movement restriction.
fn parse_movement_restriction(object: &Vec<JsonMember>, path: &str) -> (r: Result<Option<BasicMovementRestriction>, FactError>)
    ensures
        fact_outcome(r, movement_restriction_spec(object@, path@)),
{
    proof {
        reveal(movement_restriction_spec);
    }
    let forward = match optional_bool(object, "movesOnlyForward", path) {
        Ok(v) => v,
        Err(e) => {
            return Err(e);
        },
    };
    let sideways = match optional_bool(object, "movesOnlySideways", path) {
        Ok(v) => v,
        Err(e) => {
            return Err(e);
        },
    };
    let candidate_1 = present(forward, BasicMovementRestriction::ForwardOnly);
    let candidate_2 = present(sideways, BasicMovementRestriction::SidewaysOnly);
    let mut effects: Vec<Option<BasicMovementRestriction>> = Vec::new();
    effects.push(candidate_1);
    effects.push(candidate_2);
    let restriction = match at_most_one(effects, path, "cannot move only forward and only sideways") {
        Ok(v) => v,
        Err(e) => {
            return Err(e);
        },
    };
    Ok(restriction)
}

/// A minion's required cast region: it needs the matching ability, and at most one may be defined.
#[verifier::opaque]
pub open spec fn required_cast_region_spec(ms: Seq<JsonMember>, path: Seq<char>, burrowing: bool, submerge: bool) -> Result<Option<RequiredCastRegion>, FactFault> {
    let underground_read = optional_bool_spec(ms, "mustBeCastBurrowed"@, path);
    let underground = underground_read->Ok_0;
    let underwater_read = optional_bool_spec(ms, "mustBeCastSubmerged"@, path);
    let underwater = underwater_read->Ok_0;
    let region_read = at_most_one_spec(
        Seq::empty()
            .push(present_if(underground, RequiredCastRegion::Underground))
            .push(present_if(underwater, RequiredCastRegion::Underwater)),
        path,
        "cannot require both burrowed and submerged casting"@,
    );
    let region = region_read->Ok_0;
    if underground_read is Err {
        Err(underground_read->Err_0)
    } else if underwater_read is Err {
        Err(underwater_read->Err_0)
    } else if underground && !burrowing {
        Err((field_path(path, "mustBeCastBurrowed"@), "requires Burrowing"@))
    } else if underwater && !submerge {
        Err((field_path(path, "mustBeCastSubmerged"@), "requires Submerge"@))
    } else if region_read is Err {
        Err(region_read->Err_0)
    } else {
        Ok(region)
    }
}

/// Parses a minion's required cast region.
fn parse_required_cast_region(object: &Vec<JsonMember>, path: &str, burrowing: bool, submerge: bool) -> (r: Result<Option<RequiredCastRegion>, FactError>)
    ensures
        fact_outcome(r, required_cast_region_spec(object@, path@, burrowing, submerge)),
{
    proof {
        reveal(required_cast_region_spec);
    }
    let underground = match optional_bool(object, "mustBeCastBurrowed", path) {
        Ok(v) => v,
        Err(e) => {
            return Err(e);
        },
    };
    let underwater = match optional_bool(object, "mustBeCastSubmerged", path) {
        Ok(v) => v,
        Err(e) => {
            return Err(e);
        },
    };
    if underground && !burrowing {
        return Err(FactError::new(make_field_path(path, "mustBeCastBurrowed"), "requires Burrowing".to_owned()));
    }
    if underwater && !submerge {
        return Err(FactError::new(make_field_path(path, "mustBeCastSubmerged"), "requires Submerge".to_owned()));
    }
    let candidate_1 = present(underground, RequiredCastRegion::Underground);
    let candidate_2 = present(underwater, RequiredCastRegion::Underwater);
    let mut effects: Vec<Option<RequiredCastRegion>> = Vec::new();
    effects.push(candidate_1);
    effects.push(candidate_2);
    let region = match at_most_one(effects, path, "cannot require both burrowed and submerged casting") {
        Ok(v) => v,
        Err(e) => {
            return Err(e);
        },
    };
    Ok(region)
}

/// A minion's damage prevention: at most one may be defined.
#[verifier::opaque]
pub open spec fn damage_prevention_spec(ms: Seq<JsonMember>, path: Seq<char>) -> Result<Option<DamagePrevention>, FactFault> {
    let takes_less_read = fixed_integer_spec(ms, "takesLessDamage"@, 1, path);
    let takes_less = takes_less_read->Ok_0;
    let power_at_least_read = optional_integer_spec(ms, "preventsDamageFromUnitsWithPowerAtLeast"@, 1, MAX_COMBAT_STAT as nat, path);
    let power_at_least = power_at_least_read->Ok_0;
    let ward_read = optional_bool_spec(ms, "ward"@, path);
    let ward = ward_read->Ok_0;
    let prevention_read = at_most_one_spec(
        Seq::empty()
            .push(present_if(takes_less, DamagePrevention::TakesOneLessDamage))
            .push(present_if(power_at_least.is_some(), DamagePrevention::PreventsDamageFromUnitsWithPowerAtLeast(amount_of(power_at_least))))
            .push(present_if(ward, DamagePrevention::Ward)),
        path,
        "competing damage prevention effects are unsupported"@,
    );
    let prevention = prevention_read->Ok_0;
    if takes_less_read is Err {
        Err(takes_less_read->Err_0)
    } else if power_at_least_read is Err {
        Err(power_at_least_read->Err_0)
    } else if ward_read is Err {
        Err(ward_read->Err_0)
    } else if prevention_read is Err {
        Err(prevention_read->Err_0)
    } else {
        Ok(prevention)
    }
}

/// Parses a minion's damage prevention.
fn parse_damage_prevention(object: &Vec<JsonMember>, path: &str) -> (r: Result<Option<DamagePrevention>, FactError>)
    ensures
        fact_outcome(r, damage_prevention_spec(object@, path@)),
{
    proof {
        reveal(damage_prevention_spec);
    }
    let takes_less = match fixed_integer(object, "takesLessDamage", 1, path) {
        Ok(v) => v,
        Err(e) => {
            return Err(e);
        },
    };
    let power_at_least = match optional_bounded_integer(object, "preventsDamageFromUnitsWithPowerAtLeast", 1, MAX_COMBAT_STAT, path) {
        Ok(v) => v,
        Err(e) => {
            return Err(e);
        },
    };
    let ward = match optional_bool(object, "ward", path) {
        Ok(v) => v,
        Err(e) => {
            return Err(e);
        },
    };
    let candidate_1 = present(takes_less, DamagePrevention::TakesOneLessDamage);
    let candidate_2 = present(power_at_least.is_some(), DamagePrevention::PreventsDamageFromUnitsWithPowerAtLeast(amount(power_at_least)));
    let candidate_3 = present(ward, DamagePrevention::Ward);
    let mut effects: Vec<Option<DamagePrevention>> = Vec::new();
    effects.push(candidate_1);
    effects.push(candidate_2);
    effects.push(candidate_3);
    let prevention = match at_most_one(effects, path, "competing damage prevention effects are unsupported") {
        Ok(v) => v,
        Err(e) => {
            return Err(e);
        },
    };
    Ok(prevention)
}

/// The first fault among the first group of minion ability fields.
#[verifier::opaque]
pub open spec fn minion_movement_traits_fault(ms: Seq<JsonMember>, path: Seq<char>) -> Option<FactFault> {
    match optional_bool_spec(ms, "airborne"@, path) {
        Err(fault) => Some(fault),
        Ok(airborne) => {
    match alternative_summon_payment_spec(ms, path) {
        Err(fault) => Some(fault),
        Ok(alternative_summon_payment) => {
    match true_only_spec(ms, "atStartOfControllerTurnTeleportToRandomSiteOrVoid"@, path) {
        Err(fault) => Some(fault),
        Ok(at_start_of_controller_turn_teleport_to_random_site_or_void) => {
    match optional_bool_spec(ms, "burrowing"@, path) {
        Err(fault) => Some(fault),
        Ok(burrowing) => {
    match optional_bool_spec(ms, "connectsTopBottom"@, path) {
        Err(fault) => Some(fault),
        Ok(connects_top_bottom) => {
    match damage_prevention_spec(ms, path) {
        Err(fault) => Some(fault),
        Ok(damage_prevention) => {
    match end_turn_stealth_spec(ms, path) {
        Err(fault) => Some(fault),
        Ok(end_turn_stealth) => {
    match fixed_integer_spec(ms, "gainsPowerRangedAndSpellcasterAtopTower"@, 2, path) {
        Err(fault) => Some(fault),
        Ok(gains_power_ranged_and_spellcaster_atop_tower) => {
    match minion_genesis_spec(ms, path) {
        Err(fault) => Some(fault),
        Ok(genesis) => {
    match true_only_spec(ms, "mayRangedStrikeOnceDuringBasicMovement"@, path) {
        Err(fault) => Some(fault),
        Ok(may_ranged_strike_once_during_basic_movement) => {
    None
    },
    }
    },
    }
    },
    }
    },
    }
    },
    }
    },
    }
    },
    }
    },
    }
    },
    }
    },
    }
}

/// The values of the first group of minion ability fields in a definition without faults.
#[verifier::opaque]
pub open spec fn minion_movement_traits_value(ms: Seq<JsonMember>, path: Seq<char>) -> (bool, Option<AlternativeSummonPayment>, bool, bool, bool, Option<DamagePrevention>, Option<EndTurnStealth>, bool, GenesisEffects, bool) {
    let airborne = optional_bool_spec(ms, "airborne"@, path)->Ok_0;
    let alternative_summon_payment = alternative_summon_payment_spec(ms, path)->Ok_0;
    let at_start_of_controller_turn_teleport_to_random_site_or_void = true_only_spec(ms, "atStartOfControllerTurnTeleportToRandomSiteOrVoid"@, path)->Ok_0;
    let burrowing = optional_bool_spec(ms, "burrowing"@, path)->Ok_0;
    let connects_top_bottom = optional_bool_spec(ms, "connectsTopBottom"@, path)->Ok_0;
    let damage_prevention = damage_prevention_spec(ms, path)->Ok_0;
    let end_turn_stealth = end_turn_stealth_spec(ms, path)->Ok_0;
    let gains_power_ranged_and_spellcaster_atop_tower = fixed_integer_spec(ms, "gainsPowerRangedAndSpellcasterAtopTower"@, 2, path)->Ok_0;
    let genesis = minion_genesis_spec(ms, path)->Ok_0;
    let may_ranged_strike_once_during_basic_movement = true_only_spec(ms, "mayRangedStrikeOnceDuringBasicMovement"@, path)->Ok_0;
    (airborne, alternative_summon_payment, at_start_of_controller_turn_teleport_to_random_site_or_void, burrowing, connects_top_bottom, damage_prevention, end_turn_stealth, gains_power_ranged_and_spellcaster_atop_tower, genesis, may_ranged_strike_once_during_basic_movement)
}

/// Reads the first group of minion ability fields.
fn parse_minion_movement_traits(object: &Vec<JsonMember>, path: &str) -> (r: Result<(bool, Option<AlternativeSummonPayment>, bool, bool, bool, Option<DamagePrevention>, Option<EndTurnStealth>, bool, GenesisEffects, bool), FactError>)
    ensures
        r is Ok <==> minion_movement_traits_fault(object@, path@) is None,
        r matches Err(e) ==> minion_movement_traits_fault(object@, path@) == Some(e@),
        r matches Ok(v) ==> v == minion_movement_traits_value(object@, path@),
{
    proof {
        reveal(minion_movement_traits_fault);
    }
    let airborne = match optional_bool(object, "airborne", path) {
        Ok(v) => v,
        Err(e) => {
            return Err(e);
        },
    };
    let alternative_summon_payment = match parse_alternative_summon_payment(object, path) {
        Ok(v) => v,
        Err(e) => {
            return Err(e);
        },
    };
    let at_start_of_controller_turn_teleport_to_random_site_or_void = match true_only(object, "atStartOfControllerTurnTeleportToRandomSiteOrVoid", path) {
        Ok(v) => v,
        Err(e) => {
            return Err(e);
        },
    };
    let burrowing = match optional_bool(object, "burrowing", path) {
        Ok(v) => v,
        Err(e) => {
            return Err(e);
        },
    };
    let connects_top_bottom = match optional_bool(object, "connectsTopBottom", path) {
        Ok(v) => v,
        Err(e) => {
            return Err(e);
        },
    };
    let damage_prevention = match parse_damage_prevention(object, path) {
        Ok(v) => v,
        Err(e) => {
            return Err(e);
        },
    };
    let end_turn_stealth = match parse_end_turn_stealth(object, path) {
        Ok(v) => v,
        Err(e) => {
            return Err(e);
        },
    };
    let gains_power_ranged_and_spellcaster_atop_tower = match fixed_integer(object, "gainsPowerRangedAndSpellcasterAtopTower", 2, path) {
        Ok(v) => v,
        Err(e) => {
            return Err(e);
        },
    };
    let genesis = match parse_minion_genesis(object, path) {
        Ok(v) => v,
        Err(e) => {
            return Err(e);
        },
    };
    let may_ranged_strike_once_during_basic_movement = match true_only(object, "mayRangedStrikeOnceDuringBasicMovement", path) {
        Ok(v) => v,
        Err(e) => {
            return Err(e);
        },
    };
    proof {
        reveal(minion_movement_traits_value);
    }
    Ok((airborne, alternative_summon_payment, at_start_of_controller_turn_teleport_to_random_site_or_void, burrowing, connects_top_bottom, damage_prevention, end_turn_stealth, gains_power_ranged_and_spellcaster_atop_tower, genesis, may_ranged_strike_once_during_basic_movement))
}

/// The first fault among the second group of minion ability fields.
#[verifier::opaque]
pub open spec fn minion_position_traits_fault(ms: Seq<JsonMember>, path: Seq<char>) -> Option<FactFault> {
    match true_only_spec(ms, "mayStepAfterRangedStrike"@, path) {
        Err(fault) => Some(fault),
        Ok(may_step_after_ranged_strike) => {
    match movement_restriction_spec(ms, path) {
        Err(fault) => Some(fault),
        Ok(movement_restriction) => {
    match fixed_integer_spec(ms, "occupiesSquareArea"@, 2, path) {
        Err(fault) => Some(fault),
        Ok(occupies_square_area_two) => {
    match true_only_spec(ms, "ordinary"@, path) {
        Err(fault) => Some(fault),
        Ok(ordinary) => {
    match optional_bool_spec(ms, "ranged"@, path) {
        Err(fault) => Some(fault),
        Ok(ranged) => {
    match optional_bool_spec(ms, "shootsDragProjectile"@, path) {
        Err(fault) => Some(fault),
        Ok(shoots_drag_projectile) => {
    match true_only_spec(ms, "siteProvidesNoThreshold"@, path) {
        Err(fault) => Some(fault),
        Ok(site_provides_no_threshold) => {
    match optional_bool_spec(ms, "spellcaster"@, path) {
        Err(fault) => Some(fault),
        Ok(spellcaster) => {
    match optional_bool_spec(ms, "stealth"@, path) {
        Err(fault) => Some(fault),
        Ok(stealth) => {
    match optional_bool_spec(ms, "submerge"@, path) {
        Err(fault) => Some(fault),
        Ok(submerge) => {
    None
    },
    }
    },
    }
    },
    }
    },
    }
    },
    }
    },
    }
    },
    }
    },
    }
    },
    }
    },
    }
}

/// The values of the second group of minion ability fields in a definition without faults.
#[verifier::opaque]
pub open spec fn minion_position_traits_value(ms: Seq<JsonMember>, path: Seq<char>) -> (bool, Option<BasicMovementRestriction>, bool, bool, bool, bool, bool, bool, bool, bool) {
    let may_step_after_ranged_strike = true_only_spec(ms, "mayStepAfterRangedStrike"@, path)->Ok_0;
    let movement_restriction = movement_restriction_spec(ms, path)->Ok_0;
    let occupies_square_area_two = fixed_integer_spec(ms, "occupiesSquareArea"@, 2, path)->Ok_0;
    let ordinary = true_only_spec(ms, "ordinary"@, path)->Ok_0;
    let ranged = optional_bool_spec(ms, "ranged"@, path)->Ok_0;
    let shoots_drag_projectile = optional_bool_spec(ms, "shootsDragProjectile"@, path)->Ok_0;
    let site_provides_no_threshold = true_only_spec(ms, "siteProvidesNoThreshold"@, path)->Ok_0;
    let spellcaster = optional_bool_spec(ms, "spellcaster"@, path)->Ok_0;
    let stealth = optional_bool_spec(ms, "stealth"@, path)->Ok_0;
    let submerge = optional_bool_spec(ms, "submerge"@, path)->Ok_0;
    (may_step_after_ranged_strike, movement_restriction, occupies_square_area_two, ordinary, ranged, shoots_drag_projectile, site_provides_no_threshold, spellcaster, stealth, submerge)
}

/// Reads the second group of minion ability fields.
fn parse_minion_position_traits(object: &Vec<JsonMember>, path: &str) -> (r: Result<(bool, Option<BasicMovementRestriction>, bool, bool, bool, bool, bool, bool, bool, bool), FactError>)
    ensures
        r is Ok <==> minion_position_traits_fault(object@, path@) is None,
        r matches Err(e) ==> minion_position_traits_fault(object@, path@) == Some(e@),
        r matches Ok(v) ==> v == minion_position_traits_value(object@, path@),
{
    proof {
        reveal(minion_position_traits_fault);
    }
    let may_step_after_ranged_strike = match true_only(object, "mayStepAfterRangedStrike", path) {
        Ok(v) => v,
        Err(e) => {
            return Err(e);
        },
    };
    let movement_restriction = match parse_movement_restriction(object, path) {
        Ok(v) => v,
        Err(e) => {
            return Err(e);
        },
    };
    let occupies_square_area_two = match fixed_integer(object, "occupiesSquareArea", 2, path) {
        Ok(v) => v,
        Err(e) => {
            return Err(e);
        },
    };
    let ordinary = match true_only(object, "ordinary", path) {
        Ok(v) => v,
        Err(e) => {
            return Err(e);
        },
    };
    let ranged = match optional_bool(object, "ranged", path) {
        Ok(v) => v,
        Err(e) => {
            return Err(e);
        },
    };
    let shoots_drag_projectile = match optional_bool(object, "shootsDragProjectile", path) {
        Ok(v) => v,
        Err(e) => {
            return Err(e);
        },
    };
    let site_provides_no_threshold = match true_only(object, "siteProvidesNoThreshold", path) {
        Ok(v) => v,
        Err(e) => {
            return Err(e);
        },
    };
    let spellcaster = match optional_bool(object, "spellcaster", path) {
        Ok(v) => v,
        Err(e) => {
            return Err(e);
        },
    };
    let stealth = match optional_bool(object, "stealth", path) {
        Ok(v) => v,
        Err(e) => {
            return Err(e);
        },
    };
    let submerge = match optional_bool(object, "submerge", path) {
        Ok(v) => v,
        Err(e) => {
            return Err(e);
        },
    };
    proof {
        reveal(minion_position_traits_value);
    }
    Ok((may_step_after_ranged_strike, movement_restriction, occupies_square_area_two, ordinary, ranged, shoots_drag_projectile, site_provides_no_threshold, spellcaster, stealth, submerge))
}

/// The first fault among the minion casting and placement fields.
#[verifier::opaque]
pub open spec fn minion_casting_traits_fault(ms: Seq<JsonMember>, path: Seq<char>, burrowing: bool, submerge: bool) -> Option<FactFault> {
    match required_cast_region_spec(ms, path, burrowing, submerge) {
        Err(fault) => Some(fault),
        Ok(required_cast_region) => {
    match optional_bool_spec(ms, "summonToAnySite"@, path) {
        Err(fault) => Some(fault),
        Ok(summon_to_any_site) => {
    match optional_bool_spec(ms, "mustBeCastToOuterColumn"@, path) {
        Err(fault) => Some(fault),
        Ok(must_be_cast_to_outer_column) => {
    match optional_bool_spec(ms, "mustBeCastToWaterSite"@, path) {
        Err(fault) => Some(fault),
        Ok(must_be_cast_to_water_site) => {
    match optional_integer_spec(ms, "tapToShootProjectileDamage"@, 1, MAX_COMBAT_STAT as nat, path) {
        Err(fault) => Some(fault),
        Ok(tap_to_shoot_projectile_damage) => {
    match true_only_spec(ms, "token"@, path) {
        Err(fault) => Some(fault),
        Ok(token) => {
    match optional_bool_spec(ms, "voidwalk"@, path) {
        Err(fault) => Some(fault),
        Ok(voidwalk) => {
    match optional_bool_spec(ms, "waterbound"@, path) {
        Err(fault) => Some(fault),
        Ok(waterbound) => {
    None
    },
    }
    },
    }
    },
    }
    },
    }
    },
    }
    },
    }
    },
    }
    },
    }
}

/// The values of the minion casting and placement fields in a definition without faults.
#[verifier::opaque]
pub open spec fn minion_casting_traits_value(ms: Seq<JsonMember>, path: Seq<char>, burrowing: bool, submerge: bool) -> (Option<RequiredCastRegion>, bool, bool, bool, Option<u64>, bool, bool, bool) {
    let required_cast_region = required_cast_region_spec(ms, path, burrowing, submerge)->Ok_0;
    let summon_to_any_site = optional_bool_spec(ms, "summonToAnySite"@, path)->Ok_0;
    let must_be_cast_to_outer_column = optional_bool_spec(ms, "mustBeCastToOuterColumn"@, path)->Ok_0;
    let must_be_cast_to_water_site = optional_bool_spec(ms, "mustBeCastToWaterSite"@, path)->Ok_0;
    let tap_to_shoot_projectile_damage = optional_integer_spec(ms, "tapToShootProjectileDamage"@, 1, MAX_COMBAT_STAT as nat, path)->Ok_0;
    let token = true_only_spec(ms, "token"@, path)->Ok_0;
    let voidwalk = optional_bool_spec(ms, "voidwalk"@, path)->Ok_0;
    let waterbound = optional_bool_spec(ms, "waterbound"@, path)->Ok_0;
    (required_cast_region, summon_to_any_site, must_be_cast_to_outer_column, must_be_cast_to_water_site, tap_to_shoot_projectile_damage, token, voidwalk, waterbound)
}

/// Reads the minion casting and placement fields.
fn parse_minion_casting_traits(object: &Vec<JsonMember>, path: &str, burrowing: bool, submerge: bool) -> (r: Result<(Option<RequiredCastRegion>, bool, bool, bool, Option<u64>, bool, bool, bool), FactError>)
    ensures
        r is Ok <==> minion_casting_traits_fault(object@, path@, burrowing, submerge) is None,
        r matches Err(e) ==> minion_casting_traits_fault(object@, path@, burrowing, submerge) == Some(e@),
        r matches Ok(v) ==> v == minion_casting_traits_value(object@, path@, burrowing, submerge),
{
    proof {
        reveal(minion_casting_traits_fault);
    }
    let required_cast_region = match parse_required_cast_region(object, path, burrowing, submerge) {
        Ok(v) => v,
        Err(e) => {
            return Err(e);
        },
    };
    let summon_to_any_site = match optional_bool(object, "summonToAnySite", path) {
        Ok(v) => v,
        Err(e) => {
            return Err(e);
        },
    };
    let must_be_cast_to_outer_column = match optional_bool(object, "mustBeCastToOuterColumn", path) {
        Ok(v) => v,
        Err(e) => {
            return Err(e);
        },
    };
    let must_be_cast_to_water_site = match optional_bool(object, "mustBeCastToWaterSite", path) {
        Ok(v) => v,
        Err(e) => {
            return Err(e);
        },
    };
    let tap_to_shoot_projectile_damage = match optional_bounded_integer(object, "tapToShootProjectileDamage", 1, MAX_COMBAT_STAT, path) {
        Ok(v) => v,
        Err(e) => {
            return Err(e);
        },
    };
    let token = match true_only(object, "token", path) {
        Ok(v) => v,
        Err(e) => {
            return Err(e);
        },
    };
    let voidwalk = match optional_bool(object, "voidwalk", path) {
        Ok(v) => v,
        Err(e) => {
            return Err(e);
        },
    };
    let waterbound = match optional_bool(object, "waterbound", path) {
        Ok(v) => v,
        Err(e) => {
            return Err(e);
        },
    };
    proof {
        reveal(minion_casting_traits_value);
    }
    Ok((required_cast_region, summon_to_any_site, must_be_cast_to_outer_column, must_be_cast_to_water_site, tap_to_shoot_projectile_damage, token, voidwalk, waterbound))
}

/// The first fault among the minion combat fields.
#[verifier::opaque]
pub open spec fn minion_combat_stats_fault(ms: Seq<JsonMember>, path: Seq<char>) -> Option<FactFault> {
    match required_integer_spec(ms, "attack"@, MAX_COMBAT_STAT as nat, path) {
        Err(fault) => Some(fault),
        Ok(attack) => {
    match optional_bool_spec(ms, "cannotAttackSites"@, path) {
        Err(fault) => Some(fault),
        Ok(cannot_attack_sites) => {
    match optional_bool_spec(ms, "cannotDefend"@, path) {
        Err(fault) => Some(fault),
        Ok(cannot_defend) => {
    match optional_bool_spec(ms, "cannotDefendOrIntercept"@, path) {
        Err(fault) => Some(fault),
        Ok(cannot_defend_or_intercept) => {
    match optional_bool_spec(ms, "charge"@, path) {
        Err(fault) => Some(fault),
        Ok(charge) => {
    match optional_bool_spec(ms, "deathriteDrawSite"@, path) {
        Err(fault) => Some(fault),
        Ok(deathrite_draw_site) => {
    match optional_integer_spec(ms, "deathriteHeal"@, 1, MAX_COMBAT_STAT as nat, path) {
        Err(fault) => Some(fault),
        Ok(deathrite_heal) => {
    match fixed_integer_spec(ms, "deathriteLoseLifePerNearbySiteControlled"@, 1, path) {
        Err(fault) => Some(fault),
        Ok(deathrite_lose_life_per_nearby_site_controlled) => {
    match required_integer_spec(ms, "defense"@, MAX_COMBAT_STAT as nat, path) {
        Err(fault) => Some(fault),
        Ok(defense) => {
    match true_only_spec(ms, "diesAtEndOfControllerTurn"@, path) {
        Err(fault) => Some(fault),
        Ok(dies_at_end_of_controller_turn) => {
    None
    },
    }
    },
    }
    },
    }
    },
    }
    },
    }
    },
    }
    },
    }
    },
    }
    },
    }
    },
    }
}

/// The values of the minion combat fields in a definition without faults.
#[verifier::opaque]
pub open spec fn minion_combat_stats_value(ms: Seq<JsonMember>, path: Seq<char>) -> (u64, bool, bool, bool, bool, bool, Option<u64>, bool, u64, bool) {
    let attack = required_integer_spec(ms, "attack"@, MAX_COMBAT_STAT as nat, path)->Ok_0;
    let cannot_attack_sites = optional_bool_spec(ms, "cannotAttackSites"@, path)->Ok_0;
    let cannot_defend = optional_bool_spec(ms, "cannotDefend"@, path)->Ok_0;
    let cannot_defend_or_intercept = optional_bool_spec(ms, "cannotDefendOrIntercept"@, path)->Ok_0;
    let charge = optional_bool_spec(ms, "charge"@, path)->Ok_0;
    let deathrite_draw_site = optional_bool_spec(ms, "deathriteDrawSite"@, path)->Ok_0;
    let deathrite_heal = optional_integer_spec(ms, "deathriteHeal"@, 1, MAX_COMBAT_STAT as nat, path)->Ok_0;
    let deathrite_lose_life_per_nearby_site_controlled = fixed_integer_spec(ms, "deathriteLoseLifePerNearbySiteControlled"@, 1, path)->Ok_0;
    let defense = required_integer_spec(ms, "defense"@, MAX_COMBAT_STAT as nat, path)->Ok_0;
    let dies_at_end_of_controller_turn = true_only_spec(ms, "diesAtEndOfControllerTurn"@, path)->Ok_0;
    (attack, cannot_attack_sites, cannot_defend, cannot_defend_or_intercept, charge, deathrite_draw_site, deathrite_heal, deathrite_lose_life_per_nearby_site_controlled, defense, dies_at_end_of_controller_turn)
}

/// Reads the minion combat fields.
fn parse_minion_combat_stats(object: &Vec<JsonMember>, path: &str) -> (r: Result<(u64, bool, bool, bool, bool, bool, Option<u64>, bool, u64, bool), FactError>)
    ensures
        r is Ok <==> minion_combat_stats_fault(object@, path@) is None,
        r matches Err(e) ==> minion_combat_stats_fault(object@, path@) == Some(e@),
        r matches Ok(v) ==> v == minion_combat_stats_value(object@, path@),
{
    proof {
        reveal(minion_combat_stats_fault);
    }
    let attack = match required_nonnegative_integer(object, "attack", MAX_COMBAT_STAT, path) {
        Ok(v) => v,
        Err(e) => {
            return Err(e);
        },
    };
    let cannot_attack_sites = match optional_bool(object, "cannotAttackSites", path) {
        Ok(v) => v,
        Err(e) => {
            return Err(e);
        },
    };
    let cannot_defend = match optional_bool(object, "cannotDefend", path) {
        Ok(v) => v,
        Err(e) => {
            return Err(e);
        },
    };
    let cannot_defend_or_intercept = match optional_bool(object, "cannotDefendOrIntercept", path) {
        Ok(v) => v,
        Err(e) => {
            return Err(e);
        },
    };
    let charge = match optional_bool(object, "charge", path) {
        Ok(v) => v,
        Err(e) => {
            return Err(e);
        },
    };
    let deathrite_draw_site = match optional_bool(object, "deathriteDrawSite", path) {
        Ok(v) => v,
        Err(e) => {
            return Err(e);
        },
    };
    let deathrite_heal = match optional_bounded_integer(object, "deathriteHeal", 1, MAX_COMBAT_STAT, path) {
        Ok(v) => v,
        Err(e) => {
            return Err(e);
        },
    };
    let deathrite_lose_life_per_nearby_site_controlled = match fixed_integer(object, "deathriteLoseLifePerNearbySiteControlled", 1, path) {
        Ok(v) => v,
        Err(e) => {
            return Err(e);
        },
    };
    let defense = match required_nonnegative_integer(object, "defense", MAX_COMBAT_STAT, path) {
        Ok(v) => v,
        Err(e) => {
            return Err(e);
        },
    };
    let dies_at_end_of_controller_turn = match true_only(object, "diesAtEndOfControllerTurn", path) {
        Ok(v) => v,
        Err(e) => {
            return Err(e);
        },
    };
    proof {
        reveal(minion_combat_stats_value);
    }
    Ok((attack, cannot_attack_sites, cannot_defend, cannot_defend_or_intercept, charge, deathrite_draw_site, deathrite_heal, deathrite_lose_life_per_nearby_site_controlled, defense, dies_at_end_of_controller_turn))
}

/// The first fault among the minion upkeep fields.
#[verifier::opaque]
pub open spec fn minion_lasting_stats_fault(ms: Seq<JsonMember>, path: Seq<char>) -> Option<FactFault> {
    match optional_bool_spec(ms, "immobile"@, path) {
        Err(fault) => Some(fault),
        Ok(immobile) => {
    match optional_integer_spec(ms, "lanceCount"@, 1, 3 as nat, path) {
        Err(fault) => Some(fault),
        Ok(lance_count) => {
    match optional_bool_spec(ms, "lethal"@, path) {
        Err(fault) => Some(fault),
        Ok(lethal) => {
    match required_integer_spec(ms, "manaCost"@, MAX_SAFE_INTEGER as nat, path) {
        Err(fault) => Some(fault),
        Ok(mana_cost) => {
    match true_only_spec(ms, "mortal"@, path) {
        Err(fault) => Some(fault),
        Ok(mortal) => {
    match optional_integer_spec(ms, "movementBonus"@, 1, 2 as nat, path) {
        Err(fault) => Some(fault),
        Ok(movement_bonus) => {
    match true_only_spec(ms, "nearbyEnemiesPermanentlyLoseStealth"@, path) {
        Err(fault) => Some(fault),
        Ok(nearby_enemies_permanently_lose_stealth) => {
    match fixed_integer_spec(ms, "otherControlledMortalsPowerBonus"@, 1, path) {
        Err(fault) => Some(fault),
        Ok(other_controlled_mortals_power_bonus) => {
    match fixed_integer_spec(ms, "otherNearbyAlliesPowerBonus"@, 1, path) {
        Err(fault) => Some(fault),
        Ok(other_nearby_allies_power_bonus) => {
    match provides_spec(ms, path) {
        Err(fault) => Some(fault),
        Ok(provides) => {
    None
    },
    }
    },
    }
    },
    }
    },
    }
    },
    }
    },
    }
    },
    }
    },
    }
    },
    }
    },
    }
}

/// The values of the minion upkeep fields in a definition without faults.
#[verifier::opaque]
pub open spec fn minion_lasting_stats_value(ms: Seq<JsonMember>, path: Seq<char>) -> (bool, Option<u64>, bool, u64, bool, Option<u64>, bool, bool, bool, Option<Element>) {
    let immobile = optional_bool_spec(ms, "immobile"@, path)->Ok_0;
    let lance_count = optional_integer_spec(ms, "lanceCount"@, 1, 3 as nat, path)->Ok_0;
    let lethal = optional_bool_spec(ms, "lethal"@, path)->Ok_0;
    let mana_cost = required_integer_spec(ms, "manaCost"@, MAX_SAFE_INTEGER as nat, path)->Ok_0;
    let mortal = true_only_spec(ms, "mortal"@, path)->Ok_0;
    let movement_bonus = optional_integer_spec(ms, "movementBonus"@, 1, 2 as nat, path)->Ok_0;
    let nearby_enemies_permanently_lose_stealth = true_only_spec(ms, "nearbyEnemiesPermanentlyLoseStealth"@, path)->Ok_0;
    let other_controlled_mortals_power_bonus = fixed_integer_spec(ms, "otherControlledMortalsPowerBonus"@, 1, path)->Ok_0;
    let other_nearby_allies_power_bonus = fixed_integer_spec(ms, "otherNearbyAlliesPowerBonus"@, 1, path)->Ok_0;
    let provides = provides_spec(ms, path)->Ok_0;
    (immobile, lance_count, lethal, mana_cost, mortal, movement_bonus, nearby_enemies_permanently_lose_stealth, other_controlled_mortals_power_bonus, other_nearby_allies_power_bonus, provides)
}

/// Reads the minion upkeep fields.
fn parse_minion_lasting_stats(object: &Vec<JsonMember>, path: &str) -> (r: Result<(bool, Option<u64>, bool, u64, bool, Option<u64>, bool, bool, bool, Option<Element>), FactError>)
    ensures
        r is Ok <==> minion_lasting_stats_fault(object@, path@) is None,
        r matches Err(e) ==> minion_lasting_stats_fault(object@, path@) == Some(e@),
        r matches Ok(v) ==> v == minion_lasting_stats_value(object@, path@),
{
    proof {
        reveal(minion_lasting_stats_fault);
    }
    let immobile = match optional_bool(object, "immobile", path) {
        Ok(v) => v,
        Err(e) => {
            return Err(e);
        },
    };
    let lance_count = match optional_bounded_integer(object, "lanceCount", 1, 3, path) {
        Ok(v) => v,
        Err(e) => {
            return Err(e);
        },
    };
    let lethal = match optional_bool(object, "lethal", path) {
        Ok(v) => v,
        Err(e) => {
            return Err(e);
        },
    };
    let mana_cost = match required_nonnegative_integer(object, "manaCost", MAX_SAFE_INTEGER, path) {
        Ok(v) => v,
        Err(e) => {
            return Err(e);
        },
    };
    let mortal = match true_only(object, "mortal", path) {
        Ok(v) => v,
        Err(e) => {
            return Err(e);
        },
    };
    let movement_bonus = match optional_bounded_integer(object, "movementBonus", 1, 2, path) {
        Ok(v) => v,
        Err(e) => {
            return Err(e);
        },
    };
    let nearby_enemies_permanently_lose_stealth = match true_only(object, "nearbyEnemiesPermanentlyLoseStealth", path) {
        Ok(v) => v,
        Err(e) => {
            return Err(e);
        },
    };
    let other_controlled_mortals_power_bonus = match fixed_integer(object, "otherControlledMortalsPowerBonus", 1, path) {
        Ok(v) => v,
        Err(e) => {
            return Err(e);
        },
    };
    let other_nearby_allies_power_bonus = match fixed_integer(object, "otherNearbyAlliesPowerBonus", 1, path) {
        Ok(v) => v,
        Err(e) => {
            return Err(e);
        },
    };
    let provides = match parse_provides(object, path) {
        Ok(v) => v,
        Err(e) => {
            return Err(e);
        },
    };
    proof {
        reveal(minion_lasting_stats_value);
    }
    Ok((immobile, lance_count, lethal, mana_cost, mortal, movement_bonus, nearby_enemies_permanently_lose_stealth, other_controlled_mortals_power_bonus, other_nearby_allies_power_bonus, provides))
}

/// The first fault among the minion tap fields.
#[verifier::opaque]
pub open spec fn minion_tap_stats_fault(ms: Seq<JsonMember>, path: Seq<char>) -> Option<FactFault> {
    match optional_bool_spec(ms, "strikesFirstWhileAttacking"@, path) {
        Err(fault) => Some(fault),
        Ok(strikes_first_while_attacking) => {
    match optional_integer_spec(ms, "tapForMana"@, 1, MAX_COMBAT_STAT as nat, path) {
        Err(fault) => Some(fault),
        Ok(tap_for_mana) => {
    match fixed_integer_spec(ms, "tapToDamageEachUnitAtAdjacentLocation"@, 2, path) {
        Err(fault) => Some(fault),
        Ok(tap_to_damage_each_unit_at_adjacent_location) => {
    None
    },
    }
    },
    }
    },
    }
}

/// The values of the minion tap fields in a definition without faults.
#[verifier::opaque]
pub open spec fn minion_tap_stats_value(ms: Seq<JsonMember>, path: Seq<char>) -> (bool, Option<u64>, bool) {
    let strikes_first_while_attacking = optional_bool_spec(ms, "strikesFirstWhileAttacking"@, path)->Ok_0;
    let tap_for_mana = optional_integer_spec(ms, "tapForMana"@, 1, MAX_COMBAT_STAT as nat, path)->Ok_0;
    let tap_to_damage_each_unit_at_adjacent_location = fixed_integer_spec(ms, "tapToDamageEachUnitAtAdjacentLocation"@, 2, path)->Ok_0;
    (strikes_first_while_attacking, tap_for_mana, tap_to_damage_each_unit_at_adjacent_location)
}

/// Reads the minion tap fields.
fn parse_minion_tap_stats(object: &Vec<JsonMember>, path: &str) -> (r: Result<(bool, Option<u64>, bool), FactError>)
    ensures
        r is Ok <==> minion_tap_stats_fault(object@, path@) is None,
        r matches Err(e) ==> minion_tap_stats_fault(object@, path@) == Some(e@),
        r matches Ok(v) ==> v == minion_tap_stats_value(object@, path@),
{
    proof {
        reveal(minion_tap_stats_fault);
    }
    let strikes_first_while_attacking = match optional_bool(object, "strikesFirstWhileAttacking", path) {
        Ok(v) => v,
        Err(e) => {
            return Err(e);
        },
    };
    let tap_for_mana = match optional_bounded_integer(object, "tapForMana", 1, MAX_COMBAT_STAT, path) {
        Ok(v) => v,
        Err(e) => {
            return Err(e);
        },
    };
    let tap_to_damage_each_unit_at_adjacent_location = match fixed_integer(object, "tapToDamageEachUnitAtAdjacentLocation", 2, path) {
        Ok(v) => v,
        Err(e) => {
            return Err(e);
        },
    };
    proof {
        reveal(minion_tap_stats_value);
    }
    Ok((strikes_first_while_attacking, tap_for_mana, tap_to_damage_each_unit_at_adjacent_location))
}

/// Whether minion facts hold exactly the values read by the field groups.
#[verifier::opaque]
pub open spec fn minion_fields_match(f: MinionFacts, movement_traits: (bool, Option<AlternativeSummonPayment>, bool, bool, bool, Option<DamagePrevention>, Option<EndTurnStealth>, bool, GenesisEffects, bool), position_traits: (bool, Option<BasicMovementRestriction>, bool, bool, bool, bool, bool, bool, bool, bool), casting_traits: (Option<RequiredCastRegion>, bool, bool, bool, Option<u64>, bool, bool, bool), deathrite_damage_each_unit_here: Option<u64>, discard_spell_to_damage_random_other_unit_here: Option<u64>, combat_stats: (u64, bool, bool, bool, bool, bool, Option<u64>, bool, u64, bool), lasting_stats: (bool, Option<u64>, bool, u64, bool, Option<u64>, bool, bool, bool, Option<Element>), tap_stats: (bool, Option<u64>, bool), thresholds: Seq<u64>, untaps_at_end_of_controller_turn: bool) -> bool {
    &&& f.airborne == movement_traits.0
    &&& f.alternative_summon_payment == movement_traits.1
    &&& f.at_start_of_controller_turn_teleport_to_random_site_or_void == movement_traits.2
    &&& f.attack == combat_stats.0 as u8
    &&& f.burrowing == movement_traits.3
    &&& f.cannot_attack_sites == combat_stats.1
    &&& f.cannot_defend == combat_stats.2
    &&& f.cannot_defend_or_intercept == combat_stats.3
    &&& f.charge == combat_stats.4
    &&& f.connects_top_bottom == movement_traits.4
    &&& f.damage_prevention == movement_traits.5
    &&& f.deathrite_damage_each_unit_here == byte_of(deathrite_damage_each_unit_here)
    &&& f.deathrite_draw_site == combat_stats.5
    &&& f.deathrite_heal == byte_of(combat_stats.6)
    &&& f.deathrite_lose_life_per_nearby_site_controlled == combat_stats.7
    &&& f.defense == combat_stats.8 as u8
    &&& f.dies_at_end_of_controller_turn == combat_stats.9
    &&& f.discard_spell_to_damage_random_other_unit_here == byte_of(discard_spell_to_damage_random_other_unit_here)
    &&& f.end_turn_stealth == movement_traits.6
    &&& f.gains_power_ranged_and_spellcaster_atop_tower == movement_traits.7
    &&& f.genesis == movement_traits.8
    &&& f.immobile == lasting_stats.0
    &&& f.lance_count == byte_of(lasting_stats.1)
    &&& f.lethal == lasting_stats.2
    &&& f.mana_cost == lasting_stats.3
    &&& f.may_ranged_strike_once_during_basic_movement == movement_traits.9
    &&& f.may_step_after_ranged_strike == position_traits.0
    &&& f.mortal == lasting_stats.4
    &&& f.movement_bonus == byte_of(lasting_stats.5)
    &&& f.movement_restriction == position_traits.1
    &&& f.must_be_cast_to_outer_column == casting_traits.2
    &&& f.must_be_cast_to_water_site == casting_traits.3
    &&& f.nearby_enemies_permanently_lose_stealth == lasting_stats.6
    &&& f.occupies_square_area_two == position_traits.2
    &&& f.ordinary == position_traits.3
    &&& f.other_controlled_mortals_power_bonus == lasting_stats.7
    &&& f.other_nearby_allies_power_bonus == lasting_stats.8
    &&& f.provides == lasting_stats.9
    &&& f.ranged == position_traits.4
    &&& f.required_cast_region == casting_traits.0
    &&& f.shoots_drag_projectile == position_traits.5
    &&& f.site_provides_no_threshold == position_traits.6
    &&& f.spellcaster == position_traits.7
    &&& f.stealth == position_traits.8
    &&& f.strikes_first_while_attacking == tap_stats.0
    &&& f.submerge == position_traits.9
    &&& f.summon_to_any_site == casting_traits.1
    &&& f.tap_for_mana == byte_of(tap_stats.1)
    &&& f.tap_to_damage_each_unit_at_adjacent_location == tap_stats.2
    &&& f.tap_to_shoot_projectile_damage == byte_of(casting_traits.4)
    &&& f.thresholds@ == thresholds
    &&& f.token == casting_traits.5
    &&& f.untaps_at_end_of_controller_turn == untaps_at_end_of_controller_turn
    &&& f.voidwalk == casting_traits.6
    &&& f.waterbound == casting_traits.7
}

/// Builds minion facts from the values read by the field groups.
fn assemble_minion(movement_traits: (bool, Option<AlternativeSummonPayment>, bool, bool, bool, Option<DamagePrevention>, Option<EndTurnStealth>, bool, GenesisEffects, bool), position_traits: (bool, Option<BasicMovementRestriction>, bool, bool, bool, bool, bool, bool, bool, bool), casting_traits: (Option<RequiredCastRegion>, bool, bool, bool, Option<u64>, bool, bool, bool), deathrite_damage_each_unit_here: Option<u64>, discard_spell_to_damage_random_other_unit_here: Option<u64>, combat_stats: (u64, bool, bool, bool, bool, bool, Option<u64>, bool, u64, bool), lasting_stats: (bool, Option<u64>, bool, u64, bool, Option<u64>, bool, bool, bool, Option<Element>), tap_stats: (bool, Option<u64>, bool), thresholds: Thresholds, untaps_at_end_of_controller_turn: bool) -> (f: MinionFacts)
    ensures
        minion_fields_match(f, movement_traits, position_traits, casting_traits, deathrite_damage_each_unit_here, discard_spell_to_damage_random_other_unit_here, combat_stats, lasting_stats, tap_stats, thresholds@, untaps_at_end_of_controller_turn),
{
    proof {
        reveal(minion_fields_match);
    }
    MinionFacts {
        airborne: movement_traits.0,
        alternative_summon_payment: movement_traits.1,
        at_start_of_controller_turn_teleport_to_random_site_or_void: movement_traits.2,
        attack: combat_stats.0 as u8,
        burrowing: movement_traits.3,
        cannot_attack_sites: combat_stats.1,
        cannot_defend: combat_stats.2,
        cannot_defend_or_intercept: combat_stats.3,
        charge: combat_stats.4,
        connects_top_bottom: movement_traits.4,
        damage_prevention: movement_traits.5,
        deathrite_damage_each_unit_here: compact(deathrite_damage_each_unit_here),
        deathrite_draw_site: combat_stats.5,
        deathrite_heal: compact(combat_stats.6),
        deathrite_lose_life_per_nearby_site_controlled: combat_stats.7,
        defense: combat_stats.8 as u8,
        dies_at_end_of_controller_turn: combat_stats.9,
        discard_spell_to_damage_random_other_unit_here: compact(discard_spell_to_damage_random_other_unit_here),
        end_turn_stealth: movement_traits.6,
        gains_power_ranged_and_spellcaster_atop_tower: movement_traits.7,
        genesis: movement_traits.8,
        immobile: lasting_stats.0,
        lance_count: compact(lasting_stats.1),
        lethal: lasting_stats.2,
        mana_cost: lasting_stats.3,
        may_ranged_strike_once_during_basic_movement: movement_traits.9,
        may_step_after_ranged_strike: position_traits.0,
        mortal: lasting_stats.4,
        movement_bonus: compact(lasting_stats.5),
        movement_restriction: position_traits.1,
        must_be_cast_to_outer_column: casting_traits.2,
        must_be_cast_to_water_site: casting_traits.3,
        nearby_enemies_permanently_lose_stealth: lasting_stats.6,
        occupies_square_area_two: position_traits.2,
        ordinary: position_traits.3,
        other_controlled_mortals_power_bonus: lasting_stats.7,
        other_nearby_allies_power_bonus: lasting_stats.8,
        provides: lasting_stats.9,
        ranged: position_traits.4,
        required_cast_region: casting_traits.0,
        shoots_drag_projectile: position_traits.5,
        site_provides_no_threshold: position_traits.6,
        spellcaster: position_traits.7,
        stealth: position_traits.8,
        strikes_first_while_attacking: tap_stats.0,
        submerge: position_traits.9,
        summon_to_any_site: casting_traits.1,
        tap_for_mana: compact(tap_stats.1),
        tap_to_damage_each_unit_at_adjacent_location: tap_stats.2,
        tap_to_shoot_projectile_damage: compact(casting_traits.4),
        thresholds,
        token: casting_traits.5,
        untaps_at_end_of_controller_turn,
        voidwalk: casting_traits.6,
        waterbound: casting_traits.7,
    }
}

/// The first fault of a minion definition, in the order the fields and combinations are checked.
pub open spec fn minion_fault(ms: Seq<JsonMember>, path: Seq<char>) -> Option<FactFault> {
    let unknown = unknown_fault(ms, minion_field_names(), path);
    let movement_traits_fault = minion_movement_traits_fault(ms, path);
    let movement_traits = minion_movement_traits_value(ms, path);
    let position_traits_fault = minion_position_traits_fault(ms, path);
    let position_traits = minion_position_traits_value(ms, path);
    let casting_traits_fault = minion_casting_traits_fault(ms, path, movement_traits.3, position_traits.9);
    let casting_traits = minion_casting_traits_value(ms, path, movement_traits.3, position_traits.9);
    let deathrite_damage_each_unit_here_read = optional_integer_spec(ms, "deathriteDamageEachUnitHere"@, 1, MAX_COMBAT_STAT as nat, path);
    let deathrite_damage_each_unit_here = deathrite_damage_each_unit_here_read->Ok_0;
    let discard_spell_to_damage_random_other_unit_here_read = optional_integer_spec(ms, "discardSpellToDamageRandomOtherUnitHere"@, 1, MAX_COMBAT_STAT as nat, path);
    let discard_spell_to_damage_random_other_unit_here = discard_spell_to_damage_random_other_unit_here_read->Ok_0;
    let combat_stats_fault = minion_combat_stats_fault(ms, path);
    let combat_stats = minion_combat_stats_value(ms, path);
    let lasting_stats_fault = minion_lasting_stats_fault(ms, path);
    let lasting_stats = minion_lasting_stats_value(ms, path);
    let tap_stats_fault = minion_tap_stats_fault(ms, path);
    let tap_stats = minion_tap_stats_value(ms, path);
    let thresholds_read = thresholds_spec(ms, path);
    let thresholds = thresholds_read->Ok_0;
    let untaps_at_end_of_controller_turn_read = true_only_spec(ms, "untapsAtEndOfControllerTurn"@, path);
    let untaps_at_end_of_controller_turn = untaps_at_end_of_controller_turn_read->Ok_0;
    if unknown is Some {
        Some(unknown->0)
    } else if movement_traits_fault is Some {
        Some(movement_traits_fault->0)
    } else if position_traits_fault is Some {
        Some(position_traits_fault->0)
    } else if casting_traits_fault is Some {
        Some(casting_traits_fault->0)
    } else if movement_traits.8.disable_self_until_damaged && position_traits.8 {
        Some((path, "Genesis disable with Stealth is unsupported"@))
    } else if movement_traits.8.may_damage_target_adjacent_unit && movement_traits.1 is Some {
        Some((path, "targeted Genesis with alternative summon payment is unsupported"@))
    } else if movement_traits.9 && !position_traits.4 {
        Some((field_path(path, "mayRangedStrikeOnceDuringBasicMovement"@), "requires ranged"@))
    } else if movement_traits.9 && position_traits.0 {
        Some((path, "simultaneous during-movement and post-Ranged movement is unsupported"@))
    } else if movement_traits.2 && !casting_traits.6 {
        Some((field_path(path, "atStartOfControllerTurnTeleportToRandomSiteOrVoid"@), "requires voidwalk"@))
    } else if movement_traits.2 && position_traits.2 {
        Some((path, "oversized start-turn random teleport is unsupported"@))
    } else if deathrite_damage_each_unit_here_read is Err {
        Some(deathrite_damage_each_unit_here_read->Err_0)
    } else if discard_spell_to_damage_random_other_unit_here_read is Err {
        Some(discard_spell_to_damage_random_other_unit_here_read->Err_0)
    } else if position_traits.2 && (position_traits.3 || movement_traits.4 || movement_traits.1 == Some(AlternativeSummonPayment::SacrificeMinionAtSummoningLocationForManaDiscountTwo) || casting_traits.0 is Some || casting_traits.3 || movement_traits.3 || position_traits.9 || casting_traits.6 || casting_traits.7 || position_traits.4 || casting_traits.4 is Some || position_traits.5 || position_traits.6 || movement_traits.7 || casting_traits.2 || casting_traits.5) {
        Some((field_path(path, "occupiesSquareArea"@), "has an unsupported ability combination"@))
    } else if casting_traits.5 && declares_genesis(movement_traits.8) {
        Some((path, "token Genesis effects are unsupported"@))
    } else if combat_stats_fault is Some {
        Some(combat_stats_fault->0)
    } else if lasting_stats_fault is Some {
        Some(lasting_stats_fault->0)
    } else if tap_stats_fault is Some {
        Some(tap_stats_fault->0)
    } else if thresholds_read is Err {
        Some(thresholds_read->Err_0)
    } else if untaps_at_end_of_controller_turn_read is Err {
        Some(untaps_at_end_of_controller_turn_read->Err_0)
    } else {
        None
    }
}

/// The minion facts that a definition without faults reads to.
pub open spec fn minion_read(f: MinionFacts, ms: Seq<JsonMember>, path: Seq<char>) -> bool {
    minion_fields_match(
        f,
        minion_movement_traits_value(ms, path),
        minion_position_traits_value(ms, path),
        minion_casting_traits_value(ms, path, minion_movement_traits_value(ms, path).3, minion_position_traits_value(ms, path).9),
        optional_integer_spec(ms, "deathriteDamageEachUnitHere"@, 1, MAX_COMBAT_STAT as nat, path)->Ok_0,
        optional_integer_spec(ms, "discardSpellToDamageRandomOtherUnitHere"@, 1, MAX_COMBAT_STAT as nat, path)->Ok_0,
        minion_combat_stats_value(ms, path),
        minion_lasting_stats_value(ms, path),
        minion_tap_stats_value(ms, path),
        thresholds_spec(ms, path)->Ok_0,
        true_only_spec(ms, "untapsAtEndOfControllerTurn"@, path)->Ok_0,
    )
}

/// Parses a minion definition.
fn parse_minion(object: &Vec<JsonMember>, path: &str) -> (r: Result<MinionFacts, FactError>)
    ensures
        r is Ok <==> minion_fault(object@, path@) is None,
        r matches Err(e) ==> minion_fault(object@, path@) == Some(e@),
        r matches Ok(f) ==> minion_read(f, object@, path@),
{
    let allowed = minion_fields();
    match reject_unknown(object, &allowed, path) {
        Ok(()) => {},
        Err(e) => {
            return Err(e);
        },
    }
    let movement_traits = match parse_minion_movement_traits(object, path) {
        Ok(v) => v,
        Err(e) => {
            return Err(e);
        },
    };
    let position_traits = match parse_minion_position_traits(object, path) {
        Ok(v) => v,
        Err(e) => {
            return Err(e);
        },
    };
    let casting_traits = match parse_minion_casting_traits(object, path, movement_traits.3, position_traits.9) {
        Ok(v) => v,
        Err(e) => {
            return Err(e);
        },
    };
    if movement_traits.8.disable_self_until_damaged && position_traits.8 {
        return Err(FactError::new(path.to_owned(), "Genesis disable with Stealth is unsupported".to_owned()));
    }
    if movement_traits.8.may_damage_target_adjacent_unit && movement_traits.1.is_some() {
        return Err(FactError::new(path.to_owned(), "targeted Genesis with alternative summon payment is unsupported".to_owned()));
    }
    if movement_traits.9 && !position_traits.4 {
        return Err(FactError::new(make_field_path(path, "mayRangedStrikeOnceDuringBasicMovement"), "requires ranged".to_owned()));
    }
    if movement_traits.9 && position_traits.0 {
        return Err(FactError::new(path.to_owned(), "simultaneous during-movement and post-Ranged movement is unsupported".to_owned()));
    }
    if movement_traits.2 && !casting_traits.6 {
        return Err(FactError::new(make_field_path(path, "atStartOfControllerTurnTeleportToRandomSiteOrVoid"), "requires voidwalk".to_owned()));
    }
    if movement_traits.2 && position_traits.2 {
        return Err(FactError::new(path.to_owned(), "oversized start-turn random teleport is unsupported".to_owned()));
    }
    let deathrite_damage_each_unit_here = match optional_bounded_integer(object, "deathriteDamageEachUnitHere", 1, MAX_COMBAT_STAT, path) {
        Ok(v) => v,
        Err(e) => {
            return Err(e);
        },
    };
    let discard_spell_to_damage_random_other_unit_here = match optional_bounded_integer(object, "discardSpellToDamageRandomOtherUnitHere", 1, MAX_COMBAT_STAT, path) {
        Ok(v) => v,
        Err(e) => {
            return Err(e);
        },
    };
    if position_traits.2 && (position_traits.3 || movement_traits.4 || matches!(movement_traits.1, Some(AlternativeSummonPayment::SacrificeMinionAtSummoningLocationForManaDiscountTwo)) || casting_traits.0.is_some() || casting_traits.3 || movement_traits.3 || position_traits.9 || casting_traits.6 || casting_traits.7 || position_traits.4 || casting_traits.4.is_some() || position_traits.5 || position_traits.6 || movement_traits.7 || casting_traits.2 || casting_traits.5) {
        return Err(FactError::new(make_field_path(path, "occupiesSquareArea"), "has an unsupported ability combination".to_owned()));
    }
    if casting_traits.5 && movement_traits.8.any() {
        return Err(FactError::new(path.to_owned(), "token Genesis effects are unsupported".to_owned()));
    }
    let combat_stats = match parse_minion_combat_stats(object, path) {
        Ok(v) => v,
        Err(e) => {
            return Err(e);
        },
    };
    let lasting_stats = match parse_minion_lasting_stats(object, path) {
        Ok(v) => v,
        Err(e) => {
            return Err(e);
        },
    };
    let tap_stats = match parse_minion_tap_stats(object, path) {
        Ok(v) => v,
        Err(e) => {
            return Err(e);
        },
    };
    let thresholds = match parse_thresholds(object, path) {
        Ok(v) => v,
        Err(e) => {
            return Err(e);
        },
    };
    let untaps_at_end_of_controller_turn = match true_only(object, "untapsAtEndOfControllerTurn", path) {
        Ok(v) => v,
        Err(e) => {
            return Err(e);
        },
    };
    Ok(assemble_minion(movement_traits, position_traits, casting_traits, deathrite_damage_each_unit_here, discard_spell_to_damage_random_other_unit_here, combat_stats, lasting_stats, tap_stats, thresholds, untaps_at_end_of_controller_turn))
}


/// The path under which a card's fields are reported: `cards.{card_id}`.
pub open spec fn card_path(card_id: Seq<char>) -> Seq<char> {
    "cards."@ + card_id
}

/// The `cardType` of a definition, when it is a string.
pub open spec fn card_type_of(ms: Seq<JsonMember>) -> Option<Seq<char>> {
    match member_value(ms, "cardType"@) {
        Some(JsonValue::String(s)) => Some(s@),
        _ => None,
    }
}

/// The first fault of a card definition: the card ID, the definition's
/// shape, the obsolete field, the card type, then the fields of that type.
pub open spec fn card_definition_fault(card_id: Seq<char>, value: JsonValue) -> Option<FactFault> {
    let path = card_path(card_id);
    if !valid_identifier(card_id) {
        Some(("cardId"@, identifier_problem()))
    } else {
        match value {
            JsonValue::Object(members) => {
                let ms = members@;
                if has_member(ms, "genesisDrawSpell"@) {
                    Some(
                        (
                            field_path(path, "genesisDrawSpell"@),
                            "is obsolete; use genesisDrawSpells"@,
                        ),
                    )
                } else if card_type_of(ms) == Some("avatar"@) {
                    avatar_fault(ms, path)
                } else if card_type_of(ms) == Some("artifact"@) {
                    artifact_fault(ms, path)
                } else if card_type_of(ms) == Some("aura"@) {
                    aura_fault(ms, path)
                } else if card_type_of(ms) == Some("magic"@) {
                    magic_fault(ms, path)
                } else if card_type_of(ms) == Some("minion"@) {
                    minion_fault(ms, path)
                } else if card_type_of(ms) == Some("site"@) {
                    site_fault(ms, path)
                } else {
                    Some((field_path(path, "cardType"@), "is unsupported"@))
                }
            },
            _ => Some((path, "must be an object"@)),
        }
    }
}

/// The facts a card definition without faults reads to: the kind named by
/// `cardType`, with that kind's fields.
pub open spec fn card_definition_read(f: CardFacts, value: JsonValue, card_id: Seq<char>) -> bool {
    let path = card_path(card_id);
    match value {
        JsonValue::Object(members) => {
            let ms = members@;
            match f {
                CardFacts::Avatar(a) => card_type_of(ms) == Some("avatar"@) && avatar_read(a, ms, path),
                CardFacts::Artifact(a) => card_type_of(ms) == Some("artifact"@) && artifact_read(
                    a,
                    ms,
                    path,
                ),
                CardFacts::Aura(a) => card_type_of(ms) == Some("aura"@) && aura_read(a, ms, path),
                CardFacts::Magic(m) => card_type_of(ms) == Some("magic"@) && magic_read(m, ms, path),
                CardFacts::Minion(m) => card_type_of(ms) == Some("minion"@) && minion_read(
                    m,
                    ms,
                    path,
                ),
                CardFacts::Site(s) => card_type_of(ms) == Some("site"@) && site_read(s, ms, path),
            }
        },
        _ => false,
    }
}

/// The `cardType` of a definition, when it is a string.
fn card_type(object: &Vec<JsonMember>) -> (r: Option<&str>)
    ensures
        r matches Some(s) ==> card_type_of(object@) == Some(s@),
        r is None ==> card_type_of(object@) is None,
{
    match get_member(object, "cardType") {
        Some(JsonValue::String(s)) => Some(s.as_str()),
        _ => None,
    }
}

/// A Magic card definition that parses keeps, for each element, the
/// threshold written under that element's name in its `thresholds` object.
pub proof fn lemma_magic_thresholds_follow_element_names(
    card_id: Seq<char>,
    value: JsonValue,
    m: MagicFacts,
    name: Seq<char>,
    element: Element,
)
    requires
        card_definition_fault(card_id, value) is None,
        card_definition_read(CardFacts::Magic(m), value, card_id),
        element_named(name) == Some(element),
    ensures
        value matches JsonValue::Object(members) && member_value(members@, "thresholds"@) matches Some(
            JsonValue::Object(thr),
        ) && member_value(thr@, name) matches Some(v) && safe_integer_value(v) == Some(
            m.thresholds@[element_index(element) as int] as int,
        ),
{
    let path = card_path(card_id);
    let ms = value->Object_0@;
    assert(card_type_of(ms) == Some("magic"@));
    reveal_strlit("avatar");
    reveal_strlit("artifact");
    reveal_strlit("aura");
    reveal_strlit("magic");
    assert(value is Object);
    assert(valid_identifier(card_id));
    assert(!has_member(ms, "genesisDrawSpell"@));
    assert("magic"@.len() != "avatar"@.len());
    assert("magic"@.len() != "aura"@.len());
    assert("magic"@[1] != "artifact"@[1]);
    assert(card_definition_fault(card_id, value) == magic_fault(ms, path));
    assert(magic_fault(ms, path) is None);
    assert(thresholds_spec(ms, path) is Ok);
    lemma_thresholds_follow_element_names(ms, path, thresholds_spec(ms, path)->Ok_0, name, element);
}

/// Parses one public card definition into a type that cannot retain invalid
/// raw states.
pub fn parse_card_definition(card_id: &str, value: &JsonValue) -> (r: Result<CardFacts, FactError>)
    ensures
        r is Ok <==> card_definition_fault(card_id@, *value) is None,
        r matches Err(e) ==> card_definition_fault(card_id@, *value) == Some(e@),
        r matches Ok(f) ==> card_definition_read(f, *value, card_id@),
{
    match validate_identifier(card_id, "cardId") {
        Ok(()) => {},
        Err(e) => {
            return Err(e);
        },
    }
    let mut path = "cards.".to_owned();
    push_str(&mut path, card_id);
    let path_str = path.as_str();
    let object = match value {
        JsonValue::Object(members) => members,
        _ => {
            return Err(FactError::new(path, "must be an object".to_owned()));
        },
    };
    if find_member(object, "genesisDrawSpell").is_some() {
        return Err(
            FactError::new(
                make_field_path(path_str, "genesisDrawSpell"),
                "is obsolete; use genesisDrawSpells".to_owned(),
            ),
        );
    }
    let kind = card_type(object);
    proof {
        reveal_strlit("avatar");
        reveal_strlit("artifact");
        reveal_strlit("aura");
        reveal_strlit("magic");
        reveal_strlit("minion");
        reveal_strlit("site");
    }
    match kind {
        Some(k) => {
            if same_text(k, "avatar") {
                return match parse_avatar(object, path_str) {
                    Ok(a) => Ok(CardFacts::Avatar(a)),
                    Err(e) => Err(e),
                };
            }
            if same_text(k, "artifact") {
                return match parse_artifact(object, path_str) {
                    Ok(a) => Ok(CardFacts::Artifact(a)),
                    Err(e) => Err(e),
                };
            }
            if same_text(k, "aura") {
                return match parse_aura(object, path_str) {
                    Ok(a) => Ok(CardFacts::Aura(a)),
                    Err(e) => Err(e),
                };
            }
            if same_text(k, "magic") {
                return match parse_magic(object, path_str) {
                    Ok(m) => Ok(CardFacts::Magic(m)),
                    Err(e) => Err(e),
                };
            }
            if same_text(k, "minion") {
                return match parse_minion(object, path_str) {
                    Ok(m) => Ok(CardFacts::Minion(m)),
                    Err(e) => Err(e),
                };
            }
            if same_text(k, "site") {
                return match parse_site(object, path_str) {
                    Ok(s) => Ok(CardFacts::Site(s)),
                    Err(e) => Err(e),
                };
            }
        },
        None => {},
    }
    Err(FactError::new(make_field_path(path_str, "cardType"), "is unsupported".to_owned()))
}

} // verus!
