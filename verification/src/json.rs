//! The JSON document model that card facts and canonical identities read.

use vstd::prelude::*;

use crate::text::{same_text, decimal_char_vec, decimal_chars, json_string_tail, json_string_tail_chars};

verus! {

/// A JSON number as the engine distinguishes numbers.
#[derive(Clone, Copy, Debug, Eq, PartialEq, Structural)]
pub enum JsonNumber {
    /// A non-negative integer.
    PosInt(u64),
    /// A negative integer.
    NegInt(i64),
    /// A number written with a fraction or an exponent. It holds its value
    /// when that value is a whole number of magnitude at most 2^53 - 1, and
    /// `None` otherwise.
    Float(Option<i64>),
}

/// One `"key": value` member of a JSON object, in document order.
#[derive(Debug)]
pub struct JsonMember {
    /// The member name.
    pub key: String,
    /// The member value.
    pub value: JsonValue,
}

/// A JSON value. Object members keep their document order.
#[derive(Debug)]
pub enum JsonValue {
    /// `null`.
    Null,
    /// `true` or `false`.
    Bool(bool),
    /// A number.
    Number(JsonNumber),
    /// A string.
    String(String),
    /// An array.
    Array(Vec<JsonValue>),
    /// An object.
    Object(Vec<JsonMember>),
}

/// The magnitude of a signed integer.
pub open spec fn magnitude(i: i64) -> nat {
    if i < 0 {
        (-i) as nat
    } else {
        i as nat
    }
}

/// The decimal text of an integral number, or `None` for any other number.
pub open spec fn number_text(n: JsonNumber) -> Option<Seq<char>> {
    match n {
        JsonNumber::PosInt(u) => Some(decimal_chars(u as nat)),
        JsonNumber::NegInt(i) => if i < 0 {
            Some(seq!['-'] + decimal_chars(magnitude(i)))
        } else {
            Some(decimal_chars(magnitude(i)))
        },
        JsonNumber::Float(_) => None,
    }
}

/// The JSON text of a string: quoted and escaped.
pub open spec fn string_text(s: Seq<char>) -> Seq<char> {
    seq!['"'] + json_string_tail(s)
}

/// The magnitude of `i` as an unsigned integer.
pub fn magnitude_u64(i: i64) -> (r: u64)
    ensures
        r as nat == magnitude(i),
{
    if i == i64::MIN {
        9223372036854775808u64
    } else if i < 0 {
        (-i) as u64
    } else {
        i as u64
    }
}

/// Appends the decimal text of an integral number; fails on other numbers.
pub fn push_number_text(n: &JsonNumber, out: &mut Vec<char>) -> (r: bool)
    ensures
        r == number_text(*n) is Some,
        r ==> final(out)@ == old(out)@ + number_text(*n)->0,
        !r ==> final(out)@ == old(out)@,
{
    match n {
        JsonNumber::PosInt(u) => {
            let mut digits = decimal_char_vec(*u);
            out.append(&mut digits);
            true
        },
        JsonNumber::NegInt(i) => {
            if *i < 0 {
                out.push('-');
            }
            let mut digits = decimal_char_vec(magnitude_u64(*i));
            let ghost mid = out@;
            out.append(&mut digits);
            proof {
                if *i < 0 {
                    assert(final(out)@ =~= old(out)@ + (seq!['-'] + decimal_chars(magnitude(*i))));
                }
            }
            true
        },
        JsonNumber::Float(_) => false,
    }
}

/// Appends the quoted, escaped JSON text of `s`.
pub fn push_string_text(s: &str, out: &mut Vec<char>)
    ensures
        final(out)@ == old(out)@ + string_text(s@),
{
    out.push('"');
    let mut tail = json_string_tail_chars(s);
    out.append(&mut tail);
    assert(final(out)@ =~= old(out)@ + string_text(s@));
}

/// The value of the first member named `key`, if any.
pub open spec fn member_value(members: Seq<JsonMember>, key: Seq<char>) -> Option<JsonValue>
    decreases members.len(),
{
    if members.len() == 0 {
        None
    } else if members[0].key@ == key {
        Some(members[0].value)
    } else {
        member_value(members.skip(1), key)
    }
}

/// Whether some member is named `key`.
pub open spec fn has_member(members: Seq<JsonMember>, key: Seq<char>) -> bool {
    exists|i: int| 0 <= i < members.len() && (#[trigger] members[i]).key@ == key
}

/// The index of the first member named `key`, if any.
pub fn find_member(members: &Vec<JsonMember>, key: &str) -> (r: Option<usize>)
    ensures
        r is None <==> member_value(members@, key@) is None,
        r is None <==> !has_member(members@, key@),
        r matches Some(i) ==> i < members@.len() && member_value(members@, key@) == Some(
            members@[i as int].value,
        ),
{
    let mut i: usize = 0;
    assert(members@.skip(0) =~= members@);
    while i < members.len()
        invariant
            i <= members@.len(),
            member_value(members@, key@) == member_value(members@.skip(i as int), key@),
            forall|j: int| 0 <= j < i ==> (#[trigger] members@[j]).key@ != key@,
        decreases members@.len() - i,
    {
        if same_text(members[i].key.as_str(), key) {
            return Some(i);
        }
        assert(members@.skip(i as int).skip(1) =~= members@.skip(i + 1));
        i = i + 1;
    }
    None
}

/// The value of the first member named `key`, if any.
pub fn get_member<'a>(members: &'a Vec<JsonMember>, key: &str) -> (r: Option<&'a JsonValue>)
    ensures
        r matches Some(v) ==> member_value(members@, key@) == Some(*v),
        r is None ==> member_value(members@, key@) is None,
{
    match find_member(members, key) {
        Some(i) => Some(&members[i].value),
        None => None,
    }
}

/// The value of the first member named `key` when `v` is an object; `None`
/// for any other value.
pub open spec fn value_member(v: JsonValue, key: Seq<char>) -> Option<JsonValue> {
    match v {
        JsonValue::Object(members) => member_value(members@, key),
        _ => None,
    }
}

/// The text of a string value; `None` for any other value or for no value.
pub open spec fn string_of(v: Option<JsonValue>) -> Option<Seq<char>> {
    match v {
        Some(JsonValue::String(s)) => Some(s@),
        _ => None,
    }
}

/// The value of the first member named `key` when `v` is an object.
pub fn value_get<'a>(v: &'a JsonValue, key: &str) -> (r: Option<&'a JsonValue>)
    ensures
        r matches Some(x) ==> value_member(*v, key@) == Some(*x),
        r is None ==> value_member(*v, key@) is None,
{
    match v {
        JsonValue::Object(members) => get_member(members, key),
        _ => None,
    }
}

/// The text of `v` when it is a string.
pub fn as_text<'a>(v: Option<&'a JsonValue>) -> (r: Option<&'a str>)
    ensures
        match v {
            Some(x) => match r {
                Some(t) => string_of(Some(*x)) == Some(t@),
                None => string_of(Some(*x)) is None,
            },
            None => r is None,
        },
{
    match v {
        Some(JsonValue::String(s)) => Some(s.as_str()),
        _ => None,
    }
}

/// Whether two numbers are equal. A number that is not whole, or whose
/// value the library does not hold, equals no number.
pub open spec fn numbers_same(x: JsonNumber, y: JsonNumber) -> bool {
    match (x, y) {
        (JsonNumber::PosInt(u), JsonNumber::PosInt(v)) => u == v,
        (JsonNumber::NegInt(i), JsonNumber::NegInt(j)) => i == j,
        (JsonNumber::Float(Some(p)), JsonNumber::Float(Some(q))) => p == q,
        _ => false,
    }
}

/// Whether two values are equal: same kind, equal scalars, and equal items
/// or members position by position. For objects whose members are unique
/// and in key order, as a parser's map gives them, this is map equality.
pub open spec fn json_same(a: JsonValue, b: JsonValue) -> bool
    decreases a, 0nat,
{
    match a {
        JsonValue::Null => b is Null,
        JsonValue::Bool(x) => match b {
            JsonValue::Bool(y) => x == y,
            _ => false,
        },
        JsonValue::Number(x) => match b {
            JsonValue::Number(y) => numbers_same(x, y),
            _ => false,
        },
        JsonValue::String(x) => match b {
            JsonValue::String(y) => x@ == y@,
            _ => false,
        },
        JsonValue::Array(xs) => match b {
            JsonValue::Array(ys) => xs@.len() == ys@.len() && items_same(xs@, ys@, xs@.len()),
            _ => false,
        },
        JsonValue::Object(xs) => match b {
            JsonValue::Object(ys) => xs@.len() == ys@.len() && members_same(xs@, ys@, xs@.len()),
            _ => false,
        },
    }
}

/// Whether the first `n` items of two arrays are pairwise equal.
pub open spec fn items_same(xs: Seq<JsonValue>, ys: Seq<JsonValue>, n: nat) -> bool
    decreases xs, n,
{
    if n == 0 {
        true
    } else if n > xs.len() || n > ys.len() {
        false
    } else {
        items_same(xs, ys, (n - 1) as nat) && json_same(xs[n - 1], ys[n - 1])
    }
}

/// Whether the first `n` members of two objects have pairwise equal keys
/// and values.
pub open spec fn members_same(xs: Seq<JsonMember>, ys: Seq<JsonMember>, n: nat) -> bool
    decreases xs, n,
{
    if n == 0 {
        true
    } else if n > xs.len() || n > ys.len() {
        false
    } else {
        members_same(xs, ys, (n - 1) as nat) && xs[n - 1].key@ == ys[n - 1].key@ && json_same(
            xs[n - 1].value,
            ys[n - 1].value,
        )
    }
}

fn numbers_equal(x: &JsonNumber, y: &JsonNumber) -> (r: bool)
    ensures
        r == numbers_same(*x, *y),
{
    match (x, y) {
        (JsonNumber::PosInt(u), JsonNumber::PosInt(v)) => *u == *v,
        (JsonNumber::NegInt(i), JsonNumber::NegInt(j)) => *i == *j,
        (JsonNumber::Float(Some(p)), JsonNumber::Float(Some(q))) => *p == *q,
        _ => false,
    }
}

/// Compares two values as [`json_same`] does.
pub fn json_equal(a: &JsonValue, b: &JsonValue) -> (r: bool)
    ensures
        r == json_same(*a, *b),
    decreases a,
{
    match a {
        JsonValue::Null => match b {
            JsonValue::Null => true,
            _ => false,
        },
        JsonValue::Bool(x) => match b {
            JsonValue::Bool(y) => *x == *y,
            _ => false,
        },
        JsonValue::Number(x) => match b {
            JsonValue::Number(y) => numbers_equal(x, y),
            _ => false,
        },
        JsonValue::String(x) => match b {
            JsonValue::String(y) => same_text(x.as_str(), y.as_str()),
            _ => false,
        },
        JsonValue::Array(xs) => match b {
            JsonValue::Array(ys) => {
                if xs.len() != ys.len() {
                    return false;
                }
                let mut k: usize = 0;
                while k < xs.len()
                    invariant
                        *a == JsonValue::Array(*xs),
                        *b == JsonValue::Array(*ys),
                        xs@.len() == ys@.len(),
                        k <= xs@.len(),
                        items_same(xs@, ys@, k as nat),
                    decreases xs@.len() - k,
                {
                    proof {
                        assert(decreases_to!(*a => (*a)->Array_0));
                        assert(decreases_to!(*xs => xs@));
                        assert(decreases_to!(xs@ => xs@[k as int]));
                        assert(decreases_to!(*a => xs@[k as int]));
                    }
                    if !json_equal(&xs[k], &ys[k]) {
                        proof {
                            lemma_items_same_fails(xs@, ys@, (k + 1) as nat, xs@.len());
                        }
                        return false;
                    }
                    k = k + 1;
                }
                true
            },
            _ => false,
        },
        JsonValue::Object(xs) => match b {
            JsonValue::Object(ys) => {
                if xs.len() != ys.len() {
                    return false;
                }
                let mut k: usize = 0;
                while k < xs.len()
                    invariant
                        *a == JsonValue::Object(*xs),
                        *b == JsonValue::Object(*ys),
                        xs@.len() == ys@.len(),
                        k <= xs@.len(),
                        members_same(xs@, ys@, k as nat),
                    decreases xs@.len() - k,
                {
                    proof {
                        let ki = k as int;
                        assert(decreases_to!(*a => (*a)->Object_0));
                        assert(decreases_to!(*xs => xs@));
                        assert(decreases_to!(xs@ => xs@[ki]));
                        assert(decreases_to!(xs@[ki] => xs@[ki].value));
                        assert(decreases_to!(*a => xs@[ki].value));
                    }
                    if !same_text(xs[k].key.as_str(), ys[k].key.as_str()) || !json_equal(
                        &xs[k].value,
                        &ys[k].value,
                    ) {
                        proof {
                            lemma_members_same_fails(xs@, ys@, (k + 1) as nat, xs@.len());
                        }
                        return false;
                    }
                    k = k + 1;
                }
                true
            },
            _ => false,
        },
    }
}

proof fn lemma_items_same_fails(xs: Seq<JsonValue>, ys: Seq<JsonValue>, k: nat, n: nat)
    requires
        !items_same(xs, ys, k),
        k <= n,
    ensures
        !items_same(xs, ys, n),
    decreases n - k,
{
    if n > k {
        lemma_items_same_fails(xs, ys, k, (n - 1) as nat);
    }
}

proof fn lemma_members_same_fails(xs: Seq<JsonMember>, ys: Seq<JsonMember>, k: nat, n: nat)
    requires
        !members_same(xs, ys, k),
        k <= n,
    ensures
        !members_same(xs, ys, n),
    decreases n - k,
{
    if n > k {
        lemma_members_same_fails(xs, ys, k, (n - 1) as nat);
    }
}

/// The first object key, in document order, that repeats an earlier key of
/// the same object; a key is met before its value.
pub open spec fn first_duplicate(v: JsonValue) -> Option<Seq<char>>
    decreases v, 0nat,
{
    match v {
        JsonValue::Array(items) => items_duplicate(items@, items@.len()),
        JsonValue::Object(members) => members_duplicate(members@, members@.len()),
        _ => None,
    }
}

/// The first repeated key within the first `n` items, in document order.
pub open spec fn items_duplicate(items: Seq<JsonValue>, n: nat) -> Option<Seq<char>>
    decreases items, n,
{
    if n == 0 || n > items.len() {
        None
    } else if items_duplicate(items, (n - 1) as nat) is Some {
        items_duplicate(items, (n - 1) as nat)
    } else {
        first_duplicate(items[n - 1])
    }
}

/// Whether `key` names one of the first `n` members.
pub open spec fn key_before(members: Seq<JsonMember>, key: Seq<char>, n: int) -> bool {
    exists|j: int| 0 <= j < n && (#[trigger] members[j]).key@ == key
}

/// The first repeated key within the first `n` members and their values, in
/// document order.
pub open spec fn members_duplicate(members: Seq<JsonMember>, n: nat) -> Option<Seq<char>>
    decreases members, n,
{
    if n == 0 || n > members.len() {
        None
    } else if members_duplicate(members, (n - 1) as nat) is Some {
        members_duplicate(members, (n - 1) as nat)
    } else if key_before(members, members[n - 1].key@, n - 1) {
        Some(members[n - 1].key@)
    } else {
        first_duplicate(members[n - 1].value)
    }
}

proof fn lemma_items_duplicate_stays(items: Seq<JsonValue>, k: nat, n: nat)
    requires
        items_duplicate(items, k) is Some,
        k <= n <= items.len(),
    ensures
        items_duplicate(items, n) == items_duplicate(items, k),
    decreases n - k,
{
    if n > k {
        lemma_items_duplicate_stays(items, k, (n - 1) as nat);
    }
}

proof fn lemma_members_duplicate_stays(members: Seq<JsonMember>, k: nat, n: nat)
    requires
        members_duplicate(members, k) is Some,
        k <= n <= members.len(),
    ensures
        members_duplicate(members, n) == members_duplicate(members, k),
    decreases n - k,
{
    if n > k {
        lemma_members_duplicate_stays(members, k, (n - 1) as nat);
    }
}

fn key_seen(members: &Vec<JsonMember>, n: usize) -> (r: bool)
    requires
        n < members@.len(),
    ensures
        r == key_before(members@, members@[n as int].key@, n as int),
{
    let mut j: usize = 0;
    while j < n
        invariant
            n < members@.len(),
            j <= n,
            forall|t: int| 0 <= t < j ==> (#[trigger] members@[t]).key@ != members@[n as int].key@,
        decreases n - j,
    {
        if same_text(members[j].key.as_str(), members[n].key.as_str()) {
            return true;
        }
        j = j + 1;
    }
    false
}

/// Finds the first object key, in document order, that repeats an earlier
/// key of the same object.
pub fn first_duplicate_key(v: &JsonValue) -> (r: Option<String>)
    ensures
        match r {
            Some(key) => first_duplicate(*v) == Some(key@),
            None => first_duplicate(*v) is None,
        },
    decreases v,
{
    match v {
        JsonValue::Array(items) => {
            let mut k: usize = 0;
            while k < items.len()
                invariant
                    *v == JsonValue::Array(*items),
                    k <= items@.len(),
                    items_duplicate(items@, k as nat) is None,
                decreases items@.len() - k,
            {
                proof {
                    assert(decreases_to!(*v => (*v)->Array_0));
                    assert(decreases_to!(*items => items@));
                    assert(decreases_to!(items@ => items@[k as int]));
                    assert(decreases_to!(*v => items@[k as int]));
                }
                match first_duplicate_key(&items[k]) {
                    Some(key) => {
                        proof {
                            lemma_items_duplicate_stays(items@, (k + 1) as nat, items@.len());
                        }
                        return Some(key);
                    },
                    None => {},
                }
                k = k + 1;
            }
            None
        },
        JsonValue::Object(members) => {
            let mut k: usize = 0;
            while k < members.len()
                invariant
                    *v == JsonValue::Object(*members),
                    k <= members@.len(),
                    members_duplicate(members@, k as nat) is None,
                decreases members@.len() - k,
            {
                if key_seen(members, k) {
                    proof {
                        lemma_members_duplicate_stays(members@, (k + 1) as nat, members@.len());
                    }
                    return Some(members[k].key.clone());
                }
                proof {
                    let ki = k as int;
                    assert(decreases_to!(*v => (*v)->Object_0));
                    assert(decreases_to!(*members => members@));
                    assert(decreases_to!(members@ => members@[ki]));
                    assert(decreases_to!(members@[ki] => members@[ki].value));
                    assert(decreases_to!(*v => members@[ki].value));
                }
                match first_duplicate_key(&members[k].value) {
                    Some(key) => {
                        proof {
                            lemma_members_duplicate_stays(members@, (k + 1) as nat, members@.len());
                        }
                        return Some(key);
                    },
                    None => {},
                }
                k = k + 1;
            }
            None
        },
        _ => None,
    }
}

} // verus!
