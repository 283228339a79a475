//! Canonical engine identity compatible with the existing TypeScript contract.

use std::cmp::Ordering;

use sha2::Digest;
use vstd::prelude::*;
use vstd::utf8::encode_utf8;

use crate::codes::{char_codes, usize_int};
use crate::order::{compare_chars, compare_lex, lex_order};
use crate::json::{
    number_text, push_number_text, push_string_text, string_text, JsonMember, JsonValue,
};
use crate::text::{
    hex_text, json_plain_char, lemma_hex_text_digits, lemma_hex_text_len, push_char, push_hex,
    str_chars, string_from_chars, utf16_units, utf16_vec,
};

verus! {

/// Whether `c` is a lowercase hexadecimal digit.
pub open spec fn is_lower_hex(c: char) -> bool {
    ('0' <= c && c <= '9') || ('a' <= c && c <= 'f')
}

/// The fixed identity prefix `sha256:`.
pub open spec fn identity_prefix() -> Seq<char> {
    seq!['s', 'h', 'a', '2', '5', '6', ':']
}

/// Whether `s` is `sha256:` followed by exactly 64 lowercase hexadecimal digits.
pub open spec fn valid_identity(s: Seq<char>) -> bool {
    &&& s.len() == 71
    &&& s.take(7) == identity_prefix()
    &&& forall|i: int| 7 <= i < 71 ==> is_lower_hex(#[trigger] s[i])
}

/// A SHA-256 identity over canonical JSON bytes.
#[derive(Debug, Eq, Hash, Ord, PartialEq, PartialOrd)]
pub struct IdentityHash(String);

impl View for IdentityHash {
    type V = Seq<char>;

    closed spec fn view(&self) -> Seq<char> {
        self.0@
    }
}

impl Clone for IdentityHash {
    fn clone(&self) -> (r: Self)
        ensures
            r@ == self@,
    {
        proof {
            use_type_invariant(self);
        }
        IdentityHash(self.0.clone())
    }
}

impl IdentityHash {
    #[verifier::type_invariant]
    closed spec fn well_formed(self) -> bool {
        valid_identity(self.0@)
    }

    /// Parses a lowercase SHA-256 engine identity.
    pub fn parse(value: &str) -> (r: Result<IdentityHash, IdentityHashError>)
        ensures
            r is Ok <==> valid_identity(value@),
            r matches Ok(h) ==> h@ == value@,
    {
        let chars = str_chars(value);
        if chars.len() != 71 {
            return Err(IdentityHashError);
        }
        let prefix: [char; 7] = ['s', 'h', 'a', '2', '5', '6', ':'];
        let mut i: usize = 0;
        while i < 7
            invariant
                i <= 7,
                chars@ == value@,
                chars@.len() == 71,
                prefix@ == identity_prefix(),
                forall|j: int| 0 <= j < i ==> chars@[j] == prefix@[j],
            decreases 7 - i,
        {
            if chars[i] != prefix[i] {
                assert(chars@.take(7)[i as int] != identity_prefix()[i as int]);
                return Err(IdentityHashError);
            }
            i = i + 1;
        }
        assert(chars@.take(7) =~= identity_prefix());
        while i < 71
            invariant
                7 <= i <= 71,
                chars@ == value@,
                chars@.len() == 71,
                chars@.take(7) == identity_prefix(),
                forall|j: int| 7 <= j < i ==> is_lower_hex(#[trigger] chars@[j]),
            decreases 71 - i,
        {
            let c = chars[i];
            if !(('0' <= c && c <= '9') || ('a' <= c && c <= 'f')) {
                assert(!is_lower_hex(chars@[i as int]));
                return Err(IdentityHashError);
            }
            i = i + 1;
        }
        Ok(IdentityHash(value.to_owned()))
    }

    /// Builds an identity from characters already known to be well formed.
    pub(crate) fn from_valid_string(value: String) -> (r: IdentityHash)
        requires
            valid_identity(value@),
        ensures
            r@ == value@,
    {
        IdentityHash(value)
    }

    /// Returns the identity string.
    pub fn as_str(&self) -> (r: &str)
        ensures
            r@ == self@,
    {
        self.0.as_str()
    }

    /// Whether two identities are the same string.
    pub fn same_as(&self, other: &IdentityHash) -> (r: bool)
        ensures
            r == (self@ == other@),
    {
        self.0 == other.0
    }

    /// Every identity is well formed.
    pub fn well_formed_identity(&self)
        ensures
            valid_identity(self@),
    {
        proof {
            use_type_invariant(self);
        }
    }
}

/// The canonical order of two identities: code-point (equivalently byte) order.
pub open spec fn identity_order(left: Seq<char>, right: Seq<char>) -> Ordering {
    lex_order(char_codes(left), char_codes(right))
}

/// Compares two identities in canonical string order.
pub fn compare_identities(left: &IdentityHash, right: &IdentityHash) -> (r: Ordering)
    ensures
        r == identity_order(left@, right@),
{
    let l = str_chars(left.as_str());
    let rr = str_chars(right.as_str());
    compare_chars(&l, &rr)
}

/// An engine identity did not use the frozen lowercase SHA-256 syntax.
#[derive(Clone, Copy, Debug, Eq, PartialEq)]
pub struct IdentityHashError;

impl IdentityHashError {
    /// Returns the stable explanation for a rejected identity.
    pub fn message(&self) -> (r: &'static str)
        ensures
            r@ == "identity must be sha256: followed by 64 lowercase hexadecimal digits"@,
    {
        "identity must be sha256: followed by 64 lowercase hexadecimal digits"
    }
}

/// Canonical JSON could not be produced for a value.
#[derive(Clone, Copy, Debug, Eq, PartialEq, Structural)]
pub enum CanonicalError {
    /// Engine manifests, states, actions, and events permit integers only.
    NonIntegralNumber,
}

impl CanonicalError {
    /// Returns the stable explanation for the error.
    pub fn message(&self) -> (r: &'static str)
        ensures
            r@ == "canonical engine JSON requires integers"@,
    {
        "canonical engine JSON requires integers"
    }
}

/// The order of two object keys: lexicographic over their UTF-16 code units.
pub open spec fn key_order(left: Seq<char>, right: Seq<char>) -> Ordering {
    lex_order(utf16_units(left), utf16_units(right))
}

/// Inserts member index `i` into `sorted` after every index whose key does
/// not sort after the key of `i` (a stable insertion).
pub open spec fn insert_index(members: Seq<JsonMember>, sorted: Seq<int>, i: int) -> Seq<int>
    decreases sorted.len(),
{
    if sorted.len() == 0 {
        seq![i]
    } else if key_order(members[sorted.last()].key@, members[i].key@) != Ordering::Greater {
        sorted.push(i)
    } else {
        insert_index(members, sorted.drop_last(), i).push(sorted.last())
    }
}

/// The indices of the first `n` members, ordered by key.
pub open spec fn sorted_indices(members: Seq<JsonMember>, n: nat) -> Seq<int>
    decreases n,
{
    if n == 0 {
        Seq::empty()
    } else {
        insert_index(members, sorted_indices(members, (n - 1) as nat), n - 1)
    }
}

/// The members of an object in canonical (key) order, as indices.
pub open spec fn member_order(members: Seq<JsonMember>) -> Seq<int> {
    sorted_indices(members, members.len())
}

/// The canonical JSON text of a value: object members sorted by UTF-16 key
/// order, no insignificant whitespace, integers only; `None` when the value
/// holds a non-integral number.
pub open spec fn canonical_text(v: JsonValue) -> Option<Seq<char>>
    decreases v, 0nat,
{
    match v {
        JsonValue::Null => Some(seq!['n', 'u', 'l', 'l']),
        JsonValue::Bool(b) => if b {
            Some(seq!['t', 'r', 'u', 'e'])
        } else {
            Some(seq!['f', 'a', 'l', 's', 'e'])
        },
        JsonValue::Number(n) => number_text(n),
        JsonValue::String(s) => Some(string_text(s@)),
        JsonValue::Array(items) => match items_text(items@, items@.len()) {
            Some(t) => Some(seq!['['] + t + seq![']']),
            None => None,
        },
        JsonValue::Object(members) => match members_text(
            members@,
            member_order(members@),
            members@.len(),
        ) {
            Some(t) => Some(seq!['{'] + t + seq!['}']),
            None => None,
        },
    }
}

/// The canonical texts of the first `n` items, separated by commas.
pub open spec fn items_text(items: Seq<JsonValue>, n: nat) -> Option<Seq<char>>
    decreases items, n,
{
    if n == 0 || n > items.len() {
        Some(Seq::empty())
    } else {
        match (items_text(items, (n - 1) as nat), canonical_text(items[n - 1])) {
            (Some(a), Some(b)) => Some(
                if n == 1 {
                    b
                } else {
                    a + seq![','] + b
                },
            ),
            _ => None,
        }
    }
}

/// The canonical texts of the members at the first `n` positions of
/// `order`, each `"key":value`, separated by commas.
pub open spec fn members_text(members: Seq<JsonMember>, order: Seq<int>, n: nat) -> Option<
    Seq<char>,
>
    decreases members, n,
{
    if n == 0 || n > order.len() {
        Some(Seq::empty())
    } else {
        let k = order[n - 1];
        if 0 <= k < members.len() {
            match (members_text(members, order, (n - 1) as nat), canonical_text(members[k].value)) {
                (Some(a), Some(b)) => {
                    let entry = string_text(members[k].key@) + seq![':'] + b;
                    Some(
                        if n == 1 {
                            entry
                        } else {
                            a + seq![','] + entry
                        },
                    )
                },
                _ => None,
            }
        } else {
            None
        }
    }
}

/// The integer values of a sequence of indices.
pub open spec fn index_values(s: Seq<usize>) -> Seq<int> {
    s.map_values(|x: usize| usize_int(x))
}

/// Compares two object keys by their UTF-16 code units.
pub fn compare_keys(left: &str, right: &str) -> (r: Ordering)
    ensures
        r == key_order(left@, right@),
{
    let l = utf16_vec(left);
    let rr = utf16_vec(right);
    compare_lex(&l, &rr)
}

/// Stable insertion places `i` just after the last position `j` whose key
/// does not sort after the key of `i`.
proof fn lemma_insert_index_at(members: Seq<JsonMember>, sorted: Seq<int>, i: int, j: int)
    requires
        0 <= j <= sorted.len(),
        forall|t: int|
            j <= t < sorted.len() ==> key_order(members[#[trigger] sorted[t]].key@, members[i].key@)
                == Ordering::Greater,
        j > 0 ==> key_order(members[sorted[j - 1]].key@, members[i].key@) != Ordering::Greater,
    ensures
        insert_index(members, sorted, i) == sorted.take(j).push(i) + sorted.skip(j),
    decreases sorted.len(),
{
    if sorted.len() == 0 {
        assert(sorted.take(j).push(i) + sorted.skip(j) =~= seq![i]);
    } else if j == sorted.len() {
        assert(sorted.take(j) =~= sorted);
        assert(sorted.take(j).push(i) + sorted.skip(j) =~= sorted.push(i));
    } else {
        assert(key_order(members[sorted[sorted.len() - 1]].key@, members[i].key@)
            == Ordering::Greater);
        let rest = sorted.drop_last();
        assert forall|t: int| j <= t < rest.len() implies key_order(
            members[#[trigger] rest[t]].key@,
            members[i].key@,
        ) == Ordering::Greater by {
            assert(rest[t] == sorted[t]);
        }
        if j > 0 {
            assert(rest[j - 1] == sorted[j - 1]);
        }
        lemma_insert_index_at(members, rest, i, j);
        assert(rest.take(j) =~= sorted.take(j));
        assert(rest.skip(j).push(sorted.last()) =~= sorted.skip(j));
        assert((rest.take(j).push(i) + rest.skip(j)).push(sorted.last()) =~= sorted.take(j).push(i)
            + sorted.skip(j));
    }
}

/// Inserts member index `i` into `order` by key, stably.
fn insert_member_index(members: &Vec<JsonMember>, order: &mut Vec<usize>, i: usize)
    requires
        i < members@.len(),
        forall|t: int| 0 <= t < old(order)@.len() ==> #[trigger] old(order)@[t] < members@.len(),
    ensures
        index_values(final(order)@) == insert_index(members@, index_values(old(order)@), usize_int(i)),
        forall|t: int| 0 <= t < final(order)@.len() ==> #[trigger] final(order)@[t] < members@.len(),
{
    let ghost s = index_values(order@);
    let mut j: usize = order.len();
    while j > 0
        invariant
            j <= order@.len(),
            order@ == old(order)@,
            s == index_values(order@),
            i < members@.len(),
            forall|t: int| 0 <= t < order@.len() ==> #[trigger] order@[t] < members@.len(),
            forall|t: int|
                j <= t < s.len() ==> key_order(members@[#[trigger] s[t]].key@, members@[usize_int(i)].key@)
                    == Ordering::Greater,
        ensures
            j <= order@.len(),
            order@ == old(order)@,
            forall|t: int|
                j <= t < s.len() ==> key_order(members@[#[trigger] s[t]].key@, members@[usize_int(i)].key@)
                    == Ordering::Greater,
            j > 0 ==> key_order(members@[s[j - 1]].key@, members@[usize_int(i)].key@)
                != Ordering::Greater,
        decreases j,
    {
        let k = order[j - 1];
        let c = compare_keys(members[k].key.as_str(), members[i].key.as_str());
        match c {
            Ordering::Greater => {},
            _ => {
                break;
            },
        }
        j = j - 1;
    }
    proof {
        lemma_insert_index_at(members@, s, usize_int(i), usize_int(j));
    }
    order.insert(j, i);
    assert(index_values(order@) =~= s.take(usize_int(j)).push(usize_int(i)) + s.skip(usize_int(j)));
}

/// The indices of `members` in canonical key order.
pub fn member_order_vec(members: &Vec<JsonMember>) -> (r: Vec<usize>)
    ensures
        index_values(r@) == member_order(members@),
        forall|t: int| 0 <= t < r@.len() ==> #[trigger] r@[t] < members@.len(),
{
    let mut order: Vec<usize> = Vec::new();
    let mut i: usize = 0;
    assert(index_values(order@) =~= Seq::<int>::empty());
    while i < members.len()
        invariant
            i <= members@.len(),
            index_values(order@) == sorted_indices(members@, i as nat),
            forall|t: int| 0 <= t < order@.len() ==> #[trigger] order@[t] < members@.len(),
        decreases members@.len() - i,
    {
        insert_member_index(members, &mut order, i);
        i = i + 1;
    }
    order
}

/// Inserting an index adds one position.
proof fn lemma_insert_index_len(members: Seq<JsonMember>, sorted: Seq<int>, i: int)
    ensures
        insert_index(members, sorted, i).len() == sorted.len() + 1,
    decreases sorted.len(),
{
    if sorted.len() > 0 {
        lemma_insert_index_len(members, sorted.drop_last(), i);
    }
}

/// The key order of `n` members has `n` positions.
proof fn lemma_sorted_indices_len(members: Seq<JsonMember>, n: nat)
    ensures
        sorted_indices(members, n).len() == n,
    decreases n,
{
    if n > 0 {
        lemma_sorted_indices_len(members, (n - 1) as nat);
        lemma_insert_index_len(members, sorted_indices(members, (n - 1) as nat), n - 1);
    }
}

/// Once the items text fails, it fails for every longer prefix.
pub(crate) proof fn lemma_items_text_fails(items: Seq<JsonValue>, k: nat, n: nat)
    requires
        items_text(items, k) is None,
        k <= n <= items.len(),
    ensures
        items_text(items, n) is None,
    decreases n - k,
{
    if n > k {
        lemma_items_text_fails(items, k, (n - 1) as nat);
    }
}

/// Once the members text fails, it fails for every longer prefix.
proof fn lemma_members_text_fails(members: Seq<JsonMember>, order: Seq<int>, k: nat, n: nat)
    requires
        members_text(members, order, k) is None,
        k <= n <= order.len(),
    ensures
        members_text(members, order, n) is None,
    decreases n - k,
{
    if n > k {
        lemma_members_text_fails(members, order, k, (n - 1) as nat);
    }
}

/// Appends the characters of `cs`.
fn push_chars(out: &mut Vec<char>, cs: &[char])
    ensures
        final(out)@ == old(out)@ + cs@,
{
    let mut i: usize = 0;
    while i < cs.len()
        invariant
            i <= cs@.len(),
            out@ == old(out)@ + cs@.take(i as int),
        decreases cs@.len() - i,
    {
        out.push(cs[i]);
        assert(cs@.take(i + 1) =~= cs@.take(i as int).push(cs@[i as int]));
        i = i + 1;
    }
    assert(cs@.take(cs@.len() as int) =~= cs@);
}

/// Appends the canonical JSON text of `v` to `out`.
pub(crate) fn write_value(v: &JsonValue, out: &mut Vec<char>) -> (r: Result<(), CanonicalError>)
    ensures
        r is Ok <==> canonical_text(*v) is Some,
        r is Ok ==> final(out)@ == old(out)@ + canonical_text(*v)->0,
    decreases v,
{
    match v {
        JsonValue::Null => {
            let lit: [char; 4] = ['n', 'u', 'l', 'l'];
            push_chars(out, &lit);
            assert(lit@ =~= seq!['n', 'u', 'l', 'l']);
            Ok(())
        },
        JsonValue::Bool(b) => {
            if *b {
                let lit: [char; 4] = ['t', 'r', 'u', 'e'];
                push_chars(out, &lit);
                assert(lit@ =~= seq!['t', 'r', 'u', 'e']);
            } else {
                let lit: [char; 5] = ['f', 'a', 'l', 's', 'e'];
                push_chars(out, &lit);
                assert(lit@ =~= seq!['f', 'a', 'l', 's', 'e']);
            }
            Ok(())
        },
        JsonValue::Number(n) => {
            if push_number_text(n, out) {
                Ok(())
            } else {
                Err(CanonicalError::NonIntegralNumber)
            }
        },
        JsonValue::String(s) => {
            push_string_text(s.as_str(), out);
            Ok(())
        },
        JsonValue::Array(items) => {
            out.push('[');
            let ghost start = out@;
            let mut k: usize = 0;
            while k < items.len()
                invariant
                    *v == JsonValue::Array(*items),
                    k <= items@.len(),
                    items_text(items@, k as nat) is Some,
                    out@ == start + items_text(items@, k as nat)->0,
                decreases items@.len() - k,
            {
                let ghost prefix = out@;
                if k > 0 {
                    out.push(',');
                }
                let ghost mid = out@;
                proof {
                    assert(decreases_to!(*v => *items));
                    assert(decreases_to!(*items => items@));
                    assert(decreases_to!(items@ => items@[k as int]));
                    assert(decreases_to!(*v => items@[k as int]));
                }
                match write_value(&items[k], out) {
                    Ok(()) => {},
                    Err(e) => {
                        proof {
                            assert(canonical_text(items@[k as int]) is None);
                            assert(items_text(items@, (k + 1) as nat) is None);
                            lemma_items_text_fails(items@, (k + 1) as nat, items@.len());
                            assert(canonical_text(*v) is None);
                        }
                        return Err(e);
                    },
                }
                proof {
                    let b = canonical_text(items@[k as int])->0;
                    if k > 0 {
                        assert(out@ =~= start + (items_text(items@, k as nat)->0 + seq![','] + b));
                    } else {
                        assert(out@ =~= start + b);
                    }
                }
                k = k + 1;
            }
            out.push(']');
            assert(out@ =~= old(out)@ + (seq!['['] + items_text(items@, items@.len())->0 + seq![']']));
            Ok(())
        },
        JsonValue::Object(members) => {
            let order = member_order_vec(members);
            let ghost ord = index_values(order@);
            proof {
                lemma_sorted_indices_len(members@, members@.len());
            }
            out.push('{');
            let ghost start = out@;
            let mut k: usize = 0;
            while k < order.len()
                invariant
                    *v == JsonValue::Object(*members),
                    k <= order@.len(),
                    ord == index_values(order@),
                    ord == member_order(members@),
                    ord.len() == order@.len(),
                    ord.len() == members@.len(),
                    forall|t: int| 0 <= t < order@.len() ==> #[trigger] order@[t] < members@.len(),
                    members_text(members@, ord, k as nat) is Some,
                    out@ == start + members_text(members@, ord, k as nat)->0,
                decreases order@.len() - k,
            {
                let m = order[k];
                if k > 0 {
                    out.push(',');
                }
                push_string_text(members[m].key.as_str(), out);
                out.push(':');
                proof {
                    let mi = m as int;
                    assert(decreases_to!(*v => *members));
                    assert(decreases_to!(*members => members@));
                    assert(decreases_to!(members@ => members@[mi]));
                    assert(decreases_to!(members@[mi] => members@[mi].value));
                    assert(decreases_to!(*v => members@[mi].value));
                }
                match write_value(&members[m].value, out) {
                    Ok(()) => {},
                    Err(e) => {
                        proof {
                            assert(ord[k as int] == m as int);
                            assert(canonical_text(members@[m as int].value) is None);
                            assert(members_text(members@, ord, (k + 1) as nat) is None);
                            lemma_members_text_fails(members@, ord, (k + 1) as nat, ord.len());
                        }
                        return Err(e);
                    },
                }
                proof {
                    let b = canonical_text(members@[m as int].value)->0;
                    let entry = string_text(members@[m as int].key@) + seq![':'] + b;
                    if k > 0 {
                        assert(out@ =~= start + (members_text(members@, ord, k as nat)->0 + seq![',']
                            + entry));
                    } else {
                        assert(out@ =~= start + entry);
                    }
                }
                k = k + 1;
            }
            out.push('}');
            assert(out@ =~= old(out)@ + (seq!['{'] + members_text(members@, ord, members@.len())->0
                + seq!['}']));
            Ok(())
        },
    }
}

/// Serializes an engine value with UTF-16 key ordering and no insignificant
/// whitespace.
pub fn canonical_json(value: &JsonValue) -> (r: Result<String, CanonicalError>)
    ensures
        r is Ok <==> canonical_text(*value) is Some,
        r matches Ok(s) ==> s@ == canonical_text(*value)->0,
{
    let mut out: Vec<char> = Vec::new();
    match write_value(value, &mut out) {
        Ok(()) => {
            assert(out@ =~= canonical_text(*value)->0);
            Ok(string_from_chars(out.as_slice()))
        },
        Err(e) => Err(e),
    }
}

/// The SHA-256 digest of a byte sequence.
pub uninterp spec fn sha256(data: Seq<u8>) -> Seq<u8>;

/// Computes the SHA-256 digest of `data` by calling `sha2::Sha256::digest`.
/// The contract is assumed, not proved: the result is the named digest of the
/// input bytes, and it is 32 bytes long. Nothing else about the digest is
/// claimed.
#[verifier::external_body]
fn sha256_digest(data: &[u8]) -> (r: Vec<u8>)
    ensures
        r@ == sha256(data@),
        r@.len() == 32,
{
    sha2::Sha256::digest(data).to_vec()
}

/// The identity of canonical text: `sha256:` and the lowercase hexadecimal
/// SHA-256 digest of its UTF-8 bytes.
pub open spec fn identity_of_text(text: Seq<char>) -> Seq<char> {
    identity_prefix() + hex_text(sha256(encode_utf8(text)))
}

/// Hashes an engine value using its canonical JSON bytes.
pub fn identity_hash(value: &JsonValue) -> (r: Result<IdentityHash, CanonicalError>)
    ensures
        r is Ok <==> canonical_text(*value) is Some,
        r matches Ok(h) ==> h@ == identity_of_text(canonical_text(*value)->0),
{
    let text = match canonical_json(value) {
        Ok(text) => text,
        Err(e) => {
            return Err(e);
        },
    };
    Ok(identity_of_canonical_text(text.as_str()))
}

/// The identity of text that is already canonical JSON: `sha256:` and the
/// lowercase hexadecimal digest of its UTF-8 bytes.
pub fn identity_of_canonical_text(text: &str) -> (r: IdentityHash)
    ensures
        r@ == identity_of_text(text@),
{
    let bytes = text.as_bytes();
    let digest = sha256_digest(bytes);
    let mut hash = String::new();
    let prefix: [char; 7] = ['s', 'h', 'a', '2', '5', '6', ':'];
    let mut i: usize = 0;
    while i < 7
        invariant
            i <= 7,
            hash@ == prefix@.take(i as int),
        decreases 7 - i,
    {
        push_char(&mut hash, prefix[i]);
        assert(prefix@.take(i + 1) =~= prefix@.take(i as int).push(prefix@[i as int]));
        i = i + 1;
    }
    assert(prefix@.take(7) =~= identity_prefix());
    push_hex(&mut hash, digest.as_slice());
    proof {
        lemma_hex_text_len(digest@);
        lemma_hex_text_digits(digest@);
        let h = hash@;
        assert(h.take(7) =~= identity_prefix());
        assert forall|j: int| 7 <= j < 71 implies is_lower_hex(#[trigger] h[j]) by {
            assert(h[j] == hex_text(digest@)[j - 7]);
        }
    }
    IdentityHash::from_valid_string(hash)
}

/// Identities are written in JSON strings without escapes.
pub proof fn lemma_identity_plain(s: Seq<char>)
    requires
        valid_identity(s),
    ensures
        forall|i: int| 0 <= i < s.len() ==> json_plain_char(#[trigger] s[i]),
{
    assert forall|i: int| 0 <= i < s.len() implies json_plain_char(#[trigger] s[i]) by {
        if i < 7 {
            assert(s.take(7)[i] == s[i]);
            assert(identity_prefix()[i] == s[i]);
        } else {
            assert(is_lower_hex(s[i]));
        }
    }
}

} // verus!
