//! Lexicographic three-way comparison shared by the canonical orders.

use std::cmp::Ordering;

use vstd::prelude::*;

use crate::codes::{char_codes, char_int, u32_codes, usize_int};
use crate::text::str_chars;

verus! {

/// Three-way comparison of two integers.
pub open spec fn int_order(a: int, b: int) -> Ordering {
    if a < b {
        Ordering::Less
    } else if a > b {
        Ordering::Greater
    } else {
        Ordering::Equal
    }
}

/// `first`, or `second` when `first` is equal (`Ordering::then`).
pub open spec fn then_order(first: Ordering, second: Ordering) -> Ordering {
    match first {
        Ordering::Equal => second,
        _ => first,
    }
}

/// The opposite ordering (`Ordering::reverse`).
pub open spec fn reverse_order(o: Ordering) -> Ordering {
    match o {
        Ordering::Less => Ordering::Greater,
        Ordering::Equal => Ordering::Equal,
        Ordering::Greater => Ordering::Less,
    }
}

/// Lexicographic order of integer sequences; a proper prefix sorts first.
pub open spec fn lex_order(a: Seq<int>, b: Seq<int>) -> Ordering
    decreases a.len(),
{
    if a.len() == 0 {
        if b.len() == 0 {
            Ordering::Equal
        } else {
            Ordering::Less
        }
    } else if b.len() == 0 {
        Ordering::Greater
    } else if a[0] < b[0] {
        Ordering::Less
    } else if a[0] > b[0] {
        Ordering::Greater
    } else {
        lex_order(a.skip(1), b.skip(1))
    }
}

/// Lexicographic comparison is antisymmetric.
pub proof fn lemma_lex_order_antisymmetric(a: Seq<int>, b: Seq<int>)
    ensures
        lex_order(b, a) == reverse_order(lex_order(a, b)),
    decreases a.len(),
{
    if a.len() > 0 && b.len() > 0 && a[0] == b[0] {
        lemma_lex_order_antisymmetric(a.skip(1), b.skip(1));
    }
}

/// Lexicographic `Less` is transitive.
pub proof fn lemma_lex_order_transitive(a: Seq<int>, b: Seq<int>, c: Seq<int>)
    requires
        lex_order(a, b) == Ordering::Less,
        lex_order(b, c) == Ordering::Less,
    ensures
        lex_order(a, c) == Ordering::Less,
    decreases a.len(),
{
    if a.len() > 0 && b.len() > 0 && c.len() > 0 && a[0] == b[0] && b[0] == c[0] {
        lemma_lex_order_transitive(a.skip(1), b.skip(1), c.skip(1));
    }
}

/// Lexicographic "not after" is transitive.
pub proof fn lemma_lex_order_not_greater_transitive(a: Seq<int>, b: Seq<int>, c: Seq<int>)
    requires
        lex_order(a, b) != Ordering::Greater,
        lex_order(b, c) != Ordering::Greater,
    ensures
        lex_order(a, c) != Ordering::Greater,
{
    lemma_lex_order_equal(a, b);
    lemma_lex_order_equal(b, c);
    lemma_lex_order_equal(a, c);
    if lex_order(a, b) == Ordering::Less && lex_order(b, c) == Ordering::Less {
        lemma_lex_order_transitive(a, b, c);
    }
}

/// Lexicographic comparison returns `Equal` exactly on equal sequences.
pub proof fn lemma_lex_order_equal(a: Seq<int>, b: Seq<int>)
    ensures
        (lex_order(a, b) == Ordering::Equal) <==> (a == b),
    decreases a.len(),
{
    if a.len() > 0 && b.len() > 0 && a[0] == b[0] {
        lemma_lex_order_equal(a.skip(1), b.skip(1));
        if a.skip(1) == b.skip(1) {
            assert(a =~= seq![a[0]] + a.skip(1));
            assert(b =~= seq![b[0]] + b.skip(1));
        }
        if a == b {
            assert(a.skip(1) =~= b.skip(1));
        }
    } else if a.len() == 0 && b.len() == 0 {
        assert(a =~= b);
    }
}

/// Lexicographic comparison after a common prefix of length `i`.
pub proof fn lemma_lex_order_skip(a: Seq<int>, b: Seq<int>, i: int)
    requires
        0 <= i <= a.len(),
        i <= b.len(),
        forall|j: int| 0 <= j < i ==> a[j] == b[j],
    ensures
        lex_order(a, b) == lex_order(a.skip(i), b.skip(i)),
    decreases i,
{
    if i > 0 {
        lemma_lex_order_skip(a.skip(1), b.skip(1), i - 1);
        assert(a.skip(1).skip(i - 1) =~= a.skip(i));
        assert(b.skip(1).skip(i - 1) =~= b.skip(i));
    } else {
        assert(a.skip(0) =~= a);
        assert(b.skip(0) =~= b);
    }
}

/// Compares two integer sequences lexicographically.
pub fn compare_lex(a: &Vec<u32>, b: &Vec<u32>) -> (r: Ordering)
    ensures
        r == lex_order(u32_codes(a@), u32_codes(b@)),
{
    let ghost sa = u32_codes(a@);
    let ghost sb = u32_codes(b@);
    let mut i: usize = 0;
    while i < a.len() && i < b.len()
        invariant
            i <= a@.len(),
            i <= b@.len(),
            sa == u32_codes(a@),
            sb == u32_codes(b@),
            forall|j: int| 0 <= j < i ==> sa[j] == sb[j],
        decreases a@.len() - i,
    {
        if a[i] < b[i] {
            proof {
                lemma_lex_order_skip(sa, sb, usize_int(i));
            }
            return Ordering::Less;
        }
        if a[i] > b[i] {
            proof {
                lemma_lex_order_skip(sa, sb, usize_int(i));
            }
            return Ordering::Greater;
        }
        i = i + 1;
    }
    proof {
        lemma_lex_order_skip(sa, sb, usize_int(i));
    }
    if a.len() == b.len() {
        Ordering::Equal
    } else if i == a.len() {
        Ordering::Less
    } else {
        Ordering::Greater
    }
}

/// Compares two character sequences by code point.
pub fn compare_chars(a: &Vec<char>, b: &Vec<char>) -> (r: Ordering)
    ensures
        r == lex_order(char_codes(a@), char_codes(b@)),
{
    let ghost sa = char_codes(a@);
    let ghost sb = char_codes(b@);
    let mut i: usize = 0;
    while i < a.len() && i < b.len()
        invariant
            i <= a@.len(),
            i <= b@.len(),
            sa == char_codes(a@),
            sb == char_codes(b@),
            forall|j: int| 0 <= j < i ==> sa[j] == sb[j],
        decreases a@.len() - i,
    {
        if a[i] < b[i] {
            proof {
                lemma_lex_order_skip(sa, sb, usize_int(i));
            }
            return Ordering::Less;
        }
        if a[i] > b[i] {
            proof {
                lemma_lex_order_skip(sa, sb, usize_int(i));
            }
            return Ordering::Greater;
        }
        i = i + 1;
    }
    proof {
        lemma_lex_order_skip(sa, sb, usize_int(i));
    }
    if a.len() == b.len() {
        Ordering::Equal
    } else if i == a.len() {
        Ordering::Less
    } else {
        Ordering::Greater
    }
}

/// Whether `a` sorts strictly before `b` by code point, the order of `String`.
pub open spec fn text_precedes(a: Seq<char>, b: Seq<char>) -> bool {
    lex_order(char_codes(a), char_codes(b)) == Ordering::Less
}

/// Whether `a` sorts strictly before `b` by code point.
pub fn precedes(a: &str, b: &str) -> (r: bool)
    ensures
        r == text_precedes(a@, b@),
{
    let x = str_chars(a);
    let y = str_chars(b);
    match compare_chars(&x, &y) {
        Ordering::Less => true,
        _ => false,
    }
}

/// Two texts neither of which precedes the other are equal.
pub proof fn lemma_text_order_total(a: Seq<char>, b: Seq<char>)
    requires
        !text_precedes(a, b),
        !text_precedes(b, a),
    ensures
        a == b,
{
    let ca = char_codes(a);
    let cb = char_codes(b);
    lemma_lex_order_antisymmetric(ca, cb);
    lemma_lex_order_equal(ca, cb);
    assert(a.len() == ca.len());
    assert forall|i: int| 0 <= i < a.len() implies a[i] == b[i] by {
        assert(ca[i] == char_int(a[i]));
        assert(cb[i] == char_int(b[i]));
    }
    assert(a =~= b);
}

/// `precedes` is transitive.
pub proof fn lemma_text_precedes_transitive(a: Seq<char>, b: Seq<char>, c: Seq<char>)
    requires
        text_precedes(a, b),
        text_precedes(b, c),
    ensures
        text_precedes(a, c),
{
    lemma_lex_order_transitive(char_codes(a), char_codes(b), char_codes(c));
}

/// No text precedes itself.
pub proof fn lemma_text_irreflexive(a: Seq<char>)
    ensures
        !text_precedes(a, a),
{
    lemma_lex_order_equal(char_codes(a), char_codes(a));
}

/// Sequences that differ at a position inside both compare the same way
/// whatever follows them.
pub proof fn lemma_lex_order_extend(p: Seq<int>, q: Seq<int>, x: Seq<int>, y: Seq<int>, i: int)
    requires
        0 <= i < p.len(),
        i < q.len(),
        p[i] != q[i],
    ensures
        lex_order(p + x, q + y) == lex_order(p, q),
    decreases p.len(),
{
    let px = p + x;
    let qy = q + y;
    assert(px[0] == p[0] && qy[0] == q[0]);
    if p[0] == q[0] {
        assert(i > 0);
        assert(px.skip(1) =~= p.skip(1) + x);
        assert(qy.skip(1) =~= q.skip(1) + y);
        lemma_lex_order_extend(p.skip(1), q.skip(1), x, y, i - 1);
    }
}

/// A common prefix does not change a comparison.
pub proof fn lemma_lex_order_common_prefix(p: Seq<int>, x: Seq<int>, y: Seq<int>)
    ensures
        lex_order(p + x, p + y) == lex_order(x, y),
    decreases p.len(),
{
    if p.len() > 0 {
        assert((p + x).skip(1) =~= p.skip(1) + x);
        assert((p + y).skip(1) =~= p.skip(1) + y);
        lemma_lex_order_common_prefix(p.skip(1), x, y);
    } else {
        assert(p + x =~= x);
        assert(p + y =~= y);
    }
}

} // verus!
