//! Character-level helpers shared by the parsers and label builders.

use vstd::prelude::*;
use vstd::string::*;

use crate::codes::u32_codes;

verus! {

broadcast use vstd::string::group_string_axioms;

/// Appends one character to a string by calling `String::push`. The
/// contract is assumed, not proved: afterwards the string is the old one with
/// `c` at its end, as the standard library documents.
#[verifier::external_body]
pub(crate) fn push_char(s: &mut String, c: char)
    ensures
        final(s)@ == old(s)@.push(c),
{
    s.push(c);
}

/// Returns the characters of `s` in order.
pub fn str_chars(s: &str) -> (r: Vec<char>)
    ensures
        r@ == s@,
{
    let mut out: Vec<char> = Vec::new();
    for c in iter: s.chars()
        invariant
            out@ == iter.seq().take(iter.index() as int),
    {
        out.push(c);
    }
    out
}

/// Builds a string holding exactly `chars`.
pub fn string_from_chars(chars: &[char]) -> (r: String)
    ensures
        r@ == chars@,
{
    let mut out = String::new();
    let mut i: usize = 0;
    while i < chars.len()
        invariant
            i <= chars@.len(),
            out@ == chars@.take(i as int),
        decreases chars@.len() - i,
    {
        push_char(&mut out, chars[i]);
        assert(chars@.take(i as int).push(chars@[i as int]) =~= chars@.take(i + 1));
        i = i + 1;
    }
    assert(chars@.take(chars@.len() as int) =~= chars@);
    out
}

/// The decimal digit character for `d` below ten.
pub open spec fn digit_char(d: nat) -> char {
    ((d + 48) as u32) as char
}

/// The shortest decimal rendering of `n`.
pub open spec fn decimal_chars(n: nat) -> Seq<char>
    decreases n,
{
    if n < 10 {
        seq![digit_char(n)]
    } else {
        decimal_chars(n / 10).push(digit_char(n % 10))
    }
}

/// Appends the decimal rendering of `n` to `out`.
pub fn push_decimal(out: &mut String, n: u128)
    ensures
        final(out)@ == old(out)@ + decimal_chars(n as nat),
    decreases n,
{
    if n >= 10 {
        push_decimal(out, n / 10);
    }
    let d: u8 = (n % 10) as u8;
    push_char(out, (d + 48) as char);
    proof {
        assert(((d + 48) as u8) as char == digit_char((n % 10) as nat));
    }
}

/// Appends a string slice to `out`.
pub fn push_str(out: &mut String, s: &str)
    ensures
        final(out)@ == old(out)@ + s@,
{
    out.append(s);
}

/// The lowercase hexadecimal digit for `d` below sixteen.
pub open spec fn hex_char(d: int) -> char {
    if d < 10 {
        ((d + 48) as u32) as char
    } else {
        ((d + 87) as u32) as char
    }
}

/// The JSON string escape of one character (as `serde_json` writes it).
pub open spec fn json_escape_char(c: char) -> Seq<char> {
    if c == '"' {
        seq!['\\', '"']
    } else if c == '\\' {
        seq!['\\', '\\']
    } else if c == '\u{8}' {
        seq!['\\', 'b']
    } else if c == '\t' {
        seq!['\\', 't']
    } else if c == '\n' {
        seq!['\\', 'n']
    } else if c == '\u{c}' {
        seq!['\\', 'f']
    } else if c == '\r' {
        seq!['\\', 'r']
    } else if (c as int) < 32 {
        seq!['\\', 'u', '0', '0', hex_char((c as int) / 16), hex_char((c as int) % 16)]
    } else {
        seq![c]
    }
}

/// The JSON string escape of a character sequence, without quotes.
pub open spec fn json_escape(s: Seq<char>) -> Seq<char>
    decreases s.len(),
{
    if s.len() == 0 {
        Seq::empty()
    } else {
        json_escape(s.drop_last()) + json_escape_char(s.last())
    }
}

/// The escaped text of a JSON string followed by its closing quote: the part
/// of canonical JSON that decides the order of two strings in the same field.
pub open spec fn json_string_tail(s: Seq<char>) -> Seq<char> {
    json_escape(s).push('"')
}

fn hex_digit(d: u32) -> (r: char)
    requires
        d < 16,
    ensures
        r == hex_char(d as int),
{
    if d < 10 {
        char_from_code(d + 48)
    } else {
        char_from_code(d + 87)
    }
}

fn char_from_code(code: u32) -> (r: char)
    requires
        code < 128,
    ensures
        r == (code as char),
{
    (code as u8) as char
}

/// Appends the JSON escape of `c` to `out`.
fn push_json_escape(out: &mut Vec<char>, c: char)
    ensures
        final(out)@ == old(out)@ + json_escape_char(c),
{
    let code: u32 = c as u32;
    if c == '"' {
        out.push('\\');
        out.push('"');
    } else if c == '\\' {
        out.push('\\');
        out.push('\\');
    } else if c == '\u{8}' {
        out.push('\\');
        out.push('b');
    } else if c == '\t' {
        out.push('\\');
        out.push('t');
    } else if c == '\n' {
        out.push('\\');
        out.push('n');
    } else if c == '\u{c}' {
        out.push('\\');
        out.push('f');
    } else if c == '\r' {
        out.push('\\');
        out.push('r');
    } else if code < 32 {
        out.push('\\');
        out.push('u');
        out.push('0');
        out.push('0');
        out.push(hex_digit(code / 16));
        out.push(hex_digit(code % 16));
    } else {
        out.push(c);
    }
    assert(final(out)@ =~= old(out)@ + json_escape_char(c));
}

/// The escaped text of a JSON string followed by its closing quote.
pub fn json_string_tail_chars(s: &str) -> (r: Vec<char>)
    ensures
        r@ == json_string_tail(s@),
{
    let chars = str_chars(s);
    let mut out: Vec<char> = Vec::new();
    let mut i: usize = 0;
    while i < chars.len()
        invariant
            i <= chars@.len(),
            chars@ == s@,
            out@ == json_escape(chars@.take(i as int)),
        decreases chars@.len() - i,
    {
        push_json_escape(&mut out, chars[i]);
        assert(chars@.take(i + 1).drop_last() =~= chars@.take(i as int));
        i = i + 1;
    }
    assert(chars@.take(chars@.len() as int) =~= chars@);
    out.push('"');
    out
}

/// The decimal digits of `n` as characters.
pub fn decimal_char_vec(n: u64) -> (r: Vec<char>)
    ensures
        r@ == decimal_chars(n as nat),
{
    let mut s = String::new();
    push_decimal(&mut s, n as u128);
    assert(s@ =~= decimal_chars(n as nat));
    str_chars(s.as_str())
}

/// The UTF-16 code units of one character.
pub open spec fn char_utf16(c: char) -> Seq<int> {
    let v = c as int;
    if v < 0x10000 {
        seq![v]
    } else {
        seq![0xD800 + (v - 0x10000) / 1024, 0xDC00 + (v - 0x10000) % 1024]
    }
}

/// The UTF-16 code units of a character sequence (`str::encode_utf16`).
pub open spec fn utf16_units(s: Seq<char>) -> Seq<int>
    decreases s.len(),
{
    if s.len() == 0 {
        Seq::empty()
    } else {
        utf16_units(s.drop_last()) + char_utf16(s.last())
    }
}

/// The scalar value of a character.
pub fn char_code(c: char) -> (r: u32)
    ensures
        r as int == c as int,
        r <= 0x10FFFF,
{
    proof {
        assert(c as int <= 0x10FFFF);
    }
    c as u32
}

/// Returns the UTF-16 code units of `s`.
pub fn utf16_vec(s: &str) -> (r: Vec<u32>)
    ensures
        u32_codes(r@) == utf16_units(s@),
{
    let chars = str_chars(s);
    let mut out: Vec<u32> = Vec::new();
    let mut i: usize = 0;
    while i < chars.len()
        invariant
            i <= chars@.len(),
            chars@ == s@,
            u32_codes(out@) == utf16_units(chars@.take(i as int)),
        decreases chars@.len() - i,
    {
        let c = chars[i];
        let v: u32 = char_code(c);
        let ghost before = out@;
        if v < 0x10000 {
            out.push(v);
            assert(u32_codes(out@) =~= u32_codes(before) + char_utf16(c));
        } else {
            let w: u32 = v - 0x10000;
            let high: u32 = 0xD800 + w / 1024;
            let low: u32 = 0xDC00 + w % 1024;
            out.push(high);
            out.push(low);
            assert(high as int == 0xD800 + (c as int - 0x10000) / 1024);
            assert(low as int == 0xDC00 + (c as int - 0x10000) % 1024);
            assert(u32_codes(out@) =~= u32_codes(before) + char_utf16(c));
        }
        assert(chars@.take(i + 1).drop_last() =~= chars@.take(i as int));
        i = i + 1;
    }
    assert(chars@.take(chars@.len() as int) =~= chars@);
    out
}

/// The number of UTF-16 code units of `s`.
pub fn utf16_len(s: &str) -> (r: usize)
    ensures
        r == utf16_units(s@).len(),
{
    let units = utf16_vec(s);
    units.len()
}

/// Whether two strings hold the same characters.
pub fn same_text(a: &str, b: &str) -> (r: bool)
    ensures
        r == (a@ == b@),
{
    let x = str_chars(a);
    let y = str_chars(b);
    if x.len() != y.len() {
        return false;
    }
    let mut i: usize = 0;
    while i < x.len()
        invariant
            i <= x@.len(),
            x@ == a@,
            y@ == b@,
            x@.len() == y@.len(),
            forall|j: int| 0 <= j < i ==> x@[j] == y@[j],
        decreases x@.len() - i,
    {
        if x[i] != y[i] {
            return false;
        }
        i = i + 1;
    }
    assert(x@ =~= y@);
    true
}

/// The lowercase hexadecimal text of a byte sequence, two digits per byte.
pub open spec fn hex_text(bytes: Seq<u8>) -> Seq<char>
    decreases bytes.len(),
{
    if bytes.len() == 0 {
        Seq::empty()
    } else {
        hex_text(bytes.drop_last()) + seq![
            hex_char(bytes.last() as int / 16),
            hex_char(bytes.last() as int % 16),
        ]
    }
}

/// Hexadecimal text has two digits per byte.
pub proof fn lemma_hex_text_len(bytes: Seq<u8>)
    ensures
        hex_text(bytes).len() == 2 * bytes.len(),
    decreases bytes.len(),
{
    if bytes.len() > 0 {
        lemma_hex_text_len(bytes.drop_last());
    }
}

/// Every character of hexadecimal text is a lowercase hexadecimal digit.
pub proof fn lemma_hex_text_digits(bytes: Seq<u8>)
    ensures
        forall|i: int|
            0 <= i < hex_text(bytes).len() ==> {
                let c = #[trigger] hex_text(bytes)[i];
                ('0' <= c && c <= '9') || ('a' <= c && c <= 'f')
            },
    decreases bytes.len(),
{
    if bytes.len() > 0 {
        lemma_hex_text_digits(bytes.drop_last());
        lemma_hex_text_len(bytes.drop_last());
        let b = bytes.last() as int;
        let prev = hex_text(bytes.drop_last());
        let tail = seq![hex_char(b / 16), hex_char(b % 16)];
        assert forall|i: int| 0 <= i < hex_text(bytes).len() implies {
            let c = #[trigger] hex_text(bytes)[i];
            ('0' <= c && c <= '9') || ('a' <= c && c <= 'f')
        } by {
            if i >= prev.len() {
                assert(hex_text(bytes)[i] == tail[i - prev.len()]);
            } else {
                assert(hex_text(bytes)[i] == prev[i]);
            }
        }
    }
}

/// Appends the lowercase hexadecimal text of `bytes`.
pub fn push_hex(out: &mut String, bytes: &[u8])
    ensures
        final(out)@ == old(out)@ + hex_text(bytes@),
{
    let mut i: usize = 0;
    while i < bytes.len()
        invariant
            i <= bytes@.len(),
            out@ == old(out)@ + hex_text(bytes@.take(i as int)),
        decreases bytes@.len() - i,
    {
        let b: u8 = bytes[i];
        let high: u32 = (b / 16) as u32;
        let low: u32 = (b % 16) as u32;
        push_char(out, hex_digit(high));
        push_char(out, hex_digit(low));
        assert(bytes@.take(i + 1).drop_last() =~= bytes@.take(i as int));
        assert(out@ =~= old(out)@ + hex_text(bytes@.take(i + 1)));
        i = i + 1;
    }
    assert(bytes@.take(bytes@.len() as int) =~= bytes@);
}

/// A character is never a surrogate code point.
proof fn lemma_char_not_surrogate(c: char)
    ensures
        (c as int) < 0xD800 || (0xE000 <= (c as int) && (c as int) <= 0x10FFFF),
{
}

/// Every character encodes to at least one code unit.
proof fn lemma_utf16_units_len(s: Seq<char>)
    ensures
        utf16_units(s).len() >= s.len(),
    decreases s.len(),
{
    if s.len() > 0 {
        lemma_utf16_units_len(s.drop_last());
    }
}

/// The last code unit tells a single-unit character from a surrogate pair,
/// and the units decode back to the character.
proof fn lemma_char_utf16_decodes(c: char, d: char)
    requires
        char_utf16(c).last() == char_utf16(d).last(),
        char_utf16(c).len() == char_utf16(d).len(),
        char_utf16(c).len() == 2 ==> char_utf16(c)[0] == char_utf16(d)[0],
    ensures
        c == d,
{
    let v = c as int;
    let w = d as int;
    if v < 0x10000 && w < 0x10000 {
    } else if v >= 0x10000 && w >= 0x10000 {
        let x = v - 0x10000;
        let y = w - 0x10000;
        assert(x / 1024 == y / 1024);
        assert(x % 1024 == y % 1024);
        assert(x == y) by (nonlinear_arith)
            requires
                x / 1024 == y / 1024,
                x % 1024 == y % 1024,
                x >= 0,
                y >= 0,
        ;
    }
}

/// UTF-16 encoding is injective: equal code units mean equal text.
pub proof fn lemma_utf16_units_injective(a: Seq<char>, b: Seq<char>)
    requires
        utf16_units(a) == utf16_units(b),
    ensures
        a == b,
    decreases a.len() + b.len(),
{
    lemma_utf16_units_len(a);
    lemma_utf16_units_len(b);
    if a.len() == 0 || b.len() == 0 {
        if a.len() > 0 {
            assert(utf16_units(a).len() > 0);
        }
        if b.len() > 0 {
            assert(utf16_units(b).len() > 0);
        }
        assert(a =~= b);
    } else {
        let ua = utf16_units(a);
        let pa = utf16_units(a.drop_last());
        let pb = utf16_units(b.drop_last());
        let ca = char_utf16(a.last());
        let cb = char_utf16(b.last());
        assert(ua == pa + ca);
        assert(ua == pb + cb);
        let va = a.last() as int;
        let vb = b.last() as int;
        // a single unit is never a low surrogate; the second unit of a pair always is
        assert(ca.len() == cb.len()) by {
            assert(ua.last() == ca.last());
            assert(ua.last() == cb.last());
            lemma_char_not_surrogate(a.last());
            lemma_char_not_surrogate(b.last());
            if va >= 0x10000 {
                assert(0xDC00 <= ca.last() <= 0xDFFF) by (nonlinear_arith)
                    requires
                        ca.last() == 0xDC00 + (va - 0x10000) % 1024,
                        va >= 0x10000,
                ;
            }
            if vb >= 0x10000 {
                assert(0xDC00 <= cb.last() <= 0xDFFF) by (nonlinear_arith)
                    requires
                        cb.last() == 0xDC00 + (vb - 0x10000) % 1024,
                        vb >= 0x10000,
                ;
            }
        }
        assert(pa.len() == pb.len());
        assert(pa =~= ua.take(pa.len() as int));
        assert(pb =~= ua.take(pb.len() as int));
        assert(ca =~= ua.skip(pa.len() as int));
        assert(cb =~= ua.skip(pb.len() as int));
        if ca.len() == 2 {
            assert(ca[0] == cb[0]);
        }
        lemma_char_utf16_decodes(a.last(), b.last());
        lemma_utf16_units_injective(a.drop_last(), b.drop_last());
        assert(a =~= a.drop_last().push(a.last()));
        assert(b =~= b.drop_last().push(b.last()));
    }
}

/// Escaping a sequence escapes its first character, then the rest.
pub proof fn lemma_escape_cons(c: char, s: Seq<char>)
    ensures
        json_escape(seq![c] + s) == json_escape_char(c) + json_escape(s),
    decreases s.len(),
{
    let t = seq![c] + s;
    assert(json_escape(t) == json_escape(t.drop_last()) + json_escape_char(t.last()));
    if s.len() == 0 {
        assert(t.drop_last() =~= Seq::<char>::empty());
        assert(t.last() == c);
        assert(json_escape(t.drop_last()) =~= Seq::<char>::empty());
        assert(json_escape(s) =~= Seq::<char>::empty());
        assert(json_escape(t) =~= json_escape_char(c) + json_escape(s));
    } else {
        lemma_escape_cons(c, s.drop_last());
        assert(t.drop_last() =~= seq![c] + s.drop_last());
        assert(t.last() == s.last());
        assert(json_escape(s) == json_escape(s.drop_last()) + json_escape_char(s.last()));
        assert(json_escape(t) =~= json_escape_char(c) + json_escape(s));
    }
}

/// No escape begins with a quote, and only escapes of special characters
/// begin with a backslash.
proof fn lemma_escape_char_head(c: char)
    ensures
        json_escape_char(c).len() >= 1,
        json_escape_char(c)[0] != '"',
        json_escape_char(c)[0] == '\\' ==> json_escape_char(c).len() >= 2,
        json_escape_char(c)[0] != '\\' ==> json_escape_char(c) == seq![c],
        json_escape_char(c)[1] == 'u' && json_escape_char(c)[0] == '\\' ==> json_escape_char(
            c,
        ).len() == 6 && (c as int) < 32,
{
}

/// Whether `p` is a prefix of `q`.
pub open spec fn is_prefix(p: Seq<char>, q: Seq<char>) -> bool {
    p.len() <= q.len() && q.subrange(0, p.len() as int) == p
}

/// Two escapes that agree as far as the longer one reaches escape the same
/// character.
proof fn lemma_escape_char_unique(c: char, d: char, x: Seq<char>, y: Seq<char>)
    requires
        x.len() >= 1,
        is_prefix(json_escape_char(c) + x, json_escape_char(d) + y),
        y.len() >= 1,
    ensures
        c == d,
{
    let ec = json_escape_char(c);
    let ed = json_escape_char(d);
    let p = ec + x;
    let q = ed + y;
    lemma_escape_char_head(c);
    lemma_escape_char_head(d);
    assert(p[0] == q[0]);
    assert(p[0] == ec[0] && q[0] == ed[0]);
    if ec[0] == '\\' {
        assert(p[1] == q[1]);
        assert(p[1] == ec[1]);
        assert(ed.len() >= 2);
        assert(q[1] == ed[1]);
        if ec[1] == 'u' {
            assert(ed.len() == 6);
            assert(p[4] == q[4] && p[5] == q[5]);
            assert(p[4] == ec[4] && p[5] == ec[5]);
            assert(q[4] == ed[4] && q[5] == ed[5]);
            assert((c as int) < 32 && (d as int) < 32);
            assert(hex_char((c as int) / 16) == hex_char((d as int) / 16));
            assert(hex_char((c as int) % 16) == hex_char((d as int) % 16));
            assert((c as int) / 16 == (d as int) / 16);
            assert((c as int) % 16 == (d as int) % 16);
            assert(c as int == d as int);
        }
    } else {
        assert(ed[0] != '\\');
        assert(ec == seq![c] && ed == seq![d]);
    }
}

/// The quoted-string tail of one text is never a prefix of another's: equal
/// tails, or one a prefix of the other, come only from equal texts.
pub proof fn lemma_string_tail_prefix_free(a: Seq<char>, b: Seq<char>)
    requires
        is_prefix(json_string_tail(a), json_string_tail(b)),
    ensures
        a == b,
    decreases a.len(),
{
    let ta = json_string_tail(a);
    let tb = json_string_tail(b);
    if a.len() == 0 {
        assert(ta =~= seq!['"']);
        if b.len() > 0 {
            let b0 = b[0];
            let rest = b.skip(1);
            assert(b =~= seq![b0] + rest);
            lemma_escape_cons(b0, rest);
            lemma_escape_char_head(b0);
            assert(tb[0] == json_escape_char(b0)[0]);
            assert(tb[0] == ta[0]);
        }
        assert(b.len() == 0);
        assert(a =~= b);
    } else {
        let a0 = a[0];
        let ra = a.skip(1);
        assert(a =~= seq![a0] + ra);
        lemma_escape_cons(a0, ra);
        lemma_escape_char_head(a0);
        assert(ta =~= json_escape_char(a0) + json_string_tail(ra));
        if b.len() == 0 {
            assert(tb =~= seq!['"']);
            assert(ta.len() >= 2);
            assert(false);
        }
        let b0 = b[0];
        let rb = b.skip(1);
        assert(b =~= seq![b0] + rb);
        lemma_escape_cons(b0, rb);
        assert(tb =~= json_escape_char(b0) + json_string_tail(rb));
        lemma_escape_char_unique(a0, b0, json_string_tail(ra), json_string_tail(rb));
        let e = json_escape_char(a0);
        let n = e.len();
        assert(json_string_tail(ra).len() <= json_string_tail(rb).len());
        assert forall|i: int| 0 <= i < json_string_tail(ra).len() implies #[trigger] json_string_tail(
            rb,
        )[i] == json_string_tail(ra)[i] by {
            assert(ta[n + i] == json_string_tail(ra)[i]);
            assert(tb[n + i] == json_string_tail(rb)[i]);
            assert(tb.subrange(0, ta.len() as int)[n + i] == ta[n + i]);
        }
        assert(json_string_tail(rb).subrange(0, json_string_tail(ra).len() as int) =~= json_string_tail(
            ra,
        ));
        lemma_string_tail_prefix_free(ra, rb);
        assert(a =~= b);
    }
}

/// A decimal rendering is nonempty and made of ASCII digits.
pub proof fn lemma_decimal_digits(n: nat)
    ensures
        decimal_chars(n).len() >= 1,
        forall|i: int|
            0 <= i < decimal_chars(n).len() ==> 48 <= #[trigger] (decimal_chars(n)[i] as int) <= 57,
    decreases n,
{
    if n >= 10 {
        lemma_decimal_digits(n / 10);
        let d = digit_char(n % 10);
        assert(d as int == (n % 10) + 48);
        let s = decimal_chars(n / 10).push(d);
        assert forall|i: int| 0 <= i < s.len() implies 48 <= #[trigger] (s[i] as int) <= 57 by {
            if i < s.len() - 1 {
                assert(s[i] == decimal_chars(n / 10)[i]);
            }
        }
    } else {
        assert(digit_char(n) as int == n + 48);
    }
}

/// Whether a character is written unescaped in a JSON string.
pub open spec fn json_plain_char(c: char) -> bool {
    32 <= c as int && c != '"' && c != '\\'
}

/// Text of plain characters escapes to itself.
pub proof fn lemma_escape_plain(s: Seq<char>)
    requires
        forall|i: int| 0 <= i < s.len() ==> json_plain_char(#[trigger] s[i]),
    ensures
        json_escape(s) == s,
    decreases s.len(),
{
    if s.len() > 0 {
        lemma_escape_plain(s.drop_last());
        assert(json_plain_char(s[s.len() - 1]));
        assert(json_escape_char(s.last()) == seq![s.last()]);
        assert(s.drop_last().push(s.last()) =~= s);
        assert(json_escape(s) =~= s.drop_last() + seq![s.last()]);
    } else {
        assert(json_escape(s) =~= s);
    }
}

} // verus!
