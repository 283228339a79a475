//! Deterministic deck validation and local price accounting.

use std::cmp::Ordering;

use vstd::pervasive::VecAdditionalExecFns;
use vstd::prelude::*;

use crate::canonical::{
    compare_keys, identity_of_canonical_text, identity_of_text, key_order, IdentityHash,
};
use crate::codes::{len_code, succ_nat, u32_codes, u64_int, usize_int, usize_nat};
use crate::json::{push_string_text, string_text};
use crate::order::{
    compare_lex, lemma_lex_order_antisymmetric, lemma_lex_order_equal,
    lemma_lex_order_not_greater_transitive, lemma_lex_order_transitive, lex_order,
};
use crate::text::{
    char_code, decimal_char_vec, decimal_chars, lemma_utf16_units_injective, push_str, same_text,
    str_chars,
    string_from_chars, utf16_units,
};

verus! {

/// The fewest cards an engine zone may hold.
pub const ENGINE_MIN_ZONE_CARDS: u32 = 3;

/// The most cards an engine zone may hold.
pub const ENGINE_MAX_ZONE_CARDS: u32 = 200;

/// The longest card identity, in UTF-8 bytes.
pub const MAX_CARD_ID_BYTES: usize = 256;

/// A card's deck-building category.
#[derive(Clone, Copy, Debug, Eq, Ord, PartialEq, PartialOrd, Structural)]
pub enum CardType {
    /// A player's single avatar.
    Avatar,
    /// A site placed in the Atlas.
    Site,
    /// A summoned minion.
    Minion,
    /// An attached artifact.
    Artifact,
    /// A persistent aura.
    Aura,
    /// A one-shot magic card.
    Magic,
}

/// A rarity with a modeled Constructed copy limit.
#[derive(Clone, Copy, Debug, Eq, Ord, PartialEq, PartialOrd, Structural)]
pub enum Rarity {
    /// Up to four copies.
    Ordinary,
    /// Up to three copies.
    Exceptional,
    /// Up to two copies.
    Elite,
    /// Up to one copy.
    Unique,
}

/// The zone containing a deck entry.
#[derive(Clone, Copy, Debug, Eq, Ord, PartialEq, PartialOrd, Structural)]
pub enum DeckZone {
    /// The avatar slot.
    Avatar,
    /// The Atlas.
    Atlas,
    /// The Spellbook.
    Spellbook,
}

/// A card and positive intended copy count.
#[derive(Clone, Debug, Eq, PartialEq)]
pub struct CardCount {
    /// Stable authority card identity.
    pub card_id: String,
    /// Number of copies.
    pub copies: u32,
}

/// A count-based candidate deck. Atlas and Spellbook row order is not meaningful.
#[derive(Clone, Debug, Eq, PartialEq)]
pub struct CandidateDeck {
    /// The avatar's stable card identity.
    pub avatar: String,
    /// Counted Atlas entries.
    pub atlas: Vec<CardCount>,
    /// Counted Spellbook entries.
    pub spellbook: Vec<CardCount>,
}

/// A candidate deck normalized into canonical stable-ID order.
#[derive(Clone, Debug, Eq, PartialEq)]
pub struct CanonicalDeck {
    /// The avatar's stable card identity.
    pub avatar: String,
    /// Canonically ordered Atlas entries.
    pub atlas: Vec<CardCount>,
    /// Canonically ordered Spellbook entries.
    pub spellbook: Vec<CardCount>,
}

/// The sole currently modeled deck format.
#[derive(Clone, Copy, Debug, Eq, PartialEq)]
pub struct FormatContext {
    stable_id: &'static str,
    atlas_minimum: u32,
    avatar_count: u32,
    spellbook_minimum: u32,
}

/// The copy limit of a rarity in the modeled Constructed format.
pub open spec fn rarity_limit(rarity: Rarity) -> u32 {
    match rarity {
        Rarity::Ordinary => 4,
        Rarity::Exceptional => 3,
        Rarity::Elite => 2,
        Rarity::Unique => 1,
    }
}

impl FormatContext {
    /// The format identity.
    pub closed spec fn spec_stable_id(self) -> Seq<char> {
        self.stable_id@
    }

    /// The required Atlas size.
    pub closed spec fn spec_atlas_minimum(self) -> u32 {
        self.atlas_minimum
    }

    /// The required number of avatars.
    pub closed spec fn spec_avatar_count(self) -> u32 {
        self.avatar_count
    }

    /// The required Spellbook size.
    pub closed spec fn spec_spellbook_minimum(self) -> u32 {
        self.spellbook_minimum
    }

    /// The currently modeled Constructed format.
    pub closed spec fn spec_constructed() -> FormatContext {
        FormatContext {
            stable_id: "format:modeled-constructed-v1",
            atlas_minimum: 30,
            avatar_count: 1,
            spellbook_minimum: 60,
        }
    }

    /// Returns the immutable currently modeled Constructed format.
    pub fn constructed() -> (r: FormatContext)
        ensures
            r == FormatContext::spec_constructed(),
            r.spec_stable_id() == "format:modeled-constructed-v1"@,
            r.spec_atlas_minimum() == 30,
            r.spec_avatar_count() == 1,
            r.spec_spellbook_minimum() == 60,
    {
        FormatContext {
            stable_id: "format:modeled-constructed-v1",
            atlas_minimum: 30,
            avatar_count: 1,
            spellbook_minimum: 60,
        }
    }

    /// Returns the format identity included in canonical deck identities.
    pub fn stable_id(&self) -> (r: &'static str)
        ensures
            r@ == self.spec_stable_id(),
    {
        self.stable_id
    }

    /// Returns the required Atlas size.
    pub fn atlas_minimum(&self) -> (r: u32)
        ensures
            r == self.spec_atlas_minimum(),
    {
        self.atlas_minimum
    }

    /// Returns the required number of avatars.
    pub fn avatar_count(&self) -> (r: u32)
        ensures
            r == self.spec_avatar_count(),
    {
        self.avatar_count
    }

    /// Returns the required Spellbook size.
    pub fn spellbook_minimum(&self) -> (r: u32)
        ensures
            r == self.spec_spellbook_minimum(),
    {
        self.spellbook_minimum
    }

    /// Returns the copy limit for `rarity`.
    pub fn copy_limit(&self, rarity: Rarity) -> (r: u32)
        ensures
            r == rarity_limit(rarity),
    {
        match rarity {
            Rarity::Ordinary => 4,
            Rarity::Exceptional => 3,
            Rarity::Elite => 2,
            Rarity::Unique => 1,
        }
    }
}

/// Whether `c` has the Unicode `White_Space` property (`char::is_whitespace`).
pub open spec fn unicode_whitespace(c: char) -> bool {
    ('\u{0009}' <= c && c <= '\u{000D}') || c == '\u{0020}' || c == '\u{0085}' || c == '\u{00A0}'
        || c == '\u{1680}' || ('\u{2000}' <= c && c <= '\u{200A}') || c == '\u{2028}' || c
        == '\u{2029}' || c == '\u{202F}' || c == '\u{205F}' || c == '\u{3000}'
}

/// Whether `c` has the Unicode `White_Space` property.
fn is_unicode_whitespace(c: char) -> (r: bool)
    ensures
        r == unicode_whitespace(c),
{
    ('\u{0009}' <= c && c <= '\u{000D}') || c == '\u{0020}' || c == '\u{0085}' || c == '\u{00A0}'
        || c == '\u{1680}' || ('\u{2000}' <= c && c <= '\u{200A}') || c == '\u{2028}' || c
        == '\u{2029}' || c == '\u{202F}' || c == '\u{205F}' || c == '\u{3000}'
}

/// Whether text is empty once surrounding whitespace is trimmed.
pub open spec fn blank(s: Seq<char>) -> bool {
    forall|i: int| 0 <= i < s.len() ==> unicode_whitespace(#[trigger] s[i])
}

/// Whether trimming `s` leaves nothing (`str::trim().is_empty()`).
pub fn is_blank(s: &str) -> (r: bool)
    ensures
        r == blank(s@),
{
    let chars = str_chars(s);
    let mut i: usize = 0;
    while i < chars.len()
        invariant
            i <= chars@.len(),
            chars@ == s@,
            forall|j: int| 0 <= j < i ==> unicode_whitespace(#[trigger] chars@[j]),
        decreases chars@.len() - i,
    {
        if !is_unicode_whitespace(chars[i]) {
            return false;
        }
        i = i + 1;
    }
    true
}

/// The number of UTF-8 bytes that encode `c`.
pub open spec fn utf8_width(c: char) -> nat {
    if (c as u32) < 0x80 {
        1
    } else if (c as u32) < 0x800 {
        2
    } else if (c as u32) < 0x10000 {
        3
    } else {
        4
    }
}

/// The number of UTF-8 bytes that encode `s` (`str::len`).
pub open spec fn utf8_len(s: Seq<char>) -> nat
    decreases s.len(),
{
    if s.len() == 0 {
        0
    } else {
        utf8_len(s.drop_last()) + utf8_width(s.last())
    }
}

/// Whether a card identity is acceptable: not blank and at most 256 UTF-8 bytes.
pub open spec fn valid_card_id(card_id: Seq<char>) -> bool {
    !blank(card_id) && utf8_len(card_id) <= MAX_CARD_ID_BYTES
}

/// Whether `s` encodes in at most `limit` UTF-8 bytes.
fn utf8_len_at_most(s: &str, limit: usize) -> (r: bool)
    ensures
        r == (utf8_len(s@) <= limit),
{
    let chars = str_chars(s);
    let mut total: usize = 0;
    let mut i: usize = 0;
    while i < chars.len()
        invariant
            i <= chars@.len(),
            chars@ == s@,
            total == utf8_len(chars@.take(i as int)),
            total <= limit,
        decreases chars@.len() - i,
    {
        let c = chars[i];
        let code: u32 = c as u32;
        let width: usize = if code < 0x80 {
            1
        } else if code < 0x800 {
            2
        } else if code < 0x10000 {
            3
        } else {
            4
        };
        assert(chars@.take(i + 1).drop_last() =~= chars@.take(i as int));
        if width > limit - total {
            proof {
                lemma_utf8_len_prefix(chars@, i + 1);
            }
            return false;
        }
        total = total + width;
        i = i + 1;
    }
    assert(chars@.take(chars@.len() as int) =~= chars@);
    true
}

/// A prefix never encodes in more bytes than the whole.
proof fn lemma_utf8_len_prefix(s: Seq<char>, n: int)
    requires
        0 <= n <= s.len(),
    ensures
        utf8_len(s.take(n)) <= utf8_len(s),
    decreases s.len() - n,
{
    if n < s.len() {
        lemma_utf8_len_prefix(s, n + 1);
        assert(s.take(n + 1).drop_last() =~= s.take(n));
    } else {
        assert(s.take(n) =~= s);
    }
}

/// Whether a card identity is acceptable.
fn is_valid_card_id(card_id: &str) -> (r: bool)
    ensures
        r == valid_card_id(card_id@),
{
    !is_blank(card_id) && utf8_len_at_most(card_id, MAX_CARD_ID_BYTES)
}

/// A deterministic deck validation diagnostic.
#[derive(Clone, Debug, Eq, Ord, PartialEq, PartialOrd)]
pub enum DeckDiagnostic {
    /// A card ID is blank or exceeds the engine boundary.
    InvalidCardId { card_id: String, zone: DeckZone },
    /// A counted row has no copies.
    ZeroCopies { card_id: String, zone: DeckZone },
    /// A zone repeats a counted card row.
    DuplicateCard { card_id: String, zone: DeckZone },
    /// The authority catalog has no such stable card identity.
    UnknownCard { card_id: String, zone: DeckZone },
    /// The card category cannot occur in this zone.
    WrongCardType { actual: CardType, card_id: String, zone: DeckZone },
    /// A token minion was included in the Spellbook.
    TokenInSpellbook { card_id: String },
    /// A deck card has no rarity and therefore no modeled copy limit.
    MissingRarity { card_id: String },
    /// The deck exceeds a modeled rarity copy limit.
    CopyLimitExceeded { actual: u32, card_id: String, limit: u32, rarity: Rarity },
    /// The Atlas is smaller than the modeled format minimum.
    AtlasMinimum { actual: u32, required: u32 },
    /// The Spellbook is smaller than the modeled format minimum.
    SpellbookMinimum { actual: u32, required: u32 },
    /// An engine zone contains fewer than three cards.
    EngineZoneMinimum { actual: u32, required: u32, zone: DeckZone },
    /// An engine zone contains more than 200 cards.
    EngineZoneMaximum { actual: u32, limit: u32, zone: DeckZone },
    /// The card is format-legal but has unsupported authoritative mechanics.
    UnsupportedCard { card_id: String },
}

/// Whether a diagnostic makes a deck illegal in the modeled format.
pub open spec fn diagnostic_invalidates_format(d: DeckDiagnostic) -> bool {
    !(d is EngineZoneMinimum || d is EngineZoneMaximum || d is UnsupportedCard)
}

/// Whether a diagnostic makes a deck unsupported by the engine.
pub open spec fn diagnostic_invalidates_engine_support(d: DeckDiagnostic) -> bool {
    !(d is AtlasMinimum || d is SpellbookMinimum || d is MissingRarity || d is CopyLimitExceeded)
}

impl DeckDiagnostic {
    /// Whether the diagnostic makes the deck illegal in the modeled format.
    pub fn invalidates_format(&self) -> (r: bool)
        ensures
            r == diagnostic_invalidates_format(*self),
    {
        match self {
            DeckDiagnostic::EngineZoneMinimum { .. } => false,
            DeckDiagnostic::EngineZoneMaximum { .. } => false,
            DeckDiagnostic::UnsupportedCard { .. } => false,
            _ => true,
        }
    }

    /// Whether the diagnostic makes the deck unsupported by the engine.
    pub fn invalidates_engine_support(&self) -> (r: bool)
        ensures
            r == diagnostic_invalidates_engine_support(*self),
    {
        match self {
            DeckDiagnostic::AtlasMinimum { .. } => false,
            DeckDiagnostic::SpellbookMinimum { .. } => false,
            DeckDiagnostic::MissingRarity { .. } => false,
            DeckDiagnostic::CopyLimitExceeded { .. } => false,
            _ => true,
        }
    }
}

/// The position of a zone in declaration order.
pub open spec fn zone_rank(z: DeckZone) -> int {
    match z {
        DeckZone::Avatar => 0,
        DeckZone::Atlas => 1,
        DeckZone::Spellbook => 2,
    }
}

/// The position of a card type in declaration order.
pub open spec fn card_type_rank(t: CardType) -> int {
    match t {
        CardType::Avatar => 0,
        CardType::Site => 1,
        CardType::Minion => 2,
        CardType::Artifact => 3,
        CardType::Aura => 4,
        CardType::Magic => 5,
    }
}

/// The position of a rarity in declaration order.
pub open spec fn rarity_rank(r: Rarity) -> int {
    match r {
        Rarity::Ordinary => 0,
        Rarity::Exceptional => 1,
        Rarity::Elite => 2,
        Rarity::Unique => 3,
    }
}

/// A text field as a sort key: each code point plus one, then a zero, so
/// that lexicographic comparison of keys orders texts as `String` does and
/// moves on to the next field only when the texts are equal.
pub open spec fn text_key(s: Seq<char>) -> Seq<int> {
    s.map_values(|c: char| c as int + 1).push(0)
}

/// A diagnostic as a sort key: its variant's position, then its fields in
/// declaration order. Lexicographic order of keys is the derived order of
/// diagnostics.
pub open spec fn diagnostic_key(d: DeckDiagnostic) -> Seq<int> {
    match d {
        DeckDiagnostic::InvalidCardId { card_id, zone } => seq![0int] + text_key(card_id@) + seq![
            zone_rank(zone),
        ],
        DeckDiagnostic::ZeroCopies { card_id, zone } => seq![1int] + text_key(card_id@) + seq![
            zone_rank(zone),
        ],
        DeckDiagnostic::DuplicateCard { card_id, zone } => seq![2int] + text_key(card_id@) + seq![
            zone_rank(zone),
        ],
        DeckDiagnostic::UnknownCard { card_id, zone } => seq![3int] + text_key(card_id@) + seq![
            zone_rank(zone),
        ],
        DeckDiagnostic::WrongCardType { actual, card_id, zone } => seq![
            4int,
            card_type_rank(actual),
        ] + text_key(card_id@) + seq![zone_rank(zone)],
        DeckDiagnostic::TokenInSpellbook { card_id } => seq![5int] + text_key(card_id@),
        DeckDiagnostic::MissingRarity { card_id } => seq![6int] + text_key(card_id@),
        DeckDiagnostic::CopyLimitExceeded { actual, card_id, limit, rarity } => seq![
            7int,
            actual as int,
        ] + text_key(card_id@) + seq![limit as int, rarity_rank(rarity)],
        DeckDiagnostic::AtlasMinimum { actual, required } => seq![
            8int,
            actual as int,
            required as int,
        ],
        DeckDiagnostic::SpellbookMinimum { actual, required } => seq![
            9int,
            actual as int,
            required as int,
        ],
        DeckDiagnostic::EngineZoneMinimum { actual, required, zone } => seq![
            10int,
            actual as int,
            required as int,
            zone_rank(zone),
        ],
        DeckDiagnostic::EngineZoneMaximum { actual, limit, zone } => seq![
            11int,
            actual as int,
            limit as int,
            zone_rank(zone),
        ],
        DeckDiagnostic::UnsupportedCard { card_id } => seq![12int] + text_key(card_id@),
    }
}

/// Appends the sort key of a text field.
pub(crate) fn push_text_key(out: &mut Vec<u32>, s: &str)
    ensures
        u32_codes(final(out)@) == u32_codes(old(out)@) + text_key(s@),
{
    let chars = str_chars(s);
    let ghost start = out@;
    let mut i: usize = 0;
    while i < chars.len()
        invariant
            i <= chars@.len(),
            chars@ == s@,
            u32_codes(out@) == u32_codes(start) + chars@.take(i as int).map_values(
                |c: char| c as int + 1,
            ),
        decreases chars@.len() - i,
    {
        let code: u32 = char_code(chars[i]);
        let ghost prev = out@;
        out.push(code + 1);
        assert(u32_codes(out@) =~= u32_codes(prev).push(code + 1));
        assert(chars@.take(i + 1).map_values(|c: char| c as int + 1) =~= chars@.take(
            i as int,
        ).map_values(|c: char| c as int + 1).push(chars@[i as int] as int + 1));
        assert(u32_codes(out@) =~= u32_codes(start) + chars@.take(i + 1).map_values(
            |c: char| c as int + 1,
        ));
        i = i + 1;
    }
    let ghost prev = out@;
    out.push(0);
    assert(u32_codes(out@) =~= u32_codes(prev).push(0));
    assert(chars@.take(chars@.len() as int) =~= chars@);
    assert(u32_codes(out@) =~= u32_codes(start) + text_key(s@));
}

/// Appends integer sort key components.
fn push_key_values(out: &mut Vec<u32>, values: &[u32])
    ensures
        u32_codes(final(out)@) == u32_codes(old(out)@) + u32_codes(values@),
{
    let ghost start = out@;
    let mut i: usize = 0;
    while i < values.len()
        invariant
            i <= values@.len(),
            u32_codes(out@) == u32_codes(start) + u32_codes(values@.take(i as int)),
        decreases values@.len() - i,
    {
        let ghost prev = out@;
        out.push(values[i]);
        assert(u32_codes(out@) =~= u32_codes(prev).push(values@[i as int] as int));
        assert(u32_codes(values@.take(i + 1)) =~= u32_codes(values@.take(i as int)).push(
            values@[i as int] as int,
        ));
        assert(u32_codes(out@) =~= u32_codes(start) + u32_codes(values@.take(i + 1)));
        i = i + 1;
    }
    assert(values@.take(values@.len() as int) =~= values@);
}

/// The position of a zone in declaration order.
fn zone_rank_of(z: DeckZone) -> (r: u32)
    ensures
        r as int == zone_rank(z),
{
    match z {
        DeckZone::Avatar => 0,
        DeckZone::Atlas => 1,
        DeckZone::Spellbook => 2,
    }
}

/// The position of a card type in declaration order.
fn card_type_rank_of(t: CardType) -> (r: u32)
    ensures
        r as int == card_type_rank(t),
{
    match t {
        CardType::Avatar => 0,
        CardType::Site => 1,
        CardType::Minion => 2,
        CardType::Artifact => 3,
        CardType::Aura => 4,
        CardType::Magic => 5,
    }
}

/// The position of a rarity in declaration order.
fn rarity_rank_of(r: Rarity) -> (o: u32)
    ensures
        o as int == rarity_rank(r),
{
    match r {
        Rarity::Ordinary => 0,
        Rarity::Exceptional => 1,
        Rarity::Elite => 2,
        Rarity::Unique => 3,
    }
}

/// Builds the sort key of a diagnostic.
fn diagnostic_key_vec(d: &DeckDiagnostic) -> (r: Vec<u32>)
    ensures
        u32_codes(r@) == diagnostic_key(*d),
{
    let mut key: Vec<u32> = Vec::new();
    match d {
        DeckDiagnostic::InvalidCardId { card_id, zone } => {
            push_key_values(&mut key, &[0]);
            push_text_key(&mut key, card_id.as_str());
            push_key_values(&mut key, &[zone_rank_of(*zone)]);
        },
        DeckDiagnostic::ZeroCopies { card_id, zone } => {
            push_key_values(&mut key, &[1]);
            push_text_key(&mut key, card_id.as_str());
            push_key_values(&mut key, &[zone_rank_of(*zone)]);
        },
        DeckDiagnostic::DuplicateCard { card_id, zone } => {
            push_key_values(&mut key, &[2]);
            push_text_key(&mut key, card_id.as_str());
            push_key_values(&mut key, &[zone_rank_of(*zone)]);
        },
        DeckDiagnostic::UnknownCard { card_id, zone } => {
            push_key_values(&mut key, &[3]);
            push_text_key(&mut key, card_id.as_str());
            push_key_values(&mut key, &[zone_rank_of(*zone)]);
        },
        DeckDiagnostic::WrongCardType { actual, card_id, zone } => {
            push_key_values(&mut key, &[4, card_type_rank_of(*actual)]);
            push_text_key(&mut key, card_id.as_str());
            push_key_values(&mut key, &[zone_rank_of(*zone)]);
        },
        DeckDiagnostic::TokenInSpellbook { card_id } => {
            push_key_values(&mut key, &[5]);
            push_text_key(&mut key, card_id.as_str());
        },
        DeckDiagnostic::MissingRarity { card_id } => {
            push_key_values(&mut key, &[6]);
            push_text_key(&mut key, card_id.as_str());
        },
        DeckDiagnostic::CopyLimitExceeded { actual, card_id, limit, rarity } => {
            push_key_values(&mut key, &[7, *actual]);
            push_text_key(&mut key, card_id.as_str());
            push_key_values(&mut key, &[*limit, rarity_rank_of(*rarity)]);
        },
        DeckDiagnostic::AtlasMinimum { actual, required } => {
            push_key_values(&mut key, &[8, *actual, *required]);
        },
        DeckDiagnostic::SpellbookMinimum { actual, required } => {
            push_key_values(&mut key, &[9, *actual, *required]);
        },
        DeckDiagnostic::EngineZoneMinimum { actual, required, zone } => {
            push_key_values(&mut key, &[10, *actual, *required, zone_rank_of(*zone)]);
        },
        DeckDiagnostic::EngineZoneMaximum { actual, limit, zone } => {
            push_key_values(&mut key, &[11, *actual, *limit, zone_rank_of(*zone)]);
        },
        DeckDiagnostic::UnsupportedCard { card_id } => {
            push_key_values(&mut key, &[12]);
            push_text_key(&mut key, card_id.as_str());
        },
    }
    assert(u32_codes(key@) =~= diagnostic_key(*d));
    key
}

/// Whether diagnostics are in their derived order.
pub open spec fn diagnostics_sorted(s: Seq<DeckDiagnostic>) -> bool {
    forall|i: int, j: int|
        0 <= i < j < s.len() ==> lex_order(diagnostic_key(s[i]), diagnostic_key(s[j]))
            != Ordering::Greater
}

/// Inserting `x` after every diagnostic that does not sort after it, and
/// before those that do, keeps the sequence sorted.
proof fn lemma_insert_keeps_sorted(s: Seq<DeckDiagnostic>, j: int, x: DeckDiagnostic)
    requires
        diagnostics_sorted(s),
        0 <= j <= s.len(),
        j > 0 ==> lex_order(diagnostic_key(s[j - 1]), diagnostic_key(x)) != Ordering::Greater,
        forall|t: int|
            j <= t < s.len() ==> lex_order(diagnostic_key(#[trigger] s[t]), diagnostic_key(x))
                == Ordering::Greater,
    ensures
        diagnostics_sorted(s.insert(j, x)),
{
    let r = s.insert(j, x);
    assert forall|a: int, b: int| 0 <= a < b < r.len() implies lex_order(
        diagnostic_key(r[a]),
        diagnostic_key(r[b]),
    ) != Ordering::Greater by {
        if b < j {
        } else if a > j {
            assert(r[a] == s[a - 1]);
            assert(r[b] == s[b - 1]);
        } else if b == j {
            assert(r[b] == x);
            if a < j - 1 {
                lemma_lex_order_not_greater_transitive(
                    diagnostic_key(s[a]),
                    diagnostic_key(s[j - 1]),
                    diagnostic_key(x),
                );
            }
        } else if a == j {
            assert(r[a] == x);
            assert(r[b] == s[b - 1]);
            lemma_lex_order_antisymmetric(diagnostic_key(s[b - 1]), diagnostic_key(x));
        } else {
            assert(r[b] == s[b - 1]);
        }
    }
}

/// Sorts diagnostics into their derived order.
fn sort_diagnostics(diagnostics: Vec<DeckDiagnostic>) -> (r: Vec<DeckDiagnostic>)
    ensures
        diagnostics_sorted(r@),
        r@.to_multiset() == diagnostics@.to_multiset(),
{
    let ghost all = diagnostics@;
    let mut rest = diagnostics;
    let mut sorted: Vec<DeckDiagnostic> = Vec::new();
    let ghost mut k: int = 0;
    assert(all.take(0) =~= Seq::<DeckDiagnostic>::empty());
    while rest.len() > 0
        invariant
            0 <= k <= all.len(),
            all == diagnostics@,
            rest@ == all.skip(k),
            sorted@.to_multiset() == all.take(k).to_multiset(),
            diagnostics_sorted(sorted@),
        decreases rest@.len(),
    {
        let ghost before = rest@;
        let x = rest.remove(0);
        assert(before.skip(1) =~= rest@);
        assert(all.skip(k + 1) =~= all.skip(k).skip(1));
        assert(all.take(k + 1) =~= all.take(k).push(x));
        let kx = diagnostic_key_vec(&x);
        let mut j: usize = sorted.len();
        while j > 0
            invariant
                j <= sorted@.len(),
                u32_codes(kx@) == diagnostic_key(x),
                forall|t: int|
                    j <= t < sorted@.len() ==> lex_order(
                        diagnostic_key(#[trigger] sorted@[t]),
                        diagnostic_key(x),
                    ) == Ordering::Greater,
            ensures
                j <= sorted@.len(),
                forall|t: int|
                    j <= t < sorted@.len() ==> lex_order(
                        diagnostic_key(#[trigger] sorted@[t]),
                        diagnostic_key(x),
                    ) == Ordering::Greater,
                j > 0 ==> lex_order(diagnostic_key(sorted@[j - 1]), diagnostic_key(x))
                    != Ordering::Greater,
            decreases j,
        {
            let kj = diagnostic_key_vec(&sorted[j - 1]);
            match compare_lex(&kj, &kx) {
                Ordering::Greater => {},
                _ => {
                    break;
                },
            }
            j = j - 1;
        }
        proof {
            lemma_insert_keeps_sorted(sorted@, usize_int(j), x);
        }
        let ghost old_sorted = sorted@;
        sorted.insert(j, x);
        assert(sorted@ == old_sorted.insert(usize_int(j), x));
        proof {
            vstd::seq_lib::to_multiset_insert(old_sorted, usize_int(j), x);
            vstd::seq_lib::to_multiset_build(all.take(k), x);
        }
        proof {
            k = k + 1;
        }
    }
    assert(all.take(k) =~= all);
    sorted
}

/// The copies of `card_id` over the first `n` rows.
pub open spec fn copies_of(rows: Seq<CardCount>, card_id: Seq<char>, n: nat) -> nat
    decreases n,
{
    if n == 0 {
        0
    } else {
        copies_of(rows, card_id, (n - 1) as nat) + if rows[n - 1].card_id@ == card_id {
            rows[n - 1].copies as nat
        } else {
            0
        }
    }
}

/// Whether row `i` takes its card's running total past `u32::MAX`.
pub open spec fn overflows_at(rows: Seq<CardCount>, i: int) -> bool {
    &&& 0 <= i < rows.len()
    &&& rows[i].copies > 0
    &&& copies_of(rows, rows[i].card_id@, (i + 1) as nat) > u32::MAX
}

/// Whether some row's running total overflows.
pub open spec fn rows_overflow(rows: Seq<CardCount>) -> bool {
    exists|i: int| #[trigger] overflows_at(rows, i)
}

/// Whether `i` is the first row whose running total overflows.
pub open spec fn first_overflow(rows: Seq<CardCount>, i: int) -> bool {
    &&& overflows_at(rows, i)
    &&& forall|j: int| 0 <= j < i ==> !#[trigger] overflows_at(rows, j)
}

/// Whether `out` is the canonical form of `rows`: one row per card with
/// positive total copies, holding that total, in UTF-16 order of card
/// identities.
pub open spec fn canonical_rows(rows: Seq<CardCount>, out: Seq<CardCount>) -> bool {
    &&& forall|a: int, b: int|
        0 <= a < b < out.len() ==> key_order(out[a].card_id@, out[b].card_id@)
            != Ordering::Greater
    &&& forall|a: int, b: int|
        0 <= a < b < out.len() ==> out[a].card_id@ != out[b].card_id@
    &&& forall|a: int|
        0 <= a < out.len() ==> (#[trigger] out[a]).copies > 0 && out[a].copies == copies_of(
            rows,
            out[a].card_id@,
            rows.len(),
        )
    &&& forall|k: Seq<char>|
        copies_of(rows, k, rows.len()) > 0 ==> exists|a: int|
            0 <= a < out.len() && (#[trigger] out[a]).card_id@ == k
}

/// The diagnostics that row `i` of a zone raises while it is counted.
pub open spec fn row_diagnostics(rows: Seq<CardCount>, zone: DeckZone, i: int) -> Seq<DeckDiagnostic> {
    let row = rows[i];
    let invalid = if valid_card_id(row.card_id@) {
        Seq::empty()
    } else {
        seq![DeckDiagnostic::InvalidCardId { card_id: row.card_id, zone }]
    };
    let counted = if row.copies == 0 {
        seq![DeckDiagnostic::ZeroCopies { card_id: row.card_id, zone }]
    } else if copies_of(rows, row.card_id@, i as nat) > 0 {
        seq![DeckDiagnostic::DuplicateCard { card_id: row.card_id, zone }]
    } else {
        Seq::empty()
    };
    invalid + counted
}

/// The diagnostics raised while counting the first `n` rows of a zone.
pub open spec fn counting_diagnostics(rows: Seq<CardCount>, zone: DeckZone, n: nat) -> Seq<
    DeckDiagnostic,
>
    decreases n,
{
    if n == 0 {
        Seq::empty()
    } else {
        counting_diagnostics(rows, zone, (n - 1) as nat) + row_diagnostics(rows, zone, n - 1)
    }
}

/// Deck validation could not produce a trustworthy result.
#[derive(Clone, Debug, Eq, PartialEq)]
pub enum DeckError {
    /// Count aggregation overflowed.
    CopyCountOverflow { card_id: String, zone: DeckZone },
    /// A zone's aggregate copy count overflowed.
    ZoneCountOverflow(DeckZone),
    /// Authority supplied the same catalog card identity more than once.
    DuplicateCatalogCard(String),
}

/// The debug name of a deck zone.
pub open spec fn zone_name(zone: DeckZone) -> Seq<char> {
    match zone {
        DeckZone::Avatar => "Avatar"@,
        DeckZone::Atlas => "Atlas"@,
        DeckZone::Spellbook => "Spellbook"@,
    }
}

fn zone_name_text(zone: DeckZone) -> (r: &'static str)
    ensures
        r@ == zone_name(zone),
{
    match zone {
        DeckZone::Avatar => "Avatar",
        DeckZone::Atlas => "Atlas",
        DeckZone::Spellbook => "Spellbook",
    }
}

/// The human-readable description of a deck error.
pub open spec fn deck_error_text(e: DeckError) -> Seq<char> {
    match e {
        DeckError::CopyCountOverflow { card_id, zone } => "copy count overflow for "@ + card_id@
            + " in "@ + zone_name(zone),
        DeckError::ZoneCountOverflow(zone) => "total copy count overflow in "@ + zone_name(zone),
        DeckError::DuplicateCatalogCard(card_id) => "duplicate catalog card identity: "@
            + card_id@,
    }
}

impl DeckError {
    /// Describes the error.
    pub fn to_string(&self) -> (r: String)
        ensures
            r@ == deck_error_text(*self),
    {
        let mut out = String::new();
        match self {
            DeckError::CopyCountOverflow { card_id, zone } => {
                push_str(&mut out, "copy count overflow for ");
                push_str(&mut out, card_id.as_str());
                push_str(&mut out, " in ");
                push_str(&mut out, zone_name_text(*zone));
            },
            DeckError::ZoneCountOverflow(zone) => {
                push_str(&mut out, "total copy count overflow in ");
                push_str(&mut out, zone_name_text(*zone));
            },
            DeckError::DuplicateCatalogCard(card_id) => {
                push_str(&mut out, "duplicate catalog card identity: ");
                push_str(&mut out, card_id.as_str());
            },
        }
        assert(out@ =~= deck_error_text(*self));
        out
    }
}

/// The index of the row in `acc` whose card is `card_id`, if any.
fn find_row(acc: &Vec<CardCount>, card_id: &str) -> (r: Option<usize>)
    ensures
        r matches Some(i) ==> i < acc@.len() && acc@[i as int].card_id@ == card_id@,
        r is None ==> forall|a: int| 0 <= a < acc@.len() ==> (#[trigger] acc@[a]).card_id@ != card_id@,
{
    let mut i: usize = 0;
    while i < acc.len()
        invariant
            i <= acc@.len(),
            forall|a: int| 0 <= a < i ==> (#[trigger] acc@[a]).card_id@ != card_id@,
        decreases acc@.len() - i,
    {
        if same_text(acc[i].card_id.as_str(), card_id) {
            return Some(i);
        }
        i = i + 1;
    }
    None
}

/// Running totals grow by one row at a time, for every card at once.
proof fn lemma_copies_all_steps(rows: Seq<CardCount>, i: nat)
    requires
        i < rows.len(),
    ensures
        forall|k: Seq<char>|
            k != rows[i as int].card_id@ ==> #[trigger] copies_of(rows, k, i + 1) == copies_of(
                rows,
                k,
                i,
            ),
        copies_of(rows, rows[i as int].card_id@, i + 1) == copies_of(
            rows,
            rows[i as int].card_id@,
            i,
        ) + rows[i as int].copies as nat,
{
}

/// The counting state after `n` rows: rows in non-decreasing UTF-16 order
/// of distinct card identities, each holding its positive running total, and
/// every card with a positive running total present.
pub open spec fn counted_rows(acc: Seq<CardCount>, rows: Seq<CardCount>, n: nat) -> bool {
    &&& forall|a: int, b: int|
        0 <= a < b < acc.len() ==> key_order(acc[a].card_id@, acc[b].card_id@)
            != Ordering::Greater
    &&& forall|a: int, b: int| 0 <= a < b < acc.len() ==> acc[a].card_id@ != acc[b].card_id@
    &&& forall|a: int|
        0 <= a < acc.len() ==> (#[trigger] acc[a]).copies > 0 && acc[a].copies == copies_of(
            rows,
            acc[a].card_id@,
            n,
        )
    &&& forall|k: Seq<char>|
        #[trigger] copies_of(rows, k, n) > 0 ==> exists|a: int|
            0 <= a < acc.len() && (#[trigger] acc[a]).card_id@ == k
}

/// A row without copies changes no running total.
proof fn lemma_zero_row_counted(acc: Seq<CardCount>, rows: Seq<CardCount>, i: nat)
    requires
        i < rows.len(),
        rows[i as int].copies == 0,
        counted_rows(acc, rows, i),
    ensures
        counted_rows(acc, rows, i + 1),
{
    lemma_copies_all_steps(rows, i);
    assert forall|a: int| 0 <= a < acc.len() implies (#[trigger] acc[a]).copies > 0 && acc[a].copies
        == copies_of(rows, acc[a].card_id@, i + 1) by {
        if acc[a].card_id@ != rows[i as int].card_id@ {
        }
    }
    assert forall|k: Seq<char>| #[trigger] copies_of(rows, k, i + 1) > 0 implies exists|a: int|
        0 <= a < acc.len() && (#[trigger] acc[a]).card_id@ == k by {
        if k != rows[i as int].card_id@ {
        }
    }
}

/// The first position in `acc` whose card sorts after `card_id`.
fn insertion_point(acc: &Vec<CardCount>, card_id: &str) -> (j: usize)
    ensures
        j <= acc@.len(),
        forall|a: int|
            0 <= a < j ==> key_order((#[trigger] acc@[a]).card_id@, card_id@) != Ordering::Greater,
        j < acc@.len() ==> key_order(acc@[usize_int(j)].card_id@, card_id@) == Ordering::Greater,
{
    let mut j: usize = 0;
    while j < acc.len()
        invariant
            j <= acc@.len(),
            forall|a: int|
                0 <= a < j ==> key_order((#[trigger] acc@[a]).card_id@, card_id@)
                    != Ordering::Greater,
        decreases acc@.len() - j,
    {
        match compare_keys(acc[j].card_id.as_str(), card_id) {
            Ordering::Greater => {
                return j;
            },
            _ => {},
        }
        j = j + 1;
    }
    j
}

/// Inserting a new card at its insertion point keeps the counted rows
/// ordered and distinct.
proof fn lemma_insert_row_ordered(old_acc: Seq<CardCount>, j: int, x: CardCount)
    requires
        0 <= j <= old_acc.len(),
        forall|a: int, b: int|
            0 <= a < b < old_acc.len() ==> key_order(old_acc[a].card_id@, old_acc[b].card_id@)
                != Ordering::Greater,
        forall|a: int, b: int|
            0 <= a < b < old_acc.len() ==> old_acc[a].card_id@ != old_acc[b].card_id@,
        forall|a: int| 0 <= a < old_acc.len() ==> (#[trigger] old_acc[a]).card_id@ != x.card_id@,
        forall|a: int|
            0 <= a < j ==> key_order((#[trigger] old_acc[a]).card_id@, x.card_id@)
                != Ordering::Greater,
        j < old_acc.len() ==> key_order(old_acc[j].card_id@, x.card_id@) == Ordering::Greater,
    ensures
        forall|a: int, b: int|
            0 <= a < b < old_acc.insert(j, x).len() ==> key_order(
                old_acc.insert(j, x)[a].card_id@,
                old_acc.insert(j, x)[b].card_id@,
            ) != Ordering::Greater,
        forall|a: int, b: int|
            0 <= a < b < old_acc.insert(j, x).len() ==> old_acc.insert(j, x)[a].card_id@
                != old_acc.insert(j, x)[b].card_id@,
{
    let acc = old_acc.insert(j, x);
    assert forall|a: int, b: int| 0 <= a < b < acc.len() implies key_order(
        acc[a].card_id@,
        acc[b].card_id@,
    ) != Ordering::Greater by {
        if b < j {
        } else if a > j {
            assert(acc[a] == old_acc[a - 1]);
            assert(acc[b] == old_acc[b - 1]);
        } else if b == j {
            assert(acc[a] == old_acc[a]);
        } else if a == j {
            assert(acc[b] == old_acc[b - 1]);
            lemma_lex_order_antisymmetric(utf16_units(old_acc[j].card_id@), utf16_units(x.card_id@));
            if b - 1 > j {
                assert(key_order(old_acc[j].card_id@, old_acc[b - 1].card_id@) != Ordering::Greater);
                lemma_lex_order_not_greater_transitive(
                    utf16_units(x.card_id@),
                    utf16_units(old_acc[j].card_id@),
                    utf16_units(old_acc[b - 1].card_id@),
                );
            }
        } else {
            assert(acc[a] == old_acc[a]);
            assert(acc[b] == old_acc[b - 1]);
        }
    }
    assert forall|a: int, b: int| 0 <= a < b < acc.len() implies acc[a].card_id@
        != acc[b].card_id@ by {
        if b < j {
        } else if a > j {
            assert(acc[a] == old_acc[a - 1]);
            assert(acc[b] == old_acc[b - 1]);
        } else if b == j {
            assert(acc[a] == old_acc[a]);
        } else if a == j {
            assert(acc[b] == old_acc[b - 1]);
        } else {
            assert(acc[a] == old_acc[a]);
            assert(acc[b] == old_acc[b - 1]);
        }
    }
}

/// Adds row `i`, which has copies, to the counted rows. Returns whether the
/// card was counted before, or `None` when its total overflows.
fn count_row(acc: &mut Vec<CardCount>, rows: &Vec<CardCount>, i: usize) -> (r: Option<bool>)
    requires
        i < rows@.len(),
        rows@[usize_int(i)].copies > 0,
        counted_rows(old(acc)@, rows@, usize_nat(i)),
    ensures
        r is None <==> overflows_at(rows@, usize_int(i)),
        r matches Some(seen) ==> seen == (copies_of(rows@, rows@[usize_int(i)].card_id@, usize_nat(i)) > 0)
            && counted_rows(final(acc)@, rows@, succ_nat(i)),
{
    let ghost rs = rows@;
    let ghost n = usize_nat(i);
    let ghost id = rs[usize_int(i)].card_id@;
    proof {
        lemma_copies_all_steps(rs, n);
    }
    match find_row(acc, rows[i].card_id.as_str()) {
        Some(j) => {
            let total = match acc[j].copies.checked_add(rows[i].copies) {
                Some(t) => t,
                None => {
                    return None;
                },
            };
            let ghost old_acc = acc@;
            let updated = CardCount { card_id: acc[j].card_id.clone(), copies: total };
            acc.set(j, updated);
            proof {
                assert forall|a: int| 0 <= a < acc@.len() implies (#[trigger] acc@[a]).copies > 0
                    && acc@[a].copies == copies_of(rs, acc@[a].card_id@, n + 1) by {
                    if a != j {
                        assert(acc@[a] == old_acc[a]);
                    }
                }
                assert forall|k: Seq<char>| #[trigger] copies_of(rs, k, n + 1) > 0 implies exists|a: int|
                    0 <= a < acc@.len() && (#[trigger] acc@[a]).card_id@ == k by {
                    if copies_of(rs, k, n) > 0 {
                        let a = choose|a: int|
                            0 <= a < old_acc.len() && (#[trigger] old_acc[a]).card_id@ == k;
                        assert(acc@[a].card_id@ == k);
                    } else {
                        assert(acc@[usize_int(j)].card_id@ == k);
                    }
                }
                assert forall|a: int, b: int| 0 <= a < b < acc@.len() implies key_order(
                    acc@[a].card_id@,
                    acc@[b].card_id@,
                ) != Ordering::Greater by {
                    assert(acc@[a].card_id@ == old_acc[a].card_id@);
                    assert(acc@[b].card_id@ == old_acc[b].card_id@);
                }
                assert forall|a: int, b: int| 0 <= a < b < acc@.len() implies acc@[a].card_id@
                    != acc@[b].card_id@ by {
                    assert(acc@[a].card_id@ == old_acc[a].card_id@);
                    assert(acc@[b].card_id@ == old_acc[b].card_id@);
                }
            }
            Some(true)
        },
        None => {
            proof {
                if copies_of(rs, id, n) > 0 {
                    let a = choose|a: int| 0 <= a < acc@.len() && (#[trigger] acc@[a]).card_id@ == id;
                    assert(false);
                }
            }
            let j = insertion_point(acc, rows[i].card_id.as_str());
            let ghost old_acc = acc@;
            let x = CardCount { card_id: rows[i].card_id.clone(), copies: rows[i].copies };
            proof {
                lemma_insert_row_ordered(old_acc, usize_int(j), x);
            }
            acc.insert(j, x);
            proof {
                assert forall|a: int| 0 <= a < acc@.len() implies (#[trigger] acc@[a]).copies > 0
                    && acc@[a].copies == copies_of(rs, acc@[a].card_id@, n + 1) by {
                    if a < j {
                        assert(acc@[a] == old_acc[a]);
                    } else if a > j {
                        assert(acc@[a] == old_acc[a - 1]);
                    }
                }
                assert forall|k: Seq<char>| #[trigger] copies_of(rs, k, n + 1) > 0 implies exists|a: int|
                    0 <= a < acc@.len() && (#[trigger] acc@[a]).card_id@ == k by {
                    if copies_of(rs, k, n) > 0 {
                        let a = choose|a: int|
                            0 <= a < old_acc.len() && (#[trigger] old_acc[a]).card_id@ == k;
                        if a < j {
                            assert(acc@[a] == old_acc[a]);
                        } else {
                            assert(acc@[a + 1] == old_acc[a]);
                        }
                    } else {
                        assert(acc@[usize_int(j)].card_id@ == k);
                    }
                }
            }
            Some(false)
        },
    }
}

/// Counts rows into canonical card order, recording counting diagnostics.
fn canonicalize_rows(rows: Vec<CardCount>, zone: DeckZone, diagnostics: &mut Vec<DeckDiagnostic>) -> (r:
    Result<Vec<CardCount>, DeckError>)
    ensures
        r is Err <==> rows_overflow(rows@),
        r matches Err(e) ==> exists|i: int|
            first_overflow(rows@, i) && e == (DeckError::CopyCountOverflow {
                card_id: rows@[i].card_id,
                zone,
            }),
        r matches Ok(out) ==> canonical_rows(rows@, out@) && final(diagnostics)@ == old(
            diagnostics,
        )@ + counting_diagnostics(rows@, zone, rows@.len()),
{
    let ghost rs = rows@;
    let mut acc: Vec<CardCount> = Vec::new();
    let mut i: usize = 0;
    while i < rows.len()
        invariant
            i <= rs.len(),
            rs == rows@,
            forall|j: int| 0 <= j < i ==> !#[trigger] overflows_at(rs, j),
            diagnostics@ == old(diagnostics)@ + counting_diagnostics(rs, zone, usize_nat(i)),
            counted_rows(acc@, rs, usize_nat(i)),
        decreases rs.len() - i,
    {
        let ghost before = diagnostics@;
        if !is_valid_card_id(rows[i].card_id.as_str()) {
            diagnostics.push(DeckDiagnostic::InvalidCardId { card_id: rows[i].card_id.clone(), zone });
        }
        if rows[i].copies == 0 {
            diagnostics.push(DeckDiagnostic::ZeroCopies { card_id: rows[i].card_id.clone(), zone });
            proof {
                lemma_zero_row_counted(acc@, rs, usize_nat(i));
            }
        } else {
            match count_row(&mut acc, &rows, i) {
                Some(seen) => {
                    if seen {
                        diagnostics.push(
                            DeckDiagnostic::DuplicateCard { card_id: rows[i].card_id.clone(), zone },
                        );
                    }
                },
                None => {
                    assert(first_overflow(rs, usize_int(i)));
                    return Err(
                        DeckError::CopyCountOverflow { card_id: rows[i].card_id.clone(), zone },
                    );
                },
            }
        }
        assert(diagnostics@ =~= before + row_diagnostics(rs, zone, usize_int(i)));
        i = i + 1;
    }
    Ok(acc)
}

/// A deck card's relationship to the official pricing identity space.
#[derive(Clone, Debug, Eq, PartialEq)]
pub enum OfficialCardMapping {
    /// Authority has no official pricing identity for the card.
    Unavailable,
    /// Authority has one exact official card identity.
    Exact(String),
    /// Authority has multiple possible official card identities and cannot guess.
    Ambiguous(Vec<String>),
}

/// Static catalog information required by deck validation and pricing.
#[derive(Clone, Debug, Eq, PartialEq)]
pub struct CardCatalogEntry {
    /// Stable authority card identity used in manifests.
    pub stable_id: String,
    /// Card category.
    pub card_type: CardType,
    /// Rarity, when authority supplies one.
    pub rarity: Option<Rarity>,
    /// Whether the authoritative Rust engine supports all bound mechanics.
    pub engine_supported: bool,
    /// Mapping to the official pricing identity space.
    pub official_mapping: OfficialCardMapping,
    /// Whether this minion is a generated token rather than a deck card.
    pub token: bool,
}

/// Whether catalog entry `i` repeats the identity of an earlier entry.
pub open spec fn repeats_earlier(cards: Seq<CardCatalogEntry>, i: int) -> bool {
    &&& 0 <= i < cards.len()
    &&& exists|j: int| 0 <= j < i && (#[trigger] cards[j]).stable_id@ == cards[i].stable_id@
}

/// Whether `i` is the first catalog entry that repeats an earlier identity.
pub open spec fn first_repeat(cards: Seq<CardCatalogEntry>, i: int) -> bool {
    &&& repeats_earlier(cards, i)
    &&& forall|j: int| 0 <= j < i ==> !#[trigger] repeats_earlier(cards, j)
}

/// Whether some catalog identity occurs twice.
pub open spec fn catalog_has_repeat(cards: Seq<CardCatalogEntry>) -> bool {
    exists|i: int| #[trigger] repeats_earlier(cards, i)
}

/// Finds the first catalog entry that repeats an earlier identity.
fn find_catalog_repeat(cards: &[CardCatalogEntry]) -> (r: Option<usize>)
    ensures
        r is None <==> !catalog_has_repeat(cards@),
        r matches Some(i) ==> first_repeat(cards@, i as int),
{
    let mut i: usize = 0;
    while i < cards.len()
        invariant
            i <= cards@.len(),
            forall|j: int| 0 <= j < i ==> !#[trigger] repeats_earlier(cards@, j),
        decreases cards@.len() - i,
    {
        let mut j: usize = 0;
        while j < i
            invariant
                j <= i < cards@.len(),
                forall|t: int| 0 <= t < i ==> !#[trigger] repeats_earlier(cards@, t),
                forall|t: int| 0 <= t < j ==> (#[trigger] cards@[t]).stable_id@ != cards@[i as int].stable_id@,
            decreases i - j,
        {
            if same_text(cards[j].stable_id.as_str(), cards[i].stable_id.as_str()) {
                assert(repeats_earlier(cards@, i as int));
                return Some(i);
            }
            j = j + 1;
        }
        i = i + 1;
    }
    None
}

/// The first catalog entry with identity `card_id`, if any.
pub open spec fn catalog_entry(cards: Seq<CardCatalogEntry>, card_id: Seq<char>) -> Option<CardCatalogEntry>
    decreases cards.len(),
{
    if cards.len() == 0 {
        None
    } else if cards[0].stable_id@ == card_id {
        Some(cards[0])
    } else {
        catalog_entry(cards.skip(1), card_id)
    }
}

/// The index of the first catalog entry with identity `card_id`, if any.
fn find_card(cards: &[CardCatalogEntry], card_id: &str) -> (r: Option<usize>)
    ensures
        r matches Some(i) ==> i < cards@.len() && catalog_entry(cards@, card_id@) == Some(cards@[i as int]),
        r is None ==> catalog_entry(cards@, card_id@) is None,
{
    let mut i: usize = 0;
    assert(cards@.skip(0) =~= cards@);
    while i < cards.len()
        invariant
            i <= cards@.len(),
            catalog_entry(cards@, card_id@) == catalog_entry(cards@.skip(i as int), card_id@),
        decreases cards@.len() - i,
    {
        if same_text(cards[i].stable_id.as_str(), card_id) {
            return Some(i);
        }
        assert(cards@.skip(i as int).skip(1) =~= cards@.skip(i + 1));
        i = i + 1;
    }
    None
}

/// Whether a card of type `t` may occur in `zone`.
pub open spec fn type_fits(zone: DeckZone, t: CardType) -> bool {
    match zone {
        DeckZone::Avatar => t == CardType::Avatar,
        DeckZone::Atlas => t == CardType::Site,
        DeckZone::Spellbook => t == CardType::Artifact || t == CardType::Aura || t == CardType::Magic
            || t == CardType::Minion,
    }
}

/// The shape diagnostics of one row of a zone.
pub open spec fn shape_diagnostics(row: CardCount, zone: DeckZone, cards: Seq<CardCatalogEntry>) -> Seq<
    DeckDiagnostic,
> {
    match catalog_entry(cards, row.card_id@) {
        None => seq![DeckDiagnostic::UnknownCard { card_id: row.card_id, zone }],
        Some(card) => {
            let wrong = if type_fits(zone, card.card_type) {
                Seq::empty()
            } else {
                seq![
                    DeckDiagnostic::WrongCardType {
                        actual: card.card_type,
                        card_id: row.card_id,
                        zone,
                    },
                ]
            };
            let token = if zone == DeckZone::Spellbook && card.card_type == CardType::Minion
                && card.token {
                seq![DeckDiagnostic::TokenInSpellbook { card_id: row.card_id }]
            } else {
                Seq::empty()
            };
            let unsupported = if card.engine_supported {
                Seq::empty()
            } else {
                seq![DeckDiagnostic::UnsupportedCard { card_id: row.card_id }]
            };
            wrong + token + unsupported
        },
    }
}

/// The shape diagnostics of the first `n` rows of a zone.
pub open spec fn zone_shape_diagnostics(
    rows: Seq<CardCount>,
    zone: DeckZone,
    cards: Seq<CardCatalogEntry>,
    n: nat,
) -> Seq<DeckDiagnostic>
    decreases n,
{
    if n == 0 {
        Seq::empty()
    } else {
        zone_shape_diagnostics(rows, zone, cards, (n - 1) as nat) + shape_diagnostics(
            rows[n - 1],
            zone,
            cards,
        )
    }
}

/// Records the shape diagnostics of one row.
fn validate_row_shape(
    row: &CardCount,
    zone: DeckZone,
    cards: &[CardCatalogEntry],
    diagnostics: &mut Vec<DeckDiagnostic>,
)
    ensures
        final(diagnostics)@ == old(diagnostics)@ + shape_diagnostics(*row, zone, cards@),
{
    let card = match find_card(cards, row.card_id.as_str()) {
        None => {
            diagnostics.push(DeckDiagnostic::UnknownCard { card_id: row.card_id.clone(), zone });
            assert(final(diagnostics)@ =~= old(diagnostics)@ + shape_diagnostics(*row, zone, cards@));
            return ;
        },
        Some(i) => &cards[i],
    };
    let valid_type = match zone {
        DeckZone::Avatar => card.card_type == CardType::Avatar,
        DeckZone::Atlas => card.card_type == CardType::Site,
        DeckZone::Spellbook => card.card_type == CardType::Artifact || card.card_type
            == CardType::Aura || card.card_type == CardType::Magic || card.card_type
            == CardType::Minion,
    };
    if !valid_type {
        diagnostics.push(
            DeckDiagnostic::WrongCardType {
                actual: card.card_type,
                card_id: row.card_id.clone(),
                zone,
            },
        );
    }
    if zone == DeckZone::Spellbook && card.card_type == CardType::Minion && card.token {
        diagnostics.push(DeckDiagnostic::TokenInSpellbook { card_id: row.card_id.clone() });
    }
    if !card.engine_supported {
        diagnostics.push(DeckDiagnostic::UnsupportedCard { card_id: row.card_id.clone() });
    }
    assert(final(diagnostics)@ =~= old(diagnostics)@ + shape_diagnostics(*row, zone, cards@));
}

/// Records the shape diagnostics of a zone's rows.
fn validate_zone_shape(
    rows: &Vec<CardCount>,
    zone: DeckZone,
    cards: &[CardCatalogEntry],
    diagnostics: &mut Vec<DeckDiagnostic>,
)
    ensures
        final(diagnostics)@ == old(diagnostics)@ + zone_shape_diagnostics(
            rows@,
            zone,
            cards@,
            rows@.len(),
        ),
{
    let mut i: usize = 0;
    while i < rows.len()
        invariant
            i <= rows@.len(),
            diagnostics@ == old(diagnostics)@ + zone_shape_diagnostics(rows@, zone, cards@, i as nat),
        decreases rows@.len() - i,
    {
        let ghost before = diagnostics@;
        validate_row_shape(&rows[i], zone, cards, diagnostics);
        assert(diagnostics@ =~= old(diagnostics)@ + zone_shape_diagnostics(
            rows@,
            zone,
            cards@,
            (i + 1) as nat,
        ));
        i = i + 1;
    }
}

/// The copy-limit diagnostics of one row.
pub open spec fn limit_diagnostics(row: CardCount, cards: Seq<CardCatalogEntry>) -> Seq<DeckDiagnostic> {
    match catalog_entry(cards, row.card_id@) {
        None => Seq::empty(),
        Some(card) => match card.rarity {
            None => seq![DeckDiagnostic::MissingRarity { card_id: row.card_id }],
            Some(rarity) => if row.copies > rarity_limit(rarity) {
                seq![
                    DeckDiagnostic::CopyLimitExceeded {
                        actual: row.copies,
                        card_id: row.card_id,
                        limit: rarity_limit(rarity),
                        rarity,
                    },
                ]
            } else {
                Seq::empty()
            },
        },
    }
}

/// The copy-limit diagnostics of the first `n` rows.
pub open spec fn zone_limit_diagnostics(rows: Seq<CardCount>, cards: Seq<CardCatalogEntry>, n: nat) -> Seq<
    DeckDiagnostic,
>
    decreases n,
{
    if n == 0 {
        Seq::empty()
    } else {
        zone_limit_diagnostics(rows, cards, (n - 1) as nat) + limit_diagnostics(rows[n - 1], cards)
    }
}

/// The Constructed copy limits: a card may appear at most four times if
/// Ordinary, three times if Exceptional, twice if Elite and once if Unique.
/// A row with more copies than its rarity allows is reported once, with the
/// copies it holds and that limit; a row within the limit is not reported.
pub proof fn lemma_row_copy_limit(
    row: CardCount,
    cards: Seq<CardCatalogEntry>,
    card: CardCatalogEntry,
    rarity: Rarity,
    limit: u32,
)
    requires
        catalog_entry(cards, row.card_id@) == Some(card),
        card.rarity == Some(rarity),
        (rarity is Ordinary && limit == 4) || (rarity is Exceptional && limit == 3) || (rarity is Elite
            && limit == 2) || (rarity is Unique && limit == 1),
    ensures
        row.copies > limit ==> limit_diagnostics(row, cards) == seq![
            DeckDiagnostic::CopyLimitExceeded { actual: row.copies, card_id: row.card_id, limit, rarity },
        ],
        row.copies <= limit ==> limit_diagnostics(row, cards).len() == 0,
{
}

/// Every row among the first `n` that breaks its copy limit has its
/// diagnostics among the zone's.
proof fn lemma_zone_limit_holds_row(rows: Seq<CardCount>, cards: Seq<CardCatalogEntry>, n: nat, i: int, k: int)
    requires
        0 <= i < n <= rows.len(),
        0 <= k < limit_diagnostics(rows[i], cards).len(),
    ensures
        zone_limit_diagnostics(rows, cards, n).contains(limit_diagnostics(rows[i], cards)[k]),
    decreases n,
{
    let prev = zone_limit_diagnostics(rows, cards, (n - 1) as nat);
    let here = limit_diagnostics(rows[n - 1], cards);
    assert(zone_limit_diagnostics(rows, cards, n) == prev + here);
    if i == n - 1 {
        assert((prev + here)[prev.len() + k] == here[k]);
    } else {
        lemma_zone_limit_holds_row(rows, cards, (n - 1) as nat, i, k);
        let j = choose|j: int| 0 <= j < prev.len() && prev[j] == limit_diagnostics(rows[i], cards)[k];
        assert((prev + here)[j] == prev[j]);
    }
}

/// Records the copy-limit diagnostics of a zone's rows.
fn validate_copy_limits(
    rows: &Vec<CardCount>,
    format: &FormatContext,
    cards: &[CardCatalogEntry],
    diagnostics: &mut Vec<DeckDiagnostic>,
)
    ensures
        final(diagnostics)@ == old(diagnostics)@ + zone_limit_diagnostics(rows@, cards@, rows@.len()),
{
    let mut i: usize = 0;
    while i < rows.len()
        invariant
            i <= rows@.len(),
            diagnostics@ == old(diagnostics)@ + zone_limit_diagnostics(rows@, cards@, i as nat),
        decreases rows@.len() - i,
    {
        let row = &rows[i];
        let ghost before = diagnostics@;
        match find_card(cards, row.card_id.as_str()) {
            None => {},
            Some(c) => match cards[c].rarity {
                None => {
                    diagnostics.push(DeckDiagnostic::MissingRarity { card_id: row.card_id.clone() });
                },
                Some(rarity) => {
                    let limit = format.copy_limit(rarity);
                    if row.copies > limit {
                        diagnostics.push(
                            DeckDiagnostic::CopyLimitExceeded {
                                actual: row.copies,
                                card_id: row.card_id.clone(),
                                limit,
                                rarity,
                            },
                        );
                    }
                },
            },
        }
        assert(diagnostics@ =~= before + limit_diagnostics(rows@[i as int], cards@));
        i = i + 1;
    }
}

/// The total copies over the first `n` rows.
pub open spec fn rows_total(rows: Seq<CardCount>, n: nat) -> nat
    decreases n,
{
    if n == 0 {
        0
    } else {
        rows_total(rows, (n - 1) as nat) + rows[n - 1].copies as nat
    }
}

/// Totals only grow.
proof fn lemma_rows_total_monotone(rows: Seq<CardCount>, m: nat, n: nat)
    requires
        m <= n <= rows.len(),
    ensures
        rows_total(rows, m) <= rows_total(rows, n),
    decreases n - m,
{
    if m < n {
        lemma_rows_total_monotone(rows, m, (n - 1) as nat);
    }
}

/// The total copies of a zone, or `None` past `u32::MAX`.
fn zone_total(rows: &Vec<CardCount>) -> (r: Option<u32>)
    ensures
        r is None <==> rows_total(rows@, rows@.len()) > u32::MAX,
        r matches Some(t) ==> t == rows_total(rows@, rows@.len()),
{
    let mut total: u32 = 0;
    let mut i: usize = 0;
    while i < rows.len()
        invariant
            i <= rows@.len(),
            total == rows_total(rows@, i as nat),
        decreases rows@.len() - i,
    {
        total = match total.checked_add(rows[i].copies) {
            Some(t) => t,
            None => {
                proof {
                    lemma_rows_total_monotone(rows@, (i + 1) as nat, rows@.len());
                }
                return None;
            },
        };
        i = i + 1;
    }
    Some(total)
}

/// The canonical JSON text of a counted row.
pub open spec fn count_text(row: CardCount) -> Seq<char> {
    "{\"cardId\":"@ + string_text(row.card_id@) + ",\"copies\":"@ + decimal_chars(row.copies as nat)
        + "}"@
}

/// The canonical JSON texts of the first `n` rows, separated by commas.
pub open spec fn counts_text(rows: Seq<CardCount>, n: nat) -> Seq<char>
    decreases n,
{
    if n == 0 {
        Seq::empty()
    } else if n == 1 {
        count_text(rows[0])
    } else {
        counts_text(rows, (n - 1) as nat) + ","@ + count_text(rows[n - 1])
    }
}

/// The canonical JSON text of a deck and its format, as hashed into the
/// deck identity: `{"deck":{"atlas":[..],"avatar":..,"spellbook":[..]},"formatId":..}`.
pub open spec fn deck_text(deck: CanonicalDeck, format_id: Seq<char>) -> Seq<char> {
    "{\"deck\":{\"atlas\":["@ + counts_text(deck.atlas@, deck.atlas@.len()) + "],\"avatar\":"@
        + string_text(deck.avatar@) + ",\"spellbook\":["@ + counts_text(
        deck.spellbook@,
        deck.spellbook@.len(),
    ) + "]},\"formatId\":"@ + string_text(format_id) + "}"@
}

/// Appends the characters of `s`.
fn push_text(out: &mut Vec<char>, s: &str)
    ensures
        final(out)@ == old(out)@ + s@,
{
    let mut chars = str_chars(s);
    out.append(&mut chars);
}

/// Appends the canonical JSON texts of counted rows, separated by commas.
fn push_counts_text(out: &mut Vec<char>, rows: &Vec<CardCount>)
    ensures
        final(out)@ == old(out)@ + counts_text(rows@, rows@.len()),
{
    let mut i: usize = 0;
    while i < rows.len()
        invariant
            i <= rows@.len(),
            out@ == old(out)@ + counts_text(rows@, i as nat),
        decreases rows@.len() - i,
    {
        let ghost before = out@;
        if i > 0 {
            push_text(out, ",");
        }
        push_text(out, "{\"cardId\":");
        push_string_text(rows[i].card_id.as_str(), out);
        push_text(out, ",\"copies\":");
        let mut digits = decimal_char_vec(rows[i].copies as u64);
        out.append(&mut digits);
        push_text(out, "}");
        if i > 0 {
            assert(out@ =~= old(out)@ + counts_text(rows@, (i + 1) as nat));
        } else {
            assert(out@ =~= old(out)@ + counts_text(rows@, (i + 1) as nat));
        }
        i = i + 1;
    }
}

/// Builds the canonical JSON text of a deck and its format.
fn deck_canonical_text(deck: &CanonicalDeck, format_id: &str) -> (r: String)
    ensures
        r@ == deck_text(*deck, format_id@),
{
    let mut out: Vec<char> = Vec::new();
    push_text(&mut out, "{\"deck\":{\"atlas\":[");
    push_counts_text(&mut out, &deck.atlas);
    push_text(&mut out, "],\"avatar\":");
    push_string_text(deck.avatar.as_str(), &mut out);
    push_text(&mut out, ",\"spellbook\":[");
    push_counts_text(&mut out, &deck.spellbook);
    push_text(&mut out, "]},\"formatId\":");
    push_string_text(format_id, &mut out);
    push_text(&mut out, "}");
    assert(out@ =~= deck_text(*deck, format_id@));
    string_from_chars(out.as_slice())
}

/// Canonical composition, identity, and independent eligibility decisions.
#[derive(Clone, Debug, Eq, PartialEq)]
pub struct DeckValidation {
    deck: CanonicalDeck,
    deck_id: IdentityHash,
    format_legal: bool,
    engine_supported: bool,
    ranked_eligible: bool,
    diagnostics: Vec<DeckDiagnostic>,
}

impl DeckValidation {
    /// The canonical counted deck.
    pub closed spec fn spec_deck(self) -> CanonicalDeck {
        self.deck
    }

    /// The deck identity.
    pub closed spec fn spec_deck_id(self) -> Seq<char> {
        self.deck_id@
    }

    /// Whether the deck is format-legal.
    pub closed spec fn spec_format_legal(self) -> bool {
        self.format_legal
    }

    /// Whether the engine supports the deck.
    pub closed spec fn spec_engine_supported(self) -> bool {
        self.engine_supported
    }

    /// Whether the deck is ranked-eligible.
    pub closed spec fn spec_ranked_eligible(self) -> bool {
        self.ranked_eligible
    }

    /// The ordered findings.
    pub closed spec fn spec_diagnostics(self) -> Seq<DeckDiagnostic> {
        self.diagnostics@
    }

    /// Returns the canonical counted deck.
    pub fn deck(&self) -> (r: &CanonicalDeck)
        ensures
            *r == self.spec_deck(),
    {
        &self.deck
    }

    /// Returns the identity of the format plus canonical composition.
    pub fn deck_id(&self) -> (r: &IdentityHash)
        ensures
            r@ == self.spec_deck_id(),
    {
        &self.deck_id
    }

    /// Returns whether all currently modeled format rules pass.
    pub fn format_legal(&self) -> (r: bool)
        ensures
            r == self.spec_format_legal(),
    {
        self.format_legal
    }

    /// Returns whether the engine can instantiate every card and zone.
    pub fn engine_supported(&self) -> (r: bool)
        ensures
            r == self.spec_engine_supported(),
    {
        self.engine_supported
    }

    /// Returns whether the deck is both format-legal and engine-supported.
    pub fn ranked_eligible(&self) -> (r: bool)
        ensures
            r == self.spec_ranked_eligible(),
    {
        self.ranked_eligible
    }

    /// Returns deterministically ordered validation findings.
    pub fn diagnostics(&self) -> (r: &[DeckDiagnostic])
        ensures
            r@ == self.spec_diagnostics(),
    {
        self.diagnostics.as_slice()
    }
}

/// The format-minimum findings for zone totals.
pub open spec fn minimum_findings(atlas_total: u32, spellbook_total: u32, format: FormatContext) -> Seq<
    DeckDiagnostic,
> {
    let atlas = if atlas_total < format.spec_atlas_minimum() {
        seq![
            DeckDiagnostic::AtlasMinimum {
                actual: atlas_total,
                required: format.spec_atlas_minimum(),
            },
        ]
    } else {
        Seq::empty()
    };
    let spellbook = if spellbook_total < format.spec_spellbook_minimum() {
        seq![
            DeckDiagnostic::SpellbookMinimum {
                actual: spellbook_total,
                required: format.spec_spellbook_minimum(),
            },
        ]
    } else {
        Seq::empty()
    };
    atlas + spellbook
}

/// The engine-boundary findings for one zone total.
pub open spec fn engine_zone_findings(zone: DeckZone, total: u32) -> Seq<DeckDiagnostic> {
    let low = if total < ENGINE_MIN_ZONE_CARDS {
        seq![DeckDiagnostic::EngineZoneMinimum { actual: total, required: ENGINE_MIN_ZONE_CARDS, zone }]
    } else {
        Seq::empty()
    };
    let high = if total > ENGINE_MAX_ZONE_CARDS {
        seq![DeckDiagnostic::EngineZoneMaximum { actual: total, limit: ENGINE_MAX_ZONE_CARDS, zone }]
    } else {
        Seq::empty()
    };
    low + high
}

/// The findings raised while reading a candidate: its avatar identity, then
/// the counting of the Atlas and the Spellbook.
pub open spec fn counting_findings(candidate: CandidateDeck) -> Seq<DeckDiagnostic> {
    let avatar = if valid_card_id(candidate.avatar@) {
        Seq::empty()
    } else {
        seq![DeckDiagnostic::InvalidCardId { card_id: candidate.avatar, zone: DeckZone::Avatar }]
    };
    avatar + counting_diagnostics(candidate.atlas@, DeckZone::Atlas, candidate.atlas@.len())
        + counting_diagnostics(candidate.spellbook@, DeckZone::Spellbook, candidate.spellbook@.len())
}

/// The findings about a canonical deck: zone shapes (avatar, Atlas,
/// Spellbook), format minimums, engine zone bounds, and copy limits.
pub open spec fn canonical_findings(
    deck: CanonicalDeck,
    atlas_total: u32,
    spellbook_total: u32,
    cards: Seq<CardCatalogEntry>,
    format: FormatContext,
) -> Seq<DeckDiagnostic> {
    shape_diagnostics(
        CardCount { card_id: deck.avatar, copies: format.spec_avatar_count() },
        DeckZone::Avatar,
        cards,
    ) + zone_shape_diagnostics(deck.atlas@, DeckZone::Atlas, cards, deck.atlas@.len())
        + zone_shape_diagnostics(deck.spellbook@, DeckZone::Spellbook, cards, deck.spellbook@.len())
        + minimum_findings(atlas_total, spellbook_total, format) + engine_zone_findings(
        DeckZone::Atlas,
        atlas_total,
    ) + engine_zone_findings(DeckZone::Spellbook, spellbook_total) + zone_limit_diagnostics(
        deck.atlas@,
        cards,
        deck.atlas@.len(),
    ) + zone_limit_diagnostics(deck.spellbook@, cards, deck.spellbook@.len())
}

/// Every finding of a validation, before ordering.
pub open spec fn deck_findings(
    candidate: CandidateDeck,
    cards: Seq<CardCatalogEntry>,
    format: FormatContext,
    deck: CanonicalDeck,
) -> Seq<DeckDiagnostic> {
    counting_findings(candidate) + canonical_findings(
        deck,
        rows_total(candidate.atlas@, candidate.atlas@.len()) as u32,
        rows_total(candidate.spellbook@, candidate.spellbook@.len()) as u32,
        cards,
        format,
    )
}

/// Records the findings about a canonical deck.
fn record_canonical_findings(
    deck: &CanonicalDeck,
    atlas_total: u32,
    spellbook_total: u32,
    cards: &[CardCatalogEntry],
    format: &FormatContext,
    diagnostics: &mut Vec<DeckDiagnostic>,
)
    ensures
        final(diagnostics)@ == old(diagnostics)@ + canonical_findings(
            *deck,
            atlas_total,
            spellbook_total,
            cards@,
            *format,
        ),
{
    let mut found: Vec<DeckDiagnostic> = Vec::new();
    let avatar_row = CardCount { card_id: deck.avatar.clone(), copies: format.avatar_count() };
    validate_row_shape(&avatar_row, DeckZone::Avatar, cards, &mut found);
    validate_zone_shape(&deck.atlas, DeckZone::Atlas, cards, &mut found);
    validate_zone_shape(&deck.spellbook, DeckZone::Spellbook, cards, &mut found);
    let ghost before_minimums = found@;
    if atlas_total < format.atlas_minimum() {
        found.push(
            DeckDiagnostic::AtlasMinimum { actual: atlas_total, required: format.atlas_minimum() },
        );
    }
    if spellbook_total < format.spellbook_minimum() {
        found.push(
            DeckDiagnostic::SpellbookMinimum {
                actual: spellbook_total,
                required: format.spellbook_minimum(),
            },
        );
    }
    assert(found@ =~= before_minimums + minimum_findings(atlas_total, spellbook_total, *format));
    let zones: [(DeckZone, u32); 2] = [
        (DeckZone::Atlas, atlas_total),
        (DeckZone::Spellbook, spellbook_total),
    ];
    let ghost before_engine = found@;
    let mut z: usize = 0;
    while z < 2
        invariant
            z <= 2,
            zones@ == seq![(DeckZone::Atlas, atlas_total), (DeckZone::Spellbook, spellbook_total)],
            z == 0 ==> found@ == before_engine,
            z == 1 ==> found@ == before_engine + engine_zone_findings(DeckZone::Atlas, atlas_total),
            z == 2 ==> found@ == before_engine + engine_zone_findings(DeckZone::Atlas, atlas_total)
                + engine_zone_findings(DeckZone::Spellbook, spellbook_total),
        decreases 2 - z,
    {
        let (zone, total) = zones[z];
        let ghost start = found@;
        if total < ENGINE_MIN_ZONE_CARDS {
            found.push(
                DeckDiagnostic::EngineZoneMinimum {
                    actual: total,
                    required: ENGINE_MIN_ZONE_CARDS,
                    zone,
                },
            );
        }
        if total > ENGINE_MAX_ZONE_CARDS {
            found.push(
                DeckDiagnostic::EngineZoneMaximum { actual: total, limit: ENGINE_MAX_ZONE_CARDS, zone },
            );
        }
        assert(found@ =~= start + engine_zone_findings(zone, total));
        z = z + 1;
    }
    validate_copy_limits(&deck.atlas, format, cards, &mut found);
    validate_copy_limits(&deck.spellbook, format, cards, &mut found);
    assert(found@ =~= canonical_findings(*deck, atlas_total, spellbook_total, cards@, *format));
    diagnostics.append(&mut found);
}

/// Why validation fails, if it does: counting overflow in the Atlas, then
/// the Spellbook; a repeated catalog identity; then a zone total past
/// `u32::MAX`, Atlas first.
pub open spec fn deck_error(candidate: CandidateDeck, cards: Seq<CardCatalogEntry>) -> Option<DeckError> {
    let atlas = candidate.atlas@;
    let spellbook = candidate.spellbook@;
    if rows_overflow(atlas) {
        Some(
            DeckError::CopyCountOverflow {
                card_id: atlas[choose|i: int| first_overflow(atlas, i)].card_id,
                zone: DeckZone::Atlas,
            },
        )
    } else if rows_overflow(spellbook) {
        Some(
            DeckError::CopyCountOverflow {
                card_id: spellbook[choose|i: int| first_overflow(spellbook, i)].card_id,
                zone: DeckZone::Spellbook,
            },
        )
    } else if catalog_has_repeat(cards) {
        Some(DeckError::DuplicateCatalogCard(cards[choose|i: int| first_repeat(cards, i)].stable_id))
    } else if rows_total(atlas, atlas.len()) > u32::MAX {
        Some(DeckError::ZoneCountOverflow(DeckZone::Atlas))
    } else if rows_total(spellbook, spellbook.len()) > u32::MAX {
        Some(DeckError::ZoneCountOverflow(DeckZone::Spellbook))
    } else {
        None
    }
}

/// Whether a validation is the one owed for a candidate: the canonical
/// deck, its identity, its findings in derived order, and the decisions
/// those findings imply.
pub open spec fn validation_of(
    v: DeckValidation,
    candidate: CandidateDeck,
    cards: Seq<CardCatalogEntry>,
    format: FormatContext,
) -> bool {
    let deck = v.spec_deck();
    let findings = v.spec_diagnostics();
    &&& deck.avatar == candidate.avatar
    &&& canonical_rows(candidate.atlas@, deck.atlas@)
    &&& canonical_rows(candidate.spellbook@, deck.spellbook@)
    &&& v.spec_deck_id() == identity_of_text(deck_text(deck, format.spec_stable_id()))
    &&& diagnostics_sorted(findings)
    &&& findings.to_multiset() == deck_findings(candidate, cards, format, deck).to_multiset()
    &&& v.spec_format_legal() == forall|i: int|
        0 <= i < findings.len() ==> !diagnostic_invalidates_format(#[trigger] findings[i])
    &&& v.spec_engine_supported() == forall|i: int|
        0 <= i < findings.len() ==> !diagnostic_invalidates_engine_support(#[trigger] findings[i])
    &&& v.spec_ranked_eligible() == (v.spec_format_legal() && v.spec_engine_supported())
}

/// A validated deck reports every Atlas or Spellbook card held more times
/// than its rarity allows in Constructed (four Ordinary, three Exceptional,
/// two Elite, one Unique), with the copies it holds and that limit, and such
/// a deck is not format-legal.
pub proof fn lemma_validation_reports_copy_limit(
    v: DeckValidation,
    candidate: CandidateDeck,
    cards: Seq<CardCatalogEntry>,
    format: FormatContext,
    in_atlas: bool,
    i: int,
    card: CardCatalogEntry,
    rarity: Rarity,
    limit: u32,
)
    requires
        validation_of(v, candidate, cards, format),
        0 <= i < (if in_atlas {
            v.spec_deck().atlas@
        } else {
            v.spec_deck().spellbook@
        }).len(),
        catalog_entry(
            cards,
            (if in_atlas {
                v.spec_deck().atlas@
            } else {
                v.spec_deck().spellbook@
            })[i].card_id@,
        ) == Some(card),
        card.rarity == Some(rarity),
        (rarity is Ordinary && limit == 4) || (rarity is Exceptional && limit == 3) || (rarity is Elite
            && limit == 2) || (rarity is Unique && limit == 1),
        (if in_atlas {
            v.spec_deck().atlas@
        } else {
            v.spec_deck().spellbook@
        })[i].copies > limit,
    ensures
        v.spec_diagnostics().contains(
            DeckDiagnostic::CopyLimitExceeded {
                actual: (if in_atlas {
                    v.spec_deck().atlas@
                } else {
                    v.spec_deck().spellbook@
                })[i].copies,
                card_id: (if in_atlas {
                    v.spec_deck().atlas@
                } else {
                    v.spec_deck().spellbook@
                })[i].card_id,
                limit,
                rarity,
            },
        ),
        !v.spec_format_legal(),
{
    broadcast use vstd::seq_lib::group_to_multiset_ensures;

    let deck = v.spec_deck();
    let rows = if in_atlas {
        deck.atlas@
    } else {
        deck.spellbook@
    };
    let row = rows[i];
    let d = DeckDiagnostic::CopyLimitExceeded {
        actual: row.copies,
        card_id: row.card_id,
        limit,
        rarity,
    };
    lemma_row_copy_limit(row, cards, card, rarity, limit);
    lemma_zone_limit_holds_row(rows, cards, rows.len(), i, 0);
    let zl = zone_limit_diagnostics(rows, cards, rows.len());
    let j = choose|j: int| 0 <= j < zl.len() && zl[j] == d;
    let all = deck_findings(candidate, cards, format, deck);
    let za = zone_limit_diagnostics(deck.atlas@, cards, deck.atlas@.len());
    let zs = zone_limit_diagnostics(deck.spellbook@, cards, deck.spellbook@.len());
    let head = all.subrange(0, all.len() - za.len() - zs.len());
    assert(all =~= head + za + zs);
    if in_atlas {
        assert(all[head.len() + j] == d);
    } else {
        assert(all[head.len() + za.len() + j] == d);
    }
    assert(all.contains(d));
    let findings = v.spec_diagnostics();
    assert(findings.to_multiset().count(d) > 0);
    assert(findings.contains(d));
    let f = choose|f: int| 0 <= f < findings.len() && findings[f] == d;
    assert(diagnostic_invalidates_format(findings[f]));
}

/// The first overflowing row is unique.
proof fn lemma_first_overflow_unique(rows: Seq<CardCount>, i: int, j: int)
    requires
        first_overflow(rows, i),
        first_overflow(rows, j),
    ensures
        i == j,
{
    if i < j {
        assert(!overflows_at(rows, i));
    } else if j < i {
        assert(!overflows_at(rows, j));
    }
}

/// The first repeated catalog identity is unique.
proof fn lemma_first_repeat_unique(cards: Seq<CardCatalogEntry>, i: int, j: int)
    requires
        first_repeat(cards, i),
        first_repeat(cards, j),
    ensures
        i == j,
{
    if i < j {
        assert(!repeats_earlier(cards, i));
    } else if j < i {
        assert(!repeats_earlier(cards, j));
    }
}

/// Whether every finding in `s` passes `invalidates_format` negatively.
fn no_finding_invalidates_format(s: &Vec<DeckDiagnostic>) -> (r: bool)
    ensures
        r == forall|i: int| 0 <= i < s@.len() ==> !diagnostic_invalidates_format(#[trigger] s@[i]),
{
    let mut i: usize = 0;
    while i < s.len()
        invariant
            i <= s@.len(),
            forall|j: int| 0 <= j < i ==> !diagnostic_invalidates_format(#[trigger] s@[j]),
        decreases s@.len() - i,
    {
        if s[i].invalidates_format() {
            return false;
        }
        i = i + 1;
    }
    true
}

/// Whether no finding in `s` makes the deck unsupported by the engine.
fn no_finding_invalidates_engine_support(s: &Vec<DeckDiagnostic>) -> (r: bool)
    ensures
        r == forall|i: int|
            0 <= i < s@.len() ==> !diagnostic_invalidates_engine_support(#[trigger] s@[i]),
{
    let mut i: usize = 0;
    while i < s.len()
        invariant
            i <= s@.len(),
            forall|j: int| 0 <= j < i ==> !diagnostic_invalidates_engine_support(#[trigger] s@[j]),
        decreases s@.len() - i,
    {
        if s[i].invalidates_engine_support() {
            return false;
        }
        i = i + 1;
    }
    true
}

/// Canonicalizes and validates a candidate against modeled Constructed rules
/// and engine support.
pub fn validate_deck(candidate: CandidateDeck, cards: &[CardCatalogEntry], format: &FormatContext) -> (r:
    Result<DeckValidation, DeckError>)
    ensures
        r is Err <==> deck_error(candidate, cards@) is Some,
        r matches Err(e) ==> deck_error(candidate, cards@) == Some(e),
        r matches Ok(v) ==> validation_of(v, candidate, cards@, *format),
{
    let ghost original = candidate;
    let atlas_total = zone_total(&candidate.atlas);
    let spellbook_total = zone_total(&candidate.spellbook);
    let mut diagnostics: Vec<DeckDiagnostic> = Vec::new();
    if !is_valid_card_id(candidate.avatar.as_str()) {
        diagnostics.push(
            DeckDiagnostic::InvalidCardId { card_id: candidate.avatar.clone(), zone: DeckZone::Avatar },
        );
    }
    assert(diagnostics@ =~= (if valid_card_id(original.avatar@) {
        Seq::empty()
    } else {
        seq![DeckDiagnostic::InvalidCardId { card_id: original.avatar, zone: DeckZone::Avatar }]
    }));
    let CandidateDeck { avatar, atlas, spellbook } = candidate;
    let atlas = match canonicalize_rows(atlas, DeckZone::Atlas, &mut diagnostics) {
        Ok(rows) => rows,
        Err(e) => {
            proof {
                let i = choose|i: int| first_overflow(original.atlas@, i) && e == (DeckError::CopyCountOverflow {
                    card_id: original.atlas@[i].card_id,
                    zone: DeckZone::Atlas,
                });
                let c = choose|i: int| first_overflow(original.atlas@, i);
                lemma_first_overflow_unique(original.atlas@, i, c);
            }
            return Err(e);
        },
    };
    let spellbook = match canonicalize_rows(spellbook, DeckZone::Spellbook, &mut diagnostics) {
        Ok(rows) => rows,
        Err(e) => {
            proof {
                let i = choose|i: int|
                    first_overflow(original.spellbook@, i) && e == (DeckError::CopyCountOverflow {
                        card_id: original.spellbook@[i].card_id,
                        zone: DeckZone::Spellbook,
                    });
                let c = choose|i: int| first_overflow(original.spellbook@, i);
                lemma_first_overflow_unique(original.spellbook@, i, c);
            }
            return Err(e);
        },
    };
    match find_catalog_repeat(cards) {
        Some(i) => {
            proof {
                let c = choose|j: int| first_repeat(cards@, j);
                lemma_first_repeat_unique(cards@, i as int, c);
            }
            return Err(DeckError::DuplicateCatalogCard(cards[i].stable_id.clone()));
        },
        None => {},
    }
    let atlas_total = match atlas_total {
        Some(t) => t,
        None => {
            return Err(DeckError::ZoneCountOverflow(DeckZone::Atlas));
        },
    };
    let spellbook_total = match spellbook_total {
        Some(t) => t,
        None => {
            return Err(DeckError::ZoneCountOverflow(DeckZone::Spellbook));
        },
    };
    let deck = CanonicalDeck { avatar, atlas, spellbook };
    let ghost counted = diagnostics@;
    assert(counted == counting_findings(original));
    record_canonical_findings(&deck, atlas_total, spellbook_total, cards, format, &mut diagnostics);
    let ghost unsorted = diagnostics@;
    assert(unsorted == deck_findings(original, cards@, *format, deck));
    let diagnostics = sort_diagnostics(diagnostics);
    let text = deck_canonical_text(&deck, format.stable_id());
    let deck_id = identity_of_canonical_text(text.as_str());
    let format_legal = no_finding_invalidates_format(&diagnostics);
    let engine_supported = no_finding_invalidates_engine_support(&diagnostics);
    let ghost d = deck;
    assert(d.avatar == original.avatar);
    assert(canonical_rows(original.atlas@, d.atlas@));
    assert(canonical_rows(original.spellbook@, d.spellbook@));
    assert(deck_id@ == identity_of_text(deck_text(d, format.spec_stable_id())));
    assert(diagnostics@.to_multiset() == deck_findings(original, cards@, *format, d).to_multiset());
    let validation = DeckValidation {
        deck,
        deck_id,
        format_legal,
        engine_supported,
        ranked_eligible: format_legal && engine_supported,
        diagnostics,
    };
    assert(validation.spec_deck() == d);
    assert(diagnostics_sorted(validation.spec_diagnostics()));
    assert(validation.spec_format_legal() == forall|i: int|
        0 <= i < validation.spec_diagnostics().len() ==> !diagnostic_invalidates_format(
            #[trigger] validation.spec_diagnostics()[i],
        ));
    assert(validation.spec_engine_supported() == forall|i: int|
        0 <= i < validation.spec_diagnostics().len() ==> !diagnostic_invalidates_engine_support(
            #[trigger] validation.spec_diagnostics()[i],
        ));
    assert(validation.spec_deck_id() == identity_of_text(deck_text(d, format.spec_stable_id())));
    Ok(validation)
}

/// A complete market identity for one printing price.
#[derive(Clone, Debug, Eq, Ord, PartialEq, PartialOrd)]
pub struct PriceKey {
    /// Official card identity.
    pub official_card_id: String,
    /// Official printing identity.
    pub printing_id: String,
    /// Printing variant, such as standard or foil.
    pub variant: String,
    /// Physical condition.
    pub condition: String,
    /// Currency code; no conversion is performed.
    pub currency: String,
    /// Price source identity.
    pub source: String,
}

/// One integer-cents price for a fully qualified printing key.
#[derive(Clone, Debug, Eq, PartialEq)]
pub struct PrintingPrice {
    /// Fully qualified printing key.
    pub key: PriceKey,
    /// Unit price in the currency's cent-like minor unit.
    pub unit_price_cents: u64,
}

/// One immutable, validated local price snapshot.
#[derive(Clone, Debug, Eq, PartialEq)]
pub struct PriceSnapshot {
    snapshot_id: String,
    prices: Vec<PrintingPrice>,
}

/// Exact dimensions eligible for minimum-cost printing selection.
#[derive(Clone, Debug, Eq, PartialEq)]
pub struct PriceScope {
    /// Printing variant.
    pub variant: String,
    /// Physical condition.
    pub condition: String,
    /// Currency code.
    pub currency: String,
    /// Price source identity.
    pub source: String,
}

/// A price snapshot is malformed or arithmetic overflowed.
#[derive(Clone, Debug, Eq, PartialEq)]
pub enum PriceError {
    /// Snapshot identity is blank.
    EmptySnapshotId,
    /// A required key field is blank.
    EmptyKeyField(&'static str),
    /// The snapshot repeats an exact qualified price key.
    DuplicatePriceKey(Box<PriceKey>),
    /// A line or total exceeded integer cents.
    CostOverflow,
    /// Authority supplied the same catalog card identity more than once.
    DuplicateCatalogCard(String),
}

/// The human-readable description of a pricing error.
pub open spec fn price_error_text(e: PriceError) -> Seq<char> {
    match e {
        PriceError::EmptySnapshotId => "price snapshot identity must be nonempty"@,
        PriceError::EmptyKeyField(field) => "price key "@ + field@ + " must be nonempty"@,
        PriceError::DuplicatePriceKey(key) => "duplicate price key for card "@
            + key.official_card_id@ + " printing "@ + key.printing_id@,
        PriceError::CostOverflow => "deck price exceeds integer cents"@,
        PriceError::DuplicateCatalogCard(card_id) => "duplicate catalog card identity: "@
            + card_id@,
    }
}

impl PriceError {
    /// Describes the error.
    pub fn to_string(&self) -> (r: String)
        ensures
            r@ == price_error_text(*self),
    {
        let mut out = String::new();
        match self {
            PriceError::EmptySnapshotId => {
                push_str(&mut out, "price snapshot identity must be nonempty");
            },
            PriceError::EmptyKeyField(field) => {
                push_str(&mut out, "price key ");
                push_str(&mut out, field);
                push_str(&mut out, " must be nonempty");
            },
            PriceError::DuplicatePriceKey(key) => {
                push_str(&mut out, "duplicate price key for card ");
                push_str(&mut out, key.official_card_id.as_str());
                push_str(&mut out, " printing ");
                push_str(&mut out, key.printing_id.as_str());
            },
            PriceError::CostOverflow => {
                push_str(&mut out, "deck price exceeds integer cents");
            },
            PriceError::DuplicateCatalogCard(card_id) => {
                push_str(&mut out, "duplicate catalog card identity: ");
                push_str(&mut out, card_id.as_str());
            },
        }
        assert(out@ =~= price_error_text(*self));
        out
    }
}

/// The six fields of a key as text, in declaration order.
pub open spec fn key_fields(k: PriceKey) -> Seq<Seq<char>> {
    seq![k.official_card_id@, k.printing_id@, k.variant@, k.condition@, k.currency@, k.source@]
}

/// The first blank field of a key, by position, if any.
pub open spec fn first_blank_field(k: PriceKey) -> Option<int> {
    if blank(k.official_card_id@) {
        Some(0)
    } else if blank(k.printing_id@) {
        Some(1)
    } else if blank(k.variant@) {
        Some(2)
    } else if blank(k.condition@) {
        Some(3)
    } else if blank(k.currency@) {
        Some(4)
    } else if blank(k.source@) {
        Some(5)
    } else {
        None
    }
}

/// Whether two keys name the same market identity.
pub open spec fn same_key(a: PriceKey, b: PriceKey) -> bool {
    key_fields(a) == key_fields(b)
}

/// Whether price `i` is malformed: a blank field or a key seen before it.
pub open spec fn bad_price(prices: Seq<PrintingPrice>, i: int) -> bool {
    &&& 0 <= i < prices.len()
    &&& (first_blank_field(prices[i].key) is Some || exists|j: int|
        0 <= j < i && same_key(#[trigger] prices[j].key, prices[i].key))
}

/// Why a snapshot is refused, if it is: a blank identity, else the first
/// malformed price: its first blank field, or its repeated key.
pub open spec fn snapshot_error(snapshot_id: Seq<char>, prices: Seq<PrintingPrice>) -> Option<
    PriceError,
> {
    if blank(snapshot_id) {
        Some(PriceError::EmptySnapshotId)
    } else if exists|i: int| #[trigger] bad_price(prices, i) {
        let i = choose|i: int|
            #[trigger] bad_price(prices, i) && forall|j: int| 0 <= j < i ==> !#[trigger] bad_price(
                prices,
                j,
            );
        match first_blank_field(prices[i].key) {
            Some(f) => Some(PriceError::EmptyKeyField(field_name_text(f))),
            None => Some(PriceError::DuplicatePriceKey(Box::new(prices[i].key))),
        }
    } else {
        None
    }
}

/// The static name of key field `f`.
pub open spec fn field_name_text(f: int) -> &'static str {
    if f == 0 {
        "officialCardId"
    } else if f == 1 {
        "printingId"
    } else if f == 2 {
        "variant"
    } else if f == 3 {
        "condition"
    } else if f == 4 {
        "currency"
    } else {
        "source"
    }
}

/// The first blank field of a key, by position, if any.
fn find_blank_field(k: &PriceKey) -> (r: Option<&'static str>)
    ensures
        r is None <==> first_blank_field(*k) is None,
        r matches Some(name) ==> name == field_name_text(first_blank_field(*k)->0),
{
    if is_blank(k.official_card_id.as_str()) {
        Some("officialCardId")
    } else if is_blank(k.printing_id.as_str()) {
        Some("printingId")
    } else if is_blank(k.variant.as_str()) {
        Some("variant")
    } else if is_blank(k.condition.as_str()) {
        Some("condition")
    } else if is_blank(k.currency.as_str()) {
        Some("currency")
    } else if is_blank(k.source.as_str()) {
        Some("source")
    } else {
        None
    }
}

/// A copy of a key.
fn copy_key(k: &PriceKey) -> (r: PriceKey)
    ensures
        r == *k,
{
    PriceKey {
        official_card_id: k.official_card_id.clone(),
        printing_id: k.printing_id.clone(),
        variant: k.variant.clone(),
        condition: k.condition.clone(),
        currency: k.currency.clone(),
        source: k.source.clone(),
    }
}

/// Whether two keys name the same market identity.
fn keys_equal(a: &PriceKey, b: &PriceKey) -> (r: bool)
    ensures
        r == same_key(*a, *b),
{
    let r = same_text(a.official_card_id.as_str(), b.official_card_id.as_str()) && same_text(
        a.printing_id.as_str(),
        b.printing_id.as_str(),
    ) && same_text(a.variant.as_str(), b.variant.as_str()) && same_text(
        a.condition.as_str(),
        b.condition.as_str(),
    ) && same_text(a.currency.as_str(), b.currency.as_str()) && same_text(
        a.source.as_str(),
        b.source.as_str(),
    );
    proof {
        if r {
            assert(key_fields(*a) =~= key_fields(*b));
        } else {
            if key_fields(*a) == key_fields(*b) {
                assert(key_fields(*a)[0] == key_fields(*b)[0]);
                assert(key_fields(*a)[1] == key_fields(*b)[1]);
                assert(key_fields(*a)[2] == key_fields(*b)[2]);
                assert(key_fields(*a)[3] == key_fields(*b)[3]);
                assert(key_fields(*a)[4] == key_fields(*b)[4]);
                assert(key_fields(*a)[5] == key_fields(*b)[5]);
            }
        }
    }
    r
}

impl PriceSnapshot {
    /// The snapshot identity.
    pub closed spec fn spec_snapshot_id(self) -> Seq<char> {
        self.snapshot_id@
    }

    /// The validated prices, in the order they were supplied.
    pub closed spec fn spec_prices(self) -> Seq<PrintingPrice> {
        self.prices@
    }

    /// Validates and indexes one local snapshot without coalescing market
    /// dimensions.
    pub fn new(snapshot_id: String, prices: Vec<PrintingPrice>) -> (r: Result<PriceSnapshot, PriceError>)
        ensures
            r is Err <==> snapshot_error(snapshot_id@, prices@) is Some,
            r matches Err(e) ==> snapshot_error(snapshot_id@, prices@) == Some(e),
            r matches Ok(s) ==> s.spec_snapshot_id() == snapshot_id@ && s.spec_prices() == prices@,
    {
        if is_blank(snapshot_id.as_str()) {
            return Err(PriceError::EmptySnapshotId);
        }
        let mut i: usize = 0;
        while i < prices.len()
            invariant
                i <= prices@.len(),
                !blank(snapshot_id@),
                forall|j: int| 0 <= j < i ==> !#[trigger] bad_price(prices@, j),
            decreases prices@.len() - i,
        {
            match find_blank_field(&prices[i].key) {
                Some(name) => {
                    proof {
                        assert(bad_price(prices@, i as int));
                        lemma_first_bad_price(prices@, i as int);
                    }
                    return Err(PriceError::EmptyKeyField(name));
                },
                None => {},
            }
            let mut j: usize = 0;
            while j < i
                invariant
                    j <= i < prices@.len(),
                    !blank(snapshot_id@),
                    first_blank_field(prices@[i as int].key) is None,
                    forall|t: int| 0 <= t < i ==> !#[trigger] bad_price(prices@, t),
                    forall|t: int| 0 <= t < j ==> !same_key(#[trigger] prices@[t].key, prices@[i as int].key),
                decreases i - j,
            {
                if keys_equal(&prices[j].key, &prices[i].key) {
                    proof {
                        assert(bad_price(prices@, i as int));
                        lemma_first_bad_price(prices@, i as int);
                    }
                    return Err(PriceError::DuplicatePriceKey(Box::new(copy_key(&prices[i].key))));
                }
                j = j + 1;
            }
            assert(!bad_price(prices@, i as int));
            i = i + 1;
        }
        Ok(PriceSnapshot { snapshot_id, prices })
    }

    /// Returns the caller-supplied immutable snapshot identity.
    pub fn snapshot_id(&self) -> (r: &str)
        ensures
            r@ == self.spec_snapshot_id(),
    {
        self.snapshot_id.as_str()
    }
}

/// The first malformed price is the one `choose` picks.
proof fn lemma_first_bad_price(prices: Seq<PrintingPrice>, i: int)
    requires
        bad_price(prices, i),
        forall|j: int| 0 <= j < i ==> !#[trigger] bad_price(prices, j),
    ensures
        (choose|k: int|
            #[trigger] bad_price(prices, k) && forall|j: int| 0 <= j < k ==> !#[trigger] bad_price(
                prices,
                j,
            )) == i,
{
    let k = choose|k: int|
        #[trigger] bad_price(prices, k) && forall|j: int| 0 <= j < k ==> !#[trigger] bad_price(
            prices,
            j,
        );
    assert(bad_price(prices, k));
    if k < i {
        assert(!bad_price(prices, k));
    } else if k > i {
        assert(!bad_price(prices, i));
    }
}

/// A key as a sort key: its six fields in declaration order. Lexicographic
/// order of these is the derived order of keys.
pub open spec fn key_rank(k: PriceKey) -> Seq<int> {
    text_key(k.official_card_id@) + text_key(k.printing_id@) + text_key(k.variant@) + text_key(
        k.condition@,
    ) + text_key(k.currency@) + text_key(k.source@)
}

/// A price as a sort key: the unit price, then its key.
pub open spec fn price_rank(p: PrintingPrice) -> Seq<int> {
    seq![u64_int(p.unit_price_cents)] + key_rank(p.key)
}

/// Whether a price's key lies in the requested scope for an official card.
pub open spec fn in_scope(p: PrintingPrice, official_card_id: Seq<char>, scope: PriceScope) -> bool {
    &&& p.key.official_card_id@ == official_card_id
    &&& p.key.variant@ == scope.variant@
    &&& p.key.condition@ == scope.condition@
    &&& p.key.currency@ == scope.currency@
    &&& p.key.source@ == scope.source@
}

/// Whether price `i` is the cheapest in scope, ties going to the smaller key.
pub open spec fn cheapest_at(
    prices: Seq<PrintingPrice>,
    official_card_id: Seq<char>,
    scope: PriceScope,
    i: int,
) -> bool {
    &&& 0 <= i < prices.len()
    &&& in_scope(prices[i], official_card_id, scope)
    &&& forall|j: int|
        0 <= j < prices.len() && in_scope(#[trigger] prices[j], official_card_id, scope) ==> lex_order(
            price_rank(prices[j]),
            price_rank(prices[i]),
        ) != Ordering::Less
}

/// Whether some price lies in scope.
pub open spec fn any_in_scope(prices: Seq<PrintingPrice>, official_card_id: Seq<char>, scope: PriceScope) -> bool {
    exists|i: int| 0 <= i < prices.len() && in_scope(#[trigger] prices[i], official_card_id, scope)
}

/// Builds the sort key of a price's key.
fn key_rank_vec(k: &PriceKey) -> (r: Vec<u32>)
    ensures
        u32_codes(r@) == key_rank(*k),
{
    let mut out: Vec<u32> = Vec::new();
    push_text_key(&mut out, k.official_card_id.as_str());
    push_text_key(&mut out, k.printing_id.as_str());
    push_text_key(&mut out, k.variant.as_str());
    push_text_key(&mut out, k.condition.as_str());
    push_text_key(&mut out, k.currency.as_str());
    push_text_key(&mut out, k.source.as_str());
    assert(u32_codes(out@) =~= key_rank(*k));
    out
}

/// Lexicographic order after a common first element is decided by the rest.
proof fn lemma_lex_order_head(x: int, y: int, a: Seq<int>, b: Seq<int>)
    ensures
        lex_order(seq![x] + a, seq![y] + b) == if x < y {
            Ordering::Less
        } else if x > y {
            Ordering::Greater
        } else {
            lex_order(a, b)
        },
{
    assert((seq![x] + a).skip(1) =~= a);
    assert((seq![y] + b).skip(1) =~= b);
}

/// Whether price `a` sorts strictly before price `b` (price, then key).
fn price_before(a: &PrintingPrice, b: &PrintingPrice) -> (r: bool)
    ensures
        r == (lex_order(price_rank(*a), price_rank(*b)) == Ordering::Less),
{
    proof {
        lemma_lex_order_head(
            u64_int(a.unit_price_cents),
            u64_int(b.unit_price_cents),
            key_rank(a.key),
            key_rank(b.key),
        );
    }
    if a.unit_price_cents < b.unit_price_cents {
        return true;
    }
    if a.unit_price_cents > b.unit_price_cents {
        return false;
    }
    let ka = key_rank_vec(&a.key);
    let kb = key_rank_vec(&b.key);
    match compare_lex(&ka, &kb) {
        Ordering::Less => true,
        _ => false,
    }
}

/// Whether a price lies in the requested scope for an official card.
fn price_in_scope(p: &PrintingPrice, official_card_id: &str, scope: &PriceScope) -> (r: bool)
    ensures
        r == in_scope(*p, official_card_id@, *scope),
{
    same_text(p.key.official_card_id.as_str(), official_card_id) && same_text(
        p.key.variant.as_str(),
        scope.variant.as_str(),
    ) && same_text(p.key.condition.as_str(), scope.condition.as_str()) && same_text(
        p.key.currency.as_str(),
        scope.currency.as_str(),
    ) && same_text(p.key.source.as_str(), scope.source.as_str())
}

impl PriceSnapshot {
    /// The cheapest price in scope for an official card, ties going to the
    /// smaller key.
    fn cheapest(&self, official_card_id: &str, scope: &PriceScope) -> (r: Option<usize>)
        ensures
            r is None <==> !any_in_scope(self.spec_prices(), official_card_id@, *scope),
            r matches Some(i) ==> cheapest_at(self.spec_prices(), official_card_id@, *scope, usize_int(i)),
    {
        let ghost ps = self.prices@;
        let mut best: Option<usize> = None;
        let mut i: usize = 0;
        while i < self.prices.len()
            invariant
                i <= ps.len(),
                ps == self.prices@,
                best is None ==> forall|j: int|
                    0 <= j < i ==> !in_scope(#[trigger] ps[j], official_card_id@, *scope),
                best matches Some(b) ==> b < i && in_scope(ps[usize_int(b)], official_card_id@, *scope)
                    && forall|j: int|
                    0 <= j < i && in_scope(#[trigger] ps[j], official_card_id@, *scope) ==> lex_order(
                        price_rank(ps[j]),
                        price_rank(ps[usize_int(b)]),
                    ) != Ordering::Less,
            decreases ps.len() - i,
        {
            if price_in_scope(&self.prices[i], official_card_id, scope) {
                match best {
                    None => {
                        proof {
                            lemma_lex_order_antisymmetric(price_rank(ps[usize_int(i)]), price_rank(ps[usize_int(i)]));
                        }
                        best = Some(i);
                    },
                    Some(b) => {
                        if price_before(&self.prices[i], &self.prices[b]) {
                            proof {
                                assert forall|j: int|
                                    0 <= j < i + 1 && in_scope(#[trigger] ps[j], official_card_id@, *scope)
                                        implies lex_order(price_rank(ps[j]), price_rank(ps[usize_int(i)]))
                                    != Ordering::Less by {
                                    if j < i && lex_order(price_rank(ps[j]), price_rank(ps[usize_int(i)]))
                                        == Ordering::Less {
                                        lemma_lex_order_transitive(
                                            price_rank(ps[j]),
                                            price_rank(ps[usize_int(i)]),
                                            price_rank(ps[usize_int(b)]),
                                        );
                                    }
                                    if j == i {
                                        lemma_lex_order_antisymmetric(
                                            price_rank(ps[j]),
                                            price_rank(ps[j]),
                                        );
                                    }
                                }
                            }
                            best = Some(i);
                        }
                    },
                }
            }
            i = i + 1;
        }
        best
    }
}

/// Why a deck cost line could not be priced.
#[derive(Clone, Copy, Debug, Eq, PartialEq, Structural)]
pub enum PriceUnavailableReason {
    /// No official card identity exists.
    OfficialMappingUnavailable,
    /// No printing price matches the exact requested market scope.
    NoMatchingPrice,
    /// The card was absent from the supplied authority catalog.
    CardNotInCatalog,
}

/// Pricing result for one canonical deck line.
#[derive(Clone, Debug, Eq, PartialEq)]
pub enum DeckCostStatus {
    /// One deterministic minimum-cost printing was selected.
    Priced {
        /// Selected fully qualified printing key.
        key: PriceKey,
        /// Exact unit price.
        unit_price_cents: u64,
        /// Exact unit price multiplied by copies.
        line_total_cents: u64,
    },
    /// The card-to-official identity mapping has multiple unresolved candidates.
    AmbiguousMapping { official_card_ids: Vec<String> },
    /// No price can be selected for the stated reason.
    Unavailable { reason: PriceUnavailableReason },
}

/// One canonically ordered deck cost line.
#[derive(Clone, Debug, Eq, PartialEq)]
pub struct DeckCostLine {
    /// Stable authority card identity.
    pub card_id: String,
    /// Deck zone.
    pub zone: DeckZone,
    /// Number of copies priced.
    pub copies: u32,
    /// Explicit pricing outcome.
    pub status: DeckCostStatus,
}

/// Exact local cost calculation for a canonical deck and market scope.
#[derive(Clone, Debug, Eq, PartialEq)]
pub struct DeckCost {
    /// Canonical deck identity.
    pub deck_id: IdentityHash,
    /// Price snapshot identity.
    pub snapshot_id: String,
    /// Exact currency requested by the caller.
    pub currency: String,
    /// Canonically ordered lines.
    pub lines: Vec<DeckCostLine>,
    /// Full deck total, absent when any line is unavailable or ambiguous.
    pub total_cents: Option<u64>,
}

/// Whether some entry of `ids` is the identity `x`.
pub open spec fn lists(ids: Seq<String>, x: Seq<char>) -> bool {
    exists|i: int| 0 <= i < ids.len() && (#[trigger] ids[i])@ == x
}

/// Whether `out` lists the identities of `ids` once each, in UTF-16 order.
pub open spec fn canonical_ids(ids: Seq<String>, out: Seq<String>) -> bool {
    &&& forall|a: int, b: int|
        0 <= a < b < out.len() ==> key_order(out[a]@, out[b]@) != Ordering::Greater
    &&& forall|a: int, b: int| 0 <= a < b < out.len() ==> out[a]@ != out[b]@
    &&& forall|x: Seq<char>| #![trigger lists(ids, x)] #![trigger lists(out, x)] lists(ids, x) <==> lists(out, x)
}

/// Lists identities once each, in UTF-16 order.
fn canonical_id_list(ids: &Vec<String>) -> (r: Vec<String>)
    ensures
        canonical_ids(ids@, r@),
{
    let mut out: Vec<String> = Vec::new();
    let mut i: usize = 0;
    while i < ids.len()
        invariant
            i <= ids@.len(),
            canonical_ids(ids@.take(usize_int(i)), out@),
        decreases ids@.len() - i,
    {
        let ghost old_out = out@;
        let ghost prefix = ids@.take(usize_int(i));
        let ghost next = ids@.take(i + 1);
        assert(next =~= prefix.push(ids@[usize_int(i)]));
        let mut found = false;
        let mut k: usize = 0;
        while k < out.len()
            invariant
                k <= out@.len(),
                i < ids@.len(),
                out@ == old_out,
                !found ==> forall|a: int| 0 <= a < k ==> (#[trigger] out@[a])@ != ids@[usize_int(i)]@,
                found ==> exists|a: int| 0 <= a < out@.len() && (#[trigger] out@[a])@ == ids@[usize_int(i)]@,
            decreases out@.len() - k,
        {
            if same_text(out[k].as_str(), ids[i].as_str()) {
                found = true;
            }
            k = k + 1;
        }
        if !found {
            let mut j: usize = 0;
            while j < out.len()
                invariant
                    j <= out@.len(),
                    i < ids@.len(),
                    out@ == old_out,
                    forall|a: int|
                        0 <= a < j ==> key_order((#[trigger] out@[a])@, ids@[usize_int(i)]@)
                            != Ordering::Greater,
                ensures
                    j <= out@.len(),
                    forall|a: int|
                        0 <= a < j ==> key_order((#[trigger] out@[a])@, ids@[usize_int(i)]@)
                            != Ordering::Greater,
                    j < out@.len() ==> key_order(out@[usize_int(j)]@, ids@[usize_int(i)]@) == Ordering::Greater,
                decreases out@.len() - j,
            {
                match compare_keys(out[j].as_str(), ids[i].as_str()) {
                    Ordering::Greater => {
                        break;
                    },
                    _ => {},
                }
                j = j + 1;
            }
            let x = ids[i].clone();
            out.insert(j, x);
            proof {
                let r = out@;
                assert forall|a: int, b: int| 0 <= a < b < r.len() implies key_order(r[a]@, r[b]@)
                    != Ordering::Greater by {
                    if b < j {
                        assert(r[a] == old_out[a]);
                        assert(r[b] == old_out[b]);
                    } else if a > j {
                        assert(r[a] == old_out[a - 1]);
                        assert(r[b] == old_out[b - 1]);
                    } else if b == j {
                        assert(r[a] == old_out[a]);
                    } else if a == j {
                        assert(r[b] == old_out[b - 1]);
                        lemma_lex_order_antisymmetric(utf16_units(old_out[usize_int(j)]@), utf16_units(x@));
                        if b - 1 > j {
                            assert(key_order(old_out[usize_int(j)]@, old_out[b - 1]@) != Ordering::Greater);
                            lemma_lex_order_not_greater_transitive(
                                utf16_units(x@),
                                utf16_units(old_out[usize_int(j)]@),
                                utf16_units(old_out[b - 1]@),
                            );
                        }
                    } else {
                        assert(r[a] == old_out[a]);
                        assert(r[b] == old_out[b - 1]);
                    }
                }
                assert forall|a: int, b: int| 0 <= a < b < r.len() implies r[a]@ != r[b]@ by {
                    if b < j {
                        assert(r[a] == old_out[a]);
                        assert(r[b] == old_out[b]);
                    } else if a > j {
                        assert(r[a] == old_out[a - 1]);
                        assert(r[b] == old_out[b - 1]);
                    } else if b == j {
                        assert(r[a] == old_out[a]);
                    } else if a == j {
                        assert(r[b] == old_out[b - 1]);
                    } else {
                        assert(r[a] == old_out[a]);
                        assert(r[b] == old_out[b - 1]);
                    }
                }
                assert forall|y: Seq<char>| #![trigger lists(next, y)] #![trigger lists(r, y)] lists(next, y) <==> lists(r, y) by {
                    if lists(next, y) {
                        let t = choose|t: int| 0 <= t < next.len() && (#[trigger] next[t])@ == y;
                        if t < i {
                            assert(prefix[t] == next[t]);
                            assert(lists(prefix, y));
                            let a = choose|a: int| 0 <= a < old_out.len() && (#[trigger] old_out[a])@ == y;
                            if a < j {
                                assert(r[a] == old_out[a]);
                            } else {
                                assert(r[a + 1] == old_out[a]);
                            }
                        } else {
                            assert(r[usize_int(j)] == x);
                        }
                    }
                    if lists(r, y) {
                        let a = choose|a: int| 0 <= a < r.len() && (#[trigger] r[a])@ == y;
                        if a == j {
                            assert(next[usize_int(i)] == ids@[usize_int(i)]);
                        } else {
                            let b = if a < j {
                                a
                            } else {
                                a - 1
                            };
                            assert(old_out[b] == r[a]);
                            assert(lists(old_out, y));
                            let t = choose|t: int| 0 <= t < prefix.len() && (#[trigger] prefix[t])@ == y;
                            assert(next[t] == prefix[t]);
                        }
                    }
                }
            }
        } else {
            proof {
                assert forall|y: Seq<char>| #![trigger lists(next, y)] #![trigger lists(out@, y)] lists(next, y) <==> lists(out@, y) by {
                    if lists(next, y) {
                        let t = choose|t: int| 0 <= t < next.len() && (#[trigger] next[t])@ == y;
                        if t < usize_int(i) {
                            assert(prefix[t] == next[t]);
                            assert(lists(prefix, y));
                        }
                    }
                    if lists(out@, y) {
                        assert(lists(prefix, y));
                        let t = choose|t: int| 0 <= t < prefix.len() && (#[trigger] prefix[t])@ == y;
                        assert(next[t] == prefix[t]);
                    }
                }
            }
        }
        i = i + 1;
    }
    assert(ids@.take(len_code(ids@.len())) =~= ids@);
    out
}

/// The official identity an exact, nonblank mapping names, if the card has one.
pub open spec fn exact_official_id(card_id: Seq<char>, cards: Seq<CardCatalogEntry>) -> Option<Seq<char>> {
    match catalog_entry(cards, card_id) {
        Some(card) => match card.official_mapping {
            OfficialCardMapping::Exact(id) => if blank(id@) {
                None
            } else {
                Some(id@)
            },
            _ => None,
        },
        None => None,
    }
}

/// Whether a card's line is priced: an exact mapping with a price in scope.
pub open spec fn line_priced(
    card_id: Seq<char>,
    cards: Seq<CardCatalogEntry>,
    prices: Seq<PrintingPrice>,
    scope: PriceScope,
) -> bool {
    &&& exact_official_id(card_id, cards) is Some
    &&& any_in_scope(prices, exact_official_id(card_id, cards)->0, scope)
}

/// The unit price of the cheapest price in scope.
pub open spec fn cheapest_price(prices: Seq<PrintingPrice>, official_card_id: Seq<char>, scope: PriceScope) -> u64 {
    prices[choose|i: int| cheapest_at(prices, official_card_id, scope, i)].unit_price_cents
}

/// The exact cost of a priced line: its cheapest unit price times its copies.
pub open spec fn line_total(
    card_id: Seq<char>,
    copies: u32,
    cards: Seq<CardCatalogEntry>,
    prices: Seq<PrintingPrice>,
    scope: PriceScope,
) -> nat {
    cheapest_price(prices, exact_official_id(card_id, cards)->0, scope) as nat * copies as nat
}

/// Whether a priced line's cost exceeds `u64::MAX`.
pub open spec fn line_overflows(
    card_id: Seq<char>,
    copies: u32,
    cards: Seq<CardCatalogEntry>,
    prices: Seq<PrintingPrice>,
    scope: PriceScope,
) -> bool {
    line_priced(card_id, cards, prices, scope) && line_total(card_id, copies, cards, prices, scope)
        > u64::MAX
}

/// The pricing outcome owed for a card's line.
pub open spec fn cost_status_of(
    status: DeckCostStatus,
    card_id: Seq<char>,
    copies: u32,
    cards: Seq<CardCatalogEntry>,
    prices: Seq<PrintingPrice>,
    scope: PriceScope,
) -> bool {
    match catalog_entry(cards, card_id) {
        None => status == (DeckCostStatus::Unavailable {
            reason: PriceUnavailableReason::CardNotInCatalog,
        }),
        Some(card) => match card.official_mapping {
            OfficialCardMapping::Unavailable => status == (DeckCostStatus::Unavailable {
                reason: PriceUnavailableReason::OfficialMappingUnavailable,
            }),
            OfficialCardMapping::Ambiguous(ids) => if ids@.len() == 0 {
                status == (DeckCostStatus::Unavailable {
                    reason: PriceUnavailableReason::OfficialMappingUnavailable,
                })
            } else {
                match status {
                    DeckCostStatus::AmbiguousMapping { official_card_ids } => canonical_ids(
                        ids@,
                        official_card_ids@,
                    ),
                    _ => false,
                }
            },
            OfficialCardMapping::Exact(id) => if blank(id@) {
                status == (DeckCostStatus::Unavailable {
                    reason: PriceUnavailableReason::OfficialMappingUnavailable,
                })
            } else if !any_in_scope(prices, id@, scope) {
                status == (DeckCostStatus::Unavailable {
                    reason: PriceUnavailableReason::NoMatchingPrice,
                })
            } else {
                match status {
                    DeckCostStatus::Priced { key, unit_price_cents, line_total_cents } => {
                        &&& exists|i: int|
                            cheapest_at(prices, id@, scope, i) && key == prices[i].key
                                && unit_price_cents == prices[i].unit_price_cents
                        &&& line_total_cents == line_total(card_id, copies, cards, prices, scope)
                    },
                    _ => false,
                }
            },
        },
    }
}

/// All cheapest prices in scope share one unit price.
proof fn lemma_cheapest_price_unique(
    prices: Seq<PrintingPrice>,
    official_card_id: Seq<char>,
    scope: PriceScope,
    i: int,
    j: int,
)
    requires
        cheapest_at(prices, official_card_id, scope, i),
        cheapest_at(prices, official_card_id, scope, j),
    ensures
        prices[i].unit_price_cents == prices[j].unit_price_cents,
{
    assert(lex_order(price_rank(prices[j]), price_rank(prices[i])) != Ordering::Less);
    assert(lex_order(price_rank(prices[i]), price_rank(prices[j])) != Ordering::Less);
    lemma_lex_order_head(
        u64_int(prices[i].unit_price_cents),
        u64_int(prices[j].unit_price_cents),
        key_rank(prices[i].key),
        key_rank(prices[j].key),
    );
    lemma_lex_order_head(
        u64_int(prices[j].unit_price_cents),
        u64_int(prices[i].unit_price_cents),
        key_rank(prices[j].key),
        key_rank(prices[i].key),
    );
}

/// A priced line takes one of the snapshot's prices for the card's official
/// identity whose variant, condition, currency and source are exactly the
/// requested ones; no price with all of those is cheaper, and the line costs
/// that unit price times its copies.
pub proof fn lemma_priced_status_matches_scope(
    status: DeckCostStatus,
    card_id: Seq<char>,
    copies: u32,
    cards: Seq<CardCatalogEntry>,
    prices: Seq<PrintingPrice>,
    scope: PriceScope,
)
    requires
        cost_status_of(status, card_id, copies, cards, prices, scope),
    ensures
        status matches DeckCostStatus::Priced { key, unit_price_cents, line_total_cents } ==> {
            &&& exact_official_id(card_id, cards) == Some(key.official_card_id@)
            &&& key.variant@ == scope.variant@
            &&& key.condition@ == scope.condition@
            &&& key.currency@ == scope.currency@
            &&& key.source@ == scope.source@
            &&& exists|i: int|
                0 <= i < prices.len() && prices[i].key == key && prices[i].unit_price_cents
                    == unit_price_cents
            &&& forall|j: int|
                0 <= j < prices.len() && #[trigger] prices[j].key.official_card_id@
                    == key.official_card_id@ && prices[j].key.variant@ == scope.variant@
                    && prices[j].key.condition@ == scope.condition@ && prices[j].key.currency@
                    == scope.currency@ && prices[j].key.source@ == scope.source@
                    ==> unit_price_cents <= prices[j].unit_price_cents
            &&& line_total_cents == unit_price_cents * copies
        },
{
    if let DeckCostStatus::Priced { key, unit_price_cents, line_total_cents } = status {
        let card = catalog_entry(cards, card_id)->0;
        let id = card.official_mapping->Exact_0;
        let i = choose|i: int|
            cheapest_at(prices, id@, scope, i) && key == prices[i].key && unit_price_cents
                == prices[i].unit_price_cents;
        assert(in_scope(prices[i], id@, scope));
        assert forall|j: int|
            0 <= j < prices.len() && #[trigger] prices[j].key.official_card_id@
                == key.official_card_id@ && prices[j].key.variant@ == scope.variant@
                && prices[j].key.condition@ == scope.condition@ && prices[j].key.currency@
                == scope.currency@ && prices[j].key.source@ == scope.source@
                implies unit_price_cents <= prices[j].unit_price_cents by {
            assert(in_scope(prices[j], id@, scope));
            lemma_lex_order_head(
                u64_int(prices[j].unit_price_cents),
                u64_int(prices[i].unit_price_cents),
                key_rank(prices[j].key),
                key_rank(prices[i].key),
            );
        }
        let c = choose|c: int| cheapest_at(prices, id@, scope, c);
        lemma_cheapest_price_unique(prices, id@, scope, i, c);
    }
}

/// Every priced line of a deck cost takes a price of exactly the requested
/// variant, condition, currency and source for the line's card, and no
/// price of that scope is cheaper.
pub proof fn lemma_deck_cost_lines_match_scope(
    cost: DeckCost,
    validation: DeckValidation,
    cards: Seq<CardCatalogEntry>,
    snapshot: PriceSnapshot,
    scope: PriceScope,
    k: int,
)
    requires
        cost_of(cost, validation, cards, snapshot, scope),
        0 <= k < cost.lines@.len(),
    ensures
        cost.lines@[k].status matches DeckCostStatus::Priced { key, unit_price_cents, .. } ==> {
            &&& exact_official_id(cost.lines@[k].card_id@, cards) == Some(key.official_card_id@)
            &&& key.variant@ == scope.variant@
            &&& key.condition@ == scope.condition@
            &&& key.currency@ == scope.currency@
            &&& key.source@ == scope.source@
            &&& forall|j: int|
                0 <= j < snapshot.spec_prices().len() && #[trigger] snapshot.spec_prices()[j].key
                    == (PriceKey { printing_id: snapshot.spec_prices()[j].key.printing_id, ..key })
                    ==> unit_price_cents <= snapshot.spec_prices()[j].unit_price_cents
        },
{
    let line = cost.lines@[k];
    let requests = deck_line_requests(validation.spec_deck());
    assert(line.card_id@ == requests[k].0);
    lemma_priced_status_matches_scope(
        line.status,
        requests[k].0,
        requests[k].2,
        cards,
        snapshot.spec_prices(),
        scope,
    );
}

/// Prices one deck line.
fn cost_line(
    card_id: &str,
    copies: u32,
    zone: DeckZone,
    cards: &[CardCatalogEntry],
    snapshot: &PriceSnapshot,
    scope: &PriceScope,
) -> (r: Result<DeckCostLine, PriceError>)
    ensures
        r is Err <==> line_overflows(card_id@, copies, cards@, snapshot.spec_prices(), *scope),
        r matches Err(e) ==> e == PriceError::CostOverflow,
        r matches Ok(line) ==> line.card_id@ == card_id@ && line.zone == zone && line.copies == copies
            && cost_status_of(line.status, card_id@, copies, cards@, snapshot.spec_prices(), *scope),
{
    let ghost prices = snapshot.spec_prices();
    let status = match find_card(cards, card_id) {
        None => DeckCostStatus::Unavailable { reason: PriceUnavailableReason::CardNotInCatalog },
        Some(c) => match &cards[c].official_mapping {
            OfficialCardMapping::Unavailable => DeckCostStatus::Unavailable {
                reason: PriceUnavailableReason::OfficialMappingUnavailable,
            },
            OfficialCardMapping::Ambiguous(official_card_ids) => {
                let ids = canonical_id_list(official_card_ids);
                if ids.len() == 0 {
                    proof {
                        if official_card_ids@.len() > 0 {
                            assert(lists(official_card_ids@, official_card_ids@[0]@));
                            assert(lists(ids@, official_card_ids@[0]@));
                        }
                    }
                    DeckCostStatus::Unavailable {
                        reason: PriceUnavailableReason::OfficialMappingUnavailable,
                    }
                } else {
                    proof {
                        assert(lists(ids@, ids@[0]@));
                        assert(lists(official_card_ids@, ids@[0]@));
                    }
                    DeckCostStatus::AmbiguousMapping { official_card_ids: ids }
                }
            },
            OfficialCardMapping::Exact(official_card_id) => {
                if is_blank(official_card_id.as_str()) {
                    DeckCostStatus::Unavailable {
                        reason: PriceUnavailableReason::OfficialMappingUnavailable,
                    }
                } else {
                    match snapshot.cheapest(official_card_id.as_str(), scope) {
                        None => DeckCostStatus::Unavailable {
                            reason: PriceUnavailableReason::NoMatchingPrice,
                        },
                        Some(i) => {
                            let unit_price_cents = snapshot.prices[i].unit_price_cents;
                            proof {
                                let chosen = choose|k: int|
                                    cheapest_at(prices, official_card_id@, *scope, k);
                                lemma_cheapest_price_unique(
                                    prices,
                                    official_card_id@,
                                    *scope,
                                    i as int,
                                    chosen,
                                );
                            }
                            let line_total_cents = match unit_price_cents.checked_mul(copies as u64) {
                                Some(t) => t,
                                None => {
                                    return Err(PriceError::CostOverflow);
                                },
                            };
                            DeckCostStatus::Priced {
                                key: copy_key(&snapshot.prices[i].key),
                                unit_price_cents,
                                line_total_cents,
                            }
                        },
                    }
                }
            },
        },
    };
    Ok(DeckCostLine { card_id: card_id.to_owned(), zone, copies, status })
}

/// One line to price: a card, its zone, and its copies.
pub type LineRequest = (Seq<char>, DeckZone, u32);

/// The lines of a deck in canonical order: the avatar (one copy), the
/// Atlas rows, then the Spellbook rows.
pub open spec fn deck_line_requests(deck: CanonicalDeck) -> Seq<LineRequest> {
    seq![(deck.avatar@, DeckZone::Avatar, 1u32)] + deck.atlas@.map_values(
        |r: CardCount| (r.card_id@, DeckZone::Atlas, r.copies),
    ) + deck.spellbook@.map_values(|r: CardCount| (r.card_id@, DeckZone::Spellbook, r.copies))
}

/// The number of leading lines that are priced.
pub open spec fn leading_priced(
    requests: Seq<LineRequest>,
    cards: Seq<CardCatalogEntry>,
    prices: Seq<PrintingPrice>,
    scope: PriceScope,
) -> nat
    decreases requests.len(),
{
    if requests.len() == 0 {
        0
    } else if line_priced(requests[0].0, cards, prices, scope) {
        1 + leading_priced(requests.skip(1), cards, prices, scope)
    } else {
        0
    }
}

/// The summed cost of the first `n` lines.
pub open spec fn running_total(
    requests: Seq<LineRequest>,
    n: nat,
    cards: Seq<CardCatalogEntry>,
    prices: Seq<PrintingPrice>,
    scope: PriceScope,
) -> nat
    decreases n,
{
    if n == 0 {
        0
    } else {
        running_total(requests, (n - 1) as nat, cards, prices, scope) + line_total(
            requests[n - 1].0,
            requests[n - 1].2,
            cards,
            prices,
            scope,
        )
    }
}

/// Why pricing fails, if it does: a repeated catalog identity, a line whose
/// cost overflows, or a running total of the leading priced lines past
/// `u64::MAX`.
pub open spec fn price_error(
    deck: CanonicalDeck,
    cards: Seq<CardCatalogEntry>,
    prices: Seq<PrintingPrice>,
    scope: PriceScope,
) -> Option<PriceError> {
    let requests = deck_line_requests(deck);
    if catalog_has_repeat(cards) {
        Some(PriceError::DuplicateCatalogCard(cards[choose|i: int| first_repeat(cards, i)].stable_id))
    } else if exists|k: int|
        0 <= k < requests.len() && line_overflows(
            (#[trigger] requests[k]).0,
            requests[k].2,
            cards,
            prices,
            scope,
        ) {
        Some(PriceError::CostOverflow)
    } else if running_total(
        requests,
        leading_priced(requests, cards, prices, scope),
        cards,
        prices,
        scope,
    ) > u64::MAX {
        Some(PriceError::CostOverflow)
    } else {
        None
    }
}

/// Whether `cost` is the pricing owed for a validated deck.
pub open spec fn cost_of(
    cost: DeckCost,
    validation: DeckValidation,
    cards: Seq<CardCatalogEntry>,
    snapshot: PriceSnapshot,
    scope: PriceScope,
) -> bool {
    let requests = deck_line_requests(validation.spec_deck());
    let prices = snapshot.spec_prices();
    let lines = cost.lines@;
    &&& cost.deck_id@ == validation.spec_deck_id()
    &&& cost.snapshot_id@ == snapshot.spec_snapshot_id()
    &&& cost.currency@ == scope.currency@
    &&& lines.len() == requests.len()
    &&& forall|k: int|
        0 <= k < lines.len() ==> {
            &&& (#[trigger] lines[k]).card_id@ == requests[k].0
            &&& lines[k].zone == requests[k].1
            &&& lines[k].copies == requests[k].2
            &&& cost_status_of(lines[k].status, requests[k].0, requests[k].2, cards, prices, scope)
        }
    &&& cost.total_cents == if leading_priced(requests, cards, prices, scope) < requests.len() {
        None
    } else {
        Some(running_total(requests, requests.len(), cards, prices, scope) as u64)
    }
}

/// `leading_priced` counts the priced lines before the first unpriced one.
proof fn lemma_leading_priced(
    requests: Seq<LineRequest>,
    m: int,
    cards: Seq<CardCatalogEntry>,
    prices: Seq<PrintingPrice>,
    scope: PriceScope,
)
    requires
        0 <= m <= requests.len(),
        forall|k: int| 0 <= k < m ==> line_priced((#[trigger] requests[k]).0, cards, prices, scope),
        m < requests.len() ==> !line_priced(requests[m].0, cards, prices, scope),
    ensures
        leading_priced(requests, cards, prices, scope) == m,
    decreases requests.len(),
{
    if requests.len() > 0 && m > 0 {
        let rest = requests.skip(1);
        assert forall|k: int| 0 <= k < m - 1 implies line_priced(
            (#[trigger] rest[k]).0,
            cards,
            prices,
            scope,
        ) by {
            assert(rest[k] == requests[k + 1]);
        }
        if m - 1 < rest.len() {
            assert(rest[m - 1] == requests[m]);
        }
        assert(line_priced(requests[0].0, cards, prices, scope));
        lemma_leading_priced(rest, m - 1, cards, prices, scope);
    }
}

/// At least `n` lines lead priced when the first `n` are priced.
proof fn lemma_leading_priced_at_least(
    requests: Seq<LineRequest>,
    n: int,
    cards: Seq<CardCatalogEntry>,
    prices: Seq<PrintingPrice>,
    scope: PriceScope,
)
    requires
        0 <= n <= requests.len(),
        forall|k: int| 0 <= k < n ==> line_priced((#[trigger] requests[k]).0, cards, prices, scope),
    ensures
        leading_priced(requests, cards, prices, scope) >= n,
    decreases requests.len(),
{
    if requests.len() > 0 && n > 0 {
        let rest = requests.skip(1);
        assert forall|k: int| 0 <= k < n - 1 implies line_priced(
            (#[trigger] rest[k]).0,
            cards,
            prices,
            scope,
        ) by {
            assert(rest[k] == requests[k + 1]);
        }
        assert(line_priced(requests[0].0, cards, prices, scope));
        lemma_leading_priced_at_least(rest, n - 1, cards, prices, scope);
    }
}

/// Running totals only grow.
proof fn lemma_running_total_monotone(
    requests: Seq<LineRequest>,
    a: nat,
    b: nat,
    cards: Seq<CardCatalogEntry>,
    prices: Seq<PrintingPrice>,
    scope: PriceScope,
)
    requires
        a <= b,
    ensures
        running_total(requests, a, cards, prices, scope) <= running_total(
            requests,
            b,
            cards,
            prices,
            scope,
        ),
    decreases b - a,
{
    if a < b {
        lemma_running_total_monotone(requests, a, (b - 1) as nat, cards, prices, scope);
    }
}

/// Whether a built line answers its request.
pub open spec fn line_answers(
    line: DeckCostLine,
    request: LineRequest,
    cards: Seq<CardCatalogEntry>,
    prices: Seq<PrintingPrice>,
    scope: PriceScope,
) -> bool {
    &&& line.card_id@ == request.0
    &&& line.zone == request.1
    &&& line.copies == request.2
    &&& cost_status_of(line.status, request.0, request.2, cards, prices, scope)
}

/// Selects deterministic minimum-cost printings and totals exact integer
/// cents. Variant, condition, currency, and source must all exactly match
/// `scope`; market data is never converted or coalesced.
pub fn price_deck(
    validation: &DeckValidation,
    cards: &[CardCatalogEntry],
    snapshot: &PriceSnapshot,
    scope: &PriceScope,
) -> (r: Result<DeckCost, PriceError>)
    ensures
        r is Err <==> price_error(
            validation.spec_deck(),
            cards@,
            snapshot.spec_prices(),
            *scope,
        ) is Some,
        r matches Err(e) ==> price_error(
            validation.spec_deck(),
            cards@,
            snapshot.spec_prices(),
            *scope,
        ) == Some(e),
        r matches Ok(cost) ==> cost_of(cost, *validation, cards@, *snapshot, *scope),
{
    let ghost prices = snapshot.spec_prices();
    let ghost requests = deck_line_requests(validation.deck);
    match find_catalog_repeat(cards) {
        Some(i) => {
            proof {
                let c = choose|j: int| first_repeat(cards@, j);
                lemma_first_repeat_unique(cards@, i as int, c);
            }
            return Err(PriceError::DuplicateCatalogCard(cards[i].stable_id.clone()));
        },
        None => {},
    }
    let deck = &validation.deck;
    assert(requests.len() == 1 + deck.atlas@.len() + deck.spellbook@.len());
    let mut lines: Vec<DeckCostLine> = Vec::new();
    assert(requests[0] == (deck.avatar@, DeckZone::Avatar, 1u32));
    match cost_line(deck.avatar.as_str(), 1, DeckZone::Avatar, cards, snapshot, scope) {
        Ok(line) => {
            lines.push(line);
        },
        Err(e) => {
            assert(line_overflows(requests[0].0, requests[0].2, cards@, prices, *scope));
            return Err(e);
        },
    }
    let mut t: usize = 0;
    while t < deck.atlas.len()
        invariant
            t <= deck.atlas@.len(),
            requests == deck_line_requests(*deck),
            *deck == validation.spec_deck(),
            requests.len() == 1 + deck.atlas@.len() + deck.spellbook@.len(),
            prices == snapshot.spec_prices(),
            !catalog_has_repeat(cards@),
            lines@.len() == 1 + t,
            forall|k: int|
                0 <= k < lines@.len() ==> line_answers(
                    #[trigger] lines@[k],
                    requests[k],
                    cards@,
                    prices,
                    *scope,
                ),
            forall|k: int|
                0 <= k < lines@.len() ==> !line_overflows(
                    (#[trigger] requests[k]).0,
                    requests[k].2,
                    cards@,
                    prices,
                    *scope,
                ),
        decreases deck.atlas@.len() - t,
    {
        let row = &deck.atlas[t];
        assert(requests[1 + t] == (row.card_id@, DeckZone::Atlas, row.copies));
        match cost_line(row.card_id.as_str(), row.copies, DeckZone::Atlas, cards, snapshot, scope) {
            Ok(line) => {
                lines.push(line);
            },
            Err(e) => {
                assert(line_overflows(requests[1 + t].0, requests[1 + t].2, cards@, prices, *scope));
                return Err(e);
            },
        }
        t = t + 1;
    }
    let mut t: usize = 0;
    while t < deck.spellbook.len()
        invariant
            t <= deck.spellbook@.len(),
            requests == deck_line_requests(*deck),
            *deck == validation.spec_deck(),
            requests.len() == 1 + deck.atlas@.len() + deck.spellbook@.len(),
            prices == snapshot.spec_prices(),
            !catalog_has_repeat(cards@),
            lines@.len() == 1 + deck.atlas@.len() + t,
            forall|k: int|
                0 <= k < lines@.len() ==> line_answers(
                    #[trigger] lines@[k],
                    requests[k],
                    cards@,
                    prices,
                    *scope,
                ),
            forall|k: int|
                0 <= k < lines@.len() ==> !line_overflows(
                    (#[trigger] requests[k]).0,
                    requests[k].2,
                    cards@,
                    prices,
                    *scope,
                ),
        decreases deck.spellbook@.len() - t,
    {
        let row = &deck.spellbook[t];
        let ghost at = 1 + deck.atlas@.len() + t;
        assert(requests[at] == (row.card_id@, DeckZone::Spellbook, row.copies));
        match cost_line(
            row.card_id.as_str(),
            row.copies,
            DeckZone::Spellbook,
            cards,
            snapshot,
            scope,
        ) {
            Ok(line) => {
                lines.push(line);
            },
            Err(e) => {
                assert(line_overflows(requests[at].0, requests[at].2, cards@, prices, *scope));
                return Err(e);
            },
        }
        t = t + 1;
    }
    assert(lines@.len() == requests.len());
    let mut total: Option<u64> = Some(0);
    let mut k: usize = 0;
    while k < lines.len()
        invariant_except_break
            total == Some(running_total(requests, k as nat, cards@, prices, *scope) as u64),
        invariant
            k <= lines@.len(),
            lines@.len() == requests.len(),
            forall|j: int|
                0 <= j < lines@.len() ==> line_answers(
                    #[trigger] lines@[j],
                    requests[j],
                    cards@,
                    prices,
                    *scope,
                ),
            forall|j: int| 0 <= j < k ==> line_priced((#[trigger] requests[j]).0, cards@, prices, *scope),
            running_total(requests, k as nat, cards@, prices, *scope) <= u64::MAX,
            !catalog_has_repeat(cards@),
            requests == deck_line_requests(validation.spec_deck()),
            prices == snapshot.spec_prices(),
            forall|j: int|
                0 <= j < requests.len() ==> !line_overflows(
                    (#[trigger] requests[j]).0,
                    requests[j].2,
                    cards@,
                    prices,
                    *scope,
                ),
        ensures
            k <= lines@.len(),
            forall|j: int| 0 <= j < k ==> line_priced((#[trigger] requests[j]).0, cards@, prices, *scope),
            k < lines@.len() ==> !line_priced(requests[k as int].0, cards@, prices, *scope) && total
                is None,
            k == lines@.len() ==> total == Some(
                running_total(requests, k as nat, cards@, prices, *scope) as u64,
            ),
            running_total(requests, k as nat, cards@, prices, *scope) <= u64::MAX,
        decreases lines@.len() - k,
    {
        let line_total_cents = match &lines[k].status {
            DeckCostStatus::Priced { line_total_cents, .. } => *line_total_cents,
            _ => {
                total = None;
                break;
            },
        };
        let sum = match total {
            Some(t) => t.checked_add(line_total_cents),
            None => None,
        };
        match sum {
            Some(s) => {
                total = Some(s);
            },
            None => {
                proof {
                    assert(line_priced(requests[k as int].0, cards@, prices, *scope));
                    lemma_leading_priced_at_least(requests, k + 1, cards@, prices, *scope);
                    lemma_running_total_monotone(
                        requests,
                        (k + 1) as nat,
                        leading_priced(requests, cards@, prices, *scope),
                        cards@,
                        prices,
                        *scope,
                    );
                }
                return Err(PriceError::CostOverflow);
            },
        }
        k = k + 1;
    }
    proof {
        lemma_leading_priced(requests, k as int, cards@, prices, *scope);
    }
    Ok(
        DeckCost {
            deck_id: validation.deck_id.clone(),
            snapshot_id: snapshot.snapshot_id.clone(),
            currency: scope.currency.clone(),
            lines,
            total_cents: total,
        },
    )
}

/// Whether card identities strictly increase in UTF-16 order.
pub open spec fn strictly_ordered(ids: Seq<Seq<char>>) -> bool {
    forall|i: int, j: int| 0 <= i < j < ids.len() ==> key_order(ids[i], ids[j]) == Ordering::Less
}

/// Two strictly ordered identity lists with the same members are equal.
proof fn lemma_strictly_ordered_unique(s1: Seq<Seq<char>>, s2: Seq<Seq<char>>)
    requires
        strictly_ordered(s1),
        strictly_ordered(s2),
        forall|x: Seq<char>| s1.contains(x) <==> s2.contains(x),
    ensures
        s1 == s2,
    decreases s1.len(),
{
    if s1.len() == 0 || s2.len() == 0 {
        if s1.len() > 0 {
            assert(s1.contains(s1[0]));
        }
        if s2.len() > 0 {
            assert(s2.contains(s2[0]));
        }
        assert(s1 =~= s2);
    } else {
        let a = s1[0];
        let b = s2[0];
        assert(s1.contains(a));
        assert(s2.contains(b));
        let j = choose|j: int| 0 <= j < s2.len() && s2[j] == a;
        let i = choose|i: int| 0 <= i < s1.len() && s1[i] == b;
        if j > 0 {
            assert(key_order(b, a) == Ordering::Less);
            if i > 0 {
                assert(key_order(a, b) == Ordering::Less);
            }
            lemma_lex_order_antisymmetric(utf16_units(a), utf16_units(b));
            assert(false);
        }
        let t1 = s1.drop_first();
        let t2 = s2.drop_first();
        assert forall|x: Seq<char>| t1.contains(x) <==> t2.contains(x) by {
            if t1.contains(x) {
                let k = choose|k: int| 0 <= k < t1.len() && t1[k] == x;
                assert(s1[k + 1] == x);
                assert(s1.contains(x));
                assert(key_order(a, x) == Ordering::Less);
                lemma_lex_order_antisymmetric(utf16_units(a), utf16_units(a));
                let m = choose|m: int| 0 <= m < s2.len() && s2[m] == x;
                if m == 0 {
                    assert(x == a);
                    assert(false);
                }
                assert(t2[m - 1] == x);
            }
            if t2.contains(x) {
                let k = choose|k: int| 0 <= k < t2.len() && t2[k] == x;
                assert(s2[k + 1] == x);
                assert(s2.contains(x));
                assert(key_order(b, x) == Ordering::Less);
                lemma_lex_order_antisymmetric(utf16_units(b), utf16_units(b));
                let m = choose|m: int| 0 <= m < s1.len() && s1[m] == x;
                if m == 0 {
                    assert(x == b);
                    assert(false);
                }
                assert(t1[m - 1] == x);
            }
        }
        assert forall|p: int, q: int| 0 <= p < q < t1.len() implies key_order(t1[p], t1[q])
            == Ordering::Less by {
            assert(t1[p] == s1[p + 1]);
            assert(t1[q] == s1[q + 1]);
        }
        assert forall|p: int, q: int| 0 <= p < q < t2.len() implies key_order(t2[p], t2[q])
            == Ordering::Less by {
            assert(t2[p] == s2[p + 1]);
            assert(t2[q] == s2[q + 1]);
        }
        lemma_strictly_ordered_unique(t1, t2);
        assert(s1 =~= seq![a] + t1);
        assert(s2 =~= seq![b] + t2);
    }
}

/// The card identities of counted rows.
pub open spec fn row_ids(rows: Seq<CardCount>) -> Seq<Seq<char>> {
    rows.map_values(|r: CardCount| r.card_id@)
}

/// Canonical rows are determined by the per-card totals.
pub proof fn lemma_canonical_rows_unique(
    rows1: Seq<CardCount>,
    out1: Seq<CardCount>,
    rows2: Seq<CardCount>,
    out2: Seq<CardCount>,
)
    requires
        canonical_rows(rows1, out1),
        canonical_rows(rows2, out2),
        forall|k: Seq<char>| copies_of(rows1, k, rows1.len()) == copies_of(rows2, k, rows2.len()),
    ensures
        out1.len() == out2.len(),
        forall|i: int|
            0 <= i < out1.len() ==> (#[trigger] out1[i]).card_id@ == out2[i].card_id@ && out1[i].copies
                == out2[i].copies,
{
    let ids1 = row_ids(out1);
    let ids2 = row_ids(out2);
    assert forall|i: int, j: int| 0 <= i < j < ids1.len() implies key_order(ids1[i], ids1[j])
        == Ordering::Less by {
        assert(key_order(out1[i].card_id@, out1[j].card_id@) != Ordering::Greater);
        lemma_lex_order_equal(utf16_units(ids1[i]), utf16_units(ids1[j]));
        if key_order(ids1[i], ids1[j]) == Ordering::Equal {
            lemma_utf16_units_injective(ids1[i], ids1[j]);
        }
    }
    assert forall|i: int, j: int| 0 <= i < j < ids2.len() implies key_order(ids2[i], ids2[j])
        == Ordering::Less by {
        assert(key_order(out2[i].card_id@, out2[j].card_id@) != Ordering::Greater);
        lemma_lex_order_equal(utf16_units(ids2[i]), utf16_units(ids2[j]));
        if key_order(ids2[i], ids2[j]) == Ordering::Equal {
            lemma_utf16_units_injective(ids2[i], ids2[j]);
        }
    }
    assert forall|x: Seq<char>| ids1.contains(x) <==> ids2.contains(x) by {
        if ids1.contains(x) {
            let i = choose|i: int| 0 <= i < ids1.len() && ids1[i] == x;
            assert(out1[i].copies > 0);
            assert(copies_of(rows2, x, rows2.len()) > 0);
            let a = choose|a: int| 0 <= a < out2.len() && (#[trigger] out2[a]).card_id@ == x;
            assert(ids2[a] == x);
        }
        if ids2.contains(x) {
            let i = choose|i: int| 0 <= i < ids2.len() && ids2[i] == x;
            assert(out2[i].copies > 0);
            assert(copies_of(rows1, x, rows1.len()) > 0);
            let a = choose|a: int| 0 <= a < out1.len() && (#[trigger] out1[a]).card_id@ == x;
            assert(ids1[a] == x);
        }
    }
    lemma_strictly_ordered_unique(ids1, ids2);
    assert forall|i: int| 0 <= i < out1.len() implies (#[trigger] out1[i]).card_id@
        == out2[i].card_id@ && out1[i].copies == out2[i].copies by {
        assert(ids1[i] == ids2[i]);
    }
}

/// The canonical JSON text of rows depends only on their identities and counts.
proof fn lemma_counts_text_views(r1: Seq<CardCount>, r2: Seq<CardCount>, n: nat)
    requires
        n <= r1.len(),
        r1.len() == r2.len(),
        forall|i: int|
            0 <= i < r1.len() ==> (#[trigger] r1[i]).card_id@ == r2[i].card_id@ && r1[i].copies
                == r2[i].copies,
    ensures
        counts_text(r1, n) == counts_text(r2, n),
    decreases n,
{
    if n > 0 {
        lemma_counts_text_views(r1, r2, (n - 1) as nat);
        assert(r1[n - 1].card_id@ == r2[n - 1].card_id@);
        assert(r1[0].card_id@ == r2[0].card_id@);
    }
}

/// Whether two row lists hold the same cards with the same copies, row by row.
pub open spec fn same_rows(a: Seq<CardCount>, b: Seq<CardCount>) -> bool {
    &&& a.len() == b.len()
    &&& forall|i: int|
        0 <= i < a.len() ==> (#[trigger] a[i]).card_id@ == b[i].card_id@ && a[i].copies
            == b[i].copies
}

/// A deck's canonical form and identity depend only on its avatar and the
/// total copies of each card in each zone: splitting, merging, or reordering
/// rows of a candidate changes neither the canonical deck nor its identity.
pub proof fn lemma_deck_identity_ignores_row_layout(
    v1: DeckValidation,
    c1: CandidateDeck,
    cards1: Seq<CardCatalogEntry>,
    v2: DeckValidation,
    c2: CandidateDeck,
    cards2: Seq<CardCatalogEntry>,
    format: FormatContext,
)
    requires
        validation_of(v1, c1, cards1, format),
        validation_of(v2, c2, cards2, format),
        c1.avatar@ == c2.avatar@,
        forall|k: Seq<char>|
            copies_of(c1.atlas@, k, c1.atlas@.len()) == copies_of(c2.atlas@, k, c2.atlas@.len()),
        forall|k: Seq<char>|
            copies_of(c1.spellbook@, k, c1.spellbook@.len()) == copies_of(
                c2.spellbook@,
                k,
                c2.spellbook@.len(),
            ),
    ensures
        v1.spec_deck().avatar@ == v2.spec_deck().avatar@,
        same_rows(v1.spec_deck().atlas@, v2.spec_deck().atlas@),
        same_rows(v1.spec_deck().spellbook@, v2.spec_deck().spellbook@),
        v1.spec_deck_id() == v2.spec_deck_id(),
{
    let d1 = v1.spec_deck();
    let d2 = v2.spec_deck();
    lemma_canonical_rows_unique(c1.atlas@, d1.atlas@, c2.atlas@, d2.atlas@);
    lemma_canonical_rows_unique(c1.spellbook@, d1.spellbook@, c2.spellbook@, d2.spellbook@);
    lemma_counts_text_views(d1.atlas@, d2.atlas@, d1.atlas@.len());
    lemma_counts_text_views(d1.spellbook@, d2.spellbook@, d1.spellbook@.len());
    assert(deck_text(d1, format.spec_stable_id()) == deck_text(d2, format.spec_stable_id()));
}

} // verus!
