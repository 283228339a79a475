//! Deck identities of the deck lists that a game manifest declares.

use vstd::prelude::*;

use crate::canonical::IdentityHash;
use crate::deck::{
    copies_of, deck_error, lemma_deck_identity_ignores_row_layout, validate_deck, validation_of,
    CandidateDeck, CardCatalogEntry, CardCount, DeckError, DeckValidation, FormatContext,
};
use crate::order::{
    lemma_text_irreflexive, lemma_text_order_total, lemma_text_precedes_transitive, precedes,
    text_precedes,
};
use crate::text::same_text;

verus! {

/// How often `id` occurs among the first `n` identities.
pub open spec fn occurrences(ids: Seq<String>, id: Seq<char>, n: nat) -> nat
    decreases n,
{
    if n == 0 || n > ids.len() {
        0
    } else {
        occurrences(ids, id, (n - 1) as nat) + if ids[n - 1]@ == id {
            1nat
        } else {
            0nat
        }
    }
}

/// Whether `rows` count the first `n` identities: one row per identity that
/// occurs, in code point order of identities, each holding how often it occurs.
pub open spec fn counts_rows(ids: Seq<String>, n: nat, rows: Seq<CardCount>) -> bool {
    &&& forall|a: int, b: int|
        0 <= a < b < rows.len() ==> text_precedes(rows[a].card_id@, rows[b].card_id@)
    &&& forall|a: int|
        0 <= a < rows.len() ==> (#[trigger] rows[a]).copies > 0 && rows[a].copies == occurrences(
            ids,
            rows[a].card_id@,
            n,
        )
    &&& forall|k: Seq<char>|
        #[trigger] occurrences(ids, k, n) > 0 ==> exists|a: int|
            0 <= a < rows.len() && (#[trigger] rows[a]).card_id@ == k
}

/// Whether some identity occurs more than `u32::MAX` times.
pub open spec fn copies_overflow(ids: Seq<String>) -> bool {
    exists|k: Seq<char>| #[trigger] occurrences(ids, k, ids.len()) > u32::MAX
}

/// Occurrences never decrease as more identities are counted.
proof fn lemma_occurrences_monotone(ids: Seq<String>, id: Seq<char>, m: nat, n: nat)
    requires
        m <= n <= ids.len(),
    ensures
        occurrences(ids, id, m) <= occurrences(ids, id, n),
    decreases n - m,
{
    if m < n {
        lemma_occurrences_monotone(ids, id, m, (n - 1) as nat);
    }
}

/// The row of an identity in ordered rows is the one that names it.
proof fn lemma_row_unique(rows: Seq<CardCount>, a: int, b: int)
    requires
        forall|x: int, y: int|
            0 <= x < y < rows.len() ==> text_precedes(rows[x].card_id@, rows[y].card_id@),
        0 <= a < rows.len(),
        0 <= b < rows.len(),
        rows[a].card_id@ == rows[b].card_id@,
    ensures
        a == b,
{
    lemma_text_irreflexive(rows[a].card_id@);
    if a < b {
        assert(text_precedes(rows[a].card_id@, rows[b].card_id@));
    } else if b < a {
        assert(text_precedes(rows[b].card_id@, rows[a].card_id@));
    }
}

/// Counts card identities into one row per card, in code point order of
/// identities; fails when a card occurs more than `u32::MAX` times.
pub fn counted_cards(card_ids: Vec<String>) -> (r: Result<Vec<CardCount>, String>)
    ensures
        r is Err <==> copies_overflow(card_ids@),
        r matches Err(e) ==> e@ == "manifest deck copy count overflowed"@,
        r matches Ok(rows) ==> counts_rows(card_ids@, card_ids@.len(), rows@),
{
    let ghost ids = card_ids@;
    let mut rows: Vec<CardCount> = Vec::new();
    let mut i: usize = 0;
    while i < card_ids.len()
        invariant
            ids == card_ids@,
            i <= ids.len(),
            counts_rows(ids, i as nat, rows@),
        decreases ids.len() - i,
    {
        let id = card_ids[i].as_str();
        let ghost before = rows@;
        let ghost n = i as nat;
        assert forall|x: Seq<char>|
            #[trigger] occurrences(ids, x, n + 1) == occurrences(ids, x, n) + if ids[i as int]@
                == x {
                1nat
            } else {
                0nat
            } by {}
        let mut j: usize = 0;
        while j < rows.len()
            invariant
                j <= rows@.len(),
                rows@ == before,
                forall|a: int| 0 <= a < j ==> text_precedes((#[trigger] rows@[a]).card_id@, id@),
            ensures
                j <= rows@.len(),
                rows@ == before,
                forall|a: int| 0 <= a < j ==> text_precedes((#[trigger] rows@[a]).card_id@, id@),
                j < rows@.len() ==> !text_precedes(rows@[j as int].card_id@, id@),
            decreases rows@.len() - j,
        {
            if !precedes(rows[j].card_id.as_str(), id) {
                break;
            }
            j = j + 1;
        }
        if j < rows.len() && same_text(rows[j].card_id.as_str(), id) {
            let copies = match rows[j].copies.checked_add(1) {
                Some(c) => c,
                None => {
                    proof {
                        lemma_occurrences_monotone(ids, id@, n + 1, ids.len());
                        assert(occurrences(ids, id@, ids.len()) > u32::MAX);
                    }
                    return Err("manifest deck copy count overflowed".to_owned());
                },
            };
            let updated = CardCount { card_id: rows[j].card_id.clone(), copies };
            rows.set(j, updated);
            proof {
                let after = rows@;
                assert forall|a: int, b: int| 0 <= a < b < after.len() implies text_precedes(
                    after[a].card_id@,
                    after[b].card_id@,
                ) by {
                    assert(after[a].card_id@ == before[a].card_id@);
                    assert(after[b].card_id@ == before[b].card_id@);
                }
                assert forall|a: int| 0 <= a < after.len() implies (#[trigger] after[a]).copies > 0
                    && after[a].copies == occurrences(ids, after[a].card_id@, n + 1) by {
                    if a != j {
                        assert(after[a] == before[a]);
                        if before[a].card_id@ == id@ {
                            lemma_row_unique(before, a, j as int);
                        }
                    }
                }
                assert forall|k: Seq<char>| #[trigger] occurrences(ids, k, n + 1) > 0 implies exists|
                    a: int,
                | 0 <= a < after.len() && (#[trigger] after[a]).card_id@ == k by {
                    if occurrences(ids, k, n) > 0 {
                        let a = choose|a: int| 0 <= a < before.len() && (#[trigger] before[a]).card_id@ == k;
                        assert(after[a].card_id@ == k);
                    } else {
                        assert(after[j as int].card_id@ == k);
                    }
                }
            }
        } else {
            proof {
                if occurrences(ids, id@, n) > 0 {
                    let k = choose|k: int| 0 <= k < before.len() && (#[trigger] before[k]).card_id@ == id@;
                    if k < j {
                        assert(text_precedes(before[k].card_id@, id@));
                        lemma_text_irreflexive(id@);
                    } else if k > j {
                        assert(text_precedes(before[j as int].card_id@, before[k].card_id@));
                        lemma_text_order_total(before[j as int].card_id@, id@);
                        lemma_text_irreflexive(id@);
                    }
                    assert(false);
                }
                if j < before.len() {
                    if !text_precedes(id@, before[j as int].card_id@) {
                        lemma_text_order_total(before[j as int].card_id@, id@);
                    }
                }
            }
            let entry = CardCount { card_id: card_ids[i].clone(), copies: 1 };
            rows.insert(j, entry);
            proof {
                let after = rows@;
                assert forall|a: int, b: int| 0 <= a < b < after.len() implies text_precedes(
                    after[a].card_id@,
                    after[b].card_id@,
                ) by {
                    if b < j {
                        assert(after[a] == before[a]);
                        assert(after[b] == before[b]);
                    } else if a > j {
                        assert(after[a] == before[a - 1]);
                        assert(after[b] == before[b - 1]);
                    } else if b == j {
                        assert(after[a] == before[a]);
                    } else if a == j {
                        assert(after[b] == before[b - 1]);
                        if b - 1 > j {
                            assert(text_precedes(before[j as int].card_id@, before[b - 1].card_id@));
                            lemma_text_precedes_transitive(
                                id@,
                                before[j as int].card_id@,
                                before[b - 1].card_id@,
                            );
                        }
                    } else {
                        assert(after[a] == before[a]);
                        assert(after[b] == before[b - 1]);
                    }
                }
                assert forall|a: int| 0 <= a < after.len() implies (#[trigger] after[a]).copies > 0
                    && after[a].copies == occurrences(ids, after[a].card_id@, n + 1) by {
                    if a < j {
                        assert(after[a] == before[a]);
                        assert(text_precedes(before[a].card_id@, id@));
                        if before[a].card_id@ == id@ {
                            lemma_text_irreflexive(id@);
                        }
                    } else if a > j {
                        assert(after[a] == before[a - 1]);
                        if before[a - 1].card_id@ == id@ {
                            assert(occurrences(ids, id@, n) > 0);
                        }
                    }
                }
                assert forall|k: Seq<char>| #[trigger] occurrences(ids, k, n + 1) > 0 implies exists|
                    a: int,
                | 0 <= a < after.len() && (#[trigger] after[a]).card_id@ == k by {
                    if occurrences(ids, k, n) > 0 {
                        let a = choose|a: int| 0 <= a < before.len() && (#[trigger] before[a]).card_id@ == k;
                        if a < j {
                            assert(after[a] == before[a]);
                        } else {
                            assert(after[a + 1] == before[a]);
                        }
                    } else {
                        assert(after[j as int].card_id@ == k);
                    }
                }
            }
        }
        i = i + 1;
    }
    proof {
        assert forall|k: Seq<char>| !(#[trigger] occurrences(ids, k, ids.len()) > u32::MAX) by {
            if occurrences(ids, k, ids.len()) > 0 {
                let a = choose|a: int| 0 <= a < rows@.len() && (#[trigger] rows@[a]).card_id@ == k;
                assert(rows@[a].copies == occurrences(ids, k, ids.len()));
            }
        }
    }
    Ok(rows)
}

/// One deck as a manifest lists it: card identities, one entry per copy.
#[derive(Clone, Debug, Eq, PartialEq)]
pub struct ManifestDeck {
    /// Atlas card identities, repeated per copy.
    pub atlas: Vec<String>,
    /// The avatar's card identity.
    pub avatar: String,
    /// Spellbook card identities, repeated per copy.
    pub spellbook: Vec<String>,
}

/// Why a manifest deck has no identity.
#[derive(Debug, Eq, PartialEq)]
pub enum ManifestDeckError {
    /// A card occurs more than `u32::MAX` times in one list.
    CopyCountOverflow,
    /// Deck validation refused the counted deck.
    Deck(DeckError),
}

/// Whether `candidate` is the counted form of a manifest deck.
pub open spec fn counted_deck(deck: ManifestDeck, candidate: CandidateDeck) -> bool {
    &&& candidate.avatar@ == deck.avatar@
    &&& counts_rows(deck.atlas@, deck.atlas@.len(), candidate.atlas@)
    &&& counts_rows(deck.spellbook@, deck.spellbook@.len(), candidate.spellbook@)
}

/// Counts a manifest deck's card lists and returns the identity of the
/// deck under the constructed format.
pub fn manifest_deck_id(deck: ManifestDeck, catalog: &[CardCatalogEntry]) -> (r: Result<
    IdentityHash,
    ManifestDeckError,
>)
    ensures
        copies_overflow(deck.atlas@) || copies_overflow(deck.spellbook@) ==> r == Err::<
            IdentityHash,
            ManifestDeckError,
        >(ManifestDeckError::CopyCountOverflow),
        !copies_overflow(deck.atlas@) && !copies_overflow(deck.spellbook@) ==> exists|
            candidate: CandidateDeck,
        |
            #![trigger counted_deck(deck, candidate)]
            counted_deck(deck, candidate) && match r {
                Ok(id) => deck_error(candidate, catalog@) is None && exists|v: DeckValidation|
                    validation_of(v, candidate, catalog@, FormatContext::spec_constructed())
                        && id@ == v.spec_deck_id(),
                Err(ManifestDeckError::Deck(e)) => deck_error(candidate, catalog@) == Some(e),
                Err(ManifestDeckError::CopyCountOverflow) => false,
            },
{
    let ghost listed = deck;
    let atlas = match counted_cards(deck.atlas) {
        Ok(rows) => rows,
        Err(_) => {
            return Err(ManifestDeckError::CopyCountOverflow);
        },
    };
    let spellbook = match counted_cards(deck.spellbook) {
        Ok(rows) => rows,
        Err(_) => {
            return Err(ManifestDeckError::CopyCountOverflow);
        },
    };
    let candidate = CandidateDeck { avatar: deck.avatar, atlas, spellbook };
    let ghost counted = candidate;
    assert(counted_deck(listed, counted));
    let format = FormatContext::constructed();
    match validate_deck(candidate, catalog, &format) {
        Ok(validation) => {
            let id = validation.deck_id().clone();
            Ok(id)
        },
        Err(e) => Err(ManifestDeckError::Deck(e)),
    }
}

/// Counted rows hold, for each identity, the copies its one row holds, or
/// none.
proof fn lemma_copies_of_counted(ids: Seq<String>, n: nat, rows: Seq<CardCount>, k: Seq<char>, m: nat)
    requires
        counts_rows(ids, n, rows),
        m <= rows.len(),
    ensures
        (forall|a: int| 0 <= a < m ==> rows[a].card_id@ != k) ==> copies_of(rows, k, m) == 0,
        forall|a: int|
            0 <= a < m && rows[a].card_id@ == k ==> copies_of(rows, k, m) == rows[a].copies,
    decreases m,
{
    if m > 0 {
        lemma_copies_of_counted(ids, n, rows, k, (m - 1) as nat);
        if rows[m - 1].card_id@ == k {
            assert forall|a: int| 0 <= a < m - 1 implies rows[a].card_id@ != k by {
                if rows[a].card_id@ == k {
                    lemma_row_unique(rows, a, m - 1);
                }
            }
        }
    }
}

/// Counted rows hold, for each identity, as many copies as it occurs.
proof fn lemma_counted_copies(ids: Seq<String>, rows: Seq<CardCount>, k: Seq<char>)
    requires
        counts_rows(ids, ids.len(), rows),
    ensures
        copies_of(rows, k, rows.len()) == occurrences(ids, k, ids.len()),
{
    lemma_copies_of_counted(ids, ids.len(), rows, k, rows.len());
    if exists|a: int| 0 <= a < rows.len() && (#[trigger] rows[a]).card_id@ == k {
        let a = choose|a: int| 0 <= a < rows.len() && (#[trigger] rows[a]).card_id@ == k;
        assert(rows[a].copies == occurrences(ids, k, ids.len()));
    } else if occurrences(ids, k, ids.len()) > 0 {
        assert(exists|a: int| 0 <= a < rows.len() && (#[trigger] rows[a]).card_id@ == k);
    }
}

/// A manifest deck's identity does not depend on the order in which its
/// lists name cards: decks with the same avatar that name every card equally
/// often in each list validate to the same identity.
pub proof fn lemma_manifest_deck_identity_ignores_list_order(
    d1: ManifestDeck,
    c1: CandidateDeck,
    v1: DeckValidation,
    cards1: Seq<CardCatalogEntry>,
    d2: ManifestDeck,
    c2: CandidateDeck,
    v2: DeckValidation,
    cards2: Seq<CardCatalogEntry>,
    format: FormatContext,
)
    requires
        counted_deck(d1, c1),
        counted_deck(d2, c2),
        validation_of(v1, c1, cards1, format),
        validation_of(v2, c2, cards2, format),
        d1.avatar@ == d2.avatar@,
        forall|k: Seq<char>|
            occurrences(d1.atlas@, k, d1.atlas@.len()) == occurrences(d2.atlas@, k, d2.atlas@.len()),
        forall|k: Seq<char>|
            occurrences(d1.spellbook@, k, d1.spellbook@.len()) == occurrences(
                d2.spellbook@,
                k,
                d2.spellbook@.len(),
            ),
    ensures
        v1.spec_deck_id() == v2.spec_deck_id(),
{
    assert forall|k: Seq<char>|
        copies_of(c1.atlas@, k, c1.atlas@.len()) == copies_of(c2.atlas@, k, c2.atlas@.len()) by {
        lemma_counted_copies(d1.atlas@, c1.atlas@, k);
        lemma_counted_copies(d2.atlas@, c2.atlas@, k);
    }
    assert forall|k: Seq<char>|
        copies_of(c1.spellbook@, k, c1.spellbook@.len()) == copies_of(
            c2.spellbook@,
            k,
            c2.spellbook@.len(),
        ) by {
        lemma_counted_copies(d1.spellbook@, c1.spellbook@, k);
        lemma_counted_copies(d2.spellbook@, c2.spellbook@, k);
    }
    lemma_deck_identity_ignores_row_layout(v1, c1, cards1, v2, c2, cards2, format);
}

} // verus!
