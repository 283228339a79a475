use sorcery_engine::deck::{
    validate_deck, CandidateDeck, CardCatalogEntry, CardCount, CardType, DeckError,
    FormatContext, OfficialCardMapping,
};
use sorcery_engine::manifest_deck::{counted_cards, manifest_deck_id, ManifestDeck, ManifestDeckError};

fn ids(values: &[&str]) -> Vec<String> {
    values.iter().map(|value| (*value).to_owned()).collect()
}

fn count(card_id: &str, copies: u32) -> CardCount {
    CardCount {
        card_id: card_id.to_owned(),
        copies,
    }
}

fn card(stable_id: &str, card_type: CardType) -> CardCatalogEntry {
    CardCatalogEntry {
        stable_id: stable_id.to_owned(),
        card_type,
        rarity: None,
        engine_supported: true,
        official_mapping: OfficialCardMapping::Unavailable,
        token: false,
    }
}

fn catalog() -> Vec<CardCatalogEntry> {
    vec![
        card("avatar", CardType::Avatar),
        card("site-a", CardType::Site),
        card("site-b", CardType::Site),
        card("spell", CardType::Magic),
    ]
}

#[test]
fn card_lists_are_counted_in_code_point_order() {
    assert_eq!(counted_cards(vec![]).expect("empty"), vec![]);
    assert_eq!(
        counted_cards(ids(&["site-b", "site-a", "site-b", "site-b"])).expect("counted"),
        vec![count("site-a", 1), count("site-b", 3)]
    );
    assert_eq!(
        counted_cards(ids(&["\u{1F600}", "\u{FF5E}", "Z", "a"])).expect("counted"),
        vec![
            count("Z", 1),
            count("a", 1),
            count("\u{FF5E}", 1),
            count("\u{1F600}", 1)
        ]
    );
}

#[test]
fn manifest_deck_identity_is_the_validated_deck_identity() {
    let deck = ManifestDeck {
        atlas: ids(&["site-b", "site-a", "site-b"]),
        avatar: "avatar".to_owned(),
        spellbook: ids(&["spell", "spell"]),
    };
    let reordered = ManifestDeck {
        atlas: ids(&["site-b", "site-b", "site-a"]),
        avatar: "avatar".to_owned(),
        spellbook: ids(&["spell", "spell"]),
    };
    let id = manifest_deck_id(deck, &catalog()).expect("identity");
    assert_eq!(manifest_deck_id(reordered, &catalog()).expect("identity"), id);
    let expected = validate_deck(
        CandidateDeck {
            avatar: "avatar".to_owned(),
            atlas: vec![count("site-a", 1), count("site-b", 2)],
            spellbook: vec![count("spell", 2)],
        },
        &catalog(),
        &FormatContext::constructed(),
    )
    .expect("validation");
    assert_eq!(&id, expected.deck_id());
    let other = ManifestDeck {
        atlas: ids(&["site-a"]),
        avatar: "avatar".to_owned(),
        spellbook: ids(&["spell"]),
    };
    assert_ne!(manifest_deck_id(other, &catalog()).expect("identity"), id);
}

#[test]
fn manifest_deck_identity_reports_catalog_errors() {
    let deck = ManifestDeck {
        atlas: ids(&["site-a"]),
        avatar: "avatar".to_owned(),
        spellbook: vec![],
    };
    let mut repeated = catalog();
    repeated.push(card("site-a", CardType::Site));
    assert_eq!(
        manifest_deck_id(deck, &repeated).unwrap_err(),
        ManifestDeckError::Deck(DeckError::DuplicateCatalogCard("site-a".to_owned()))
    );
}
