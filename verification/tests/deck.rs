use sorcery_engine::deck::{
    price_deck, validate_deck, CandidateDeck, CardCatalogEntry, CardCount, CardType,
    DeckCostStatus, DeckDiagnostic, DeckError, DeckZone, FormatContext, OfficialCardMapping,
    PriceError, PriceKey, PriceScope, PriceSnapshot, PriceUnavailableReason, PrintingPrice,
    Rarity,
};

fn card(stable_id: &str, card_type: CardType, rarity: Option<Rarity>) -> CardCatalogEntry {
    CardCatalogEntry {
        stable_id: stable_id.to_owned(),
        card_type,
        rarity,
        engine_supported: true,
        official_mapping: OfficialCardMapping::Unavailable,
        token: false,
    }
}

fn count(card_id: &str, copies: u32) -> CardCount {
    CardCount {
        card_id: card_id.to_owned(),
        copies,
    }
}

fn catalog() -> Vec<CardCatalogEntry> {
    vec![
        card("avatar", CardType::Avatar, Some(Rarity::Unique)),
        card("site-b", CardType::Site, Some(Rarity::Ordinary)),
        card("site-a", CardType::Site, Some(Rarity::Ordinary)),
        card("spell", CardType::Magic, Some(Rarity::Elite)),
    ]
}

#[test]
fn rows_are_merged_and_sorted_with_diagnostics_in_order() {
    let candidate = CandidateDeck {
        avatar: "avatar".to_owned(),
        atlas: vec![count("site-b", 2), count("site-a", 1), count("site-b", 1)],
        spellbook: vec![count("spell", 3), count("ghost", 0)],
    };
    let validation =
        validate_deck(candidate, &catalog(), &FormatContext::constructed()).expect("validation");
    assert_eq!(
        validation.deck().atlas,
        vec![count("site-a", 1), count("site-b", 3)]
    );
    assert_eq!(validation.deck().spellbook, vec![count("spell", 3)]);
    assert!(!validation.format_legal());
    assert!(!validation.engine_supported());
    assert!(!validation.ranked_eligible());
    let mut sorted = validation.diagnostics().to_vec();
    sorted.sort();
    assert_eq!(validation.diagnostics(), sorted.as_slice());
    assert!(validation.diagnostics().contains(&DeckDiagnostic::DuplicateCard {
        card_id: "site-b".to_owned(),
        zone: DeckZone::Atlas,
    }));
    assert!(validation.diagnostics().contains(&DeckDiagnostic::ZeroCopies {
        card_id: "ghost".to_owned(),
        zone: DeckZone::Spellbook,
    }));
    assert!(validation
        .diagnostics()
        .contains(&DeckDiagnostic::CopyLimitExceeded {
            actual: 3,
            card_id: "spell".to_owned(),
            limit: 2,
            rarity: Rarity::Elite,
        }));
    assert!(validation.diagnostics().contains(&DeckDiagnostic::AtlasMinimum {
        actual: 4,
        required: 30,
    }));
    assert!(!validation
        .diagnostics()
        .iter()
        .any(|diagnostic| matches!(diagnostic, DeckDiagnostic::EngineZoneMinimum { .. })));
}

#[test]
fn deck_identity_ignores_row_order_and_splits() {
    let first = CandidateDeck {
        avatar: "avatar".to_owned(),
        atlas: vec![count("site-a", 1), count("site-b", 3)],
        spellbook: vec![count("spell", 2)],
    };
    let second = CandidateDeck {
        avatar: "avatar".to_owned(),
        atlas: vec![count("site-b", 1), count("site-a", 1), count("site-b", 2)],
        spellbook: vec![count("spell", 1), count("spell", 1)],
    };
    let format = FormatContext::constructed();
    let a = validate_deck(first, &catalog(), &format).expect("first");
    let b = validate_deck(second, &catalog(), &format).expect("second");
    assert_eq!(a.deck(), b.deck());
    assert_eq!(a.deck_id(), b.deck_id());
}

#[test]
fn catalog_duplicates_and_overflow_are_errors() {
    let mut duplicated = catalog();
    duplicated.push(card("spell", CardType::Magic, None));
    let candidate = CandidateDeck {
        avatar: "avatar".to_owned(),
        atlas: vec![count("site-a", 1)],
        spellbook: vec![count("spell", 1)],
    };
    assert_eq!(
        validate_deck(candidate.clone(), &duplicated, &FormatContext::constructed()),
        Err(DeckError::DuplicateCatalogCard("spell".to_owned()))
    );
    let overflow = CandidateDeck {
        avatar: "avatar".to_owned(),
        atlas: vec![count("site-a", u32::MAX), count("site-a", 1)],
        spellbook: vec![],
    };
    assert_eq!(
        validate_deck(overflow, &catalog(), &FormatContext::constructed()),
        Err(DeckError::CopyCountOverflow {
            card_id: "site-a".to_owned(),
            zone: DeckZone::Atlas,
        })
    );
    let zone_overflow = CandidateDeck {
        avatar: "avatar".to_owned(),
        atlas: vec![count("site-a", u32::MAX), count("site-b", 1)],
        spellbook: vec![],
    };
    assert_eq!(
        validate_deck(zone_overflow, &catalog(), &FormatContext::constructed()),
        Err(DeckError::ZoneCountOverflow(DeckZone::Atlas))
    );
}

#[test]
fn unknown_and_misplaced_cards_are_diagnosed() {
    let candidate = CandidateDeck {
        avatar: "spell".to_owned(),
        atlas: vec![count("missing", 1)],
        spellbook: vec![count("site-a", 1)],
    };
    let validation =
        validate_deck(candidate, &catalog(), &FormatContext::constructed()).expect("validation");
    let diagnostics = validation.diagnostics();
    assert!(diagnostics.contains(&DeckDiagnostic::WrongCardType {
        actual: CardType::Magic,
        card_id: "spell".to_owned(),
        zone: DeckZone::Avatar,
    }));
    assert!(diagnostics.contains(&DeckDiagnostic::UnknownCard {
        card_id: "missing".to_owned(),
        zone: DeckZone::Atlas,
    }));
    assert!(diagnostics.contains(&DeckDiagnostic::WrongCardType {
        actual: CardType::Site,
        card_id: "site-a".to_owned(),
        zone: DeckZone::Spellbook,
    }));
}

#[test]
fn the_constructed_format_has_its_published_limits() {
    let format = FormatContext::constructed();
    assert_eq!(format.stable_id(), "format:modeled-constructed-v1");
    assert_eq!(format.atlas_minimum(), 30);
    assert_eq!(format.avatar_count(), 1);
    assert_eq!(format.spellbook_minimum(), 60);
    assert_eq!(format.copy_limit(Rarity::Ordinary), 4);
    assert_eq!(format.copy_limit(Rarity::Unique), 1);
}

fn price(official: &str, printing: &str, currency: &str, cents: u64) -> PrintingPrice {
    PrintingPrice {
        key: PriceKey {
            official_card_id: official.to_owned(),
            printing_id: printing.to_owned(),
            variant: "standard".to_owned(),
            condition: "near-mint".to_owned(),
            currency: currency.to_owned(),
            source: "local".to_owned(),
        },
        unit_price_cents: cents,
    }
}

fn usd_scope() -> PriceScope {
    PriceScope {
        variant: "standard".to_owned(),
        condition: "near-mint".to_owned(),
        currency: "USD".to_owned(),
        source: "local".to_owned(),
    }
}

#[test]
fn snapshots_reject_blank_identities_and_repeated_keys() {
    assert_eq!(
        PriceSnapshot::new(" ".to_owned(), vec![]),
        Err(PriceError::EmptySnapshotId)
    );
    assert_eq!(
        PriceSnapshot::new("snap".to_owned(), vec![price("a", " ", "USD", 1)]),
        Err(PriceError::EmptyKeyField("printingId"))
    );
    let repeated = PriceSnapshot::new(
        "snap".to_owned(),
        vec![price("a", "p1", "USD", 1), price("a", "p1", "USD", 2)],
    );
    assert_eq!(
        repeated,
        Err(PriceError::DuplicatePriceKey(Box::new(price("a", "p1", "USD", 2).key)))
    );
    let snapshot = PriceSnapshot::new("snap".to_owned(), vec![price("a", "p1", "USD", 1)])
        .expect("snapshot");
    assert_eq!(snapshot.snapshot_id(), "snap");
}

#[test]
fn pricing_selects_the_cheapest_printing_and_totals_exactly() {
    let mut cards = catalog();
    for entry in cards.iter_mut() {
        entry.official_mapping = OfficialCardMapping::Exact(format!("official-{}", entry.stable_id));
    }
    cards[3].official_mapping = OfficialCardMapping::Ambiguous(vec![
        "official-spell-b".to_owned(),
        "official-spell-a".to_owned(),
        "official-spell-b".to_owned(),
    ]);
    let candidate = CandidateDeck {
        avatar: "avatar".to_owned(),
        atlas: vec![count("site-a", 2)],
        spellbook: vec![count("spell", 1)],
    };
    let validation =
        validate_deck(candidate, &cards, &FormatContext::constructed()).expect("validation");
    let snapshot = PriceSnapshot::new(
        "snap".to_owned(),
        vec![
            price("official-avatar", "p2", "USD", 500),
            price("official-avatar", "p1", "USD", 500),
            price("official-avatar", "p3", "EUR", 1),
            price("official-site-a", "p1", "USD", 25),
            price("official-site-a", "p2", "USD", 30),
        ],
    )
    .expect("snapshot");
    let cost = price_deck(&validation, &cards, &snapshot, &usd_scope()).expect("priced");
    assert_eq!(cost.lines.len(), 3);
    assert_eq!(cost.snapshot_id, "snap");
    assert_eq!(cost.currency, "USD");
    assert_eq!(&cost.deck_id, validation.deck_id());
    let DeckCostStatus::Priced {
        key,
        unit_price_cents,
        line_total_cents,
    } = &cost.lines[0].status
    else {
        panic!("avatar must be priced");
    };
    assert_eq!(key.printing_id, "p1");
    assert_eq!((*unit_price_cents, *line_total_cents), (500, 500));
    let DeckCostStatus::Priced {
        line_total_cents, ..
    } = &cost.lines[1].status
    else {
        panic!("site must be priced");
    };
    assert_eq!(*line_total_cents, 50);
    assert_eq!(
        cost.lines[2].status,
        DeckCostStatus::AmbiguousMapping {
            official_card_ids: vec!["official-spell-a".to_owned(), "official-spell-b".to_owned()]
        }
    );
    assert_eq!(cost.total_cents, None);

    cards[3].official_mapping = OfficialCardMapping::Unavailable;
    let cost = price_deck(&validation, &cards, &snapshot, &usd_scope()).expect("priced");
    assert_eq!(
        cost.lines[2].status,
        DeckCostStatus::Unavailable {
            reason: PriceUnavailableReason::OfficialMappingUnavailable
        }
    );

    cards[3].official_mapping = OfficialCardMapping::Exact("official-spell".to_owned());
    let priced_snapshot = PriceSnapshot::new(
        "snap".to_owned(),
        vec![
            price("official-avatar", "p1", "USD", 500),
            price("official-site-a", "p1", "USD", 25),
            price("official-spell", "p1", "USD", 7),
        ],
    )
    .expect("snapshot");
    let cost = price_deck(&validation, &cards, &priced_snapshot, &usd_scope()).expect("priced");
    assert_eq!(cost.total_cents, Some(500 + 50 + 7));
}

#[test]
fn pricing_overflow_is_an_error() {
    let mut cards = catalog();
    for entry in cards.iter_mut() {
        entry.official_mapping = OfficialCardMapping::Exact(format!("official-{}", entry.stable_id));
    }
    let candidate = CandidateDeck {
        avatar: "avatar".to_owned(),
        atlas: vec![count("site-a", 3)],
        spellbook: vec![],
    };
    let validation =
        validate_deck(candidate, &cards, &FormatContext::constructed()).expect("validation");
    let snapshot = PriceSnapshot::new(
        "snap".to_owned(),
        vec![price("official-site-a", "p1", "USD", u64::MAX / 2)],
    )
    .expect("snapshot");
    assert_eq!(
        price_deck(&validation, &cards, &snapshot, &usd_scope()),
        Err(PriceError::CostOverflow)
    );
}

#[test]
fn deck_and_price_errors_describe_themselves() {
    assert_eq!(
        DeckError::CopyCountOverflow {
            card_id: "spell".to_owned(),
            zone: DeckZone::Spellbook
        }
        .to_string(),
        "copy count overflow for spell in Spellbook"
    );
    assert_eq!(
        DeckError::ZoneCountOverflow(DeckZone::Atlas).to_string(),
        "total copy count overflow in Atlas"
    );
    assert_eq!(
        DeckError::DuplicateCatalogCard("spell".to_owned()).to_string(),
        "duplicate catalog card identity: spell"
    );
    assert_eq!(
        PriceError::EmptySnapshotId.to_string(),
        "price snapshot identity must be nonempty"
    );
    assert_eq!(
        PriceError::EmptyKeyField("printingId").to_string(),
        "price key printingId must be nonempty"
    );
    assert_eq!(
        PriceError::DuplicatePriceKey(Box::new(price("a", "p1", "USD", 2).key)).to_string(),
        "duplicate price key for card a printing p1"
    );
    assert_eq!(PriceError::CostOverflow.to_string(), "deck price exceeds integer cents");
}
