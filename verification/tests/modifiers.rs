use sorcery_engine::canonical::IdentityHash;
use sorcery_engine::ability::TemporaryModifierKind;
use sorcery_engine::modifiers::TemporaryModifiers;

fn source(hex: char) -> IdentityHash {
    IdentityHash::parse(&format!("sha256:{}", hex.to_string().repeat(64))).expect("identity")
}

#[test]
fn duplicate_grants_remain_independent() {
    let mut modifiers = TemporaryModifiers::new();
    modifiers.grant(TemporaryModifierKind::Power, 1, source('a'));
    modifiers.grant(TemporaryModifierKind::Power, 1, source('a'));

    assert_eq!(modifiers.iter().len(), 2);
    assert_eq!(modifiers.sources(TemporaryModifierKind::Power).len(), 2);
    assert_eq!(modifiers.amount(TemporaryModifierKind::Power), Ok(2));
}

#[test]
fn taking_one_kind_does_not_remove_other_kinds() {
    let mut modifiers = TemporaryModifiers::new();
    let airborne_source = source('a');
    let charge_source = source('b');
    let second_airborne_source = source('c');
    modifiers.grant(TemporaryModifierKind::Airborne, 1, airborne_source.clone());
    modifiers.grant(TemporaryModifierKind::Charge, 1, charge_source);
    modifiers.grant(
        TemporaryModifierKind::Airborne,
        1,
        second_airborne_source.clone(),
    );

    let removed = modifiers.take(TemporaryModifierKind::Airborne);
    assert_eq!(
        removed
            .iter()
            .map(|modifier| modifier.source_instance_id.as_str())
            .collect::<Vec<_>>(),
        vec![airborne_source.as_str(), second_airborne_source.as_str()]
    );
    assert!(!modifiers.has(TemporaryModifierKind::Airborne));
    assert!(modifiers.has(TemporaryModifierKind::Charge));
    assert_eq!(modifiers.take(TemporaryModifierKind::Charge).len(), 1);
    assert!(modifiers.is_empty());
}

#[test]
fn magnitude_sums_are_checked() {
    let mut modifiers = TemporaryModifiers::new();
    modifiers.grant(TemporaryModifierKind::Movement, 2, source('a'));
    modifiers.grant(TemporaryModifierKind::Movement, 3, source('b'));
    assert_eq!(modifiers.amount(TemporaryModifierKind::Movement), Ok(5));

    modifiers.grant(TemporaryModifierKind::Movement, u16::MAX, source('c'));
    assert!(modifiers.amount(TemporaryModifierKind::Movement).is_err());
}

#[test]
fn taking_then_draining_leaves_nothing() {
    let mut modifiers = TemporaryModifiers::new();
    modifiers.grant(TemporaryModifierKind::Power, 2, source('a'));
    modifiers.grant(TemporaryModifierKind::Charge, 1, source('b'));
    modifiers.grant(TemporaryModifierKind::Power, 3, source('c'));
    let taken = modifiers.take(TemporaryModifierKind::Power);
    assert_eq!(taken.len(), 2);
    assert_eq!(modifiers.amount(TemporaryModifierKind::Power), Ok(0));
    let rest = modifiers.drain();
    assert_eq!(rest.len(), 1);
    assert_eq!(rest[0].kind, TemporaryModifierKind::Charge);
    assert!(modifiers.is_empty());
}

#[test]
fn modifier_kinds_name_their_grant_and_expiry_events() {
    assert_eq!(TemporaryModifierKind::Charge.grant_event(), "charge-granted");
    assert_eq!(TemporaryModifierKind::Charge.expiration_event(), "charge-expired");
    assert_eq!(
        TemporaryModifierKind::NextStrikeDouble.grant_event(),
        "next-strike-double-granted"
    );
    assert_eq!(TemporaryModifierKind::Movement.expiration_event(), "movement-expired");
}
