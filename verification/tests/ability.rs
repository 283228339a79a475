use sorcery_engine::ability::{
    AbilityProgram, Effect, SelectionSpec, SpatialRelation, TemporaryModifierKind, UnitKind,
    UnitSet,
};
use sorcery_engine::action::DeckZone;

#[test]
fn validation_rejects_bounds_and_unbound_recipients() {
    let too_many = AbilityProgram {
        selection: None,
        optional_selection: false,
        effects: (0..65)
            .map(|_| Effect::Draw {
                zone: DeckZone::Atlas,
                count: 1,
            })
            .collect(),
    };
    assert!(too_many.validate().is_err());

    let unbound = AbilityProgram {
        selection: None,
        optional_selection: false,
        effects: vec![Effect::Damage {
            recipients: UnitSet::Target,
            amount: 1,
        }],
    };
    assert!(unbound.validate().unwrap_err().contains("unit selection"));
}

#[test]
fn validation_requires_choice_before_chosen_and_restricts_grants() {
    let chosen = AbilityProgram {
        selection: None,
        optional_selection: false,
        effects: vec![Effect::Untap {
            recipients: UnitSet::Chosen,
        }],
    };
    assert!(chosen
        .validate()
        .unwrap_err()
        .contains("preceding choose-unit"));

    let avatar_grant = AbilityProgram {
        selection: Some(SelectionSpec::Unit {
            kind: None,
            relation: SpatialRelation::Anywhere,
        }),
        optional_selection: false,
        effects: vec![Effect::GrantThisTurn {
            recipients: UnitSet::Target,
            modifier: TemporaryModifierKind::Airborne,
            amount: 1,
        }],
    };
    assert!(avatar_grant.validate().unwrap_err().contains("minion-only"));
}

#[test]
fn grants_require_bound_recipients_and_supported_amounts() {
    let unbound = AbilityProgram {
        selection: None,
        optional_selection: false,
        effects: vec![Effect::GrantThisTurn {
            recipients: UnitSet::Target,
            modifier: TemporaryModifierKind::Power,
            amount: 1,
        }],
    };
    assert!(unbound.validate().unwrap_err().contains("unit selection"));

    let boolean_amount = AbilityProgram {
        selection: Some(SelectionSpec::Unit {
            kind: Some(UnitKind::Minion),
            relation: SpatialRelation::Anywhere,
        }),
        optional_selection: false,
        effects: vec![Effect::GrantThisTurn {
            recipients: UnitSet::Target,
            modifier: TemporaryModifierKind::Charge,
            amount: 2,
        }],
    };
    assert!(boolean_amount.validate().unwrap_err().contains("exactly 1"));

    let power_overflow = AbilityProgram {
        selection: Some(SelectionSpec::Unit {
            kind: Some(UnitKind::Minion),
            relation: SpatialRelation::Anywhere,
        }),
        optional_selection: false,
        effects: vec![Effect::GrantThisTurn {
            recipients: UnitSet::Target,
            modifier: TemporaryModifierKind::Power,
            amount: 256,
        }],
    };
    assert!(power_overflow.validate().unwrap_err().contains("1-255"));

    let silence = AbilityProgram {
        selection: None,
        optional_selection: false,
        effects: vec![Effect::GrantThisTurn {
            recipients: UnitSet::SurfaceMinions,
            modifier: TemporaryModifierKind::Silence,
            amount: 1,
        }],
    };
    assert!(silence
        .validate()
        .unwrap_err()
        .contains("silence is unsupported"));
}

#[test]
fn a_single_draw_is_a_valid_program() {
    let program = AbilityProgram {
        selection: None,
        optional_selection: false,
        effects: vec![Effect::Draw {
            zone: DeckZone::Spellbook,
            count: 1,
        }],
    };
    assert_eq!(program.validate(), Ok(()));
}

#[test]
fn an_empty_program_is_rejected_with_its_bound() {
    let program = AbilityProgram {
        selection: None,
        optional_selection: false,
        effects: Vec::new(),
    };
    assert_eq!(
        program.validate(),
        Err("effects must contain 1-64 operations".to_owned())
    );
}
