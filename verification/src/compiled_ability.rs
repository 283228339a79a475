//! Statically lowered ability effects used by the effect-frame runtime.

use vstd::prelude::*;

use crate::action::DeckZone;
use crate::facts::{
    first_some, single_genesis, some_count, ArtifactEffect, CardFacts, GenesisEffects,
    MagicEffect, MagicFacts, MinionFacts, MinionGenesis,
};

verus! {

/// A fixed recipient query for a compiled operation.
#[derive(Clone, Copy, Debug, Eq, PartialEq, Structural)]
pub enum UnitSet {
    /// The declared target unit.
    Target,
    /// Every unit at the declared location.
    Location,
    /// Every unit at the source's location except the source.
    OtherUnitsHere,
    /// Every minion on the surface.
    SurfaceMinions,
}

/// An operation understood by the effect-frame runtime.
#[derive(Clone, Copy, Debug, Eq, PartialEq, Structural)]
pub enum Effect {
    /// Damage each recipient.
    Damage { recipients: UnitSet, amount: u16 },
    /// Untap each recipient.
    Untap { recipients: UnitSet },
    /// Draw cards from a deck.
    Draw { zone: DeckZone, count: u8 },
}

/// One statically ordered effect program.
#[derive(Clone, Debug, Eq, PartialEq)]
pub struct CompiledAbility {
    /// The effects, in resolution order.
    pub effects: Vec<Effect>,
}

/// The immutable, supported entries for one card definition.
#[derive(Clone, Debug, Eq, PartialEq)]
pub struct CompiledAbilities {
    /// The program a Magic card resolves when cast.
    pub magic: Option<CompiledAbility>,
    /// The program a minion's Genesis resolves.
    pub genesis: Option<CompiledAbility>,
    /// The program an activated ability resolves.
    pub activated: Option<CompiledAbility>,
}

/// The effects of a compiled entry, if any.
pub open spec fn program_of(a: Option<CompiledAbility>) -> Option<Seq<Effect>> {
    match a {
        Some(ability) => Some(ability.effects@),
        None => None,
    }
}

/// The program a Magic effect lowers to; `None` for effects that stay on
/// the legacy path.
pub open spec fn magic_program(effect: MagicEffect) -> Option<Seq<Effect>> {
    match effect {
        MagicEffect::DamageTargetUnit { amount, untap_target_minion_after_damage, .. } => {
            let damage = Effect::Damage { recipients: UnitSet::Target, amount: amount as u16 };
            Some(
                if untap_target_minion_after_damage {
                    seq![damage, Effect::Untap { recipients: UnitSet::Target }]
                } else {
                    seq![damage]
                },
            )
        },
        MagicEffect::DamageEachAbovegroundMinionOne => Some(
            seq![Effect::Damage { recipients: UnitSet::SurfaceMinions, amount: 1 }],
        ),
        MagicEffect::DamageEachUnitAtLocationWithinTwoSteps(amount) => Some(
            seq![Effect::Damage { recipients: UnitSet::Location, amount: amount as u16 }],
        ),
        _ => None,
    }
}

/// The program a minion's Genesis lowers to when it declares exactly one
/// Genesis effect and that effect is drawing a site, drawing spells, or
/// damaging each other unit here; `None` otherwise, so a minion with several
/// Genesis effects keeps them all uncompiled.
pub open spec fn genesis_program(facts: MinionFacts) -> Option<Seq<Effect>> {
    match single_genesis(facts.genesis) {
        Some(MinionGenesis::DrawSite) => Some(
            seq![Effect::Draw { zone: DeckZone::Atlas, count: 1 }],
        ),
        Some(MinionGenesis::DrawSpells(count)) => Some(
            seq![Effect::Draw { zone: DeckZone::Spellbook, count }],
        ),
        Some(MinionGenesis::DamageEachOtherUnitHereOne) => Some(
            seq![Effect::Damage { recipients: UnitSet::OtherUnitsHere, amount: 1 }],
        ),
        _ => None,
    }
}

/// No Genesis effect at all.
pub open spec fn no_genesis() -> GenesisEffects {
    GenesisEffects {
        damage_each_other_unit_here: false,
        disable_self_until_damaged: false,
        draw_site: false,
        draw_spells: None,
        heal_controller: false,
        lose_controller_life: false,
        may_damage_target_adjacent_unit: false,
        strike_each_enemy_here: false,
    }
}

/// A minion whose only Genesis effect is drawing `count` spells lowers to
/// drawing `count` cards from the Spellbook, never the Atlas; one whose only
/// Genesis effect is drawing a site lowers to drawing one card from the
/// Atlas; one whose only Genesis effect is damaging each other unit here
/// deals one damage to each other unit here; and one that declares both
/// draws keeps its Genesis uncompiled.
pub proof fn lemma_draw_genesis_zones(facts: MinionFacts, count: u8)
    ensures
        facts.genesis == (GenesisEffects { draw_spells: Some(count), ..no_genesis() })
            ==> genesis_program(facts) == Some(seq![Effect::Draw { count, zone: DeckZone::Spellbook }]),
        facts.genesis == (GenesisEffects { draw_site: true, ..no_genesis() }) ==> genesis_program(
            facts,
        ) == Some(seq![Effect::Draw { zone: DeckZone::Atlas, count: 1 }]),
        facts.genesis == (GenesisEffects { draw_site: true, draw_spells: Some(count), ..no_genesis() })
            ==> genesis_program(facts) is None,
        facts.genesis == (GenesisEffects { damage_each_other_unit_here: true, ..no_genesis() })
            ==> genesis_program(facts) == Some(
            seq![Effect::Damage { amount: 1, recipients: UnitSet::OtherUnitsHere }],
        ),
{
    let g = facts.genesis;
    let c = crate::facts::genesis_candidates(g);
    reveal(crate::facts::present_if);
    assert(c.len() == 8);
    if g == (GenesisEffects { draw_spells: Some(count), ..no_genesis() }) {
        assert(c =~= seq![
            None,
            None,
            None,
            Some(MinionGenesis::DrawSpells(count)),
            None,
            None,
            None,
            None,
        ]);
        assert forall|j: int| 0 <= j < c.len() && j != 3 implies #[trigger] c[j] is None by {
            if j == 0 {} else if j == 1 {} else if j == 2 {} else if j == 4 {} else if j == 5 {
            } else if j == 6 {} else {}
        }
        lemma_only_present(c, 3);
    }
    if g == (GenesisEffects { draw_site: true, ..no_genesis() }) {
        assert(c =~= seq![
            None,
            None,
            Some(MinionGenesis::DrawSite),
            None,
            None,
            None,
            None,
            None,
        ]);
        assert forall|j: int| 0 <= j < c.len() && j != 2 implies #[trigger] c[j] is None by {
            if j == 0 {} else if j == 1 {} else if j == 3 {} else if j == 4 {} else if j == 5 {
            } else if j == 6 {} else {}
        }
        lemma_only_present(c, 2);
    }
    if g == (GenesisEffects { damage_each_other_unit_here: true, ..no_genesis() }) {
        assert(c =~= seq![
            Some(MinionGenesis::DamageEachOtherUnitHereOne),
            None,
            None,
            None,
            None,
            None,
            None,
            None,
        ]);
        assert forall|j: int| 0 <= j < c.len() && j != 0 implies #[trigger] c[j] is None by {
            if j == 1 {} else if j == 2 {} else if j == 3 {} else if j == 4 {} else if j == 5 {
            } else if j == 6 {} else {}
        }
        lemma_only_present(c, 0);
    }
    if g == (GenesisEffects { draw_site: true, draw_spells: Some(count), ..no_genesis() }) {
        lemma_present_count_at_least_two(c, 2, 3);
    }
}

proof fn lemma_none_present<T>(c: Seq<Option<T>>)
    requires
        forall|j: int| 0 <= j < c.len() ==> #[trigger] c[j] is None,
    ensures
        some_count(c) == 0,
    decreases c.len(),
{
    if c.len() > 0 {
        assert forall|j: int| 0 <= j < c.skip(1).len() implies #[trigger] c.skip(1)[j] is None by {
            assert(c.skip(1)[j] == c[j + 1]);
        }
        lemma_none_present(c.skip(1));
    }
}

proof fn lemma_only_present<T>(c: Seq<Option<T>>, k: int)
    requires
        0 <= k < c.len(),
        c[k] is Some,
        forall|j: int| 0 <= j < c.len() && j != k ==> #[trigger] c[j] is None,
    ensures
        some_count(c) == 1,
        first_some(c) == c[k],
    decreases c.len(),
{
    if k == 0 {
        assert forall|j: int| 0 <= j < c.skip(1).len() implies #[trigger] c.skip(1)[j] is None by {
            assert(c.skip(1)[j] == c[j + 1]);
        }
        lemma_none_present(c.skip(1));
    } else {
        assert(c.skip(1)[k - 1] == c[k]);
        assert forall|j: int| 0 <= j < c.skip(1).len() && j != k - 1 implies #[trigger] c.skip(1)[j]
            is None by {
            assert(c.skip(1)[j] == c[j + 1]);
        }
        lemma_only_present(c.skip(1), k - 1);
    }
}

proof fn lemma_present_count_at_least_two<T>(c: Seq<Option<T>>, a: int, b: int)
    requires
        0 <= a < b < c.len(),
        c[a] is Some,
        c[b] is Some,
    ensures
        some_count(c) >= 2,
    decreases c.len(),
{
    if a == 0 {
        lemma_present_count_at_least_one(c.skip(1), b - 1);
    } else {
        lemma_present_count_at_least_two(c.skip(1), a - 1, b - 1);
    }
}

proof fn lemma_present_count_at_least_one<T>(c: Seq<Option<T>>, a: int)
    requires
        0 <= a < c.len(),
        c[a] is Some,
    ensures
        some_count(c) >= 1,
    decreases c.len(),
{
    if a > 0 {
        lemma_present_count_at_least_one(c.skip(1), a - 1);
    }
}

/// The program a minion's activated ability lowers to.
pub open spec fn activation_program(facts: MinionFacts) -> Option<Seq<Effect>> {
    if facts.tap_to_damage_each_unit_at_adjacent_location {
        Some(seq![Effect::Damage { recipients: UnitSet::Location, amount: 2 }])
    } else {
        None
    }
}

/// The program an Artifact's activated ability lowers to.
pub open spec fn artifact_program(effect: ArtifactEffect) -> Option<Seq<Effect>> {
    match effect {
        ArtifactEffect::TapBearerAndAnotherAllyHereToDamageTargetWithinTwoStepsThree => Some(
            seq![Effect::Damage { recipients: UnitSet::Target, amount: 3 }],
        ),
        _ => None,
    }
}

fn ability(effects: Vec<Effect>) -> (r: CompiledAbility)
    ensures
        r.effects@ == effects@,
{
    CompiledAbility { effects }
}

/// Lowers a Magic card's effect.
pub fn compile_magic(facts: &MagicFacts) -> (r: Option<CompiledAbility>)
    ensures
        program_of(r) == magic_program(facts.effect),
{
    let effect = match &facts.effect {
        MagicEffect::DamageTargetUnit { amount, untap_target_minion_after_damage, .. } => {
            let damage = Effect::Damage { recipients: UnitSet::Target, amount: *amount as u16 };
            if *untap_target_minion_after_damage {
                let effects = vec![damage, Effect::Untap { recipients: UnitSet::Target }];
                assert(effects@ =~= seq![damage, Effect::Untap { recipients: UnitSet::Target }]);
                return Some(ability(effects));
            } else {
                damage
            }
        },
        MagicEffect::DamageEachAbovegroundMinionOne => Effect::Damage {
            recipients: UnitSet::SurfaceMinions,
            amount: 1,
        },
        MagicEffect::DamageEachUnitAtLocationWithinTwoSteps(amount) => Effect::Damage {
            recipients: UnitSet::Location,
            amount: *amount as u16,
        },
        _ => {
            return None;
        },
    };
    let effects = vec![effect];
    assert(effects@ =~= seq![effect]);
    Some(ability(effects))
}

/// Lowers a minion's activated ability.
pub fn compile_minion_activation(facts: &MinionFacts) -> (r: Option<CompiledAbility>)
    ensures
        program_of(r) == activation_program(*facts),
{
    if facts.tap_to_damage_each_unit_at_adjacent_location {
        let damage = Effect::Damage { recipients: UnitSet::Location, amount: 2 };
        let effects = vec![damage];
        assert(effects@ =~= seq![damage]);
        Some(ability(effects))
    } else {
        None
    }
}

/// Lowers a minion's Genesis.
pub fn compile_genesis(facts: &MinionFacts) -> (r: Option<CompiledAbility>)
    ensures
        program_of(r) == genesis_program(*facts),
{
    let effect = match facts.genesis.single() {
        Some(MinionGenesis::DrawSite) => Effect::Draw { zone: DeckZone::Atlas, count: 1 },
        Some(MinionGenesis::DrawSpells(count)) => Effect::Draw { zone: DeckZone::Spellbook, count },
        Some(MinionGenesis::DamageEachOtherUnitHereOne) => Effect::Damage {
            recipients: UnitSet::OtherUnitsHere,
            amount: 1,
        },
        _ => {
            return None;
        },
    };
    let effects = vec![effect];
    assert(effects@ =~= seq![effect]);
    Some(ability(effects))
}

fn compile_artifact(effect: ArtifactEffect) -> (r: Option<CompiledAbility>)
    ensures
        program_of(r) == artifact_program(effect),
{
    match effect {
        ArtifactEffect::TapBearerAndAnotherAllyHereToDamageTargetWithinTwoStepsThree => {
            let damage = Effect::Damage { recipients: UnitSet::Target, amount: 3 };
            let effects = vec![damage];
            assert(effects@ =~= seq![damage]);
            Some(ability(effects))
        },
        _ => None,
    }
}

/// The programs a card definition lowers to, as (magic, genesis, activated).
pub open spec fn card_programs(facts: CardFacts) -> (
    Option<Seq<Effect>>,
    Option<Seq<Effect>>,
    Option<Seq<Effect>>,
) {
    match facts {
        CardFacts::Magic(m) => (magic_program(m.effect), None, None),
        CardFacts::Minion(m) => (None, genesis_program(m), activation_program(m)),
        CardFacts::Artifact(a) => (None, None, artifact_program(a.effect)),
        _ => (None, None, None),
    }
}

impl CompiledAbilities {
    /// Lowers the supported effects in validated card facts.
    pub fn from_facts(facts: &CardFacts) -> (r: CompiledAbilities)
        ensures
            (program_of(r.magic), program_of(r.genesis), program_of(r.activated)) == card_programs(
                *facts,
            ),
    {
        match facts {
            CardFacts::Magic(magic) => CompiledAbilities {
                magic: compile_magic(magic),
                genesis: None,
                activated: None,
            },
            CardFacts::Minion(minion) => CompiledAbilities {
                magic: None,
                genesis: compile_genesis(minion),
                activated: compile_minion_activation(minion),
            },
            CardFacts::Artifact(artifact) => CompiledAbilities {
                magic: None,
                genesis: None,
                activated: compile_artifact(artifact.effect),
            },
            _ => CompiledAbilities { magic: None, genesis: None, activated: None },
        }
    }
}

} // verus!
