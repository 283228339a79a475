//! Typed, ordered ability programs supplied by card data.

use vstd::prelude::*;

use crate::action::DeckZone;
use crate::text::{decimal_chars, push_decimal, push_str};

verus! {

/// An ordered ability program.
#[derive(Clone, Debug, Eq, PartialEq)]
pub struct AbilityProgram {
    /// The declared target, if this program has one.
    pub selection: Option<SelectionSpec>,
    /// Whether the declared target may be omitted.
    pub optional_selection: bool,
    /// Effects are executed in this exact order.
    pub effects: Vec<Effect>,
}

/// A declared target for an ability program.
#[derive(Clone, Copy, Debug, Eq, PartialEq, Structural)]
pub enum SelectionSpec {
    /// A unit target.
    Unit {
        /// Restricts the target to a unit kind, when present.
        kind: Option<UnitKind>,
        /// Restricts the target's distance.
        relation: SpatialRelation,
    },
    /// A location target.
    Location {
        /// Restricts the target location's distance.
        relation: SpatialRelation,
    },
}

impl SelectionSpec {
    /// The declared distance restriction.
    pub fn relation(self) -> (r: SpatialRelation)
        ensures
            r == self.relation_spec(),
    {
        match self {
            SelectionSpec::Unit { relation, .. } => relation,
            SelectionSpec::Location { relation } => relation,
        }
    }

    /// The declared distance restriction.
    pub open spec fn relation_spec(self) -> SpatialRelation {
        match self {
            SelectionSpec::Unit { relation, .. } => relation,
            SelectionSpec::Location { relation } => relation,
        }
    }
}

/// A unit choice performed during an ability program.
#[derive(Clone, Copy, Debug, Eq, PartialEq, Structural)]
pub struct UnitChoiceSpec {
    /// Restricts the chosen unit kind, when present.
    pub kind: Option<UnitKind>,
    /// Restricts the chosen unit's distance.
    pub relation: SpatialRelation,
    /// Restricts the choice to allied units.
    pub allied_only: bool,
    /// Allows declining the choice.
    pub optional: bool,
}

/// Unit kinds understood by authored selectors.
#[derive(Clone, Copy, Debug, Eq, Hash, PartialEq, Structural)]
pub enum UnitKind {
    /// An avatar.
    Avatar,
    /// A minion.
    Minion,
}

impl UnitKind {
    /// Returns the stable event label for this unit kind.
    pub fn as_str(self) -> (r: &'static str)
        ensures
            r@ == unit_kind_label(self),
    {
        match self {
            UnitKind::Avatar => "avatar",
            UnitKind::Minion => "minion",
        }
    }
}

/// The stable event label of a unit kind.
pub open spec fn unit_kind_label(kind: UnitKind) -> Seq<char> {
    match kind {
        UnitKind::Avatar => "avatar"@,
        UnitKind::Minion => "minion"@,
    }
}

/// A spatial relationship used by selectors.
#[derive(Clone, Copy, Debug, Eq, PartialEq, Structural)]
pub enum SpatialRelation {
    /// Any legal distance.
    Anywhere,
    /// Within the nearby range.
    Nearby,
    /// An adjacent square.
    Adjacent,
    /// A bounded measured range.
    Measured(u8),
}

/// A recipient cohort for an effect.
#[derive(Clone, Copy, Debug, Eq, PartialEq, Structural)]
pub enum UnitSet {
    /// The declared unit target.
    Target,
    /// The unit selected by a preceding ordinary choice.
    Chosen,
    /// Every unit at the declared location.
    Location,
    /// Every other unit at the source location.
    OtherUnitsHere,
    /// Every surface minion in the realm.
    SurfaceMinions,
}

/// Temporary keyword modifiers that an authored program may grant.
#[derive(Clone, Copy, Debug, Eq, Hash, PartialEq, Structural)]
pub enum TemporaryModifierKind {
    /// Grants the Airborne keyword.
    Airborne,
    /// Grants the Charge keyword.
    Charge,
    /// Grants the First Strike keyword.
    FirstStrike,
    /// Grants the Lethal keyword.
    Lethal,
    /// Doubles damage on the next strike.
    NextStrikeDouble,
    /// Grants movement.
    Movement,
    /// Grants power.
    Power,
    /// Grants the Ranged keyword.
    Ranged,
    /// Grants the Silence keyword.
    Silence,
}

/// One executable operation in an ordered ability program.
#[derive(Clone, Copy, Debug, Eq, PartialEq, Structural)]
pub enum Effect {
    /// Deals damage to a recipient cohort.
    Damage {
        /// The cohort receiving damage.
        recipients: UnitSet,
        /// The damage amount.
        amount: u16,
    },
    /// Untaps a recipient cohort.
    Untap {
        /// The cohort receiving untap.
        recipients: UnitSet,
    },
    /// Draws cards from a specific deck.
    Draw {
        /// The deck to draw from.
        zone: DeckZone,
        /// The number of cards to draw.
        count: u8,
    },
    /// Performs an ordinary unit choice.
    ChooseUnit(UnitChoiceSpec),
    /// Grants a temporary modifier to a recipient cohort.
    GrantThisTurn {
        /// The cohort receiving the modifier.
        recipients: UnitSet,
        /// The modifier to grant.
        modifier: TemporaryModifierKind,
        /// The modifier amount.
        amount: u16,
    },
    /// Draws one card from either deck according to runtime rules.
    DrawCard,
}

/// The error path of the effect at `index`: `effects[index]`.
pub open spec fn effect_path(index: nat) -> Seq<char> {
    "effects["@ + decimal_chars(index) + "]"@
}

/// A zero measured range is the only invalid relation.
pub open spec fn relation_error(relation: SpatialRelation) -> Option<Seq<char>> {
    match relation {
        SpatialRelation::Measured(0) => Some("measured relation must be positive"@),
        _ => None,
    }
}

/// The error for an out-of-range damage amount.
pub open spec fn amount_error(amount: u16, path: Seq<char>) -> Option<Seq<char>> {
    if amount == 0 || amount > 255 {
        Some(path + ".damage must be 1-255"@)
    } else {
        None
    }
}

/// The error for recipients not bound by the program's selection or a preceding choice.
pub open spec fn recipients_error(
    selection: Option<SelectionSpec>,
    recipients: UnitSet,
    previous_choice: Option<UnitChoiceSpec>,
    path: Seq<char>,
) -> Option<Seq<char>> {
    match recipients {
        UnitSet::Target => if selection matches Some(SelectionSpec::Unit { .. }) {
            None
        } else {
            Some(path + ".recipients target requires unit selection"@)
        },
        UnitSet::Location => if selection matches Some(SelectionSpec::Location { .. }) {
            None
        } else {
            Some(path + ".recipients location requires location selection"@)
        },
        UnitSet::Chosen => if previous_choice is None {
            Some(path + ".recipients chosen requires a preceding choose-unit"@)
        } else {
            None
        },
        _ => None,
    }
}

/// Whether a recipient cohort can only ever contain minions.
pub open spec fn minion_only_spec(
    recipients: UnitSet,
    selection: Option<SelectionSpec>,
    previous_choice: Option<UnitChoiceSpec>,
) -> bool {
    match recipients {
        UnitSet::SurfaceMinions => true,
        UnitSet::Chosen => previous_choice matches Some(choice) && choice.kind == Some(
            UnitKind::Minion,
        ),
        UnitSet::Target => selection matches Some(
            SelectionSpec::Unit { kind: Some(UnitKind::Minion), .. },
        ),
        _ => false,
    }
}

/// The error for an unsupported grant.
pub open spec fn grant_error(
    recipients: UnitSet,
    modifier: TemporaryModifierKind,
    amount: u16,
    selection: Option<SelectionSpec>,
    previous_choice: Option<UnitChoiceSpec>,
    path: Seq<char>,
) -> Option<Seq<char>> {
    if modifier == TemporaryModifierKind::NextStrikeDouble {
        Some(path + ".modifier next-strike-double is unsupported in authored programs"@)
    } else if (modifier == TemporaryModifierKind::Power || modifier
        == TemporaryModifierKind::Movement) && !(1 <= amount && amount <= 255) {
        Some(path + ".amount must be 1-255 for this modifier"@)
    } else if !(modifier == TemporaryModifierKind::Power || modifier
        == TemporaryModifierKind::Movement) && amount != 1 {
        Some(path + ".amount must be exactly 1 for this modifier"@)
    } else if modifier == TemporaryModifierKind::Silence {
        Some(path + ".modifier silence is unsupported in authored programs"@)
    } else if (modifier == TemporaryModifierKind::Airborne || modifier
        == TemporaryModifierKind::Ranged || modifier == TemporaryModifierKind::Lethal)
        && !minion_only_spec(recipients, selection, previous_choice) {
        Some(path + ".modifier requires a minion-only recipient"@)
    } else {
        None
    }
}

/// The most recent ordinary unit choice among the first `count` effects.
pub open spec fn choice_before(effects: Seq<Effect>, count: int) -> Option<UnitChoiceSpec>
    decreases count,
{
    if count <= 0 {
        None
    } else {
        match effects[count - 1] {
            Effect::ChooseUnit(spec) => Some(spec),
            _ => choice_before(effects, count - 1),
        }
    }
}

/// The error, if any, of the effect at `index` after the effects before it.
pub open spec fn effect_error(
    selection: Option<SelectionSpec>,
    effects: Seq<Effect>,
    index: nat,
) -> Option<Seq<char>> {
    let path = effect_path(index);
    let previous = choice_before(effects, index as int);
    match effects[index as int] {
        Effect::Damage { recipients, amount } => match amount_error(amount, path) {
            Some(e) => Some(e),
            None => recipients_error(selection, recipients, previous, path),
        },
        Effect::Untap { recipients } => recipients_error(selection, recipients, previous, path),
        Effect::Draw { count, .. } => if count == 0 || count > 32 {
            Some(path + ".count must be 1-32"@)
        } else {
            None
        },
        Effect::DrawCard => None,
        Effect::ChooseUnit(spec) => relation_error(spec.relation),
        Effect::GrantThisTurn { recipients, modifier, amount } => match recipients_error(
            selection,
            recipients,
            previous,
            path,
        ) {
            Some(e) => Some(e),
            None => grant_error(recipients, modifier, amount, selection, previous, path),
        },
    }
}

/// The first effect error at or after `index`, in program order.
pub open spec fn first_effect_error(
    selection: Option<SelectionSpec>,
    effects: Seq<Effect>,
    index: nat,
) -> Option<Seq<char>>
    decreases effects.len() - index,
{
    if index >= effects.len() {
        None
    } else {
        match effect_error(selection, effects, index) {
            Some(e) => Some(e),
            None => first_effect_error(selection, effects, index + 1),
        }
    }
}

/// The first structural error of a program, if any.
pub open spec fn program_error(program: AbilityProgram) -> Option<Seq<char>> {
    if program.effects@.len() == 0 || program.effects@.len() > 64 {
        Some("effects must contain 1-64 operations"@)
    } else if program.optional_selection && program.selection is None {
        Some("optionalSelection requires selection"@)
    } else if program.selection matches Some(s) && relation_error(s.relation_spec()) is Some {
        relation_error(program.selection->0.relation_spec())
    } else {
        first_effect_error(program.selection, program.effects@, 0)
    }
}

proof fn lemma_first_effect_error_skip(
    selection: Option<SelectionSpec>,
    effects: Seq<Effect>,
    index: nat,
)
    requires
        index < effects.len(),
        effect_error(selection, effects, index) is None,
    ensures
        first_effect_error(selection, effects, index) == first_effect_error(
            selection,
            effects,
            index + 1,
        ),
{
}

impl AbilityProgram {
    /// Validates structural constraints shared by all ability entries.
    ///
    /// Returns the first invalid operation or unsupported selector/grant constraint.
    pub fn validate(&self) -> (r: Result<(), String>)
        ensures
            r is Ok <==> program_error(*self) is None,
            r matches Err(e) ==> Some(e@) == program_error(*self),
    {
        if self.effects.len() == 0 || self.effects.len() > 64 {
            return Err("effects must contain 1-64 operations".to_owned());
        }
        if self.optional_selection && self.selection.is_none() {
            return Err("optionalSelection requires selection".to_owned());
        }
        if let Some(selection) = self.selection {
            validate_relation(selection.relation())?;
        }
        let mut previous_choice: Option<UnitChoiceSpec> = None;
        let mut index: usize = 0;
        while index < self.effects.len()
            invariant
                index <= self.effects@.len(),
                self.effects@.len() <= 64,
                previous_choice == choice_before(self.effects@, index as int),
                program_error(*self) == first_effect_error(
                    self.selection,
                    self.effects@,
                    index as nat,
                ),
            decreases self.effects@.len() - index,
        {
            let mut path = String::new();
            push_str(&mut path, "effects[");
            push_decimal(&mut path, index as u128);
            push_str(&mut path, "]");
            assert(path@ =~= effect_path(index as nat));
            let effect = self.effects[index];
            match effect {
                Effect::Damage { recipients, amount } => {
                    validate_amount(amount, &path)?;
                    self.validate_recipients(recipients, previous_choice, &path)?;
                },
                Effect::Untap { recipients } => {
                    self.validate_recipients(recipients, previous_choice, &path)?;
                },
                Effect::Draw { count, .. } => {
                    if count == 0 || count > 32 {
                        let mut message = path;
                        push_str(&mut message, ".count must be 1-32");
                        return Err(message);
                    }
                },
                Effect::DrawCard => {},
                Effect::ChooseUnit(spec) => {
                    validate_relation(spec.relation)?;
                    previous_choice = Some(spec);
                },
                Effect::GrantThisTurn { recipients, modifier, amount } => {
                    self.validate_recipients(recipients, previous_choice, &path)?;
                    validate_grant(
                        recipients,
                        modifier,
                        amount,
                        self.selection,
                        previous_choice,
                        &path,
                    )?;
                },
            }
            proof {
                lemma_first_effect_error_skip(self.selection, self.effects@, index as nat);
            }
            index = index + 1;
        }
        Ok(())
    }

    fn validate_recipients(
        &self,
        recipients: UnitSet,
        previous_choice: Option<UnitChoiceSpec>,
        path: &String,
    ) -> (r: Result<(), String>)
        ensures
            r is Ok <==> recipients_error(self.selection, recipients, previous_choice, path@) is None,
            r matches Err(e) ==> Some(e@) == recipients_error(
                self.selection,
                recipients,
                previous_choice,
                path@,
            ),
    {
        match recipients {
            UnitSet::Target => {
                if !matches!(self.selection, Some(SelectionSpec::Unit { .. })) {
                    let mut message = path.clone();
                    push_str(&mut message, ".recipients target requires unit selection");
                    return Err(message);
                }
            },
            UnitSet::Location => {
                if !matches!(self.selection, Some(SelectionSpec::Location { .. })) {
                    let mut message = path.clone();
                    push_str(&mut message, ".recipients location requires location selection");
                    return Err(message);
                }
            },
            UnitSet::Chosen => {
                if previous_choice.is_none() {
                    let mut message = path.clone();
                    push_str(&mut message, ".recipients chosen requires a preceding choose-unit");
                    return Err(message);
                }
            },
            UnitSet::OtherUnitsHere | UnitSet::SurfaceMinions => {},
        }
        Ok(())
    }
}

fn validate_grant(
    recipients: UnitSet,
    modifier: TemporaryModifierKind,
    amount: u16,
    selection: Option<SelectionSpec>,
    previous_choice: Option<UnitChoiceSpec>,
    path: &String,
) -> (r: Result<(), String>)
    ensures
        r is Ok <==> grant_error(recipients, modifier, amount, selection, previous_choice, path@) is None,
        r matches Err(e) ==> Some(e@) == grant_error(
            recipients,
            modifier,
            amount,
            selection,
            previous_choice,
            path@,
        ),
{
    let mut message = path.clone();
    if modifier == TemporaryModifierKind::NextStrikeDouble {
        push_str(&mut message, ".modifier next-strike-double is unsupported in authored programs");
        return Err(message);
    }
    if modifier == TemporaryModifierKind::Power || modifier == TemporaryModifierKind::Movement {
        if !(1 <= amount && amount <= 255) {
            push_str(&mut message, ".amount must be 1-255 for this modifier");
            return Err(message);
        }
    } else if amount != 1 {
        push_str(&mut message, ".amount must be exactly 1 for this modifier");
        return Err(message);
    }
    if modifier == TemporaryModifierKind::Silence {
        push_str(&mut message, ".modifier silence is unsupported in authored programs");
        return Err(message);
    }
    if (modifier == TemporaryModifierKind::Airborne || modifier == TemporaryModifierKind::Ranged
        || modifier == TemporaryModifierKind::Lethal) && !minion_only(
        recipients,
        selection,
        previous_choice,
    ) {
        push_str(&mut message, ".modifier requires a minion-only recipient");
        return Err(message);
    }
    Ok(())
}

fn minion_only(
    recipients: UnitSet,
    selection: Option<SelectionSpec>,
    previous_choice: Option<UnitChoiceSpec>,
) -> (r: bool)
    ensures
        r == minion_only_spec(recipients, selection, previous_choice),
{
    match recipients {
        UnitSet::SurfaceMinions => true,
        UnitSet::Chosen => match previous_choice {
            Some(choice) => matches!(choice.kind, Some(UnitKind::Minion)),
            None => false,
        },
        UnitSet::Target => matches!(
            selection,
            Some(SelectionSpec::Unit { kind: Some(UnitKind::Minion), .. })
        ),
        UnitSet::Location | UnitSet::OtherUnitsHere => false,
    }
}

fn validate_amount(amount: u16, path: &String) -> (r: Result<(), String>)
    ensures
        r is Ok <==> amount_error(amount, path@) is None,
        r matches Err(e) ==> Some(e@) == amount_error(amount, path@),
{
    if amount == 0 || amount > 255 {
        let mut message = path.clone();
        push_str(&mut message, ".damage must be 1-255");
        return Err(message);
    }
    Ok(())
}

fn validate_relation(relation: SpatialRelation) -> (r: Result<(), String>)
    ensures
        r is Ok <==> relation_error(relation) is None,
        r matches Err(e) ==> Some(e@) == relation_error(relation),
{
    if matches!(relation, SpatialRelation::Measured(0)) {
        return Err("measured relation must be positive".to_owned());
    }
    Ok(())
}

} // verus!
