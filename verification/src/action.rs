//! Typed descriptors for the currently supported synthetic game workload, and
//! their state-independent labels.

use vstd::prelude::*;

use crate::board::{index_name, Cell, Location, Region, SquareArea};
use crate::canonical::IdentityHash;
use crate::contract::Seat;
use crate::text::{decimal_chars, push_char, push_decimal, push_str, str_chars};

verus! {

/// A deck from which a player may draw.
#[derive(Clone, Copy, Debug, Eq, Hash, PartialEq, Structural)]
pub enum DeckZone {
    /// The player's site deck.
    Atlas,
    /// The player's spell deck.
    Spellbook,
}

/// An engine-issued choice for an optional paid site Genesis token.
#[derive(Clone, Copy, Debug, Eq, Ord, PartialEq, PartialOrd, Structural)]
pub enum GenesisTokenChoice {
    /// Resolve the site without paying for its token.
    Decline,
    /// Spend the mana gained by playing the site and summon its token.
    PayOneMana,
}

/// An engine-issued choice for the hidden top Spellbook card.
#[derive(Clone, Copy, Debug, Eq, Ord, PartialEq, PartialOrd, Structural)]
pub enum GenesisSpellChoice {
    /// Move the next spell to the bottom of its Spellbook.
    BottomNext,
    /// Leave the next spell on top of its Spellbook.
    KeepNext,
}

/// An engine-issued branch for optional targeted Genesis damage.
#[derive(Clone, Copy, Debug, Eq, Ord, PartialEq, PartialOrd, Structural)]
pub enum GenesisDamageChoice {
    /// Resolve the summon without dealing Genesis damage.
    Decline,
    /// Deal Genesis damage to the accompanying engine-issued target.
    Target,
}

/// An engine-issued alternative payment for a minion summon.
#[derive(Clone, Copy, Debug, Eq, Ord, PartialEq, PartialOrd, Structural)]
pub enum SummonPaymentMode {
    /// Discard one other random hand card instead of paying mana.
    RandomCardDiscard,
}

/// An engine-issued resolution of the optional step after a Ranged strike.
#[derive(Clone, Copy, Debug, Eq, Ord, PartialEq, PartialOrd, Structural)]
pub enum RangedStepChoice {
    /// Remain at the shooter's current location.
    Decline,
    /// Follow the accompanying one-step path.
    Step,
}

/// A cardinal projectile ray direction in canonical string order.
#[derive(Clone, Copy, Debug, Eq, Ord, PartialEq, PartialOrd, Structural)]
pub enum ProjectileDirection {
    /// Increasing file.
    East,
    /// Increasing rank.
    North,
    /// Decreasing rank.
    South,
    /// Decreasing file.
    West,
}

impl DeckZone {
    /// The stable label of the deck.
    pub fn as_str(self) -> (r: &'static str)
        ensures
            r@ == deck_zone_name(self),
    {
        match self {
            DeckZone::Atlas => "atlas",
            DeckZone::Spellbook => "spellbook",
        }
    }
}

/// The stable label of a deck.
pub open spec fn deck_zone_name(zone: DeckZone) -> Seq<char> {
    match zone {
        DeckZone::Atlas => "atlas"@,
        DeckZone::Spellbook => "spellbook"@,
    }
}

/// A unit or site that can be declared as an attack target.
#[derive(Clone, Debug, Eq, PartialEq)]
pub enum CombatTarget {
    /// A player's Avatar.
    Avatar {
        /// Authoritative Avatar instance identity.
        instance_id: IdentityHash,
        /// Avatar owner.
        seat: Seat,
    },
    /// A minion in the realm.
    Minion {
        /// Authoritative minion instance identity.
        instance_id: IdentityHash,
        /// Minion owner.
        seat: Seat,
    },
    /// A site in the realm.
    Site {
        /// Authoritative site instance identity.
        instance_id: IdentityHash,
        /// Site owner.
        seat: Seat,
    },
}

/// An Avatar or minion selected by a unit-targeting effect.
#[derive(Clone, Debug, Eq, PartialEq)]
pub enum UnitTarget {
    /// A player's Avatar.
    Avatar {
        /// Authoritative Avatar instance identity.
        instance_id: IdentityHash,
        /// Avatar owner.
        seat: Seat,
    },
    /// A minion in the realm.
    Minion {
        /// Authoritative minion instance identity.
        instance_id: IdentityHash,
        /// Minion owner.
        seat: Seat,
    },
}

/// The stable kind label of a unit target.
pub open spec fn unit_target_kind_name(target: UnitTarget) -> Seq<char> {
    match target {
        UnitTarget::Avatar { .. } => "avatar"@,
        UnitTarget::Minion { .. } => "minion"@,
    }
}

/// The identity of a unit target.
pub open spec fn unit_target_id(target: UnitTarget) -> Seq<char> {
    match target {
        UnitTarget::Avatar { instance_id, .. } => instance_id@,
        UnitTarget::Minion { instance_id, .. } => instance_id@,
    }
}

/// The owner of a unit target.
pub open spec fn unit_target_seat(target: UnitTarget) -> Seat {
    match target {
        UnitTarget::Avatar { seat, .. } => seat,
        UnitTarget::Minion { seat, .. } => seat,
    }
}

/// The stable kind label of a combat target.
pub open spec fn combat_target_kind_name(target: CombatTarget) -> Seq<char> {
    match target {
        CombatTarget::Avatar { .. } => "avatar"@,
        CombatTarget::Minion { .. } => "minion"@,
        CombatTarget::Site { .. } => "site"@,
    }
}

/// The identity of a combat target.
pub open spec fn combat_target_id(target: CombatTarget) -> Seq<char> {
    match target {
        CombatTarget::Avatar { instance_id, .. } => instance_id@,
        CombatTarget::Minion { instance_id, .. } => instance_id@,
        CombatTarget::Site { instance_id, .. } => instance_id@,
    }
}

/// The owner of a combat target.
pub open spec fn combat_target_seat(target: CombatTarget) -> Seat {
    match target {
        CombatTarget::Avatar { seat, .. } => seat,
        CombatTarget::Minion { seat, .. } => seat,
        CombatTarget::Site { seat, .. } => seat,
    }
}

impl UnitTarget {
    /// The stable kind label.
    pub fn kind(&self) -> (r: &'static str)
        ensures
            r@ == unit_target_kind_name(*self),
    {
        match self {
            UnitTarget::Avatar { .. } => "avatar",
            UnitTarget::Minion { .. } => "minion",
        }
    }

    /// The authoritative unit identity.
    pub fn instance_id(&self) -> (r: &IdentityHash)
        ensures
            r@ == unit_target_id(*self),
    {
        match self {
            UnitTarget::Avatar { instance_id, .. } => instance_id,
            UnitTarget::Minion { instance_id, .. } => instance_id,
        }
    }

    /// The unit's owner.
    pub fn seat(&self) -> (r: Seat)
        ensures
            r == unit_target_seat(*self),
    {
        match self {
            UnitTarget::Avatar { seat, .. } => *seat,
            UnitTarget::Minion { seat, .. } => *seat,
        }
    }
}

impl CombatTarget {
    /// The stable kind label.
    pub fn kind(&self) -> (r: &'static str)
        ensures
            r@ == combat_target_kind_name(*self),
    {
        match self {
            CombatTarget::Avatar { .. } => "avatar",
            CombatTarget::Minion { .. } => "minion",
            CombatTarget::Site { .. } => "site",
        }
    }

    /// The authoritative target identity.
    pub fn instance_id(&self) -> (r: &IdentityHash)
        ensures
            r@ == combat_target_id(*self),
    {
        match self {
            CombatTarget::Avatar { instance_id, .. } => instance_id,
            CombatTarget::Minion { instance_id, .. } => instance_id,
            CombatTarget::Site { instance_id, .. } => instance_id,
        }
    }

    /// The target's owner.
    pub fn seat(&self) -> (r: Seat)
        ensures
            r == combat_target_seat(*self),
    {
        match self {
            CombatTarget::Avatar { seat, .. } => *seat,
            CombatTarget::Minion { seat, .. } => *seat,
            CombatTarget::Site { seat, .. } => *seat,
        }
    }
}

/// An engine-issued action payload for the supported synthetic rules slice.
#[derive(Clone, Debug, Eq, PartialEq)]
pub enum ActionDescriptor {
    /// Tap one ready minion to add its printed mana amount.
    ActivateMana {
        /// Printed mana added by the ability.
        amount: u64,
        /// Authoritative source minion identity.
        unit_instance_id: IdentityHash,
    },
    /// Tap the Avatar to damage one hidden random other unit at a nearby location.
    ActivateSparkmage {
        /// Authoritative source Avatar identity.
        source_instance_id: IdentityHash,
        /// Engine-issued nearby location.
        target_location: Location,
    },
    /// Keep an opening hand or return selected cards in the specified order.
    Mulligan {
        /// Atlas instance IDs returned to the deck bottom, in order.
        atlas_order: Vec<IdentityHash>,
        /// Spellbook instance IDs returned to the deck bottom, in order.
        spellbook_order: Vec<IdentityHash>,
    },
    /// Draw the top card from one deck.
    Draw {
        /// Deck selected for the draw.
        zone: DeckZone,
    },
    /// Tap the Avatar to draw the top Atlas card during the main phase.
    DrawSite,
    /// Tap a capable Avatar to draw the top Spellbook card during the main phase.
    DrawSpell,
    /// Play a site from the player's hand.
    PlaySite {
        /// Stable rules card identity.
        card_id: String,
        /// Authoritative card instance identity.
        card_instance_id: IdentityHash,
        /// Empty realm cell receiving the site.
        cell: Cell,
        /// Empty cell receiving mandatory Geomancer Rubble, when issued.
        create_rubble_at: Option<Cell>,
        /// Issued branch for a site with optional paid-token Genesis.
        genesis_token_choice: Option<GenesisTokenChoice>,
    },
    /// Replace adjacent Rubble with the still-hidden top Atlas site.
    ReplaceRubbleWithTopAtlasSite {
        /// Public Rubble cell being replaced.
        target_cell: Cell,
        /// Exact public Rubble identity that made the action legal.
        target_rubble_instance_id: IdentityHash,
    },
    /// Sacrifice one controlled site to destroy a nearby site or Rubble.
    ActivateSiteDestruction {
        /// Exact controlled source site being sacrificed.
        source_site_instance_id: IdentityHash,
        /// Nearby realm cell selected for destruction.
        target_cell: Cell,
        /// Exact site or Rubble identity that made the action legal.
        target_site_instance_id: IdentityHash,
    },
    /// Resolve a deferred paid-token Genesis after a hidden site is revealed.
    ResolveGenesisToken {
        /// Decline or pay for the revealed site's token.
        choice: GenesisTokenChoice,
    },
    /// Keep or bottom a still-hidden top Spellbook card.
    ResolveGenesisSpell {
        /// Engine-issued hidden-card operation.
        choice: GenesisSpellChoice,
    },
    /// Reorder the still-hidden top Spellbook cards by prefix index.
    ResolveGenesisSpellOrder {
        /// Permutation of `0..pending_count`.
        order: Vec<u8>,
    },
    /// Summon a minion from the player's hand.
    SummonMinion {
        /// Stable rules card identity.
        card_id: String,
        /// Authoritative card instance identity.
        card_instance_id: IdentityHash,
        /// Authoritative caster instance identity.
        caster_instance_id: IdentityHash,
        /// Realm cell receiving the minion.
        cell: Cell,
        /// Exact canonical two-by-two footprint, when the minion is oversized.
        cells: Option<SquareArea>,
        /// Decline or select the accompanying optional Genesis damage.
        genesis_damage_choice: Option<GenesisDamageChoice>,
        /// Exact Avatar or minion selected for optional Genesis damage.
        genesis_damage_target: Option<UnitTarget>,
        /// Mana paid for the summon.
        mana_cost: u64,
        /// Optional non-mana payment selected by the engine.
        payment_mode: Option<SummonPaymentMode>,
        /// Exact local minions sacrificed for the engine-issued mana discount.
        sacrificed_minion_instance_ids: Option<Vec<IdentityHash>>,
    },
    /// Cast one supported Magic card from the player's hand.
    CastMagic {
        /// Exact engine-issued ally selected by an ally-buffing Magic.
        ally: Option<UnitTarget>,
        /// Optional one-step destination chosen for a Leap Attack ally.
        ally_destination: Option<Location>,
        /// Selected strike cell inside an oversized Leap Attack footprint.
        ally_strike_location: Option<Location>,
        /// Stable rules card identity.
        card_id: String,
        /// Authoritative card instance identity.
        card_instance_id: IdentityHash,
        /// Authoritative Spellcaster instance identity.
        caster_instance_id: IdentityHash,
        /// Exact own cemetery minion selected by Rescue.
        cemetery_minion_instance_id: Option<IdentityHash>,
        /// Exact engine-issued unit target.
        target: Option<UnitTarget>,
        /// Exact engine-issued realm location targeted by the Magic.
        target_location: Option<Location>,
        /// Exact site or Rubble instance that made the location target legal.
        target_site_instance_id: Option<IdentityHash>,
    },
    /// Commit the first engine-issued target for a staged Chain Magic cast.
    BeginChainMagic {
        /// Stable rules card identity.
        card_id: String,
        /// Authoritative card instance identity.
        card_instance_id: IdentityHash,
        /// Authoritative Spellcaster instance identity.
        caster_instance_id: IdentityHash,
        /// First engine-issued unit target.
        target: UnitTarget,
    },
    /// Add one distinct engine-issued target to a staged Chain Magic cast.
    ExtendChainMagic {
        /// Next engine-issued unit target.
        target: UnitTarget,
    },
    /// Finish target selection and pay for the staged Chain Magic cast.
    ResolveChainMagic,
    /// Tap a unit and follow an issued movement path before choosing an attack.
    MoveAndAttack {
        /// Unit location before movement.
        from: Location,
        /// Complete issued path, including the starting location.
        path: Vec<Location>,
        /// Unit location after movement.
        to: Location,
        /// Authoritative moving unit identity.
        unit_instance_id: IdentityHash,
    },
    /// Advance one edge, or finish, an already committed basic movement path.
    ContinueBasicMovement {
        /// Authoritative moving minion identity.
        unit_instance_id: IdentityHash,
    },
    /// Tap a ready Ranged unit to strike the first visible unit along one issued ray.
    ShootProjectile {
        /// Cardinal direction of travel.
        direction: ProjectileDirection,
        /// First visible unit hit, or explicit null when the ray is empty.
        hit: Option<UnitTarget>,
        /// Complete ray, including the shooter's origin.
        path: Vec<Location>,
        /// Authoritative source unit identity.
        shooter_instance_id: IdentityHash,
    },
    /// Tap a ready minion to shoot its fixed-damage projectile along one issued ray.
    ShootDamageProjectile {
        /// Cardinal direction of travel.
        direction: ProjectileDirection,
        /// First visible unit hit, or explicit null when the ray is empty.
        hit: Option<UnitTarget>,
        /// Complete ray, including the shooter's origin.
        path: Vec<Location>,
        /// Authoritative source minion identity.
        shooter_instance_id: IdentityHash,
    },
    /// Decline or take the engine-issued optional step after a Ranged strike.
    ResolveRangedStep {
        /// Decline or take the accompanying path.
        choice: RangedStepChoice,
        /// Location before the optional step.
        from: Option<Location>,
        /// Complete one-step path, including the starting location.
        path: Option<Vec<Location>>,
        /// Location after the optional step.
        to: Option<Location>,
        /// Authoritative Ranged minion identity.
        unit_instance_id: IdentityHash,
    },
    /// Decline to attack after moving or tapping in place.
    DeclineAttack,
    /// Attack one engine-issued target.
    DeclareAttack {
        /// Chosen combat target.
        target: CombatTarget,
    },
    /// Move one ready unit along an engine-issued path to join a fight.
    Defend {
        /// Unit location before movement.
        from: Location,
        /// Complete issued path, including the starting location.
        path: Vec<Location>,
        /// Fight location after movement.
        to: Location,
        /// Authoritative defending unit identity.
        unit_instance_id: IdentityHash,
    },
    /// Close the defend window.
    CloseDefend {
        /// Whether the original attack target remains a combatant.
        original_target_participates: bool,
    },
    /// Move one ready unit at the fight location into combat.
    Intercept {
        /// Authoritative intercepting unit identity.
        unit_instance_id: IdentityHash,
    },
    /// Close the intercept window without adding another combatant.
    CloseIntercept {},
    /// Assign one striker's damage to a combatant.
    AllocateStrike {
        /// Damage assigned by this action.
        amount: u64,
        /// Authoritative target identity.
        target_instance_id: IdentityHash,
    },
    /// Commit one source first within the acting player's simultaneous Deathrites.
    OrderDeathrites {
        /// Authoritative dead minion source identity.
        source_instance_id: IdentityHash,
    },
    /// End the acting player's turn.
    EndTurn,
}

/// The first fifteen characters of an identity (`sha256:` plus eight digits).
pub open spec fn short_id(id: Seq<char>) -> Seq<char> {
    id.take(15)
}

/// The stable name of a region.
pub open spec fn region_label(region: Region) -> Seq<char> {
    match region {
        Region::Surface => "surface"@,
        Region::Underground => "underground"@,
        Region::Underwater => "underwater"@,
        Region::Void => "void"@,
    }
}

/// A location label: the cell, followed by the region unless it is the surface.
pub open spec fn location_text(location: Location) -> Seq<char> {
    if location.region == Region::Surface {
        index_name(location.cell@)
    } else {
        index_name(location.cell@) + " "@ + region_label(location.region)
    }
}

/// Location labels joined by ` → `.
pub open spec fn path_text(path: Seq<Location>) -> Seq<char>
    decreases path.len(),
{
    if path.len() == 0 {
        Seq::empty()
    } else if path.len() == 1 {
        location_text(path[0])
    } else {
        path_text(path.drop_last()) + " → "@ + location_text(path.last())
    }
}

/// `kind short…` for a unit target.
pub open spec fn unit_text(target: UnitTarget) -> Seq<char> {
    unit_target_kind_name(target) + " "@ + short_id(unit_target_id(target)) + "…"@
}

/// The stable name of a projectile direction.
pub open spec fn direction_label(direction: ProjectileDirection) -> Seq<char> {
    match direction {
        ProjectileDirection::East => "east"@,
        ProjectileDirection::North => "north"@,
        ProjectileDirection::South => "south"@,
        ProjectileDirection::West => "west"@,
    }
}

/// The label of a Cast Magic action.
pub open spec fn cast_magic_label(
    ally: Option<UnitTarget>,
    ally_destination: Option<Location>,
    ally_strike_location: Option<Location>,
    card_id: Seq<char>,
    cemetery: Option<IdentityHash>,
    target: Option<UnitTarget>,
    target_location: Option<Location>,
) -> Seq<char> {
    if ally is Some && target is Some {
        "Cast "@ + card_id + ": "@ + unit_text(ally->0) + " fights "@ + unit_text(target->0)
    } else if ally is Some && ally_destination is Some {
        let destination = ally_destination->0;
        let strike = match ally_strike_location {
            Some(s) => s,
            None => destination,
        };
        "Cast "@ + card_id + ": "@ + unit_text(ally->0) + " steps to "@ + index_name(
            destination.cell@,
        ) + " and strikes enemies at "@ + index_name(strike.cell@)
    } else if ally is Some {
        "Cast "@ + card_id + " to grant Charge to "@ + unit_text(ally->0)
    } else if cemetery is Some {
        "Cast "@ + card_id + " to return minion "@ + short_id(cemetery->0@) + "…"@
    } else if target is Some {
        "Cast "@ + card_id + " on "@ + unit_text(target->0)
    } else if target_location is Some {
        "Cast "@ + card_id + " at "@ + index_name(target_location->0.cell@) + " "@ + region_label(
            target_location->0.region,
        )
    } else {
        "Cast "@ + card_id
    }
}

/// The established label of a descriptor when no game-state lookup is needed.
pub open spec fn label_spec(d: ActionDescriptor) -> Option<Seq<char>> {
    match d {
        ActionDescriptor::ActivateMana { amount, unit_instance_id } => Some(
            "Tap "@ + short_id(unit_instance_id@) + "… for "@ + decimal_chars(amount as nat)
                + " mana"@,
        ),
        ActionDescriptor::Mulligan { atlas_order, spellbook_order } => {
            let count = atlas_order@.len() + spellbook_order@.len();
            Some(
                if count == 0 {
                    "Keep opening hand"@
                } else {
                    "Mulligan "@ + decimal_chars(count) + " ("@ + decimal_chars(
                        atlas_order@.len(),
                    ) + " atlas, "@ + decimal_chars(spellbook_order@.len()) + " spellbook)"@
                },
            )
        },
        ActionDescriptor::Draw { zone } => Some("Draw from "@ + deck_zone_name(zone)),
        ActionDescriptor::DrawSite => Some("Draw a site with Avatar"@),
        ActionDescriptor::DrawSpell => Some("Draw a spell with Avatar"@),
        ActionDescriptor::CastMagic {
            ally,
            ally_destination,
            ally_strike_location,
            card_id,
            cemetery_minion_instance_id,
            target,
            target_location,
            ..
        } => Some(
            cast_magic_label(
                ally,
                ally_destination,
                ally_strike_location,
                card_id@,
                cemetery_minion_instance_id,
                target,
                target_location,
            ),
        ),
        ActionDescriptor::BeginChainMagic { card_id, target, .. } => Some(
            "Choose "@ + unit_text(target) + " as the first target for "@ + card_id@,
        ),
        ActionDescriptor::ExtendChainMagic { target } => Some(
            "Add "@ + unit_text(target) + " as a chained target (+2 mana)"@,
        ),
        ActionDescriptor::MoveAndAttack { path, to, unit_instance_id, .. } => Some(
            if path@.len() == 1 {
                "Tap "@ + short_id(unit_instance_id@) + "… without moving"@ + if to.region
                    == Region::Surface {
                    Seq::<char>::empty()
                } else {
                    " "@ + region_label(to.region)
                }
            } else {
                "Move "@ + short_id(unit_instance_id@) + "… "@ + path_text(path@)
            },
        ),
        ActionDescriptor::ShootProjectile { direction, hit, .. } => Some(
            "Shoot "@ + direction_label(direction) + " at "@ + match hit {
                None => "nothing"@,
                Some(t) => unit_text(t),
            },
        ),
        ActionDescriptor::ShootDamageProjectile { direction, hit, .. } => Some(
            "Shoot "@ + direction_label(direction) + " at "@ + match hit {
                None => "nothing"@,
                Some(t) => unit_text(t),
            },
        ),
        ActionDescriptor::DeclineAttack => Some("Decline attack"@),
        ActionDescriptor::ResolveRangedStep { choice, to, unit_instance_id, .. } => match (
            choice,
            to,
        ) {
            (RangedStepChoice::Decline, None) => Some(
                "Decline the optional step after the Ranged strike"@,
            ),
            (RangedStepChoice::Step, Some(to)) => Some(
                "Step "@ + short_id(unit_instance_id@) + "… to "@ + index_name(to.cell@),
            ),
            _ => None,
        },
        ActionDescriptor::DeclareAttack { target } => Some(
            "Attack "@ + combat_target_kind_name(target) + " "@ + short_id(combat_target_id(target))
                + "…"@,
        ),
        ActionDescriptor::Defend { path, unit_instance_id, .. } => Some(
            "Defend with "@ + short_id(unit_instance_id@) + "… via "@ + path_text(path@),
        ),
        ActionDescriptor::CloseDefend { original_target_participates } => Some(
            if original_target_participates {
                "Close defend window; keep target"@
            } else {
                "Close defend window; remove target"@
            },
        ),
        ActionDescriptor::Intercept { unit_instance_id } => Some(
            "Intercept with "@ + short_id(unit_instance_id@) + "…"@,
        ),
        ActionDescriptor::CloseIntercept {  } => Some("Close intercept window"@),
        ActionDescriptor::AllocateStrike { amount, target_instance_id } => Some(
            "Assign "@ + decimal_chars(amount as nat) + " damage to "@ + short_id(
                target_instance_id@,
            ) + "…"@,
        ),
        ActionDescriptor::EndTurn => Some("End turn"@),
        ActionDescriptor::ReplaceRubbleWithTopAtlasSite { target_cell, .. } => Some(
            "Replace Rubble at "@ + index_name(target_cell@) + " with the top site of your Atlas"@,
        ),
        ActionDescriptor::ActivateSiteDestruction { target_cell, .. } => Some(
            "Sacrifice site to destroy "@ + index_name(target_cell@),
        ),
        _ => None,
    }
}

/// Appends the short form of an identity.
fn push_short_identity(out: &mut String, id: &IdentityHash)
    ensures
        final(out)@ == old(out)@ + short_id(id@),
{
    id.well_formed_identity();
    let chars = str_chars(id.as_str());
    let mut i: usize = 0;
    while i < 15
        invariant
            i <= 15,
            chars@ == id@,
            chars@.len() == 71,
            out@ == old(out)@ + chars@.take(i as int),
        decreases 15 - i,
    {
        push_char(out, chars[i]);
        assert(chars@.take(i + 1) =~= chars@.take(i as int).push(chars@[i as int]));
        i = i + 1;
    }
}

/// Appends `kind short…` for a unit target.
fn push_unit_text(out: &mut String, target: &UnitTarget)
    ensures
        final(out)@ == old(out)@ + unit_text(*target),
{
    push_str(out, target.kind());
    push_str(out, " ");
    push_short_identity(out, target.instance_id());
    push_str(out, "…");
    assert(final(out)@ =~= old(out)@ + unit_text(*target));
}

/// Returns the stable name of a region.
pub fn region_name(region: Region) -> (r: &'static str)
    ensures
        r@ == region_label(region),
{
    match region {
        Region::Surface => "surface",
        Region::Underground => "underground",
        Region::Underwater => "underwater",
        Region::Void => "void",
    }
}

/// Appends the label of a location.
fn push_location_label(out: &mut String, location: Location)
    ensures
        final(out)@ == old(out)@ + location_text(location),
{
    let cell = location.cell.name();
    push_str(out, cell.as_str());
    if location.region != Region::Surface {
        push_str(out, " ");
        push_str(out, region_name(location.region));
    }
    assert(final(out)@ =~= old(out)@ + location_text(location));
}

/// Returns the label of a location.
pub fn location_label(location: Location) -> (r: String)
    ensures
        r@ == location_text(location),
{
    let mut out = String::new();
    push_location_label(&mut out, location);
    assert(out@ =~= location_text(location));
    out
}

/// Appends location labels joined by ` → `.
fn push_path(out: &mut String, path: &Vec<Location>)
    ensures
        final(out)@ == old(out)@ + path_text(path@),
{
    let mut i: usize = 0;
    while i < path.len()
        invariant
            i <= path@.len(),
            out@ == old(out)@ + path_text(path@.take(i as int)),
        decreases path@.len() - i,
    {
        let ghost before = out@;
        if i > 0 {
            push_str(out, " → ");
        }
        push_location_label(out, path[i]);
        assert(path@.take(i + 1).drop_last() =~= path@.take(i as int));
        if i == 0 {
            assert(path@.take(0) =~= Seq::<Location>::empty());
            assert(out@ =~= old(out)@ + path_text(path@.take(1)));
        } else {
            assert(out@ =~= old(out)@ + path_text(path@.take(i + 1)));
        }
        i = i + 1;
    }
    assert(path@.take(path@.len() as int) =~= path@);
}

fn push_cell(out: &mut String, cell: Cell)
    ensures
        final(out)@ == old(out)@ + index_name(cell@),
{
    let name = cell.name();
    push_str(out, name.as_str());
}

impl ActionDescriptor {
    /// Produces the established label when no game-state lookup is needed.
    ///
    /// Site, summon, and several follow-up labels return `None` because their
    /// established labels depend on rule facts or the current phase and board.
    pub fn state_independent_label(&self) -> (r: Option<String>)
        ensures
            r is Some <==> label_spec(*self) is Some,
            r matches Some(s) ==> s@ == label_spec(*self)->0,
    {
        let mut out = String::new();
        match self {
            ActionDescriptor::ActivateMana { amount, unit_instance_id } => {
                push_str(&mut out, "Tap ");
                push_short_identity(&mut out, unit_instance_id);
                push_str(&mut out, "… for ");
                push_decimal(&mut out, *amount as u128);
                push_str(&mut out, " mana");
                assert(out@ =~= label_spec(*self)->0);
            },
            ActionDescriptor::Mulligan { atlas_order, spellbook_order } => {
                let atlas = atlas_order.len();
                let spellbook = spellbook_order.len();
                if atlas == 0 && spellbook == 0 {
                    push_str(&mut out, "Keep opening hand");
                } else {
                    push_str(&mut out, "Mulligan ");
                    push_decimal(&mut out, atlas as u128 + spellbook as u128);
                    push_str(&mut out, " (");
                    push_decimal(&mut out, atlas as u128);
                    push_str(&mut out, " atlas, ");
                    push_decimal(&mut out, spellbook as u128);
                    push_str(&mut out, " spellbook)");
                }
                assert(out@ =~= label_spec(*self)->0);
            },
            ActionDescriptor::Draw { zone } => {
                push_str(&mut out, "Draw from ");
                push_str(&mut out, zone.as_str());
                assert(out@ =~= label_spec(*self)->0);
            },
            ActionDescriptor::DrawSite => {
                push_str(&mut out, "Draw a site with Avatar");
                assert(out@ =~= label_spec(*self)->0);
            },
            ActionDescriptor::DrawSpell => {
                push_str(&mut out, "Draw a spell with Avatar");
                assert(out@ =~= label_spec(*self)->0);
            },
            ActionDescriptor::CastMagic {
                ally,
                ally_destination,
                ally_strike_location,
                card_id,
                cemetery_minion_instance_id,
                target,
                target_location,
                ..
            } => {
                push_str(&mut out, "Cast ");
                push_str(&mut out, card_id.as_str());
                match (ally, target) {
                    (Some(a), Some(t)) => {
                        push_str(&mut out, ": ");
                        push_unit_text(&mut out, a);
                        push_str(&mut out, " fights ");
                        push_unit_text(&mut out, t);
                    },
                    _ => {
                        match (ally, ally_destination) {
                            (Some(a), Some(destination)) => {
                                let strike = match ally_strike_location {
                                    Some(s) => *s,
                                    None => *destination,
                                };
                                push_str(&mut out, ": ");
                                push_unit_text(&mut out, a);
                                push_str(&mut out, " steps to ");
                                push_cell(&mut out, destination.cell);
                                push_str(&mut out, " and strikes enemies at ");
                                push_cell(&mut out, strike.cell);
                            },
                            _ => {
                                if let Some(a) = ally {
                                    push_str(&mut out, " to grant Charge to ");
                                    push_unit_text(&mut out, a);
                                } else if let Some(instance_id) = cemetery_minion_instance_id {
                                    push_str(&mut out, " to return minion ");
                                    push_short_identity(&mut out, instance_id);
                                    push_str(&mut out, "…");
                                } else if let Some(t) = target {
                                    push_str(&mut out, " on ");
                                    push_unit_text(&mut out, t);
                                } else if let Some(location) = target_location {
                                    push_str(&mut out, " at ");
                                    push_cell(&mut out, location.cell);
                                    push_str(&mut out, " ");
                                    push_str(&mut out, region_name(location.region));
                                }
                            },
                        }
                    },
                }
                assert(out@ =~= label_spec(*self)->0);
            },
            ActionDescriptor::BeginChainMagic { card_id, target, .. } => {
                push_str(&mut out, "Choose ");
                push_unit_text(&mut out, target);
                push_str(&mut out, " as the first target for ");
                push_str(&mut out, card_id.as_str());
                assert(out@ =~= label_spec(*self)->0);
            },
            ActionDescriptor::ExtendChainMagic { target } => {
                push_str(&mut out, "Add ");
                push_unit_text(&mut out, target);
                push_str(&mut out, " as a chained target (+2 mana)");
                assert(out@ =~= label_spec(*self)->0);
            },
            ActionDescriptor::MoveAndAttack { path, to, unit_instance_id, .. } => {
                if path.len() == 1 {
                    push_str(&mut out, "Tap ");
                    push_short_identity(&mut out, unit_instance_id);
                    push_str(&mut out, "… without moving");
                    if to.region != Region::Surface {
                        push_str(&mut out, " ");
                        push_str(&mut out, region_name(to.region));
                    }
                } else {
                    push_str(&mut out, "Move ");
                    push_short_identity(&mut out, unit_instance_id);
                    push_str(&mut out, "… ");
                    push_path(&mut out, path);
                }
                assert(out@ =~= label_spec(*self)->0);
            },
            ActionDescriptor::ShootProjectile { direction, hit, .. }
            | ActionDescriptor::ShootDamageProjectile { direction, hit, .. } => {
                push_str(&mut out, "Shoot ");
                let name = match direction {
                    ProjectileDirection::East => "east",
                    ProjectileDirection::North => "north",
                    ProjectileDirection::South => "south",
                    ProjectileDirection::West => "west",
                };
                push_str(&mut out, name);
                push_str(&mut out, " at ");
                match hit {
                    None => push_str(&mut out, "nothing"),
                    Some(t) => push_unit_text(&mut out, t),
                }
                assert(out@ =~= label_spec(*self)->0);
            },
            ActionDescriptor::DeclineAttack => {
                push_str(&mut out, "Decline attack");
                assert(out@ =~= label_spec(*self)->0);
            },
            ActionDescriptor::ResolveRangedStep { choice, to, unit_instance_id, .. } => {
                match (choice, to) {
                    (RangedStepChoice::Decline, None) => {
                        push_str(&mut out, "Decline the optional step after the Ranged strike");
                    },
                    (RangedStepChoice::Step, Some(to)) => {
                        push_str(&mut out, "Step ");
                        push_short_identity(&mut out, unit_instance_id);
                        push_str(&mut out, "… to ");
                        push_cell(&mut out, to.cell);
                    },
                    _ => {
                        return None;
                    },
                }
                assert(out@ =~= label_spec(*self)->0);
            },
            ActionDescriptor::DeclareAttack { target } => {
                push_str(&mut out, "Attack ");
                push_str(&mut out, target.kind());
                push_str(&mut out, " ");
                push_short_identity(&mut out, target.instance_id());
                push_str(&mut out, "…");
                assert(out@ =~= label_spec(*self)->0);
            },
            ActionDescriptor::Defend { path, unit_instance_id, .. } => {
                push_str(&mut out, "Defend with ");
                push_short_identity(&mut out, unit_instance_id);
                push_str(&mut out, "… via ");
                push_path(&mut out, path);
                assert(out@ =~= label_spec(*self)->0);
            },
            ActionDescriptor::CloseDefend { original_target_participates } => {
                if *original_target_participates {
                    push_str(&mut out, "Close defend window; keep target");
                } else {
                    push_str(&mut out, "Close defend window; remove target");
                }
                assert(out@ =~= label_spec(*self)->0);
            },
            ActionDescriptor::Intercept { unit_instance_id } => {
                push_str(&mut out, "Intercept with ");
                push_short_identity(&mut out, unit_instance_id);
                push_str(&mut out, "…");
                assert(out@ =~= label_spec(*self)->0);
            },
            ActionDescriptor::CloseIntercept {  } => {
                push_str(&mut out, "Close intercept window");
                assert(out@ =~= label_spec(*self)->0);
            },
            ActionDescriptor::AllocateStrike { amount, target_instance_id } => {
                push_str(&mut out, "Assign ");
                push_decimal(&mut out, *amount as u128);
                push_str(&mut out, " damage to ");
                push_short_identity(&mut out, target_instance_id);
                push_str(&mut out, "…");
                assert(out@ =~= label_spec(*self)->0);
            },
            ActionDescriptor::EndTurn => {
                push_str(&mut out, "End turn");
                assert(out@ =~= label_spec(*self)->0);
            },
            ActionDescriptor::ReplaceRubbleWithTopAtlasSite { target_cell, .. } => {
                push_str(&mut out, "Replace Rubble at ");
                push_cell(&mut out, *target_cell);
                push_str(&mut out, " with the top site of your Atlas");
                assert(out@ =~= label_spec(*self)->0);
            },
            ActionDescriptor::ActivateSiteDestruction { target_cell, .. } => {
                push_str(&mut out, "Sacrifice site to destroy ");
                push_cell(&mut out, *target_cell);
                assert(out@ =~= label_spec(*self)->0);
            },
            ActionDescriptor::ActivateSparkmage { .. }
            | ActionDescriptor::PlaySite { .. }
            | ActionDescriptor::ContinueBasicMovement { .. }
            | ActionDescriptor::OrderDeathrites { .. }
            | ActionDescriptor::ResolveGenesisSpell { .. }
            | ActionDescriptor::ResolveGenesisSpellOrder { .. }
            | ActionDescriptor::ResolveGenesisToken { .. }
            | ActionDescriptor::ResolveChainMagic
            | ActionDescriptor::SummonMinion { .. } => {
                return None;
                assert(out@ =~= label_spec(*self)->0);
            },
        }
        assert(out@ =~= label_spec(*self)->0);
        Some(out)
    }
}

} // verus!
