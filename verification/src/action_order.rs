//! The canonical order of action descriptors.
//!
//! Legal actions are listed in the order of their canonical JSON descriptors.
//! This module compares typed descriptors field by field in canonical JSON
//! key order, without serializing them: strings compare by their escaped JSON
//! text, integers by their decimal text, arrays element-wise with the longer
//! array first on a common prefix, and absent optional fields after present ones.

use std::cmp::Ordering;

use vstd::prelude::*;

use crate::action::{
    ActionDescriptor, CombatTarget, DeckZone, GenesisDamageChoice, GenesisSpellChoice,
    GenesisTokenChoice, ProjectileDirection, RangedStepChoice, SummonPaymentMode, UnitTarget,
};
use crate::board::{index_file, index_name, index_rank, lemma_index_name_chars, Cell, Location, Region, SquareArea};
use crate::canonical::{
    compare_identities, identity_order, lemma_identity_plain, valid_identity, IdentityHash,
};
use crate::codes::{
    byte_code, byte_u64, cell_code, char_codes, char_int, decimal_of, digit_text,
    lemma_decimal_of_digits, len_code, usize_int,
};
use crate::contract::Seat;
use crate::order::{
    compare_chars, int_order, lemma_lex_order_antisymmetric, lemma_lex_order_transitive, lemma_lex_order_common_prefix,
    lemma_lex_order_equal, lemma_lex_order_extend, lemma_lex_order_skip, lex_order, reverse_order,
    then_order,
};
use crate::json::string_text;
use crate::text::{
    decimal_char_vec, is_prefix, json_string_tail, json_string_tail_chars, lemma_escape_plain,
    lemma_string_tail_prefix_free,
};

verus! {

/// Regions in canonical (name) order.
pub open spec fn region_code(r: Region) -> int {
    match r {
        Region::Surface => 0,
        Region::Underground => 1,
        Region::Underwater => 2,
        Region::Void => 3,
    }
}

/// Seats in canonical (name) order.
pub open spec fn seat_code(s: Seat) -> int {
    match s {
        Seat::North => 0,
        Seat::South => 1,
    }
}

/// Unit target kinds in canonical (name) order.
pub open spec fn unit_target_code(t: UnitTarget) -> int {
    match t {
        UnitTarget::Avatar { .. } => 0,
        UnitTarget::Minion { .. } => 1,
    }
}

/// Combat target kinds in canonical (name) order.
pub open spec fn combat_target_code(t: CombatTarget) -> int {
    match t {
        CombatTarget::Avatar { .. } => 0,
        CombatTarget::Minion { .. } => 1,
        CombatTarget::Site { .. } => 2,
    }
}

/// Decks in canonical (name) order.
pub open spec fn deck_zone_code(z: DeckZone) -> int {
    match z {
        DeckZone::Atlas => 0,
        DeckZone::Spellbook => 1,
    }
}

/// Genesis token choices in canonical (name) order.
pub open spec fn token_choice_code(c: GenesisTokenChoice) -> int {
    match c {
        GenesisTokenChoice::Decline => 0,
        GenesisTokenChoice::PayOneMana => 1,
    }
}

/// Genesis spell choices in canonical (name) order.
pub open spec fn spell_choice_code(c: GenesisSpellChoice) -> int {
    match c {
        GenesisSpellChoice::BottomNext => 0,
        GenesisSpellChoice::KeepNext => 1,
    }
}

/// Genesis damage choices in canonical (name) order.
pub open spec fn damage_choice_code(c: GenesisDamageChoice) -> int {
    match c {
        GenesisDamageChoice::Decline => 0,
        GenesisDamageChoice::Target => 1,
    }
}

/// Summon payment modes in canonical (name) order.
pub open spec fn payment_code(p: SummonPaymentMode) -> int {
    match p {
        SummonPaymentMode::RandomCardDiscard => 0,
    }
}

/// Ranged step choices in canonical (name) order.
pub open spec fn step_choice_code(c: RangedStepChoice) -> int {
    match c {
        RangedStepChoice::Decline => 0,
        RangedStepChoice::Step => 1,
    }
}

/// Projectile directions in canonical (name) order.
pub open spec fn direction_code(d: ProjectileDirection) -> int {
    match d {
        ProjectileDirection::East => 0,
        ProjectileDirection::North => 1,
        ProjectileDirection::South => 2,
        ProjectileDirection::West => 3,
    }
}

/// Cells compare by their file-major index (their names' order).
pub open spec fn cell_order(a: Cell, b: Cell) -> Ordering {
    int_order(cell_code(a), cell_code(b))
}

/// Locations compare by cell, then region.
pub open spec fn location_order(a: Location, b: Location) -> Ordering {
    then_order(cell_order(a.cell, b.cell), int_order(region_code(a.region), region_code(b.region)))
}

/// JSON strings compare by their escaped text and closing quote.
pub open spec fn json_text_order(a: Seq<char>, b: Seq<char>) -> Ordering {
    lex_order(char_codes(json_string_tail(a)), char_codes(json_string_tail(b)))
}

/// JSON integers compare by their decimal text.
pub open spec fn json_int_order(a: u64, b: u64) -> Ordering {
    lex_order(char_codes(decimal_of(a)), char_codes(decimal_of(b)))
}

/// JSON arrays compare element-wise; on a common prefix the longer array sorts first.
pub open spec fn array_order<T>(a: Seq<T>, b: Seq<T>, e: spec_fn(T, T) -> Ordering) -> Ordering
    decreases a.len(),
{
    if a.len() == 0 || b.len() == 0 {
        int_order(len_code(b.len()), len_code(a.len()))
    } else {
        then_order(e(a[0], b[0]), array_order(a.skip(1), b.skip(1), e))
    }
}

/// Element order of identities.
pub open spec fn id_elem() -> spec_fn(IdentityHash, IdentityHash) -> Ordering {
    |x: IdentityHash, y: IdentityHash| identity_order(x@, y@)
}

/// Element order of locations.
pub open spec fn location_elem() -> spec_fn(Location, Location) -> Ordering {
    |x: Location, y: Location| location_order(x, y)
}

/// Element order of bytes.
pub open spec fn byte_elem() -> spec_fn(u8, u8) -> Ordering {
    |x: u8, y: u8| int_order(byte_code(x), byte_code(y))
}

/// Element order of cells.
pub open spec fn cell_elem() -> spec_fn(Cell, Cell) -> Ordering {
    |x: Cell, y: Cell| cell_order(x, y)
}

/// Present optional fields sort before absent ones.
pub open spec fn option_order<T>(a: Option<T>, b: Option<T>, e: spec_fn(T, T) -> Ordering) -> Ordering {
    match (a, b) {
        (Some(x), Some(y)) => e(x, y),
        (Some(_), None) => Ordering::Less,
        (None, Some(_)) => Ordering::Greater,
        (None, None) => Ordering::Equal,
    }
}

/// Unit targets compare by identity, kind, then seat.
pub open spec fn unit_target_order(a: UnitTarget, b: UnitTarget) -> Ordering {
    then_order(
        identity_order(crate::action::unit_target_id(a), crate::action::unit_target_id(b)),
        then_order(
            int_order(unit_target_code(a), unit_target_code(b)),
            int_order(
                seat_code(crate::action::unit_target_seat(a)),
                seat_code(crate::action::unit_target_seat(b)),
            ),
        ),
    )
}

/// Element order of unit targets.
pub open spec fn unit_target_elem() -> spec_fn(UnitTarget, UnitTarget) -> Ordering {
    |x: UnitTarget, y: UnitTarget| unit_target_order(x, y)
}

/// Combat targets compare by identity, kind, then seat.
pub open spec fn combat_target_order(a: CombatTarget, b: CombatTarget) -> Ordering {
    then_order(
        identity_order(crate::action::combat_target_id(a), crate::action::combat_target_id(b)),
        then_order(
            int_order(combat_target_code(a), combat_target_code(b)),
            int_order(
                seat_code(crate::action::combat_target_seat(a)),
                seat_code(crate::action::combat_target_seat(b)),
            ),
        ),
    )
}

/// A nullable field: an explicit `null` sorts before any object.
pub open spec fn nullable_target_order(a: Option<UnitTarget>, b: Option<UnitTarget>) -> Ordering {
    match (a, b) {
        (Some(x), Some(y)) => unit_target_order(x, y),
        (Some(_), None) => Ordering::Greater,
        (None, Some(_)) => Ordering::Less,
        (None, None) => Ordering::Equal,
    }
}

/// Descriptor groups sharing a canonical leading key.
pub open spec fn descriptor_group_spec(d: ActionDescriptor) -> int {
    match d {
        ActionDescriptor::CastMagic { ally: Some(_), .. } => 0,
        ActionDescriptor::ActivateMana { .. } => 1,
        ActionDescriptor::AllocateStrike { .. } => 1,
        ActionDescriptor::Mulligan { .. } => 2,
        ActionDescriptor::BeginChainMagic { .. } => 3,
        ActionDescriptor::CastMagic { .. } => 3,
        ActionDescriptor::PlaySite { .. } => 3,
        ActionDescriptor::SummonMinion { .. } => 3,
        ActionDescriptor::ShootDamageProjectile { .. } => 4,
        ActionDescriptor::ShootProjectile { .. } => 4,
        ActionDescriptor::Defend { .. } => 5,
        ActionDescriptor::MoveAndAttack { .. } => 5,
        _ => 6,
    }
}

/// Descriptor kinds in canonical (kind name) order.
pub open spec fn action_kind_spec(d: ActionDescriptor) -> int {
    match d {
        ActionDescriptor::ActivateMana { .. } => 0,
        ActionDescriptor::ActivateSiteDestruction { .. } => 1,
        ActionDescriptor::ActivateSparkmage { .. } => 2,
        ActionDescriptor::AllocateStrike { .. } => 3,
        ActionDescriptor::BeginChainMagic { .. } => 4,
        ActionDescriptor::CastMagic { .. } => 5,
        ActionDescriptor::CloseDefend { .. } => 6,
        ActionDescriptor::CloseIntercept {  } => 7,
        ActionDescriptor::ContinueBasicMovement { .. } => 8,
        ActionDescriptor::DeclareAttack { .. } => 9,
        ActionDescriptor::DeclineAttack => 10,
        ActionDescriptor::Defend { .. } => 11,
        ActionDescriptor::Draw { .. } => 12,
        ActionDescriptor::DrawSite => 13,
        ActionDescriptor::DrawSpell => 14,
        ActionDescriptor::EndTurn => 15,
        ActionDescriptor::ExtendChainMagic { .. } => 16,
        ActionDescriptor::Intercept { .. } => 17,
        ActionDescriptor::OrderDeathrites { .. } => 18,
        ActionDescriptor::ReplaceRubbleWithTopAtlasSite { .. } => 19,
        ActionDescriptor::ResolveChainMagic => 20,
        ActionDescriptor::ResolveGenesisSpell { .. } => 21,
        ActionDescriptor::ResolveGenesisSpellOrder { .. } => 22,
        ActionDescriptor::ResolveGenesisToken { .. } => 23,
        ActionDescriptor::ResolveRangedStep { .. } => 24,
        ActionDescriptor::Mulligan { .. } => 25,
        ActionDescriptor::PlaySite { .. } => 26,
        ActionDescriptor::ShootDamageProjectile { .. } => 27,
        ActionDescriptor::ShootProjectile { .. } => 28,
        ActionDescriptor::SummonMinion { .. } => 29,
        ActionDescriptor::MoveAndAttack { .. } => 29,
    }
}

/// Whether a descriptor is one of the four card-playing actions.
pub open spec fn is_card_action(d: ActionDescriptor) -> bool {
    ||| d is PlaySite
    ||| d is CastMagic
    ||| d is BeginChainMagic
    ||| d is SummonMinion
}

/// The card identity and card instance leading a card-playing action.
pub open spec fn card_prefix_spec(d: ActionDescriptor) -> (Seq<char>, Seq<char>) {
    match d {
        ActionDescriptor::PlaySite { card_id, card_instance_id, .. } => (
            card_id@,
            card_instance_id@,
        ),
        ActionDescriptor::CastMagic { card_id, card_instance_id, .. } => (
            card_id@,
            card_instance_id@,
        ),
        ActionDescriptor::BeginChainMagic { card_id, card_instance_id, .. } => (
            card_id@,
            card_instance_id@,
        ),
        ActionDescriptor::SummonMinion { card_id, card_instance_id, .. } => (
            card_id@,
            card_instance_id@,
        ),
        _ => (Seq::empty(), Seq::empty()),
    }
}

/// Card-playing actions of different kinds compare by card, then instance.
pub open spec fn card_prefix_order(l: ActionDescriptor, r: ActionDescriptor) -> Ordering {
    then_order(
        json_text_order(card_prefix_spec(l).0, card_prefix_spec(r).0),
        identity_order(card_prefix_spec(l).1, card_prefix_spec(r).1),
    )
}

/// Rank of card-playing kinds when their prefixes tie: summons, then chain
/// starts, then casts, then sites.
pub open spec fn card_kind_rank(d: ActionDescriptor) -> int {
    match d {
        ActionDescriptor::SummonMinion { .. } => 0,
        ActionDescriptor::BeginChainMagic { .. } => 1,
        ActionDescriptor::CastMagic { .. } => 2,
        _ => 3,
    }
}

/// Order of two Play Site actions.
pub open spec fn play_site_order(l: ActionDescriptor, r: ActionDescriptor) -> Ordering {
    match (l, r) {
        (
            ActionDescriptor::PlaySite {
                card_id: lc,
                card_instance_id: li,
                cell: lcell,
                create_rubble_at: lr,
                genesis_token_choice: lg,
            },
            ActionDescriptor::PlaySite {
                card_id: rc,
                card_instance_id: ri,
                cell: rcell,
                create_rubble_at: rr,
                genesis_token_choice: rg,
            },
        ) => then_order(
            json_text_order(lc@, rc@),
            then_order(
                identity_order(li@, ri@),
                then_order(
                    cell_order(lcell, rcell),
                    then_order(
                        option_order(lr, rr, cell_elem()),
                        option_order(
                            lg,
                            rg,
                            |x: GenesisTokenChoice, y: GenesisTokenChoice|
                                int_order(token_choice_code(x), token_choice_code(y)),
                        ),
                    ),
                ),
            ),
        ),
        _ => Ordering::Equal,
    }
}

/// Order of two Begin Chain Magic actions.
pub open spec fn begin_chain_order(l: ActionDescriptor, r: ActionDescriptor) -> Ordering {
    match (l, r) {
        (
            ActionDescriptor::BeginChainMagic {
                card_id: lc,
                card_instance_id: li,
                caster_instance_id: lk,
                target: lt,
            },
            ActionDescriptor::BeginChainMagic {
                card_id: rc,
                card_instance_id: ri,
                caster_instance_id: rk,
                target: rt,
            },
        ) => then_order(
            json_text_order(lc@, rc@),
            then_order(
                identity_order(li@, ri@),
                then_order(identity_order(lk@, rk@), unit_target_order(lt, rt)),
            ),
        ),
        _ => Ordering::Equal,
    }
}

/// Order of two Cast Magic actions.
pub open spec fn cast_magic_order(l: ActionDescriptor, r: ActionDescriptor) -> Ordering {
    match (l, r) {
        (
            ActionDescriptor::CastMagic {
                ally: la,
                ally_destination: ld,
                ally_strike_location: ls,
                card_id: lc,
                card_instance_id: li,
                caster_instance_id: lk,
                cemetery_minion_instance_id: lm,
                target: lt,
                target_location: ll,
                target_site_instance_id: lsite,
            },
            ActionDescriptor::CastMagic {
                ally: ra,
                ally_destination: rd,
                ally_strike_location: rs,
                card_id: rc,
                card_instance_id: ri,
                caster_instance_id: rk,
                cemetery_minion_instance_id: rm,
                target: rt,
                target_location: rl,
                target_site_instance_id: rsite,
            },
        ) => then_order(
            option_order(la, ra, unit_target_elem()),
            then_order(
                option_order(ld, rd, location_elem()),
                then_order(
                    option_order(ls, rs, location_elem()),
                    then_order(
                        json_text_order(lc@, rc@),
                        then_order(
                            identity_order(li@, ri@),
                            then_order(
                                identity_order(lk@, rk@),
                                then_order(
                                    option_order(lm, rm, id_elem()),
                                    then_order(
                                        option_order(lt, rt, unit_target_elem()),
                                        then_order(
                                            option_order(ll, rl, location_elem()),
                                            option_order(lsite, rsite, id_elem()),
                                        ),
                                    ),
                                ),
                            ),
                        ),
                    ),
                ),
            ),
        ),
        _ => Ordering::Equal,
    }
}

/// Order of two Summon Minion actions.
pub open spec fn summon_order(l: ActionDescriptor, r: ActionDescriptor) -> Ordering {
    match (l, r) {
        (
            ActionDescriptor::SummonMinion {
                card_id: lc,
                card_instance_id: li,
                caster_instance_id: lk,
                cell: lcell,
                cells: lcells,
                genesis_damage_choice: lg,
                genesis_damage_target: lt,
                mana_cost: lmana,
                payment_mode: lp,
                sacrificed_minion_instance_ids: ls,
            },
            ActionDescriptor::SummonMinion {
                card_id: rc,
                card_instance_id: ri,
                caster_instance_id: rk,
                cell: rcell,
                cells: rcells,
                genesis_damage_choice: rg,
                genesis_damage_target: rt,
                mana_cost: rmana,
                payment_mode: rp,
                sacrificed_minion_instance_ids: rs,
            },
        ) => then_order(
            json_text_order(lc@, rc@),
            then_order(
                identity_order(li@, ri@),
                then_order(
                    identity_order(lk@, rk@),
                    then_order(
                        cell_order(lcell, rcell),
                        then_order(
                            option_order(
                                lcells,
                                rcells,
                                |x: SquareArea, y: SquareArea| array_order(x@, y@, cell_elem()),
                            ),
                            then_order(
                                option_order(
                                    lg,
                                    rg,
                                    |x: GenesisDamageChoice, y: GenesisDamageChoice|
                                        int_order(damage_choice_code(x), damage_choice_code(y)),
                                ),
                                then_order(
                                    option_order(lt, rt, unit_target_elem()),
                                    then_order(
                                        json_int_order(lmana, rmana),
                                        then_order(
                                            option_order(
                                                lp,
                                                rp,
                                                |x: SummonPaymentMode, y: SummonPaymentMode|
                                                    int_order(payment_code(x), payment_code(y)),
                                            ),
                                            option_order(
                                                ls,
                                                rs,
                                                |x: Vec<IdentityHash>, y: Vec<IdentityHash>|
                                                    array_order(x@, y@, id_elem()),
                                            ),
                                        ),
                                    ),
                                ),
                            ),
                        ),
                    ),
                ),
            ),
        ),
        _ => Ordering::Equal,
    }
}

/// The fields of a projectile action: direction, hit, kind name, path, shooter.
pub open spec fn projectile_spec(d: ActionDescriptor) -> (
    ProjectileDirection,
    Option<UnitTarget>,
    Seq<char>,
    Seq<Location>,
    Seq<char>,
) {
    match d {
        ActionDescriptor::ShootDamageProjectile { direction, hit, path, shooter_instance_id } => (
            direction,
            hit,
            "shoot-damage-projectile"@,
            path@,
            shooter_instance_id@,
        ),
        ActionDescriptor::ShootProjectile { direction, hit, path, shooter_instance_id } => (
            direction,
            hit,
            "shoot-projectile"@,
            path@,
            shooter_instance_id@,
        ),
        _ => (ProjectileDirection::East, None, Seq::empty(), Seq::empty(), Seq::empty()),
    }
}

/// Order of two projectile actions of either kind.
pub open spec fn projectile_order(l: ActionDescriptor, r: ActionDescriptor) -> Ordering {
    let (ld, lh, lk, lp, ls) = projectile_spec(l);
    let (rd, rh, rk, rp, rs) = projectile_spec(r);
    then_order(
        int_order(direction_code(ld), direction_code(rd)),
        then_order(
            nullable_target_order(lh, rh),
            then_order(
                json_text_order(lk, rk),
                then_order(array_order(lp, rp, location_elem()), identity_order(ls, rs)),
            ),
        ),
    )
}

/// The fields of a movement action: origin, path, destination, unit.
pub open spec fn movement_spec(d: ActionDescriptor) -> (Location, Seq<Location>, Location, Seq<char>) {
    match d {
        ActionDescriptor::MoveAndAttack { from, path, to, unit_instance_id } => (
            from,
            path@,
            to,
            unit_instance_id@,
        ),
        ActionDescriptor::Defend { from, path, to, unit_instance_id } => (
            from,
            path@,
            to,
            unit_instance_id@,
        ),
        _ => (
            Location { cell: arbitrary(), region: Region::Surface },
            Seq::empty(),
            Location { cell: arbitrary(), region: Region::Surface },
            Seq::empty(),
        ),
    }
}

/// Order of two movement actions of the same kind.
pub open spec fn movement_order(l: ActionDescriptor, r: ActionDescriptor) -> Ordering {
    let (lf, lp, lt, lu) = movement_spec(l);
    let (rf, rp, rt, ru) = movement_spec(r);
    then_order(
        location_order(lf, rf),
        then_order(
            array_order(lp, rp, location_elem()),
            then_order(location_order(lt, rt), identity_order(lu, ru)),
        ),
    )
}

/// Order of two actions of the same kind outside the special groups.
pub open spec fn same_kind_order(l: ActionDescriptor, r: ActionDescriptor) -> Ordering {
    match (l, r) {
        (
            ActionDescriptor::ActivateSiteDestruction {
                source_site_instance_id: ls,
                target_cell: lc,
                target_site_instance_id: lt,
            },
            ActionDescriptor::ActivateSiteDestruction {
                source_site_instance_id: rs,
                target_cell: rc,
                target_site_instance_id: rt,
            },
        ) => then_order(
            identity_order(ls@, rs@),
            then_order(cell_order(lc, rc), identity_order(lt@, rt@)),
        ),
        (
            ActionDescriptor::ActivateSparkmage { source_instance_id: ls, target_location: ll },
            ActionDescriptor::ActivateSparkmage { source_instance_id: rs, target_location: rl },
        ) => then_order(identity_order(ls@, rs@), location_order(ll, rl)),
        (
            ActionDescriptor::CloseDefend { original_target_participates: lp },
            ActionDescriptor::CloseDefend { original_target_participates: rp },
        ) => int_order(if lp { 1 } else { 0 }, if rp { 1 } else { 0 }),
        (
            ActionDescriptor::ExtendChainMagic { target: lt },
            ActionDescriptor::ExtendChainMagic { target: rt },
        ) => unit_target_order(lt, rt),
        (
            ActionDescriptor::Intercept { unit_instance_id: lu },
            ActionDescriptor::Intercept { unit_instance_id: ru },
        ) => identity_order(lu@, ru@),
        (
            ActionDescriptor::OrderDeathrites { source_instance_id: lu },
            ActionDescriptor::OrderDeathrites { source_instance_id: ru },
        ) => identity_order(lu@, ru@),
        (
            ActionDescriptor::ContinueBasicMovement { unit_instance_id: lu },
            ActionDescriptor::ContinueBasicMovement { unit_instance_id: ru },
        ) => identity_order(lu@, ru@),
        (
            ActionDescriptor::DeclareAttack { target: lt },
            ActionDescriptor::DeclareAttack { target: rt },
        ) => combat_target_order(lt, rt),
        (ActionDescriptor::Draw { zone: lz }, ActionDescriptor::Draw { zone: rz }) => int_order(
            deck_zone_code(lz),
            deck_zone_code(rz),
        ),
        (
            ActionDescriptor::ReplaceRubbleWithTopAtlasSite {
                target_cell: lc,
                target_rubble_instance_id: li,
            },
            ActionDescriptor::ReplaceRubbleWithTopAtlasSite {
                target_cell: rc,
                target_rubble_instance_id: ri,
            },
        ) => then_order(cell_order(lc, rc), identity_order(li@, ri@)),
        (
            ActionDescriptor::ResolveGenesisSpell { choice: lc },
            ActionDescriptor::ResolveGenesisSpell { choice: rc },
        ) => int_order(spell_choice_code(lc), spell_choice_code(rc)),
        (
            ActionDescriptor::ResolveGenesisSpellOrder { order: lo },
            ActionDescriptor::ResolveGenesisSpellOrder { order: ro },
        ) => array_order(lo@, ro@, byte_elem()),
        (
            ActionDescriptor::ResolveGenesisToken { choice: lc },
            ActionDescriptor::ResolveGenesisToken { choice: rc },
        ) => int_order(token_choice_code(lc), token_choice_code(rc)),
        (
            ActionDescriptor::ResolveRangedStep {
                choice: lc,
                path: lp,
                unit_instance_id: lu,
                ..
            },
            ActionDescriptor::ResolveRangedStep {
                choice: rc,
                path: rp,
                unit_instance_id: ru,
                ..
            },
        ) => then_order(
            int_order(step_choice_code(lc), step_choice_code(rc)),
            then_order(
                option_order(
                    lp,
                    rp,
                    |x: Vec<Location>, y: Vec<Location>| array_order(x@, y@, location_elem()),
                ),
                identity_order(lu@, ru@),
            ),
        ),
        _ => Ordering::Equal,
    }
}

/// Order of two descriptors in the same group.
pub open spec fn same_group_order(l: ActionDescriptor, r: ActionDescriptor) -> Ordering {
    if l is ActivateMana && r is ActivateMana {
        match (l, r) {
            (
                ActionDescriptor::ActivateMana { amount: la, unit_instance_id: lu },
                ActionDescriptor::ActivateMana { amount: ra, unit_instance_id: ru },
            ) => then_order(json_int_order(la, ra), identity_order(lu@, ru@)),
            _ => Ordering::Equal,
        }
    } else if l is AllocateStrike && r is AllocateStrike {
        match (l, r) {
            (
                ActionDescriptor::AllocateStrike { amount: la, target_instance_id: lt },
                ActionDescriptor::AllocateStrike { amount: ra, target_instance_id: rt },
            ) => then_order(json_int_order(la, ra), identity_order(lt@, rt@)),
            _ => Ordering::Equal,
        }
    } else if l is ActivateMana && r is AllocateStrike {
        match (l, r) {
            (
                ActionDescriptor::ActivateMana { amount: la, .. },
                ActionDescriptor::AllocateStrike { amount: ra, .. },
            ) => then_order(json_int_order(la, ra), Ordering::Less),
            _ => Ordering::Equal,
        }
    } else if l is AllocateStrike && r is ActivateMana {
        match (l, r) {
            (
                ActionDescriptor::AllocateStrike { amount: la, .. },
                ActionDescriptor::ActivateMana { amount: ra, .. },
            ) => then_order(json_int_order(la, ra), Ordering::Greater),
            _ => Ordering::Equal,
        }
    } else if l is Mulligan && r is Mulligan {
        match (l, r) {
            (
                ActionDescriptor::Mulligan { atlas_order: la, spellbook_order: ls },
                ActionDescriptor::Mulligan { atlas_order: ra, spellbook_order: rs },
            ) => then_order(array_order(la@, ra@, id_elem()), array_order(ls@, rs@, id_elem())),
            _ => Ordering::Equal,
        }
    } else if l is PlaySite && r is PlaySite {
        play_site_order(l, r)
    } else if l is BeginChainMagic && r is BeginChainMagic {
        begin_chain_order(l, r)
    } else if l is CastMagic && r is CastMagic {
        cast_magic_order(l, r)
    } else if l is SummonMinion && r is SummonMinion {
        summon_order(l, r)
    } else if is_card_action(l) && is_card_action(r) {
        then_order(card_prefix_order(l, r), int_order(card_kind_rank(l), card_kind_rank(r)))
    } else if (l is ShootProjectile || l is ShootDamageProjectile) && (r is ShootProjectile
        || r is ShootDamageProjectile) {
        projectile_order(l, r)
    } else if (l is MoveAndAttack && r is MoveAndAttack) || (l is Defend && r is Defend) {
        movement_order(l, r)
    } else if l is Defend && r is MoveAndAttack {
        then_order(location_order(movement_spec(l).0, movement_spec(r).0), Ordering::Less)
    } else if l is MoveAndAttack && r is Defend {
        then_order(location_order(movement_spec(l).0, movement_spec(r).0), Ordering::Greater)
    } else {
        then_order(int_order(action_kind_spec(l), action_kind_spec(r)), same_kind_order(l, r))
    }
}

/// The canonical order of two action descriptors.
pub open spec fn canonical_order(l: ActionDescriptor, r: ActionDescriptor) -> Ordering {
    then_order(int_order(descriptor_group_spec(l), descriptor_group_spec(r)), same_group_order(l, r))
}

// ---------------------------------------------------------------------------
// Executable comparisons.
// ---------------------------------------------------------------------------

fn then(first: Ordering, second: Ordering) -> (r: Ordering)
    ensures
        r == then_order(first, second),
{
    match first {
        Ordering::Equal => second,
        _ => first,
    }
}

fn compare_small(a: u8, b: u8) -> (r: Ordering)
    ensures
        r == int_order(byte_code(a), byte_code(b)),
{
    if a < b {
        Ordering::Less
    } else if a > b {
        Ordering::Greater
    } else {
        Ordering::Equal
    }
}

fn compare_cells(a: Cell, b: Cell) -> (r: Ordering)
    ensures
        r == cell_order(a, b),
{
    let x = a.index();
    let y = b.index();
    if x < y {
        Ordering::Less
    } else if x > y {
        Ordering::Greater
    } else {
        Ordering::Equal
    }
}

fn region_rank(r: Region) -> (n: u8)
    ensures
        n == region_code(r),
{
    match r {
        Region::Surface => 0,
        Region::Underground => 1,
        Region::Underwater => 2,
        Region::Void => 3,
    }
}

fn seat_rank(s: Seat) -> (n: u8)
    ensures
        n == seat_code(s),
{
    match s {
        Seat::North => 0,
        Seat::South => 1,
    }
}

/// Compares two locations by cell, then region.
pub fn compare_locations(a: Location, b: Location) -> (r: Ordering)
    ensures
        r == location_order(a, b),
{
    then(compare_cells(a.cell, b.cell), compare_small(region_rank(a.region), region_rank(b.region)))
}

/// Compares two strings by their canonical JSON text.
pub fn compare_json_strings(left: &str, right: &str) -> (r: Ordering)
    ensures
        r == json_text_order(left@, right@),
{
    let a = json_string_tail_chars(left);
    let b = json_string_tail_chars(right);
    compare_chars(&a, &b)
}

/// Compares two integers by their canonical JSON (decimal) text.
pub fn compare_json_integers(left: u64, right: u64) -> (r: Ordering)
    ensures
        r == json_int_order(left, right),
{
    let a = decimal_char_vec(left);
    let b = decimal_char_vec(right);
    compare_chars(&a, &b)
}

proof fn lemma_array_order_skip<T>(a: Seq<T>, b: Seq<T>, e: spec_fn(T, T) -> Ordering, i: int)
    requires
        0 <= i <= a.len(),
        i <= b.len(),
        forall|j: int| 0 <= j < i ==> e(a[j], b[j]) == Ordering::Equal,
    ensures
        array_order(a, b, e) == array_order(a.skip(i), b.skip(i), e),
    decreases i,
{
    if i > 0 {
        lemma_array_order_skip(a.skip(1), b.skip(1), e, i - 1);
        assert(a.skip(1).skip(i - 1) =~= a.skip(i));
        assert(b.skip(1).skip(i - 1) =~= b.skip(i));
    } else {
        assert(a.skip(0) =~= a);
        assert(b.skip(0) =~= b);
    }
}

fn compare_identity_arrays(a: &[IdentityHash], b: &[IdentityHash]) -> (r: Ordering)
    ensures
        r == array_order(a@, b@, id_elem()),
{
    let mut i: usize = 0;
    while i < a.len() && i < b.len()
        invariant
            i <= a@.len(),
            i <= b@.len(),
            forall|j: int| 0 <= j < i ==> id_elem()(a@[j], b@[j]) == Ordering::Equal,
        decreases a@.len() - i,
    {
        let o = compare_identities(&a[i], &b[i]);
        match o {
            Ordering::Equal => {},
            _ => {
                proof {
                    lemma_array_order_skip(a@, b@, id_elem(), usize_int(i));
                }
                return o;
            },
        }
        i = i + 1;
    }
    proof {
        lemma_array_order_skip(a@, b@, id_elem(), usize_int(i));
    }
    compare_lengths(b.len(), a.len())
}

fn compare_lengths(a: usize, b: usize) -> (r: Ordering)
    ensures
        r == int_order(usize_int(a), usize_int(b)),
{
    if a < b {
        Ordering::Less
    } else if a > b {
        Ordering::Greater
    } else {
        Ordering::Equal
    }
}

fn compare_location_arrays(a: &[Location], b: &[Location]) -> (r: Ordering)
    ensures
        r == array_order(a@, b@, location_elem()),
{
    let mut i: usize = 0;
    while i < a.len() && i < b.len()
        invariant
            i <= a@.len(),
            i <= b@.len(),
            forall|j: int| 0 <= j < i ==> location_elem()(a@[j], b@[j]) == Ordering::Equal,
        decreases a@.len() - i,
    {
        let o = compare_locations(a[i], b[i]);
        match o {
            Ordering::Equal => {},
            _ => {
                proof {
                    lemma_array_order_skip(a@, b@, location_elem(), usize_int(i));
                }
                return o;
            },
        }
        i = i + 1;
    }
    proof {
        lemma_array_order_skip(a@, b@, location_elem(), usize_int(i));
    }
    compare_lengths(b.len(), a.len())
}

fn compare_byte_arrays(a: &[u8], b: &[u8]) -> (r: Ordering)
    ensures
        r == array_order(a@, b@, byte_elem()),
{
    let mut i: usize = 0;
    while i < a.len() && i < b.len()
        invariant
            i <= a@.len(),
            i <= b@.len(),
            forall|j: int| 0 <= j < i ==> byte_elem()(a@[j], b@[j]) == Ordering::Equal,
        decreases a@.len() - i,
    {
        let o = compare_small(a[i], b[i]);
        match o {
            Ordering::Equal => {},
            _ => {
                proof {
                    lemma_array_order_skip(a@, b@, byte_elem(), usize_int(i));
                }
                return o;
            },
        }
        i = i + 1;
    }
    proof {
        lemma_array_order_skip(a@, b@, byte_elem(), usize_int(i));
    }
    compare_lengths(b.len(), a.len())
}

fn compare_square_areas(a: &SquareArea, b: &SquareArea) -> (r: Ordering)
    ensures
        r == array_order(a@, b@, cell_elem()),
{
    let mut i: usize = 0;
    while i < 4
        invariant
            i <= 4,
            a@.len() == 4,
            b@.len() == 4,
            forall|j: int| 0 <= j < i ==> cell_elem()(a@[j], b@[j]) == Ordering::Equal,
        decreases 4 - i,
    {
        let o = compare_cells(a[i], b[i]);
        match o {
            Ordering::Equal => {},
            _ => {
                proof {
                    lemma_array_order_skip(a@, b@, cell_elem(), usize_int(i));
                }
                return o;
            },
        }
        i = i + 1;
    }
    proof {
        lemma_array_order_skip(a@, b@, cell_elem(), usize_int(i));
    }
    Ordering::Equal
}

/// Compares two unit targets by identity, kind, then seat.
pub fn compare_unit_targets(left: &UnitTarget, right: &UnitTarget) -> (r: Ordering)
    ensures
        r == unit_target_order(*left, *right),
{
    let lk: u8 = match left {
        UnitTarget::Avatar { .. } => 0,
        UnitTarget::Minion { .. } => 1,
    };
    let rk: u8 = match right {
        UnitTarget::Avatar { .. } => 0,
        UnitTarget::Minion { .. } => 1,
    };
    then(
        compare_identities(left.instance_id(), right.instance_id()),
        then(compare_small(lk, rk), compare_small(seat_rank(left.seat()), seat_rank(right.seat()))),
    )
}

/// Compares two combat targets by identity, kind, then seat.
pub fn compare_targets(left: &CombatTarget, right: &CombatTarget) -> (r: Ordering)
    ensures
        r == combat_target_order(*left, *right),
{
    let lk: u8 = match left {
        CombatTarget::Avatar { .. } => 0,
        CombatTarget::Minion { .. } => 1,
        CombatTarget::Site { .. } => 2,
    };
    let rk: u8 = match right {
        CombatTarget::Avatar { .. } => 0,
        CombatTarget::Minion { .. } => 1,
        CombatTarget::Site { .. } => 2,
    };
    then(
        compare_identities(left.instance_id(), right.instance_id()),
        then(compare_small(lk, rk), compare_small(seat_rank(left.seat()), seat_rank(right.seat()))),
    )
}

fn compare_optional_unit_targets(left: &Option<UnitTarget>, right: &Option<UnitTarget>) -> (r:
    Ordering)
    ensures
        r == option_order(*left, *right, unit_target_elem()),
{
    match (left, right) {
        (Some(l), Some(r)) => compare_unit_targets(l, r),
        (Some(_), None) => Ordering::Less,
        (None, Some(_)) => Ordering::Greater,
        (None, None) => Ordering::Equal,
    }
}

fn compare_nullable_unit_targets(left: &Option<UnitTarget>, right: &Option<UnitTarget>) -> (r:
    Ordering)
    ensures
        r == nullable_target_order(*left, *right),
{
    match (left, right) {
        (Some(l), Some(r)) => compare_unit_targets(l, r),
        (Some(_), None) => Ordering::Greater,
        (None, Some(_)) => Ordering::Less,
        (None, None) => Ordering::Equal,
    }
}

fn compare_optional_identities(left: &Option<IdentityHash>, right: &Option<IdentityHash>) -> (r:
    Ordering)
    ensures
        r == option_order(*left, *right, id_elem()),
{
    match (left, right) {
        (Some(l), Some(r)) => compare_identities(l, r),
        (Some(_), None) => Ordering::Less,
        (None, Some(_)) => Ordering::Greater,
        (None, None) => Ordering::Equal,
    }
}

fn compare_optional_identity_arrays(
    left: &Option<Vec<IdentityHash>>,
    right: &Option<Vec<IdentityHash>>,
) -> (r: Ordering)
    ensures
        r == option_order(
            *left,
            *right,
            |x: Vec<IdentityHash>, y: Vec<IdentityHash>| array_order(x@, y@, id_elem()),
        ),
{
    match (left, right) {
        (Some(l), Some(r)) => compare_identity_arrays(l.as_slice(), r.as_slice()),
        (Some(_), None) => Ordering::Less,
        (None, Some(_)) => Ordering::Greater,
        (None, None) => Ordering::Equal,
    }
}

fn compare_optional_cells(left: Option<Cell>, right: Option<Cell>) -> (r: Ordering)
    ensures
        r == option_order(left, right, cell_elem()),
{
    match (left, right) {
        (Some(l), Some(r)) => compare_cells(l, r),
        (Some(_), None) => Ordering::Less,
        (None, Some(_)) => Ordering::Greater,
        (None, None) => Ordering::Equal,
    }
}

fn compare_optional_locations(left: Option<Location>, right: Option<Location>) -> (r: Ordering)
    ensures
        r == option_order(left, right, location_elem()),
{
    match (left, right) {
        (Some(l), Some(r)) => compare_locations(l, r),
        (Some(_), None) => Ordering::Less,
        (None, Some(_)) => Ordering::Greater,
        (None, None) => Ordering::Equal,
    }
}

fn compare_optional_square_areas(left: &Option<SquareArea>, right: &Option<SquareArea>) -> (r:
    Ordering)
    ensures
        r == option_order(
            *left,
            *right,
            |x: SquareArea, y: SquareArea| array_order(x@, y@, cell_elem()),
        ),
{
    match (left, right) {
        (Some(l), Some(r)) => compare_square_areas(l, r),
        (Some(_), None) => Ordering::Less,
        (None, Some(_)) => Ordering::Greater,
        (None, None) => Ordering::Equal,
    }
}

fn compare_optional_genesis_choices(
    left: Option<GenesisTokenChoice>,
    right: Option<GenesisTokenChoice>,
) -> (r: Ordering)
    ensures
        r == option_order(
            left,
            right,
            |x: GenesisTokenChoice, y: GenesisTokenChoice|
                int_order(token_choice_code(x), token_choice_code(y)),
        ),
{
    match (left, right) {
        (Some(l), Some(r)) => compare_small(token_rank(l), token_rank(r)),
        (Some(_), None) => Ordering::Less,
        (None, Some(_)) => Ordering::Greater,
        (None, None) => Ordering::Equal,
    }
}

fn token_rank(c: GenesisTokenChoice) -> (n: u8)
    ensures
        n == token_choice_code(c),
{
    match c {
        GenesisTokenChoice::Decline => 0,
        GenesisTokenChoice::PayOneMana => 1,
    }
}

fn compare_optional_genesis_damage_choices(
    left: Option<GenesisDamageChoice>,
    right: Option<GenesisDamageChoice>,
) -> (r: Ordering)
    ensures
        r == option_order(
            left,
            right,
            |x: GenesisDamageChoice, y: GenesisDamageChoice|
                int_order(damage_choice_code(x), damage_choice_code(y)),
        ),
{
    match (left, right) {
        (Some(l), Some(r)) => {
            let a: u8 = match l {
                GenesisDamageChoice::Decline => 0,
                GenesisDamageChoice::Target => 1,
            };
            let b: u8 = match r {
                GenesisDamageChoice::Decline => 0,
                GenesisDamageChoice::Target => 1,
            };
            compare_small(a, b)
        },
        (Some(_), None) => Ordering::Less,
        (None, Some(_)) => Ordering::Greater,
        (None, None) => Ordering::Equal,
    }
}

fn compare_optional_summon_payments(
    left: Option<SummonPaymentMode>,
    right: Option<SummonPaymentMode>,
) -> (r: Ordering)
    ensures
        r == option_order(
            left,
            right,
            |x: SummonPaymentMode, y: SummonPaymentMode| int_order(payment_code(x), payment_code(y)),
        ),
{
    match (left, right) {
        (Some(_), Some(_)) => Ordering::Equal,
        (Some(_), None) => Ordering::Less,
        (None, Some(_)) => Ordering::Greater,
        (None, None) => Ordering::Equal,
    }
}

/// The canonical group of a descriptor.
pub fn descriptor_group(action: &ActionDescriptor) -> (r: u8)
    ensures
        r == descriptor_group_spec(*action),
{
    match action {
        ActionDescriptor::CastMagic { ally: Some(_), .. } => 0,
        ActionDescriptor::ActivateMana { .. } | ActionDescriptor::AllocateStrike { .. } => 1,
        ActionDescriptor::Mulligan { .. } => 2,
        ActionDescriptor::BeginChainMagic { .. }
        | ActionDescriptor::CastMagic { .. }
        | ActionDescriptor::PlaySite { .. }
        | ActionDescriptor::SummonMinion { .. } => 3,
        ActionDescriptor::ShootDamageProjectile { .. }
        | ActionDescriptor::ShootProjectile { .. } => 4,
        ActionDescriptor::Defend { .. } | ActionDescriptor::MoveAndAttack { .. } => 5,
        _ => 6,
    }
}

/// The canonical kind rank of a descriptor.
pub fn action_kind(action: &ActionDescriptor) -> (r: u8)
    ensures
        r == action_kind_spec(*action),
{
    match action {
        ActionDescriptor::ActivateMana { .. } => 0,
        ActionDescriptor::ActivateSiteDestruction { .. } => 1,
        ActionDescriptor::ActivateSparkmage { .. } => 2,
        ActionDescriptor::AllocateStrike { .. } => 3,
        ActionDescriptor::BeginChainMagic { .. } => 4,
        ActionDescriptor::CastMagic { .. } => 5,
        ActionDescriptor::CloseDefend { .. } => 6,
        ActionDescriptor::CloseIntercept {  } => 7,
        ActionDescriptor::ContinueBasicMovement { .. } => 8,
        ActionDescriptor::DeclareAttack { .. } => 9,
        ActionDescriptor::DeclineAttack => 10,
        ActionDescriptor::Defend { .. } => 11,
        ActionDescriptor::Draw { .. } => 12,
        ActionDescriptor::DrawSite => 13,
        ActionDescriptor::DrawSpell => 14,
        ActionDescriptor::EndTurn => 15,
        ActionDescriptor::ExtendChainMagic { .. } => 16,
        ActionDescriptor::Intercept { .. } => 17,
        ActionDescriptor::OrderDeathrites { .. } => 18,
        ActionDescriptor::ReplaceRubbleWithTopAtlasSite { .. } => 19,
        ActionDescriptor::ResolveChainMagic => 20,
        ActionDescriptor::ResolveGenesisSpell { .. } => 21,
        ActionDescriptor::ResolveGenesisSpellOrder { .. } => 22,
        ActionDescriptor::ResolveGenesisToken { .. } => 23,
        ActionDescriptor::ResolveRangedStep { .. } => 24,
        ActionDescriptor::Mulligan { .. } => 25,
        ActionDescriptor::PlaySite { .. } => 26,
        ActionDescriptor::ShootDamageProjectile { .. } => 27,
        ActionDescriptor::ShootProjectile { .. } => 28,
        ActionDescriptor::SummonMinion { .. } | ActionDescriptor::MoveAndAttack { .. } => 29,
    }
}

fn card_prefix(action: &ActionDescriptor) -> (r: (&String, &IdentityHash))
    requires
        is_card_action(*action),
    ensures
        r.0@ == card_prefix_spec(*action).0,
        r.1@ == card_prefix_spec(*action).1,
    decreases 0nat,
{
    match action {
        ActionDescriptor::PlaySite { card_id, card_instance_id, .. } => (card_id, card_instance_id),
        ActionDescriptor::CastMagic { card_id, card_instance_id, .. } => (card_id, card_instance_id),
        ActionDescriptor::BeginChainMagic { card_id, card_instance_id, .. } => (
            card_id,
            card_instance_id,
        ),
        ActionDescriptor::SummonMinion { card_id, card_instance_id, .. } => (
            card_id,
            card_instance_id,
        ),
        _ => {
            proof {
                assert(false);
            }
            card_prefix(action)
        },
    }
}

fn compare_card_prefix(left: &ActionDescriptor, right: &ActionDescriptor) -> (r: Ordering)
    requires
        is_card_action(*left),
        is_card_action(*right),
    ensures
        r == card_prefix_order(*left, *right),
{
    let (left_card, left_instance) = card_prefix(left);
    let (right_card, right_instance) = card_prefix(right);
    then(
        compare_json_strings(left_card.as_str(), right_card.as_str()),
        compare_identities(left_instance, right_instance),
    )
}

fn card_rank(action: &ActionDescriptor) -> (r: u8)
    ensures
        r == card_kind_rank(*action),
{
    match action {
        ActionDescriptor::SummonMinion { .. } => 0,
        ActionDescriptor::BeginChainMagic { .. } => 1,
        ActionDescriptor::CastMagic { .. } => 2,
        _ => 3,
    }
}

fn compare_play_sites(left: &ActionDescriptor, right: &ActionDescriptor) -> (r: Ordering)
    ensures
        r == play_site_order(*left, *right),
{
    match (left, right) {
        (
            ActionDescriptor::PlaySite {
                card_id: lc,
                card_instance_id: li,
                cell: lcell,
                create_rubble_at: lr,
                genesis_token_choice: lg,
            },
            ActionDescriptor::PlaySite {
                card_id: rc,
                card_instance_id: ri,
                cell: rcell,
                create_rubble_at: rr,
                genesis_token_choice: rg,
            },
        ) => then(
            compare_json_strings(lc.as_str(), rc.as_str()),
            then(
                compare_identities(li, ri),
                then(
                    compare_cells(*lcell, *rcell),
                    then(
                        compare_optional_cells(*lr, *rr),
                        compare_optional_genesis_choices(*lg, *rg),
                    ),
                ),
            ),
        ),
        _ => Ordering::Equal,
    }
}

fn compare_begin_chains(left: &ActionDescriptor, right: &ActionDescriptor) -> (r: Ordering)
    ensures
        r == begin_chain_order(*left, *right),
{
    match (left, right) {
        (
            ActionDescriptor::BeginChainMagic {
                card_id: lc,
                card_instance_id: li,
                caster_instance_id: lk,
                target: lt,
            },
            ActionDescriptor::BeginChainMagic {
                card_id: rc,
                card_instance_id: ri,
                caster_instance_id: rk,
                target: rt,
            },
        ) => then(
            compare_json_strings(lc.as_str(), rc.as_str()),
            then(
                compare_identities(li, ri),
                then(compare_identities(lk, rk), compare_unit_targets(lt, rt)),
            ),
        ),
        _ => Ordering::Equal,
    }
}

fn compare_cast_magic(left: &ActionDescriptor, right: &ActionDescriptor) -> (r: Ordering)
    ensures
        r == cast_magic_order(*left, *right),
{
    match (left, right) {
        (
            ActionDescriptor::CastMagic {
                ally: la,
                ally_destination: ld,
                ally_strike_location: ls,
                card_id: lc,
                card_instance_id: li,
                caster_instance_id: lk,
                cemetery_minion_instance_id: lm,
                target: lt,
                target_location: ll,
                target_site_instance_id: lsite,
            },
            ActionDescriptor::CastMagic {
                ally: ra,
                ally_destination: rd,
                ally_strike_location: rs,
                card_id: rc,
                card_instance_id: ri,
                caster_instance_id: rk,
                cemetery_minion_instance_id: rm,
                target: rt,
                target_location: rl,
                target_site_instance_id: rsite,
            },
        ) => then(
            compare_optional_unit_targets(la, ra),
            then(
                compare_optional_locations(*ld, *rd),
                then(
                    compare_optional_locations(*ls, *rs),
                    then(
                        compare_json_strings(lc.as_str(), rc.as_str()),
                        then(
                            compare_identities(li, ri),
                            then(
                                compare_identities(lk, rk),
                                then(
                                    compare_optional_identities(lm, rm),
                                    then(
                                        compare_optional_unit_targets(lt, rt),
                                        then(
                                            compare_optional_locations(*ll, *rl),
                                            compare_optional_identities(lsite, rsite),
                                        ),
                                    ),
                                ),
                            ),
                        ),
                    ),
                ),
            ),
        ),
        _ => Ordering::Equal,
    }
}

fn compare_summons(left: &ActionDescriptor, right: &ActionDescriptor) -> (r: Ordering)
    ensures
        r == summon_order(*left, *right),
{
    match (left, right) {
        (
            ActionDescriptor::SummonMinion {
                card_id: lc,
                card_instance_id: li,
                caster_instance_id: lk,
                cell: lcell,
                cells: lcells,
                genesis_damage_choice: lg,
                genesis_damage_target: lt,
                mana_cost: lmana,
                payment_mode: lp,
                sacrificed_minion_instance_ids: ls,
            },
            ActionDescriptor::SummonMinion {
                card_id: rc,
                card_instance_id: ri,
                caster_instance_id: rk,
                cell: rcell,
                cells: rcells,
                genesis_damage_choice: rg,
                genesis_damage_target: rt,
                mana_cost: rmana,
                payment_mode: rp,
                sacrificed_minion_instance_ids: rs,
            },
        ) => then(
            compare_json_strings(lc.as_str(), rc.as_str()),
            then(
                compare_identities(li, ri),
                then(
                    compare_identities(lk, rk),
                    then(
                        compare_cells(*lcell, *rcell),
                        then(
                            compare_optional_square_areas(lcells, rcells),
                            then(
                                compare_optional_genesis_damage_choices(*lg, *rg),
                                then(
                                    compare_optional_unit_targets(lt, rt),
                                    then(
                                        compare_json_integers(*lmana, *rmana),
                                        then(
                                            compare_optional_summon_payments(*lp, *rp),
                                            compare_optional_identity_arrays(ls, rs),
                                        ),
                                    ),
                                ),
                            ),
                        ),
                    ),
                ),
            ),
        ),
        _ => Ordering::Equal,
    }
}

fn projectile_fields(action: &ActionDescriptor) -> (r: (
    ProjectileDirection,
    &Option<UnitTarget>,
    &'static str,
    &Vec<Location>,
    &IdentityHash,
))
    requires
        action is ShootProjectile || action is ShootDamageProjectile,
    ensures
        r.0 == projectile_spec(*action).0,
        *r.1 == projectile_spec(*action).1,
        r.2@ == projectile_spec(*action).2,
        r.3@ == projectile_spec(*action).3,
        r.4@ == projectile_spec(*action).4,
    decreases 0nat,
{
    match action {
        ActionDescriptor::ShootDamageProjectile { direction, hit, path, shooter_instance_id } => (
            *direction,
            hit,
            "shoot-damage-projectile",
            path,
            shooter_instance_id,
        ),
        ActionDescriptor::ShootProjectile { direction, hit, path, shooter_instance_id } => (
            *direction,
            hit,
            "shoot-projectile",
            path,
            shooter_instance_id,
        ),
        _ => {
            proof {
                assert(false);
            }
            projectile_fields(action)
        },
    }
}

fn direction_rank(d: ProjectileDirection) -> (n: u8)
    ensures
        n == direction_code(d),
{
    match d {
        ProjectileDirection::East => 0,
        ProjectileDirection::North => 1,
        ProjectileDirection::South => 2,
        ProjectileDirection::West => 3,
    }
}

fn compare_projectiles(left: &ActionDescriptor, right: &ActionDescriptor) -> (r: Ordering)
    requires
        left is ShootProjectile || left is ShootDamageProjectile,
        right is ShootProjectile || right is ShootDamageProjectile,
    ensures
        r == projectile_order(*left, *right),
{
    let (ld, lh, lk, lp, ls) = projectile_fields(left);
    let (rd, rh, rk, rp, rs) = projectile_fields(right);
    then(
        compare_small(direction_rank(ld), direction_rank(rd)),
        then(
            compare_nullable_unit_targets(lh, rh),
            then(
                compare_json_strings(lk, rk),
                then(compare_location_arrays(lp.as_slice(), rp.as_slice()), compare_identities(ls, rs)),
            ),
        ),
    )
}

fn movement_fields(action: &ActionDescriptor) -> (r: (Location, &Vec<Location>, Location, &IdentityHash))
    requires
        action is MoveAndAttack || action is Defend,
    ensures
        r.0 == movement_spec(*action).0,
        r.1@ == movement_spec(*action).1,
        r.2 == movement_spec(*action).2,
        r.3@ == movement_spec(*action).3,
    decreases 0nat,
{
    match action {
        ActionDescriptor::MoveAndAttack { from, path, to, unit_instance_id } => (
            *from,
            path,
            *to,
            unit_instance_id,
        ),
        ActionDescriptor::Defend { from, path, to, unit_instance_id } => (
            *from,
            path,
            *to,
            unit_instance_id,
        ),
        _ => {
            proof {
                assert(false);
            }
            movement_fields(action)
        },
    }
}

fn compare_movements(left: &ActionDescriptor, right: &ActionDescriptor) -> (r: Ordering)
    requires
        left is MoveAndAttack || left is Defend,
        right is MoveAndAttack || right is Defend,
    ensures
        r == movement_order(*left, *right),
{
    let (lf, lp, lt, lu) = movement_fields(left);
    let (rf, rp, rt, ru) = movement_fields(right);
    then(
        compare_locations(lf, rf),
        then(
            compare_location_arrays(lp.as_slice(), rp.as_slice()),
            then(compare_locations(lt, rt), compare_identities(lu, ru)),
        ),
    )
}

fn compare_optional_location_arrays(left: &Option<Vec<Location>>, right: &Option<Vec<Location>>) -> (r:
    Ordering)
    ensures
        r == option_order(
            *left,
            *right,
            |x: Vec<Location>, y: Vec<Location>| array_order(x@, y@, location_elem()),
        ),
{
    match (left, right) {
        (Some(l), Some(r)) => compare_location_arrays(l.as_slice(), r.as_slice()),
        (Some(_), None) => Ordering::Less,
        (None, Some(_)) => Ordering::Greater,
        (None, None) => Ordering::Equal,
    }
}

fn compare_same_kind(left: &ActionDescriptor, right: &ActionDescriptor) -> (r: Ordering)
    ensures
        r == same_kind_order(*left, *right),
{
    match (left, right) {
        (
            ActionDescriptor::ActivateSiteDestruction {
                source_site_instance_id: ls,
                target_cell: lc,
                target_site_instance_id: lt,
            },
            ActionDescriptor::ActivateSiteDestruction {
                source_site_instance_id: rs,
                target_cell: rc,
                target_site_instance_id: rt,
            },
        ) => then(
            compare_identities(ls, rs),
            then(compare_cells(*lc, *rc), compare_identities(lt, rt)),
        ),
        (
            ActionDescriptor::ActivateSparkmage { source_instance_id: ls, target_location: ll },
            ActionDescriptor::ActivateSparkmage { source_instance_id: rs, target_location: rl },
        ) => then(compare_identities(ls, rs), compare_locations(*ll, *rl)),
        (
            ActionDescriptor::CloseDefend { original_target_participates: lp },
            ActionDescriptor::CloseDefend { original_target_participates: rp },
        ) => {
            let a: u8 = if *lp {
                1
            } else {
                0
            };
            let b: u8 = if *rp {
                1
            } else {
                0
            };
            compare_small(a, b)
        },
        (
            ActionDescriptor::ExtendChainMagic { target: lt },
            ActionDescriptor::ExtendChainMagic { target: rt },
        ) => compare_unit_targets(lt, rt),
        (
            ActionDescriptor::Intercept { unit_instance_id: lu },
            ActionDescriptor::Intercept { unit_instance_id: ru },
        ) => compare_identities(lu, ru),
        (
            ActionDescriptor::OrderDeathrites { source_instance_id: lu },
            ActionDescriptor::OrderDeathrites { source_instance_id: ru },
        ) => compare_identities(lu, ru),
        (
            ActionDescriptor::ContinueBasicMovement { unit_instance_id: lu },
            ActionDescriptor::ContinueBasicMovement { unit_instance_id: ru },
        ) => compare_identities(lu, ru),
        (
            ActionDescriptor::DeclareAttack { target: lt },
            ActionDescriptor::DeclareAttack { target: rt },
        ) => compare_targets(lt, rt),
        (ActionDescriptor::Draw { zone: lz }, ActionDescriptor::Draw { zone: rz }) => {
            let a: u8 = match lz {
                DeckZone::Atlas => 0,
                DeckZone::Spellbook => 1,
            };
            let b: u8 = match rz {
                DeckZone::Atlas => 0,
                DeckZone::Spellbook => 1,
            };
            compare_small(a, b)
        },
        (
            ActionDescriptor::ReplaceRubbleWithTopAtlasSite {
                target_cell: lc,
                target_rubble_instance_id: li,
            },
            ActionDescriptor::ReplaceRubbleWithTopAtlasSite {
                target_cell: rc,
                target_rubble_instance_id: ri,
            },
        ) => then(compare_cells(*lc, *rc), compare_identities(li, ri)),
        (
            ActionDescriptor::ResolveGenesisSpell { choice: lc },
            ActionDescriptor::ResolveGenesisSpell { choice: rc },
        ) => {
            let a: u8 = match lc {
                GenesisSpellChoice::BottomNext => 0,
                GenesisSpellChoice::KeepNext => 1,
            };
            let b: u8 = match rc {
                GenesisSpellChoice::BottomNext => 0,
                GenesisSpellChoice::KeepNext => 1,
            };
            compare_small(a, b)
        },
        (
            ActionDescriptor::ResolveGenesisSpellOrder { order: lo },
            ActionDescriptor::ResolveGenesisSpellOrder { order: ro },
        ) => compare_byte_arrays(lo.as_slice(), ro.as_slice()),
        (
            ActionDescriptor::ResolveGenesisToken { choice: lc },
            ActionDescriptor::ResolveGenesisToken { choice: rc },
        ) => compare_small(token_rank(*lc), token_rank(*rc)),
        (
            ActionDescriptor::ResolveRangedStep {
                choice: lc,
                path: lp,
                unit_instance_id: lu,
                ..
            },
            ActionDescriptor::ResolveRangedStep {
                choice: rc,
                path: rp,
                unit_instance_id: ru,
                ..
            },
        ) => {
            let a: u8 = match lc {
                RangedStepChoice::Decline => 0,
                RangedStepChoice::Step => 1,
            };
            let b: u8 = match rc {
                RangedStepChoice::Decline => 0,
                RangedStepChoice::Step => 1,
            };
            then(
                compare_small(a, b),
                then(compare_optional_location_arrays(lp, rp), compare_identities(lu, ru)),
            )
        },
        _ => Ordering::Equal,
    }
}

fn compare_json_amounts(left: &ActionDescriptor, right: &ActionDescriptor) -> (r: Ordering)
    requires
        left is ActivateMana || left is AllocateStrike,
        right is ActivateMana || right is AllocateStrike,
    ensures
        r == same_group_order(*left, *right),
{
    match (left, right) {
        (
            ActionDescriptor::ActivateMana { amount: la, unit_instance_id: lu },
            ActionDescriptor::ActivateMana { amount: ra, unit_instance_id: ru },
        ) => then(compare_json_integers(*la, *ra), compare_identities(lu, ru)),
        (
            ActionDescriptor::AllocateStrike { amount: la, target_instance_id: lt },
            ActionDescriptor::AllocateStrike { amount: ra, target_instance_id: rt },
        ) => then(compare_json_integers(*la, *ra), compare_identities(lt, rt)),
        (
            ActionDescriptor::ActivateMana { amount: la, .. },
            ActionDescriptor::AllocateStrike { amount: ra, .. },
        ) => then(compare_json_integers(*la, *ra), Ordering::Less),
        (
            ActionDescriptor::AllocateStrike { amount: la, .. },
            ActionDescriptor::ActivateMana { amount: ra, .. },
        ) => then(compare_json_integers(*la, *ra), Ordering::Greater),
        _ => {
            proof {
                assert(false);
            }
            Ordering::Equal
        },
    }
}

fn compare_same_group(left: &ActionDescriptor, right: &ActionDescriptor) -> (r: Ordering)
    ensures
        r == same_group_order(*left, *right),
{
    let l_amount = matches!(left, ActionDescriptor::ActivateMana { .. })
        || matches!(left, ActionDescriptor::AllocateStrike { .. });
    let r_amount = matches!(right, ActionDescriptor::ActivateMana { .. })
        || matches!(right, ActionDescriptor::AllocateStrike { .. });
    if l_amount && r_amount {
        return compare_json_amounts(left, right);
    }
    match (left, right) {
        (
            ActionDescriptor::Mulligan { atlas_order: la, spellbook_order: ls },
            ActionDescriptor::Mulligan { atlas_order: ra, spellbook_order: rs },
        ) => {
            return then(
                compare_identity_arrays(la.as_slice(), ra.as_slice()),
                compare_identity_arrays(ls.as_slice(), rs.as_slice()),
            );
        },
        (ActionDescriptor::PlaySite { .. }, ActionDescriptor::PlaySite { .. }) => {
            return compare_play_sites(left, right);
        },
        (ActionDescriptor::BeginChainMagic { .. }, ActionDescriptor::BeginChainMagic { .. }) => {
            return compare_begin_chains(left, right);
        },
        (ActionDescriptor::CastMagic { .. }, ActionDescriptor::CastMagic { .. }) => {
            return compare_cast_magic(left, right);
        },
        (ActionDescriptor::SummonMinion { .. }, ActionDescriptor::SummonMinion { .. }) => {
            return compare_summons(left, right);
        },
        _ => {},
    }
    let l_card = is_card(left);
    let r_card = is_card(right);
    if l_card && r_card {
        return then(
            compare_card_prefix(left, right),
            compare_small(card_rank(left), card_rank(right)),
        );
    }
    let l_shot = matches!(left, ActionDescriptor::ShootProjectile { .. })
        || matches!(left, ActionDescriptor::ShootDamageProjectile { .. });
    let r_shot = matches!(right, ActionDescriptor::ShootProjectile { .. })
        || matches!(right, ActionDescriptor::ShootDamageProjectile { .. });
    if l_shot && r_shot {
        return compare_projectiles(left, right);
    }
    let l_move = matches!(left, ActionDescriptor::MoveAndAttack { .. });
    let r_move = matches!(right, ActionDescriptor::MoveAndAttack { .. });
    let l_defend = matches!(left, ActionDescriptor::Defend { .. });
    let r_defend = matches!(right, ActionDescriptor::Defend { .. });
    if (l_move && r_move) || (l_defend && r_defend) {
        return compare_movements(left, right);
    }
    if l_defend && r_move {
        let (lf, _, _, _) = movement_fields(left);
        let (rf, _, _, _) = movement_fields(right);
        return then(compare_locations(lf, rf), Ordering::Less);
    }
    if l_move && r_defend {
        let (lf, _, _, _) = movement_fields(left);
        let (rf, _, _, _) = movement_fields(right);
        return then(compare_locations(lf, rf), Ordering::Greater);
    }
    then(compare_small(action_kind(left), action_kind(right)), compare_same_kind(left, right))
}

fn is_card(action: &ActionDescriptor) -> (r: bool)
    ensures
        r == is_card_action(*action),
{
    match action {
        ActionDescriptor::PlaySite { .. }
        | ActionDescriptor::CastMagic { .. }
        | ActionDescriptor::BeginChainMagic { .. }
        | ActionDescriptor::SummonMinion { .. } => true,
        _ => false,
    }
}

/// Compares two descriptors in the canonical order of their JSON form.
pub fn compare_canonical(left: &ActionDescriptor, right: &ActionDescriptor) -> (r: Ordering)
    ensures
        r == canonical_order(*left, *right),
{
    then(
        compare_small(descriptor_group(left), descriptor_group(right)),
        compare_same_group(left, right),
    )
}

// ---------------------------------------------------------------------------
// The canonical order is antisymmetric.
// ---------------------------------------------------------------------------

/// Whether an element order is antisymmetric.
pub open spec fn antisymmetric<T>(e: spec_fn(T, T) -> Ordering) -> bool {
    forall|x: T, y: T| #[trigger] e(y, x) == reverse_order(e(x, y))
}

proof fn lemma_text_antisymmetric(a: Seq<char>, b: Seq<char>)
    ensures
        identity_order(b, a) == reverse_order(identity_order(a, b)),
        json_text_order(b, a) == reverse_order(json_text_order(a, b)),
{
    lemma_lex_order_antisymmetric(char_codes(a), char_codes(b));
    lemma_lex_order_antisymmetric(char_codes(json_string_tail(a)), char_codes(json_string_tail(b)));
}

proof fn lemma_int_text_antisymmetric(a: u64, b: u64)
    ensures
        json_int_order(b, a) == reverse_order(json_int_order(a, b)),
{
    lemma_lex_order_antisymmetric(char_codes(decimal_of(a)), char_codes(decimal_of(b)));
}

proof fn lemma_elements_antisymmetric()
    ensures
        antisymmetric(id_elem()),
        antisymmetric(location_elem()),
        antisymmetric(byte_elem()),
        antisymmetric(cell_elem()),
        antisymmetric(unit_target_elem()),
{
    assert forall|x: IdentityHash, y: IdentityHash| #[trigger] id_elem()(y, x) == reverse_order(
        id_elem()(x, y),
    ) by {
        lemma_text_antisymmetric(x@, y@);
    }
    assert forall|x: UnitTarget, y: UnitTarget| #[trigger] unit_target_elem()(y, x) == reverse_order(
        unit_target_elem()(x, y),
    ) by {
        lemma_unit_target_antisymmetric(x, y);
    }
}

proof fn lemma_unit_target_antisymmetric(a: UnitTarget, b: UnitTarget)
    ensures
        unit_target_order(b, a) == reverse_order(unit_target_order(a, b)),
{
    lemma_text_antisymmetric(crate::action::unit_target_id(a), crate::action::unit_target_id(b));
}

proof fn lemma_combat_target_antisymmetric(a: CombatTarget, b: CombatTarget)
    ensures
        combat_target_order(b, a) == reverse_order(combat_target_order(a, b)),
{
    lemma_text_antisymmetric(crate::action::combat_target_id(a), crate::action::combat_target_id(b));
}

proof fn lemma_array_antisymmetric<T>(a: Seq<T>, b: Seq<T>, e: spec_fn(T, T) -> Ordering)
    requires
        antisymmetric(e),
    ensures
        array_order(b, a, e) == reverse_order(array_order(a, b, e)),
    decreases a.len(),
{
    if a.len() > 0 && b.len() > 0 {
        lemma_array_antisymmetric(a.skip(1), b.skip(1), e);
        assert(e(b[0], a[0]) == reverse_order(e(a[0], b[0])));
    }
}

proof fn lemma_option_antisymmetric<T>(a: Option<T>, b: Option<T>, e: spec_fn(T, T) -> Ordering)
    requires
        antisymmetric(e),
    ensures
        option_order(b, a, e) == reverse_order(option_order(a, b, e)),
{
    if let (Some(x), Some(y)) = (a, b) {
        assert(e(y, x) == reverse_order(e(x, y)));
    }
}

proof fn lemma_play_site_antisymmetric(l: ActionDescriptor, r: ActionDescriptor)
    ensures
        play_site_order(r, l) == reverse_order(play_site_order(l, r)),
{
    if let (
        ActionDescriptor::PlaySite { card_id: lc, card_instance_id: li, create_rubble_at: lr, .. },
        ActionDescriptor::PlaySite { card_id: rc, card_instance_id: ri, create_rubble_at: rr, .. },
    ) = (l, r) {
        lemma_text_antisymmetric(lc@, rc@);
        lemma_text_antisymmetric(li@, ri@);
        lemma_elements_antisymmetric();
        lemma_option_antisymmetric(lr, rr, cell_elem());
    }
}

proof fn lemma_begin_chain_antisymmetric(l: ActionDescriptor, r: ActionDescriptor)
    ensures
        begin_chain_order(r, l) == reverse_order(begin_chain_order(l, r)),
{
    if let (
        ActionDescriptor::BeginChainMagic {
            card_id: lc,
            card_instance_id: li,
            caster_instance_id: lk,
            target: lt,
        },
        ActionDescriptor::BeginChainMagic {
            card_id: rc,
            card_instance_id: ri,
            caster_instance_id: rk,
            target: rt,
        },
    ) = (l, r) {
        lemma_text_antisymmetric(lc@, rc@);
        lemma_text_antisymmetric(li@, ri@);
        lemma_text_antisymmetric(lk@, rk@);
        lemma_unit_target_antisymmetric(lt, rt);
    }
}

proof fn lemma_cast_magic_antisymmetric(l: ActionDescriptor, r: ActionDescriptor)
    ensures
        cast_magic_order(r, l) == reverse_order(cast_magic_order(l, r)),
{
    if let (
        ActionDescriptor::CastMagic {
            ally: la,
            ally_destination: ld,
            ally_strike_location: ls,
            card_id: lc,
            card_instance_id: li,
            caster_instance_id: lk,
            cemetery_minion_instance_id: lm,
            target: lt,
            target_location: ll,
            target_site_instance_id: lsite,
        },
        ActionDescriptor::CastMagic {
            ally: ra,
            ally_destination: rd,
            ally_strike_location: rs,
            card_id: rc,
            card_instance_id: ri,
            caster_instance_id: rk,
            cemetery_minion_instance_id: rm,
            target: rt,
            target_location: rl,
            target_site_instance_id: rsite,
        },
    ) = (l, r) {
        lemma_elements_antisymmetric();
        lemma_option_antisymmetric(la, ra, unit_target_elem());
        lemma_option_antisymmetric(ld, rd, location_elem());
        lemma_option_antisymmetric(ls, rs, location_elem());
        lemma_text_antisymmetric(lc@, rc@);
        lemma_text_antisymmetric(li@, ri@);
        lemma_text_antisymmetric(lk@, rk@);
        lemma_option_antisymmetric(lm, rm, id_elem());
        lemma_option_antisymmetric(lt, rt, unit_target_elem());
        lemma_option_antisymmetric(ll, rl, location_elem());
        lemma_option_antisymmetric(lsite, rsite, id_elem());
    }
}

proof fn lemma_summon_antisymmetric(l: ActionDescriptor, r: ActionDescriptor)
    ensures
        summon_order(r, l) == reverse_order(summon_order(l, r)),
{
    if let (
        ActionDescriptor::SummonMinion {
            card_id: lc,
            card_instance_id: li,
            caster_instance_id: lk,
            cells: lcells,
            genesis_damage_target: lt,
            mana_cost: lmana,
            sacrificed_minion_instance_ids: ls,
            ..
        },
        ActionDescriptor::SummonMinion {
            card_id: rc,
            card_instance_id: ri,
            caster_instance_id: rk,
            cells: rcells,
            genesis_damage_target: rt,
            mana_cost: rmana,
            sacrificed_minion_instance_ids: rs,
            ..
        },
    ) = (l, r) {
        lemma_elements_antisymmetric();
        lemma_text_antisymmetric(lc@, rc@);
        lemma_text_antisymmetric(li@, ri@);
        lemma_text_antisymmetric(lk@, rk@);
        if let (Some(x), Some(y)) = (lcells, rcells) {
            lemma_array_antisymmetric(x@, y@, cell_elem());
        }
        lemma_option_antisymmetric(lt, rt, unit_target_elem());
        lemma_int_text_antisymmetric(lmana, rmana);
        if let (Some(x), Some(y)) = (ls, rs) {
            lemma_array_antisymmetric(x@, y@, id_elem());
        }
    }
}

proof fn lemma_projectile_antisymmetric(l: ActionDescriptor, r: ActionDescriptor)
    ensures
        projectile_order(r, l) == reverse_order(projectile_order(l, r)),
{
    let (ld, lh, lk, lp, ls) = projectile_spec(l);
    let (rd, rh, rk, rp, rs) = projectile_spec(r);
    if let (Some(x), Some(y)) = (lh, rh) {
        lemma_unit_target_antisymmetric(x, y);
    }
    lemma_text_antisymmetric(lk, rk);
    lemma_elements_antisymmetric();
    lemma_array_antisymmetric(lp, rp, location_elem());
    lemma_text_antisymmetric(ls, rs);
}

proof fn lemma_movement_antisymmetric(l: ActionDescriptor, r: ActionDescriptor)
    ensures
        movement_order(r, l) == reverse_order(movement_order(l, r)),
{
    let (lf, lp, lt, lu) = movement_spec(l);
    let (rf, rp, rt, ru) = movement_spec(r);
    lemma_elements_antisymmetric();
    lemma_array_antisymmetric(lp, rp, location_elem());
    lemma_text_antisymmetric(lu, ru);
}

proof fn lemma_same_kind_antisymmetric(l: ActionDescriptor, r: ActionDescriptor)
    ensures
        same_kind_order(r, l) == reverse_order(same_kind_order(l, r)),
{
    lemma_elements_antisymmetric();
    match (l, r) {
        (
            ActionDescriptor::ActivateSiteDestruction {
                source_site_instance_id: ls,
                target_site_instance_id: lt,
                ..
            },
            ActionDescriptor::ActivateSiteDestruction {
                source_site_instance_id: rs,
                target_site_instance_id: rt,
                ..
            },
        ) => {
            lemma_text_antisymmetric(ls@, rs@);
            lemma_text_antisymmetric(lt@, rt@);
        },
        (
            ActionDescriptor::ActivateSparkmage { source_instance_id: ls, .. },
            ActionDescriptor::ActivateSparkmage { source_instance_id: rs, .. },
        ) => {
            lemma_text_antisymmetric(ls@, rs@);
        },
        (
            ActionDescriptor::ExtendChainMagic { target: lt },
            ActionDescriptor::ExtendChainMagic { target: rt },
        ) => {
            lemma_unit_target_antisymmetric(lt, rt);
        },
        (
            ActionDescriptor::Intercept { unit_instance_id: lu },
            ActionDescriptor::Intercept { unit_instance_id: ru },
        ) => {
            lemma_text_antisymmetric(lu@, ru@);
        },
        (
            ActionDescriptor::OrderDeathrites { source_instance_id: lu },
            ActionDescriptor::OrderDeathrites { source_instance_id: ru },
        ) => {
            lemma_text_antisymmetric(lu@, ru@);
        },
        (
            ActionDescriptor::ContinueBasicMovement { unit_instance_id: lu },
            ActionDescriptor::ContinueBasicMovement { unit_instance_id: ru },
        ) => {
            lemma_text_antisymmetric(lu@, ru@);
        },
        (
            ActionDescriptor::DeclareAttack { target: lt },
            ActionDescriptor::DeclareAttack { target: rt },
        ) => {
            lemma_combat_target_antisymmetric(lt, rt);
        },
        (
            ActionDescriptor::ReplaceRubbleWithTopAtlasSite { target_rubble_instance_id: li, .. },
            ActionDescriptor::ReplaceRubbleWithTopAtlasSite { target_rubble_instance_id: ri, .. },
        ) => {
            lemma_text_antisymmetric(li@, ri@);
        },
        (
            ActionDescriptor::ResolveGenesisSpellOrder { order: lo },
            ActionDescriptor::ResolveGenesisSpellOrder { order: ro },
        ) => {
            lemma_array_antisymmetric(lo@, ro@, byte_elem());
        },
        (
            ActionDescriptor::ResolveRangedStep { path: lp, unit_instance_id: lu, .. },
            ActionDescriptor::ResolveRangedStep { path: rp, unit_instance_id: ru, .. },
        ) => {
            if let (Some(x), Some(y)) = (lp, rp) {
                lemma_array_antisymmetric(x@, y@, location_elem());
            }
            lemma_text_antisymmetric(lu@, ru@);
        },
        _ => {},
    }
}

proof fn lemma_same_group_antisymmetric(l: ActionDescriptor, r: ActionDescriptor)
    ensures
        same_group_order(r, l) == reverse_order(same_group_order(l, r)),
{
    lemma_elements_antisymmetric();
    match (l, r) {
        (
            ActionDescriptor::ActivateMana { amount: la, unit_instance_id: lu },
            ActionDescriptor::ActivateMana { amount: ra, unit_instance_id: ru },
        ) => {
            lemma_int_text_antisymmetric(la, ra);
            lemma_text_antisymmetric(lu@, ru@);
        },
        (
            ActionDescriptor::AllocateStrike { amount: la, target_instance_id: lt },
            ActionDescriptor::AllocateStrike { amount: ra, target_instance_id: rt },
        ) => {
            lemma_int_text_antisymmetric(la, ra);
            lemma_text_antisymmetric(lt@, rt@);
        },
        (ActionDescriptor::ActivateMana { amount: la, .. }, ActionDescriptor::AllocateStrike {
            amount: ra,
            ..
        }) => {
            lemma_int_text_antisymmetric(la, ra);
        },
        (ActionDescriptor::AllocateStrike { amount: la, .. }, ActionDescriptor::ActivateMana {
            amount: ra,
            ..
        }) => {
            lemma_int_text_antisymmetric(la, ra);
        },
        (
            ActionDescriptor::Mulligan { atlas_order: la, spellbook_order: ls },
            ActionDescriptor::Mulligan { atlas_order: ra, spellbook_order: rs },
        ) => {
            lemma_array_antisymmetric(la@, ra@, id_elem());
            lemma_array_antisymmetric(ls@, rs@, id_elem());
        },
        _ => {},
    }
    lemma_play_site_antisymmetric(l, r);
    lemma_begin_chain_antisymmetric(l, r);
    lemma_cast_magic_antisymmetric(l, r);
    lemma_summon_antisymmetric(l, r);
    lemma_text_antisymmetric(card_prefix_spec(l).0, card_prefix_spec(r).0);
    lemma_text_antisymmetric(card_prefix_spec(l).1, card_prefix_spec(r).1);
    lemma_projectile_antisymmetric(l, r);
    lemma_movement_antisymmetric(l, r);
    lemma_same_kind_antisymmetric(l, r);
}

/// The canonical order is antisymmetric: comparing two descriptors the
/// other way round gives the reverse answer, so sorting by it is well
/// defined.
pub proof fn lemma_canonical_order_antisymmetric(l: ActionDescriptor, r: ActionDescriptor)
    ensures
        canonical_order(r, l) == reverse_order(canonical_order(l, r)),
{
    lemma_same_group_antisymmetric(l, r);
}

// ---------------------------------------------------------------------------
// String fields compare as their canonical JSON text does.
// ---------------------------------------------------------------------------

proof fn lemma_char_codes_concat(a: Seq<char>, b: Seq<char>)
    ensures
        char_codes(a + b) == char_codes(a) + char_codes(b),
{
    assert(char_codes(a + b) =~= char_codes(a) + char_codes(b));
}

/// Distinct texts have quoted tails that differ at a position inside both.
proof fn lemma_tails_differ(a: Seq<char>, b: Seq<char>) -> (i: int)
    requires
        a != b,
    ensures
        0 <= i < json_string_tail(a).len(),
        i < json_string_tail(b).len(),
        char_codes(json_string_tail(a))[i] != char_codes(json_string_tail(b))[i],
{
    let ta = json_string_tail(a);
    let tb = json_string_tail(b);
    if ta.len() <= tb.len() {
        if !is_prefix(ta, tb) {
            assert(!(tb.subrange(0, ta.len() as int) =~= ta));
            let i = choose|i: int| 0 <= i < ta.len() && tb.subrange(0, ta.len() as int)[i] != ta[i];
            assert(tb[i] != ta[i]);
            assert(char_codes(ta)[i] == ta[i] as int);
            assert(char_codes(tb)[i] == tb[i] as int);
            i
        } else {
            lemma_string_tail_prefix_free(a, b);
            0
        }
    } else {
        if !is_prefix(tb, ta) {
            assert(!(ta.subrange(0, tb.len() as int) =~= tb));
            let i = choose|i: int| 0 <= i < tb.len() && ta.subrange(0, tb.len() as int)[i] != tb[i];
            assert(tb[i] != ta[i]);
            assert(char_codes(ta)[i] == ta[i] as int);
            assert(char_codes(tb)[i] == tb[i] as int);
            i
        } else {
            lemma_string_tail_prefix_free(b, a);
            0
        }
    }
}

/// A JSON string field compares, inside canonical JSON text, as the string
/// order of this module says, whatever text follows it; only when the two
/// strings are equal does what follows decide.
pub proof fn lemma_string_field_order(a: Seq<char>, b: Seq<char>, x: Seq<char>, y: Seq<char>)
    ensures
        lex_order(char_codes(string_text(a) + x), char_codes(string_text(b) + y)) == then_order(
            json_text_order(a, b),
            lex_order(char_codes(x), char_codes(y)),
        ),
{
    let ta = json_string_tail(a);
    let tb = json_string_tail(b);
    let q = seq!['"'];
    lemma_char_codes_concat(q + ta, x);
    lemma_char_codes_concat(q + tb, y);
    lemma_char_codes_concat(q, ta);
    lemma_char_codes_concat(q, tb);
    assert(string_text(a) == q + ta);
    assert(string_text(b) == q + tb);
    if a == b {
        lemma_lex_order_equal(char_codes(ta), char_codes(tb));
        lemma_lex_order_common_prefix(char_codes(q + ta), char_codes(x), char_codes(y));
    } else {
        let i = lemma_tails_differ(a, b);
        let pa = char_codes(q) + char_codes(ta);
        let pb = char_codes(q) + char_codes(tb);
        assert(pa[i + 1] == char_codes(ta)[i]);
        assert(pb[i + 1] == char_codes(tb)[i]);
        lemma_lex_order_extend(pa, pb, char_codes(x), char_codes(y), i + 1);
        lemma_lex_order_common_prefix(char_codes(q), char_codes(ta), char_codes(tb));
        lemma_lex_order_equal(char_codes(ta), char_codes(tb));
        assert(char_codes(ta) != char_codes(tb));
    }
}

/// When one decimal rendering's codes are a proper prefix of another's, the
/// shorter followed by a comma sorts first, as the shorter rendering does.
proof fn lemma_decimal_prefix(da: Seq<char>, db: Seq<char>, x: Seq<char>, y: Seq<char>)
    requires
        da.len() < db.len(),
        char_codes(db).subrange(0, len_code(da.len())) == char_codes(da),
        48 <= char_codes(db)[len_code(da.len())] <= 57,
    ensures
        lex_order(char_codes(da + seq![','] + x), char_codes(db + seq![','] + y)) == Ordering::Less,
        lex_order(char_codes(da), char_codes(db)) == Ordering::Less,
{
    let n = len_code(da.len());
    let comma = char_codes(seq![',']);
    let p = char_codes(da) + comma;
    let q = char_codes(db);
    lemma_char_codes_concat(da, seq![',']);
    lemma_char_codes_concat(da + seq![','], x);
    lemma_char_codes_concat(db, seq![','] + y);
    assert(da + seq![','] + x =~= (da + seq![',']) + x);
    assert(db + seq![','] + y =~= db + (seq![','] + y));
    assert(comma[0] == 44);
    assert(p[n] == 44);
    lemma_lex_order_extend(p, q, char_codes(x), char_codes(seq![','] + y), n);
    assert forall|j: int| 0 <= j < n implies p[j] == q[j] by {
        assert(char_codes(db).subrange(0, n)[j] == q[j]);
    }
    lemma_lex_order_skip(p, q, n);
    assert(p.skip(n)[0] == 44);
    assert(q.skip(n)[0] == q[n]);
    assert forall|j: int| 0 <= j < n implies char_codes(da)[j] == q[j] by {
        assert(char_codes(db).subrange(0, n)[j] == q[j]);
    }
    lemma_lex_order_skip(char_codes(da), q, n);
    assert(char_codes(da).skip(n).len() == 0);
}

/// A JSON integer field followed by a comma compares, inside canonical JSON
/// text, as the integer order of this module says; only when the two
/// integers are equal does what follows decide.
pub proof fn lemma_integer_field_order(a: u64, b: u64, x: Seq<char>, y: Seq<char>)
    ensures
        lex_order(
            char_codes(decimal_of(a) + seq![','] + x),
            char_codes(decimal_of(b) + seq![','] + y),
        ) == then_order(json_int_order(a, b), lex_order(char_codes(x), char_codes(y))),
{
    let da = decimal_of(a);
    let db = decimal_of(b);
    let ca = char_codes(da);
    let cb = char_codes(db);
    lemma_decimal_of_digits(a);
    lemma_decimal_of_digits(b);
    lemma_lex_order_equal(ca, cb);
    lemma_lex_order_antisymmetric(ca, cb);
    assert(da + seq![','] + x =~= da + (seq![','] + x));
    assert(db + seq![','] + y =~= db + (seq![','] + y));
    lemma_char_codes_concat(da, seq![','] + x);
    lemma_char_codes_concat(db, seq![','] + y);
    lemma_char_codes_concat(seq![','], x);
    lemma_char_codes_concat(seq![','], y);
    let m = if da.len() <= db.len() {
        da.len()
    } else {
        db.len()
    };
    if exists|i: int| 0 <= i < m && ca[i] != cb[i] {
        let i = choose|i: int| 0 <= i < m && ca[i] != cb[i];
        lemma_lex_order_extend(ca, cb, char_codes(seq![','] + x), char_codes(seq![','] + y), i);
        assert(ca != cb);
    } else if da.len() == db.len() {
        assert(ca =~= cb);
        lemma_lex_order_common_prefix(ca + char_codes(seq![',']), char_codes(x), char_codes(y));
        assert(ca + char_codes(seq![',']) + char_codes(x) =~= ca + char_codes(seq![','] + x));
        assert(cb + char_codes(seq![',']) + char_codes(y) =~= cb + char_codes(seq![','] + y));
    } else if da.len() < db.len() {
        assert(cb.subrange(0, len_code(da.len())) =~= ca);
        lemma_decimal_prefix(da, db, x, y);
    } else {
        assert(ca.subrange(0, len_code(db.len())) =~= cb);
        lemma_decimal_prefix(db, da, y, x);
        lemma_lex_order_antisymmetric(
            char_codes(da + seq![','] + x),
            char_codes(db + seq![','] + y),
        );
    }
}

/// Identity fields compare as their JSON strings do.
proof fn lemma_identity_text_order(u: Seq<char>, v: Seq<char>)
    requires
        valid_identity(u),
        valid_identity(v),
    ensures
        json_text_order(u, v) == identity_order(u, v),
{
    lemma_identity_plain(u);
    lemma_identity_plain(v);
    lemma_escape_plain(u);
    lemma_escape_plain(v);
    let q = seq!['"'];
    assert(json_string_tail(u) == u + q);
    assert(json_string_tail(v) == v + q);
    lemma_char_codes_concat(u, q);
    lemma_char_codes_concat(v, q);
    if u == v {
        lemma_lex_order_equal(char_codes(u), char_codes(v));
        lemma_lex_order_equal(char_codes(u + q), char_codes(v + q));
    } else {
        assert(!(u =~= v));
        let i = choose|i: int| 0 <= i < u.len() && u[i] != v[i];
        assert(char_codes(u)[i] != char_codes(v)[i]);
        lemma_lex_order_extend(char_codes(u), char_codes(v), char_codes(q), char_codes(q), i);
    }
}

/// The identity a mana activation or strike allocation names.
pub open spec fn amount_action_id(d: ActionDescriptor) -> Seq<char> {
    match d {
        ActionDescriptor::ActivateMana { unit_instance_id, .. } => unit_instance_id@,
        ActionDescriptor::AllocateStrike { target_instance_id, .. } => target_instance_id@,
        _ => Seq::empty(),
    }
}

/// The amount of a mana activation or strike allocation.
pub open spec fn amount_action_amount(d: ActionDescriptor) -> u64 {
    match d {
        ActionDescriptor::ActivateMana { amount, .. } => amount,
        ActionDescriptor::AllocateStrike { amount, .. } => amount,
        _ => 0,
    }
}

/// The text after a mana activation's or strike allocation's amount and
/// its comma: the kind, then the named identity, then the closing brace.
pub open spec fn amount_action_rest(d: ActionDescriptor) -> Seq<char> {
    if d is ActivateMana {
        "\"kind\":\"activate-mana\",\"unitInstanceId\":"@ + string_text(amount_action_id(d))
            + "}"@
    } else {
        "\"kind\":\"allocate-strike\",\"targetInstanceId\":"@ + string_text(
            amount_action_id(d),
        ) + "}"@
    }
}

/// The canonical JSON text of a mana activation or strike allocation.
pub open spec fn amount_action_text(d: ActionDescriptor) -> Seq<char> {
    "{\"amount\":"@ + decimal_of(amount_action_amount(d)) + seq![','] + amount_action_rest(d)
}

/// Mana activations and strike allocations, the descriptors that lead with
/// an amount, sort exactly as their canonical JSON texts do.
proof fn lemma_amount_actions_order_as_text(l: ActionDescriptor, r: ActionDescriptor)
    requires
        l is ActivateMana || l is AllocateStrike,
        r is ActivateMana || r is AllocateStrike,
        valid_identity(amount_action_id(l)),
        valid_identity(amount_action_id(r)),
    ensures
        canonical_order(l, r) == lex_order(
            char_codes(amount_action_text(l)),
            char_codes(amount_action_text(r)),
        ),
{
    let p = "{\"amount\":"@;
    let a = amount_action_amount(l);
    let b = amount_action_amount(r);
    let xl = amount_action_rest(l);
    let xr = amount_action_rest(r);
    assert(amount_action_text(l) =~= p + (decimal_of(a) + seq![','] + xl));
    assert(amount_action_text(r) =~= p + (decimal_of(b) + seq![','] + xr));
    lemma_char_codes_concat(p, decimal_of(a) + seq![','] + xl);
    lemma_char_codes_concat(p, decimal_of(b) + seq![','] + xr);
    lemma_lex_order_common_prefix(
        char_codes(p),
        char_codes(decimal_of(a) + seq![','] + xl),
        char_codes(decimal_of(b) + seq![','] + xr),
    );
    lemma_integer_field_order(a, b, xl, xr);
    let ul = amount_action_id(l);
    let ur = amount_action_id(r);
    let close = "}"@;
    if l is ActivateMana && r is ActivateMana {
        let k = "\"kind\":\"activate-mana\",\"unitInstanceId\":"@;
        assert(xl =~= k + (string_text(ul) + close));
        assert(xr =~= k + (string_text(ur) + close));
        lemma_char_codes_concat(k, string_text(ul) + close);
        lemma_char_codes_concat(k, string_text(ur) + close);
        lemma_lex_order_common_prefix(
            char_codes(k),
            char_codes(string_text(ul) + close),
            char_codes(string_text(ur) + close),
        );
        lemma_string_field_order(ul, ur, close, close);
        lemma_lex_order_equal(char_codes(close), char_codes(close));
        lemma_identity_text_order(ul, ur);
    } else if l is AllocateStrike && r is AllocateStrike {
        let k = "\"kind\":\"allocate-strike\",\"targetInstanceId\":"@;
        assert(xl =~= k + (string_text(ul) + close));
        assert(xr =~= k + (string_text(ur) + close));
        lemma_char_codes_concat(k, string_text(ul) + close);
        lemma_char_codes_concat(k, string_text(ur) + close);
        lemma_lex_order_common_prefix(
            char_codes(k),
            char_codes(string_text(ul) + close),
            char_codes(string_text(ur) + close),
        );
        lemma_string_field_order(ul, ur, close, close);
        lemma_lex_order_equal(char_codes(close), char_codes(close));
        lemma_identity_text_order(ul, ur);
    } else {
        reveal_strlit("\"kind\":\"activate-mana\",\"unitInstanceId\":");
        reveal_strlit("\"kind\":\"allocate-strike\",\"targetInstanceId\":");
        reveal_strlit("}");
        let cl = char_codes(xl);
        let cr = char_codes(xr);
        assert forall|j: int| 0 <= j < 9 implies cl[j] == cr[j] by {}
        lemma_lex_order_skip(cl, cr, 9);
        assert(cl.skip(9)[0] != cr.skip(9)[0]);
    }
}

/// The canonical JSON text of a list of identities after its opening
/// bracket: the quoted identities separated by commas, then `]`.
pub open spec fn id_list_tail(ids: Seq<IdentityHash>) -> Seq<char>
    decreases ids.len(),
{
    if ids.len() == 0 {
        "]"@
    } else if ids.len() == 1 {
        string_text(ids[0]@) + "]"@
    } else {
        string_text(ids[0]@) + (","@ + id_list_tail(ids.skip(1)))
    }
}

/// Whether every identity in a list is well formed.
pub open spec fn ids_valid(ids: Seq<IdentityHash>) -> bool {
    forall|i: int| 0 <= i < ids.len() ==> valid_identity(#[trigger] ids[i]@)
}

/// A list of identities compares, inside canonical JSON text, as the array
/// order of this module says; only equal lists let what follows decide.
pub proof fn lemma_id_list_order(a: Seq<IdentityHash>, b: Seq<IdentityHash>, x: Seq<char>, y: Seq<char>)
    requires
        ids_valid(a),
        ids_valid(b),
    ensures
        lex_order(char_codes(id_list_tail(a) + x), char_codes(id_list_tail(b) + y)) == then_order(
            array_order(a, b, id_elem()),
            lex_order(char_codes(x), char_codes(y)),
        ),
    decreases a.len(),
{
    reveal_strlit("]");
    reveal_strlit(",");
    let close = "]"@;
    let comma = ","@;
    if a.len() == 0 && b.len() == 0 {
        lemma_char_codes_concat(close, x);
        lemma_char_codes_concat(close, y);
        lemma_lex_order_common_prefix(char_codes(close), char_codes(x), char_codes(y));
    } else if a.len() == 0 || b.len() == 0 {
        let ta = id_list_tail(a) + x;
        let tb = id_list_tail(b) + y;
        if a.len() == 0 {
            assert(ta[0] == ']');
            assert(tb[0] == '"');
        } else {
            assert(ta[0] == '"');
            assert(tb[0] == ']');
        }
        assert(char_codes(ta)[0] == char_int(ta[0]));
        assert(char_codes(tb)[0] == char_int(tb[0]));
    } else {
        let sa = if a.len() == 1 {
            close + x
        } else {
            comma + id_list_tail(a.skip(1)) + x
        };
        let sb = if b.len() == 1 {
            close + y
        } else {
            comma + id_list_tail(b.skip(1)) + y
        };
        assert(id_list_tail(a) + x =~= string_text(a[0]@) + sa);
        assert(id_list_tail(b) + y =~= string_text(b[0]@) + sb);
        lemma_string_field_order(a[0]@, b[0]@, sa, sb);
        lemma_identity_text_order(a[0]@, b[0]@);
        assert(id_elem()(a[0], b[0]) == identity_order(a[0]@, b[0]@));
        let a1 = a.skip(1);
        let b1 = b.skip(1);
        assert(ids_valid(a1)) by {
            assert forall|i: int| 0 <= i < a1.len() implies valid_identity(#[trigger] a1[i]@) by {
                assert(a1[i] == a[i + 1]);
            }
        }
        assert(ids_valid(b1)) by {
            assert forall|i: int| 0 <= i < b1.len() implies valid_identity(#[trigger] b1[i]@) by {
                assert(b1[i] == b[i + 1]);
            }
        }
        if a.len() == 1 && b.len() == 1 {
            lemma_char_codes_concat(close, x);
            lemma_char_codes_concat(close, y);
            lemma_lex_order_common_prefix(char_codes(close), char_codes(x), char_codes(y));
        } else if a.len() == 1 || b.len() == 1 {
            if a.len() == 1 {
                assert(sa[0] == ']');
                assert(sb[0] == ',');
            } else {
                assert(sa[0] == ',');
                assert(sb[0] == ']');
            }
            assert(char_codes(sa)[0] == char_int(sa[0]));
            assert(char_codes(sb)[0] == char_int(sb[0]));
        } else {
            lemma_id_list_order(a1, b1, x, y);
            assert(sa =~= comma + (id_list_tail(a1) + x));
            assert(sb =~= comma + (id_list_tail(b1) + y));
            lemma_char_codes_concat(comma, id_list_tail(a1) + x);
            lemma_char_codes_concat(comma, id_list_tail(b1) + y);
            lemma_lex_order_common_prefix(
                char_codes(comma),
                char_codes(id_list_tail(a1) + x),
                char_codes(id_list_tail(b1) + y),
            );
        }
    }
}

/// The canonical JSON text of a mulligan.
pub open spec fn mulligan_text(atlas: Seq<IdentityHash>, spellbook: Seq<IdentityHash>) -> Seq<char> {
    "{\"atlasOrder\":["@ + id_list_tail(atlas) + ",\"kind\":\"mulligan\",\"spellbookOrder\":["@
        + id_list_tail(spellbook) + "}"@
}

/// The canonical JSON text of a descriptor whose text this module states:
/// mana activations, strike allocations, mulligans, projectiles, movements,
/// site plays, chain starts, and the descriptors whose text begins with
/// their kind that [`kind_first_stated`] admits.
pub open spec fn descriptor_text(d: ActionDescriptor) -> Seq<char> {
    match d {
        ActionDescriptor::ActivateMana { .. } => amount_action_text(d),
        ActionDescriptor::AllocateStrike { .. } => amount_action_text(d),
        ActionDescriptor::Mulligan { atlas_order, spellbook_order } => mulligan_text(
            atlas_order@,
            spellbook_order@,
        ),
        ActionDescriptor::MoveAndAttack { .. } => movement_text(d),
        ActionDescriptor::Defend { .. } => movement_text(d),
        ActionDescriptor::ShootProjectile { .. } => projectile_text(d),
        ActionDescriptor::ShootDamageProjectile { .. } => projectile_text(d),
        ActionDescriptor::PlaySite { .. } => card_text(d),
        ActionDescriptor::BeginChainMagic { .. } => card_text(d),
        ActionDescriptor::CastMagic { ally, .. } => if ally is Some {
            ally_cast_text(d)
        } else {
            card_text(d)
        },
        ActionDescriptor::SummonMinion { .. } => card_text(d),
        _ => kind_first_text(d),
    }
}

/// Whether a descriptor is one whose text this module states, with well-formed
/// identities.
pub open spec fn text_stated(d: ActionDescriptor) -> bool {
    match d {
        ActionDescriptor::ActivateMana { .. } => valid_identity(amount_action_id(d)),
        ActionDescriptor::AllocateStrike { .. } => valid_identity(amount_action_id(d)),
        ActionDescriptor::Mulligan { atlas_order, spellbook_order } => ids_valid(atlas_order@)
            && ids_valid(spellbook_order@),
        ActionDescriptor::MoveAndAttack { .. } => movement_stated(d),
        ActionDescriptor::Defend { .. } => movement_stated(d),
        ActionDescriptor::ShootProjectile { .. } => projectile_stated(d),
        ActionDescriptor::ShootDamageProjectile { .. } => projectile_stated(d),
        ActionDescriptor::PlaySite { .. } => card_stated(d),
        ActionDescriptor::BeginChainMagic { .. } => card_stated(d),
        ActionDescriptor::CastMagic { ally, .. } => if ally is Some {
            ally_cast_stated(d)
        } else {
            card_stated(d)
        },
        ActionDescriptor::SummonMinion { .. } => card_stated(d),
        _ => kind_first_stated(d),
    }
}

proof fn lemma_mulligans_order_as_text(
    la: Seq<IdentityHash>,
    ls: Seq<IdentityHash>,
    ra: Seq<IdentityHash>,
    rs: Seq<IdentityHash>,
)
    requires
        ids_valid(la),
        ids_valid(ls),
        ids_valid(ra),
        ids_valid(rs),
    ensures
        lex_order(char_codes(mulligan_text(la, ls)), char_codes(mulligan_text(ra, rs)))
            == then_order(array_order(la, ra, id_elem()), array_order(ls, rs, id_elem())),
{
    let p = "{\"atlasOrder\":["@;
    let m = ",\"kind\":\"mulligan\",\"spellbookOrder\":["@;
    let close = "}"@;
    let xl = m + (id_list_tail(ls) + close);
    let xr = m + (id_list_tail(rs) + close);
    assert(mulligan_text(la, ls) =~= p + (id_list_tail(la) + xl));
    assert(mulligan_text(ra, rs) =~= p + (id_list_tail(ra) + xr));
    lemma_char_codes_concat(p, id_list_tail(la) + xl);
    lemma_char_codes_concat(p, id_list_tail(ra) + xr);
    lemma_lex_order_common_prefix(
        char_codes(p),
        char_codes(id_list_tail(la) + xl),
        char_codes(id_list_tail(ra) + xr),
    );
    lemma_id_list_order(la, ra, xl, xr);
    lemma_char_codes_concat(m, id_list_tail(ls) + close);
    lemma_char_codes_concat(m, id_list_tail(rs) + close);
    lemma_lex_order_common_prefix(
        char_codes(m),
        char_codes(id_list_tail(ls) + close),
        char_codes(id_list_tail(rs) + close),
    );
    lemma_id_list_order(ls, rs, close, close);
    lemma_lex_order_equal(char_codes(close), char_codes(close));
}

/// Mana activations, strike allocations, and mulligans with well-formed
/// identities sort exactly as their canonical JSON texts do.
proof fn lemma_leading_groups_order_as_text(l: ActionDescriptor, r: ActionDescriptor)
    requires
        text_stated(l),
        text_stated(r),
        l is ActivateMana || l is AllocateStrike || l is Mulligan,
        r is ActivateMana || r is AllocateStrike || r is Mulligan,
    ensures
        canonical_order(l, r) == lex_order(
            char_codes(descriptor_text(l)),
            char_codes(descriptor_text(r)),
        ),
{
    if (l is ActivateMana || l is AllocateStrike) && (r is ActivateMana || r is AllocateStrike) {
        lemma_amount_actions_order_as_text(l, r);
    } else if l is Mulligan && r is Mulligan {
        if let (
            ActionDescriptor::Mulligan { atlas_order: la, spellbook_order: ls },
            ActionDescriptor::Mulligan { atlas_order: ra, spellbook_order: rs },
        ) = (l, r) {
            lemma_mulligans_order_as_text(la@, ls@, ra@, rs@);
        }
    } else {
        reveal_strlit("{\"amount\":");
        reveal_strlit("{\"atlasOrder\":[");
        let tl = descriptor_text(l);
        let tr = descriptor_text(r);
        if l is Mulligan {
            assert(tl =~= "{\"atlasOrder\":["@ + (tl.skip(15)));
            assert(tr =~= "{\"amount\":"@ + (tr.skip(10)));
        } else {
            assert(tl =~= "{\"amount\":"@ + (tl.skip(10)));
            assert(tr =~= "{\"atlasOrder\":["@ + (tr.skip(15)));
        }
        let cl = char_codes(tl);
        let cr = char_codes(tr);
        assert forall|j: int| 0 <= j < 3 implies cl[j] == cr[j] by {}
        lemma_lex_order_skip(cl, cr, 3);
        assert(cl.skip(3)[0] == char_int(tl[3]));
        assert(cr.skip(3)[0] == char_int(tr[3]));
    }
}

/// Names of the descriptor kinds whose canonical JSON text begins with their
/// kind, in the order of their kind codes.
pub open spec fn kind_first_names() -> Seq<Seq<char>> {
    seq![
        "activate-site-destruction"@,
        "activate-sparkmage"@,
        "close-defend"@,
        "close-intercept"@,
        "continue-basic-movement"@,
        "declare-attack"@,
        "decline-attack"@,
        "draw"@,
        "draw-site"@,
        "draw-spell"@,
        "end-turn"@,
        "extend-chain-magic"@,
        "intercept"@,
        "order-deathrites"@,
        "replace-rubble-with-top-atlas-site"@,
        "resolve-chain-magic"@,
        "resolve-genesis-spell-order"@,
    ]
}

/// Every character of each kind name is written unescaped.
proof fn lemma_kind_names_plain(i: int)
    requires
        0 <= i < 17,
    ensures
        forall|j: int|
            0 <= j < kind_first_names()[i].len() ==> crate::text::json_plain_char(
                #[trigger] kind_first_names()[i][j],
            ),
{
    reveal_strlit("activate-site-destruction");
    reveal_strlit("activate-sparkmage");
    reveal_strlit("close-defend");
    reveal_strlit("close-intercept");
    reveal_strlit("continue-basic-movement");
    reveal_strlit("declare-attack");
    reveal_strlit("decline-attack");
    reveal_strlit("draw");
    reveal_strlit("draw-site");
    reveal_strlit("draw-spell");
    reveal_strlit("end-turn");
    reveal_strlit("extend-chain-magic");
    reveal_strlit("intercept");
    reveal_strlit("order-deathrites");
    reveal_strlit("replace-rubble-with-top-atlas-site");
    reveal_strlit("resolve-chain-magic");
    reveal_strlit("resolve-genesis-spell-order");
    let n = kind_first_names()[i];
    assert forall|j: int| 0 <= j < n.len() implies crate::text::json_plain_char(#[trigger] n[j]) by {}
}

/// A plain name sorts, as a JSON string, before another that first differs
/// from it at `k` with a smaller character, or where it ends.
proof fn lemma_plain_name_less(a: Seq<char>, b: Seq<char>, k: int)
    requires
        forall|j: int| 0 <= j < a.len() ==> crate::text::json_plain_char(#[trigger] a[j]),
        forall|j: int| 0 <= j < b.len() ==> crate::text::json_plain_char(#[trigger] b[j]),
        0 <= k <= a.len(),
        k <= b.len(),
        forall|j: int| 0 <= j < k ==> a[j] == b[j],
        char_codes(a.push('"'))[k] < char_codes(b.push('"'))[k],
    ensures
        json_text_order(a, b) == Ordering::Less,
{
    lemma_escape_plain(a);
    lemma_escape_plain(b);
    let ca = char_codes(a.push('"'));
    let cb = char_codes(b.push('"'));
    assert forall|j: int| 0 <= j < k implies ca[j] == cb[j] by {
        assert(a.push('"')[j] == a[j]);
        assert(b.push('"')[j] == b[j]);
    }
    lemma_lex_order_skip(ca, cb, k);
    assert(ca.skip(k)[0] == ca[k]);
    assert(cb.skip(k)[0] == cb[k]);
}

/// Consecutive kind names sort in increasing order as JSON strings.
proof fn lemma_kind_names_adjacent(i: int)
    requires
        0 <= i < 16,
    ensures
        json_text_order(kind_first_names()[i], kind_first_names()[i + 1]) == Ordering::Less,
{
    lemma_kind_names_plain(i);
    lemma_kind_names_plain(i + 1);
    reveal_strlit("activate-site-destruction");
    reveal_strlit("activate-sparkmage");
    reveal_strlit("close-defend");
    reveal_strlit("close-intercept");
    reveal_strlit("continue-basic-movement");
    reveal_strlit("declare-attack");
    reveal_strlit("decline-attack");
    reveal_strlit("draw");
    reveal_strlit("draw-site");
    reveal_strlit("draw-spell");
    reveal_strlit("end-turn");
    reveal_strlit("extend-chain-magic");
    reveal_strlit("intercept");
    reveal_strlit("order-deathrites");
    reveal_strlit("replace-rubble-with-top-atlas-site");
    reveal_strlit("resolve-chain-magic");
    reveal_strlit("resolve-genesis-spell-order");
    let a = kind_first_names()[i];
    let b = kind_first_names()[i + 1];
    if i == 0 {
        assert forall|j: int| 0 <= j < 10 implies a[j] == b[j] by {}
        lemma_plain_name_less(a, b, 10);
    }     else if i == 1 {
        assert forall|j: int| 0 <= j < 0 implies a[j] == b[j] by {}
        lemma_plain_name_less(a, b, 0);
    }     else if i == 2 {
        assert forall|j: int| 0 <= j < 6 implies a[j] == b[j] by {}
        lemma_plain_name_less(a, b, 6);
    }     else if i == 3 {
        assert forall|j: int| 0 <= j < 1 implies a[j] == b[j] by {}
        lemma_plain_name_less(a, b, 1);
    }     else if i == 4 {
        assert forall|j: int| 0 <= j < 0 implies a[j] == b[j] by {}
        lemma_plain_name_less(a, b, 0);
    }     else if i == 5 {
        assert forall|j: int| 0 <= j < 4 implies a[j] == b[j] by {}
        lemma_plain_name_less(a, b, 4);
    }     else if i == 6 {
        assert forall|j: int| 0 <= j < 1 implies a[j] == b[j] by {}
        lemma_plain_name_less(a, b, 1);
    }     else if i == 7 {
        assert forall|j: int| 0 <= j < 4 implies a[j] == b[j] by {}
        lemma_plain_name_less(a, b, 4);
    }     else if i == 8 {
        assert forall|j: int| 0 <= j < 6 implies a[j] == b[j] by {}
        lemma_plain_name_less(a, b, 6);
    }     else if i == 9 {
        assert forall|j: int| 0 <= j < 0 implies a[j] == b[j] by {}
        lemma_plain_name_less(a, b, 0);
    }     else if i == 10 {
        assert forall|j: int| 0 <= j < 1 implies a[j] == b[j] by {}
        lemma_plain_name_less(a, b, 1);
    }     else if i == 11 {
        assert forall|j: int| 0 <= j < 0 implies a[j] == b[j] by {}
        lemma_plain_name_less(a, b, 0);
    }     else if i == 12 {
        assert forall|j: int| 0 <= j < 0 implies a[j] == b[j] by {}
        lemma_plain_name_less(a, b, 0);
    }     else if i == 13 {
        assert forall|j: int| 0 <= j < 0 implies a[j] == b[j] by {}
        lemma_plain_name_less(a, b, 0);
    }     else if i == 14 {
        assert forall|j: int| 0 <= j < 2 implies a[j] == b[j] by {}
        lemma_plain_name_less(a, b, 2);
    }     else if i == 15 {
        assert forall|j: int| 0 <= j < 8 implies a[j] == b[j] by {}
        lemma_plain_name_less(a, b, 8);
    }
}

/// Kind names sort in the order of their positions.
proof fn lemma_kind_names_sorted(i: int, j: int)
    requires
        0 <= i < j < 17,
    ensures
        json_text_order(kind_first_names()[i], kind_first_names()[j]) == Ordering::Less,
    decreases j - i,
{
    lemma_kind_names_adjacent(j - 1);
    if i < j - 1 {
        lemma_kind_names_sorted(i, j - 1);
        let n = kind_first_names();
        lemma_lex_order_transitive(
            char_codes(json_string_tail(n[i])),
            char_codes(json_string_tail(n[j - 1])),
            char_codes(json_string_tail(n[j])),
        );
    }
}

/// Kind names compare, as JSON strings, as their positions do.
proof fn lemma_kind_names_order(i: int, j: int)
    requires
        0 <= i < 17,
        0 <= j < 17,
    ensures
        json_text_order(kind_first_names()[i], kind_first_names()[j]) == int_order(i, j),
{
    let n = kind_first_names();
    if i < j {
        lemma_kind_names_sorted(i, j);
    } else if j < i {
        lemma_kind_names_sorted(j, i);
        lemma_text_antisymmetric(n[j], n[i]);
    } else {
        lemma_lex_order_equal(char_codes(json_string_tail(n[i])), char_codes(json_string_tail(n[j])));
    }
}

/// The position of a descriptor's kind among [`kind_first_names`], or -1.
pub open spec fn kind_first_index(d: ActionDescriptor) -> int {
    match d {
        ActionDescriptor::ActivateSiteDestruction { .. } => 0,
        ActionDescriptor::ActivateSparkmage { .. } => 1,
        ActionDescriptor::CloseDefend { .. } => 2,
        ActionDescriptor::CloseIntercept {  } => 3,
        ActionDescriptor::ContinueBasicMovement { .. } => 4,
        ActionDescriptor::DeclareAttack { .. } => 5,
        ActionDescriptor::DeclineAttack => 6,
        ActionDescriptor::Draw { .. } => 7,
        ActionDescriptor::DrawSite => 8,
        ActionDescriptor::DrawSpell => 9,
        ActionDescriptor::EndTurn => 10,
        ActionDescriptor::ExtendChainMagic { .. } => 11,
        ActionDescriptor::Intercept { .. } => 12,
        ActionDescriptor::OrderDeathrites { .. } => 13,
        ActionDescriptor::ReplaceRubbleWithTopAtlasSite { .. } => 14,
        ActionDescriptor::ResolveChainMagic => 15,
        ActionDescriptor::ResolveGenesisSpellOrder { .. } => 16,
        _ => -1,
    }
}

/// The JSON name of a deck zone.
pub open spec fn zone_text(z: DeckZone) -> Seq<char> {
    match z {
        DeckZone::Atlas => "atlas"@,
        DeckZone::Spellbook => "spellbook"@,
    }
}

/// The text after a kind-first descriptor's kind: its other members and the
/// closing brace.
#[verifier::opaque]
pub open spec fn kind_first_rest(d: ActionDescriptor) -> Seq<char> {
    match d {
        ActionDescriptor::Draw { zone } => ",\"zone\":"@ + string_text(zone_text(zone)) + "}"@,
        ActionDescriptor::CloseDefend { original_target_participates } => ",\"originalTargetParticipates\":"@
            + (if original_target_participates {
            "true"@
        } else {
            "false"@
        }) + "}"@,
        ActionDescriptor::ContinueBasicMovement { unit_instance_id } => ",\"unitInstanceId\":"@
            + string_text(unit_instance_id@) + "}"@,
        ActionDescriptor::Intercept { unit_instance_id } => ",\"unitInstanceId\":"@ + string_text(
            unit_instance_id@,
        ) + "}"@,
        ActionDescriptor::OrderDeathrites { source_instance_id } => ",\"sourceInstanceId\":"@
            + string_text(source_instance_id@) + "}"@,
        ActionDescriptor::ActivateSiteDestruction {
            source_site_instance_id,
            target_cell,
            target_site_instance_id,
        } => ",\"sourceSiteInstanceId\":"@ + string_text(source_site_instance_id@)
            + ",\"targetCell\":"@ + cell_text(target_cell) + ",\"targetSiteInstanceId\":"@
            + string_text(target_site_instance_id@) + "}"@,
        ActionDescriptor::ActivateSparkmage { source_instance_id, target_location } =>
            ",\"sourceInstanceId\":"@ + string_text(source_instance_id@) + ",\"targetLocation\":"@
            + location_text(target_location) + "}"@,
        ActionDescriptor::DeclareAttack { target } => ",\"target\":"@ + combat_target_text(target)
            + "}"@,
        ActionDescriptor::ExtendChainMagic { target } => ",\"target\":"@ + unit_target_text(target)
            + "}"@,
        ActionDescriptor::ReplaceRubbleWithTopAtlasSite { target_cell, target_rubble_instance_id } =>
            ",\"targetCell\":"@ + cell_text(target_cell) + ",\"targetRubbleInstanceId\":"@
            + string_text(target_rubble_instance_id@) + "}"@,
        ActionDescriptor::ResolveGenesisSpellOrder { order } => ",\"order\":["@ + byte_list_tail(
            order@,
        ) + "}"@,
        _ => "}"@,
    }
}

/// The canonical JSON text of a kind-first descriptor.
pub open spec fn kind_first_text(d: ActionDescriptor) -> Seq<char> {
    "{\"kind\":"@ + string_text(kind_first_names()[kind_first_index(d)]) + kind_first_rest(d)
}

/// Whether a descriptor is a kind-first one whose text this module states,
/// with a well-formed identity where it names one.
pub open spec fn kind_first_stated(d: ActionDescriptor) -> bool {
    match d {
        ActionDescriptor::CloseDefend { .. } => true,
        ActionDescriptor::CloseIntercept {  } => true,
        ActionDescriptor::ContinueBasicMovement { unit_instance_id } => valid_identity(
            unit_instance_id@,
        ),
        ActionDescriptor::DeclineAttack => true,
        ActionDescriptor::Draw { .. } => true,
        ActionDescriptor::DrawSite => true,
        ActionDescriptor::DrawSpell => true,
        ActionDescriptor::EndTurn => true,
        ActionDescriptor::Intercept { unit_instance_id } => valid_identity(unit_instance_id@),
        ActionDescriptor::OrderDeathrites { source_instance_id } => valid_identity(
            source_instance_id@,
        ),
        ActionDescriptor::ResolveChainMagic => true,
        ActionDescriptor::ActivateSiteDestruction {
            source_site_instance_id,
            target_cell,
            target_site_instance_id,
        } => valid_identity(source_site_instance_id@) && target_cell@ < 20 && valid_identity(
            target_site_instance_id@,
        ),
        ActionDescriptor::ActivateSparkmage { source_instance_id, target_location } => valid_identity(
            source_instance_id@,
        ) && target_location.cell@ < 20,
        ActionDescriptor::DeclareAttack { target } => valid_identity(
            crate::action::combat_target_id(target),
        ),
        ActionDescriptor::ExtendChainMagic { target } => valid_identity(
            crate::action::unit_target_id(target),
        ),
        ActionDescriptor::ReplaceRubbleWithTopAtlasSite { target_cell, target_rubble_instance_id } =>
            target_cell@ < 20 && valid_identity(target_rubble_instance_id@),
        ActionDescriptor::ResolveGenesisSpellOrder { .. } => true,
        _ => false,
    }
}

/// Two kind-first descriptors of the same kind compare, after their kind,
/// as the order of that kind's fields says.
proof fn lemma_kind_first_rest_order(l: ActionDescriptor, r: ActionDescriptor)
    requires
        numbers_comparable(l, r),
        kind_first_stated(l),
        kind_first_stated(r),
        kind_first_index(l) == kind_first_index(r),
    ensures
        lex_order(char_codes(kind_first_rest(l)), char_codes(kind_first_rest(r))) == same_kind_order(
            l,
            r,
        ),
{
    if l is Draw {
        lemma_rest_order_draw(l, r);
    }
    if l is CloseDefend {
        lemma_rest_order_close_defend(l, r);
    }
    if l is ContinueBasicMovement {
        lemma_rest_order_continue_basic_movement(l, r);
    }
    if l is Intercept {
        lemma_rest_order_intercept(l, r);
    }
    if l is OrderDeathrites {
        lemma_rest_order_order_deathrites(l, r);
    }
    if l is ActivateSiteDestruction {
        lemma_rest_order_activate_site_destruction(l, r);
    }
    if l is ActivateSparkmage {
        lemma_rest_order_activate_sparkmage(l, r);
    }
    if l is DeclareAttack {
        lemma_rest_order_declare_attack(l, r);
    }
    if l is ExtendChainMagic {
        lemma_rest_order_extend_chain_magic(l, r);
    }
    if l is ReplaceRubbleWithTopAtlasSite {
        lemma_rest_order_replace_rubble_with_top_atlas_site(l, r);
    }
    if l is ResolveGenesisSpellOrder {
        lemma_rest_order_resolve_genesis_spell_order(l, r);
    }
    if l is CloseIntercept || l is DeclineAttack || l is DrawSite || l is DrawSpell || l is EndTurn
        || l is ResolveChainMagic {
        reveal(kind_first_rest);
        lemma_lex_order_equal(char_codes("}"@), char_codes("}"@));
    }
}

proof fn lemma_rest_order_draw(l: ActionDescriptor, r: ActionDescriptor)
    requires
        kind_first_stated(l),
        kind_first_stated(r),
        l is Draw,
        r is Draw,
    ensures
        lex_order(char_codes(kind_first_rest(l)), char_codes(kind_first_rest(r))) == same_kind_order(
            l,
            r,
        ),
{
    reveal(kind_first_rest);
    let close = "}"@;
    lemma_lex_order_equal(char_codes(close), char_codes(close));
    match (l, r) {
        (ActionDescriptor::Draw { zone: lz }, ActionDescriptor::Draw { zone: rz }) => {
            let p = ",\"zone\":"@;
            lemma_char_codes_concat(p, string_text(zone_text(lz)) + close);
            lemma_char_codes_concat(p, string_text(zone_text(rz)) + close);
            assert(kind_first_rest(l) =~= p + (string_text(zone_text(lz)) + close));
            assert(kind_first_rest(r) =~= p + (string_text(zone_text(rz)) + close));
            lemma_lex_order_common_prefix(
                char_codes(p),
                char_codes(string_text(zone_text(lz)) + close),
                char_codes(string_text(zone_text(rz)) + close),
            );
            lemma_string_field_order(zone_text(lz), zone_text(rz), close, close);
            reveal_strlit("atlas");
            reveal_strlit("spellbook");
            let a = "atlas"@;
            let b = "spellbook"@;
            assert forall|j: int| 0 <= j < a.len() implies crate::text::json_plain_char(#[trigger] a[j]) by {}
            assert forall|j: int| 0 <= j < b.len() implies crate::text::json_plain_char(#[trigger] b[j]) by {}
            lemma_plain_name_less(a, b, 0);
            lemma_text_antisymmetric(a, b);
            lemma_lex_order_equal(char_codes(json_string_tail(a)), char_codes(json_string_tail(a)));
            lemma_lex_order_equal(char_codes(json_string_tail(b)), char_codes(json_string_tail(b)));
        },
        _ => {},
    }
}

proof fn lemma_rest_order_close_defend(l: ActionDescriptor, r: ActionDescriptor)
    requires
        kind_first_stated(l),
        kind_first_stated(r),
        l is CloseDefend,
        r is CloseDefend,
    ensures
        lex_order(char_codes(kind_first_rest(l)), char_codes(kind_first_rest(r))) == same_kind_order(
            l,
            r,
        ),
{
    reveal(kind_first_rest);
    let close = "}"@;
    lemma_lex_order_equal(char_codes(close), char_codes(close));
    match (l, r) {
        (
            ActionDescriptor::CloseDefend { original_target_participates: lp },
            ActionDescriptor::CloseDefend { original_target_participates: rp },
        ) => {
            let p = ",\"originalTargetParticipates\":"@;
            let lt = if lp {
                "true"@
            } else {
                "false"@
            };
            let rt = if rp {
                "true"@
            } else {
                "false"@
            };
            lemma_char_codes_concat(p, lt + close);
            lemma_char_codes_concat(p, rt + close);
            assert(kind_first_rest(l) =~= p + (lt + close));
            assert(kind_first_rest(r) =~= p + (rt + close));
            lemma_lex_order_common_prefix(char_codes(p), char_codes(lt + close), char_codes(rt + close));
            reveal_strlit("true");
            reveal_strlit("false");
            if lp == rp {
                lemma_lex_order_equal(char_codes(lt + close), char_codes(rt + close));
            } else {
                let cl = char_codes(lt + close);
                let cr = char_codes(rt + close);
                assert(cl[0] == char_int((lt + close)[0]));
                assert(cr[0] == char_int((rt + close)[0]));
            }
        },
        _ => {},
    }
}

proof fn lemma_rest_order_continue_basic_movement(l: ActionDescriptor, r: ActionDescriptor)
    requires
        kind_first_stated(l),
        kind_first_stated(r),
        l is ContinueBasicMovement,
        r is ContinueBasicMovement,
    ensures
        lex_order(char_codes(kind_first_rest(l)), char_codes(kind_first_rest(r))) == same_kind_order(
            l,
            r,
        ),
{
    reveal(kind_first_rest);
    let close = "}"@;
    lemma_lex_order_equal(char_codes(close), char_codes(close));
    match (l, r) {
        (
            ActionDescriptor::ContinueBasicMovement { unit_instance_id: lu },
            ActionDescriptor::ContinueBasicMovement { unit_instance_id: ru },
        ) => {
            lemma_id_rest_order(",\"unitInstanceId\":"@, lu@, ru@);
        },
        _ => {},
    }
}

proof fn lemma_rest_order_intercept(l: ActionDescriptor, r: ActionDescriptor)
    requires
        kind_first_stated(l),
        kind_first_stated(r),
        l is Intercept,
        r is Intercept,
    ensures
        lex_order(char_codes(kind_first_rest(l)), char_codes(kind_first_rest(r))) == same_kind_order(
            l,
            r,
        ),
{
    reveal(kind_first_rest);
    let close = "}"@;
    lemma_lex_order_equal(char_codes(close), char_codes(close));
    match (l, r) {
        (
            ActionDescriptor::Intercept { unit_instance_id: lu },
            ActionDescriptor::Intercept { unit_instance_id: ru },
        ) => {
            lemma_id_rest_order(",\"unitInstanceId\":"@, lu@, ru@);
        },
        _ => {},
    }
}

proof fn lemma_rest_order_order_deathrites(l: ActionDescriptor, r: ActionDescriptor)
    requires
        kind_first_stated(l),
        kind_first_stated(r),
        l is OrderDeathrites,
        r is OrderDeathrites,
    ensures
        lex_order(char_codes(kind_first_rest(l)), char_codes(kind_first_rest(r))) == same_kind_order(
            l,
            r,
        ),
{
    reveal(kind_first_rest);
    let close = "}"@;
    lemma_lex_order_equal(char_codes(close), char_codes(close));
    match (l, r) {
        (
            ActionDescriptor::OrderDeathrites { source_instance_id: lu },
            ActionDescriptor::OrderDeathrites { source_instance_id: ru },
        ) => {
            lemma_id_rest_order(",\"sourceInstanceId\":"@, lu@, ru@);
        },
        _ => {},
    }
}

proof fn lemma_rest_order_activate_site_destruction(l: ActionDescriptor, r: ActionDescriptor)
    requires
        kind_first_stated(l),
        kind_first_stated(r),
        l is ActivateSiteDestruction,
        r is ActivateSiteDestruction,
    ensures
        lex_order(char_codes(kind_first_rest(l)), char_codes(kind_first_rest(r))) == same_kind_order(
            l,
            r,
        ),
{
    reveal(kind_first_rest);
    let close = "}"@;
    lemma_lex_order_equal(char_codes(close), char_codes(close));
    match (l, r) {
        (
            ActionDescriptor::ActivateSiteDestruction {
                source_site_instance_id: ls,
                target_cell: lc,
                target_site_instance_id: lt,
            },
            ActionDescriptor::ActivateSiteDestruction {
                source_site_instance_id: rs,
                target_cell: rc,
                target_site_instance_id: rt,
            },
        ) => {
            let p = ",\"sourceSiteInstanceId\":"@;
            let q = ",\"targetCell\":"@;
            let t = ",\"targetSiteInstanceId\":"@;
            let wl = t + string_text(lt@) + close;
            let wr = t + string_text(rt@) + close;
            let vl = q + (cell_text(lc) + wl);
            let vr = q + (cell_text(rc) + wr);
            assert(kind_first_rest(l) =~= p + (string_text(ls@) + vl));
            assert(kind_first_rest(r) =~= p + (string_text(rs@) + vr));
            lemma_text_prefix(p, string_text(ls@) + vl, string_text(rs@) + vr);
            lemma_string_field_order(ls@, rs@, vl, vr);
            lemma_identity_text_order(ls@, rs@);
            lemma_text_prefix(q, cell_text(lc) + wl, cell_text(rc) + wr);
            lemma_cell_field(lc, rc, wl, wr);
            lemma_id_rest_order(t, lt@, rt@);
        },
        _ => {},
    }
}

proof fn lemma_rest_order_activate_sparkmage(l: ActionDescriptor, r: ActionDescriptor)
    requires
        kind_first_stated(l),
        kind_first_stated(r),
        l is ActivateSparkmage,
        r is ActivateSparkmage,
    ensures
        lex_order(char_codes(kind_first_rest(l)), char_codes(kind_first_rest(r))) == same_kind_order(
            l,
            r,
        ),
{
    reveal(kind_first_rest);
    let close = "}"@;
    lemma_lex_order_equal(char_codes(close), char_codes(close));
    match (l, r) {
        (
            ActionDescriptor::ActivateSparkmage { source_instance_id: ls, target_location: ll },
            ActionDescriptor::ActivateSparkmage { source_instance_id: rs, target_location: rl },
        ) => {
            let p = ",\"sourceInstanceId\":"@;
            let q = ",\"targetLocation\":"@;
            let vl = q + (location_text(ll) + close);
            let vr = q + (location_text(rl) + close);
            assert(kind_first_rest(l) =~= p + (string_text(ls@) + vl));
            assert(kind_first_rest(r) =~= p + (string_text(rs@) + vr));
            lemma_text_prefix(p, string_text(ls@) + vl, string_text(rs@) + vr);
            lemma_string_field_order(ls@, rs@, vl, vr);
            lemma_identity_text_order(ls@, rs@);
            lemma_text_prefix(q, location_text(ll) + close, location_text(rl) + close);
            lemma_location_field(ll, rl, close, close);
        },
        _ => {},
    }
}

proof fn lemma_rest_order_declare_attack(l: ActionDescriptor, r: ActionDescriptor)
    requires
        kind_first_stated(l),
        kind_first_stated(r),
        l is DeclareAttack,
        r is DeclareAttack,
    ensures
        lex_order(char_codes(kind_first_rest(l)), char_codes(kind_first_rest(r))) == same_kind_order(
            l,
            r,
        ),
{
    reveal(kind_first_rest);
    let close = "}"@;
    lemma_lex_order_equal(char_codes(close), char_codes(close));
    match (l, r) {
        (
            ActionDescriptor::DeclareAttack { target: lt },
            ActionDescriptor::DeclareAttack { target: rt },
        ) => {
            let p = ",\"target\":"@;
            assert(kind_first_rest(l) =~= p + (combat_target_text(lt) + close));
            assert(kind_first_rest(r) =~= p + (combat_target_text(rt) + close));
            lemma_text_prefix(p, combat_target_text(lt) + close, combat_target_text(rt) + close);
            lemma_combat_target_field(lt, rt, close, close);
        },
        _ => {},
    }
}

proof fn lemma_rest_order_extend_chain_magic(l: ActionDescriptor, r: ActionDescriptor)
    requires
        kind_first_stated(l),
        kind_first_stated(r),
        l is ExtendChainMagic,
        r is ExtendChainMagic,
    ensures
        lex_order(char_codes(kind_first_rest(l)), char_codes(kind_first_rest(r))) == same_kind_order(
            l,
            r,
        ),
{
    reveal(kind_first_rest);
    let close = "}"@;
    lemma_lex_order_equal(char_codes(close), char_codes(close));
    match (l, r) {
        (
            ActionDescriptor::ExtendChainMagic { target: lt },
            ActionDescriptor::ExtendChainMagic { target: rt },
        ) => {
            let p = ",\"target\":"@;
            assert(kind_first_rest(l) =~= p + (unit_target_text(lt) + close));
            assert(kind_first_rest(r) =~= p + (unit_target_text(rt) + close));
            lemma_text_prefix(p, unit_target_text(lt) + close, unit_target_text(rt) + close);
            lemma_unit_target_field(lt, rt, close, close);
        },
        _ => {},
    }
}

proof fn lemma_rest_order_replace_rubble_with_top_atlas_site(l: ActionDescriptor, r: ActionDescriptor)
    requires
        kind_first_stated(l),
        kind_first_stated(r),
        l is ReplaceRubbleWithTopAtlasSite,
        r is ReplaceRubbleWithTopAtlasSite,
    ensures
        lex_order(char_codes(kind_first_rest(l)), char_codes(kind_first_rest(r))) == same_kind_order(
            l,
            r,
        ),
{
    reveal(kind_first_rest);
    let close = "}"@;
    lemma_lex_order_equal(char_codes(close), char_codes(close));
    match (l, r) {
        (
            ActionDescriptor::ReplaceRubbleWithTopAtlasSite {
                target_cell: lc,
                target_rubble_instance_id: li,
            },
            ActionDescriptor::ReplaceRubbleWithTopAtlasSite {
                target_cell: rc,
                target_rubble_instance_id: ri,
            },
        ) => {
            let p = ",\"targetCell\":"@;
            let t = ",\"targetRubbleInstanceId\":"@;
            let wl = t + string_text(li@) + close;
            let wr = t + string_text(ri@) + close;
            assert(kind_first_rest(l) =~= p + (cell_text(lc) + wl));
            assert(kind_first_rest(r) =~= p + (cell_text(rc) + wr));
            lemma_text_prefix(p, cell_text(lc) + wl, cell_text(rc) + wr);
            lemma_cell_field(lc, rc, wl, wr);
            lemma_id_rest_order(t, li@, ri@);
        },
        _ => {},
    }
}

proof fn lemma_rest_order_resolve_genesis_spell_order(l: ActionDescriptor, r: ActionDescriptor)
    requires
        numbers_comparable(l, r),
        kind_first_stated(l),
        kind_first_stated(r),
        l is ResolveGenesisSpellOrder,
        r is ResolveGenesisSpellOrder,
    ensures
        lex_order(char_codes(kind_first_rest(l)), char_codes(kind_first_rest(r))) == same_kind_order(
            l,
            r,
        ),
{
    reveal(kind_first_rest);
    let close = "}"@;
    lemma_lex_order_equal(char_codes(close), char_codes(close));
    match (l, r) {
        (
            ActionDescriptor::ResolveGenesisSpellOrder { order: lo },
            ActionDescriptor::ResolveGenesisSpellOrder { order: ro },
        ) => {
            let p = ",\"order\":["@;
            assert(kind_first_rest(l) =~= p + (byte_list_tail(lo@) + close));
            assert(kind_first_rest(r) =~= p + (byte_list_tail(ro@) + close));
            lemma_text_prefix(p, byte_list_tail(lo@) + close, byte_list_tail(ro@) + close);
            lemma_byte_list_order(lo@, ro@, close, close);
        },
        _ => {},
    }
}

/// A member that holds an identity and closes its object compares as the
/// identities do.
proof fn lemma_id_rest_order(p: Seq<char>, u: Seq<char>, v: Seq<char>)
    requires
        valid_identity(u),
        valid_identity(v),
    ensures
        lex_order(char_codes(p + string_text(u) + "}"@), char_codes(p + string_text(v) + "}"@))
            == identity_order(u, v),
{
    let close = "}"@;
    lemma_lex_order_equal(char_codes(close), char_codes(close));
    lemma_char_codes_concat(p, string_text(u) + close);
    lemma_char_codes_concat(p, string_text(v) + close);
    assert(p + string_text(u) + close =~= p + (string_text(u) + close));
    assert(p + string_text(v) + close =~= p + (string_text(v) + close));
    lemma_lex_order_common_prefix(
        char_codes(p),
        char_codes(string_text(u) + close),
        char_codes(string_text(v) + close),
    );
    lemma_string_field_order(u, v, close, close);
    lemma_identity_text_order(u, v);
}

/// Kind-first descriptors whose text this module states sort exactly as
/// their canonical JSON texts do.
#[verifier::rlimit(60)]
proof fn lemma_kind_first_order_as_text(l: ActionDescriptor, r: ActionDescriptor)
    requires
        numbers_comparable(l, r),
        kind_first_stated(l),
        kind_first_stated(r),
    ensures
        canonical_order(l, r) == lex_order(
            char_codes(kind_first_text(l)),
            char_codes(kind_first_text(r)),
        ),
{
    let p = "{\"kind\":"@;
    let il = kind_first_index(l);
    let ir = kind_first_index(r);
    let nl = kind_first_names()[il];
    let nr = kind_first_names()[ir];
    let xl = kind_first_rest(l);
    let xr = kind_first_rest(r);
    assert(kind_first_text(l) =~= p + (string_text(nl) + xl));
    assert(kind_first_text(r) =~= p + (string_text(nr) + xr));
    lemma_char_codes_concat(p, string_text(nl) + xl);
    lemma_char_codes_concat(p, string_text(nr) + xr);
    lemma_lex_order_common_prefix(
        char_codes(p),
        char_codes(string_text(nl) + xl),
        char_codes(string_text(nr) + xr),
    );
    lemma_string_field_order(nl, nr, xl, xr);
    lemma_kind_names_order(il, ir);
    if il == ir {
        lemma_kind_first_rest_order(l, r);
    }
}

/// The first character of a stated descriptor's text after `{"`: the
/// initial of its first key.
pub open spec fn first_key_initial(d: ActionDescriptor) -> int {
    if d is ActivateMana || d is AllocateStrike || d is Mulligan || ally_of(d) is Some {
        97
    } else if d is PlaySite || d is BeginChainMagic || d is CastMagic || d is SummonMinion {
        99
    } else if d is ShootProjectile || d is ShootDamageProjectile {
        100
    } else if d is MoveAndAttack || d is Defend {
        102
    } else {
        107
    }
}

/// The fourth character of a stated descriptor's text, for texts whose first
/// key begins with `a`: `l` for `ally`, `m` for `amount`, `t` for `atlasOrder`.
pub open spec fn first_key_second(d: ActionDescriptor) -> int {
    if ally_of(d) is Some {
        108
    } else if d is Mulligan {
        116
    } else {
        109
    }
}

proof fn lemma_text_initial(d: ActionDescriptor)
    requires
        text_stated(d),
    ensures
        descriptor_text(d).len() > 2,
        char_codes(descriptor_text(d))[0] == 123,
        char_codes(descriptor_text(d))[1] == 34,
        char_codes(descriptor_text(d))[2] == first_key_initial(d),
        first_key_initial(d) == 97 ==> descriptor_text(d).len() > 3 && char_codes(
            descriptor_text(d),
        )[3] == first_key_second(d),
{
    reveal_strlit("{\"amount\":");
    reveal_strlit("{\"atlasOrder\":[");
    reveal_strlit("{\"kind\":");
    reveal_strlit("{\"from\":");
    reveal_strlit("{\"direction\":");
    reveal_strlit("{\"cardId\":");
    reveal_strlit("{\"ally\":");
    let t = descriptor_text(d);
    let lit = if ally_of(d) is Some {
        "{\"ally\":"@
    } else if d is Mulligan {
        "{\"atlasOrder\":["@
    } else if d is PlaySite || d is BeginChainMagic || d is CastMagic || d is SummonMinion {
        "{\"cardId\":"@
    } else if d is ActivateMana || d is AllocateStrike {
        "{\"amount\":"@
    } else if d is ShootProjectile || d is ShootDamageProjectile {
        "{\"direction\":"@
    } else if d is MoveAndAttack || d is Defend {
        "{\"from\":"@
    } else {
        "{\"kind\":"@
    };
    assert(t =~= lit + t.skip(lit.len() as int));
    assert(char_codes(t)[0] == char_int(t[0]));
    assert(char_codes(t)[1] == char_int(t[1]));
    assert(char_codes(t)[2] == char_int(t[2]));
    assert(char_codes(t)[3] == char_int(t[3]));
}

/// Descriptors whose canonical JSON text this module states, with
/// well-formed identities, cells, and paths, sort exactly as those texts do:
/// mana activations, strike allocations, mulligans, projectiles, movements,
/// site plays, chain starts, casts, summons, and the kind-first descriptors
/// that [`kind_first_stated`] admits, where descriptors that play the same
/// card instance are of the same kind, and where two summons' mana costs or
/// two Genesis spell orders compare as their texts do
/// ([`numbers_comparable`]: no shorter number that is a proper prefix of the
/// other is closed by a brace or bracket, and spell-order entries order alike
/// as numbers and as text).
pub proof fn lemma_stated_descriptors_order_as_text(l: ActionDescriptor, r: ActionDescriptor)
    requires
        text_stated(l),
        text_stated(r),
        consistent_pair(l, r),
        numbers_comparable(l, r),
    ensures
        canonical_order(l, r) == lex_order(
            char_codes(descriptor_text(l)),
            char_codes(descriptor_text(r)),
        ),
{
    let leading_l = l is ActivateMana || l is AllocateStrike || l is Mulligan;
    let leading_r = r is ActivateMana || r is AllocateStrike || r is Mulligan;
    let shot_l = l is ShootProjectile || l is ShootDamageProjectile;
    let shot_r = r is ShootProjectile || r is ShootDamageProjectile;
    let move_l = l is MoveAndAttack || l is Defend;
    let move_r = r is MoveAndAttack || r is Defend;
    let ally_l = ally_of(l) is Some;
    let ally_r = ally_of(r) is Some;
    let card_l = (l is PlaySite || l is BeginChainMagic || l is CastMagic || l is SummonMinion)
        && !ally_l;
    let card_r = (r is PlaySite || r is BeginChainMagic || r is CastMagic || r is SummonMinion)
        && !ally_r;
    if ally_l && ally_r {
        lemma_ally_casts_order_as_text(l, r);
    } else if card_l && card_r {
        lemma_cards_order_as_text(l, r);
    } else if leading_l && leading_r {
        lemma_leading_groups_order_as_text(l, r);
    } else if shot_l && shot_r {
        lemma_projectiles_order_as_text(l, r);
    } else if move_l && move_r {
        lemma_movements_order_as_text(l, r);
    } else if !leading_l && !leading_r && !shot_l && !shot_r && !move_l && !move_r && !card_l
        && !card_r && !ally_l && !ally_r {
        lemma_kind_first_order_as_text(l, r);
    } else {
        lemma_text_initial(l);
        lemma_text_initial(r);
        let cl = char_codes(descriptor_text(l));
        let cr = char_codes(descriptor_text(r));
        if first_key_initial(l) != first_key_initial(r) {
            assert forall|j: int| 0 <= j < 2 implies cl[j] == cr[j] by {}
            lemma_lex_order_skip(cl, cr, 2);
            assert(cl.skip(2)[0] == cl[2]);
            assert(cr.skip(2)[0] == cr[2]);
        } else {
            assert forall|j: int| 0 <= j < 3 implies cl[j] == cr[j] by {}
            lemma_lex_order_skip(cl, cr, 3);
            assert(cl.skip(3)[0] == cl[3]);
            assert(cr.skip(3)[0] == cr[3]);
        }
    }
}

/// A common leading text does not change a comparison.
proof fn lemma_text_prefix(p: Seq<char>, a: Seq<char>, b: Seq<char>)
    ensures
        lex_order(char_codes(p + a), char_codes(p + b)) == lex_order(char_codes(a), char_codes(b)),
{
    lemma_char_codes_concat(p, a);
    lemma_char_codes_concat(p, b);
    lemma_lex_order_common_prefix(char_codes(p), char_codes(a), char_codes(b));
}

/// Whether consecutive names sort in increasing order as JSON strings.
pub open spec fn names_ascending(names: Seq<Seq<char>>) -> bool {
    forall|k: int|
        0 <= k < names.len() - 1 ==> #[trigger] json_text_order(names[k], names[k + 1])
            == Ordering::Less
}

proof fn lemma_names_ascending_less(names: Seq<Seq<char>>, i: int, j: int)
    requires
        names_ascending(names),
        0 <= i < j < names.len(),
    ensures
        json_text_order(names[i], names[j]) == Ordering::Less,
    decreases j - i,
{
    let k = j - 1;
    assert(json_text_order(names[k], names[k + 1]) == Ordering::Less);
    assert(k + 1 == j);
    if i < j - 1 {
        lemma_names_ascending_less(names, i, j - 1);
        lemma_lex_order_transitive(
            char_codes(json_string_tail(names[i])),
            char_codes(json_string_tail(names[j - 1])),
            char_codes(json_string_tail(names[j])),
        );
    }
}

/// A name field, followed by anything, compares by the name's position in an
/// ascending list.
proof fn lemma_name_field(names: Seq<Seq<char>>, i: int, j: int, x: Seq<char>, y: Seq<char>)
    requires
        names_ascending(names),
        0 <= i < names.len(),
        0 <= j < names.len(),
    ensures
        lex_order(char_codes(string_text(names[i]) + x), char_codes(string_text(names[j]) + y))
            == then_order(int_order(i, j), lex_order(char_codes(x), char_codes(y))),
{
    lemma_string_field_order(names[i], names[j], x, y);
    if i < j {
        lemma_names_ascending_less(names, i, j);
    } else if j < i {
        lemma_names_ascending_less(names, j, i);
        lemma_text_antisymmetric(names[j], names[i]);
    } else {
        lemma_lex_order_equal(
            char_codes(json_string_tail(names[i])),
            char_codes(json_string_tail(names[j])),
        );
    }
}

/// Region names in code order.
pub open spec fn region_names() -> Seq<Seq<char>> {
    seq!["surface"@, "underground"@, "underwater"@, "void"@]
}

/// Seat names in code order.
pub open spec fn seat_names() -> Seq<Seq<char>> {
    seq!["north"@, "south"@]
}

/// Unit target kind names in code order.
pub open spec fn unit_kind_names() -> Seq<Seq<char>> {
    seq!["avatar"@, "minion"@]
}

/// Combat target kind names in code order.
pub open spec fn combat_kind_names() -> Seq<Seq<char>> {
    seq!["avatar"@, "minion"@, "site"@]
}

proof fn lemma_small_names_ascending()
    ensures
        names_ascending(region_names()),
        names_ascending(seat_names()),
        names_ascending(unit_kind_names()),
        names_ascending(combat_kind_names()),
{
    reveal_strlit("surface");
    reveal_strlit("underground");
    reveal_strlit("underwater");
    reveal_strlit("void");
    reveal_strlit("north");
    reveal_strlit("south");
    reveal_strlit("avatar");
    reveal_strlit("minion");
    reveal_strlit("site");
    let surface = "surface"@;
    let underground = "underground"@;
    let underwater = "underwater"@;
    let void = "void"@;
    let north = "north"@;
    let south = "south"@;
    let avatar = "avatar"@;
    let minion = "minion"@;
    let site = "site"@;
    assert forall|j: int| 0 <= j < surface.len() implies crate::text::json_plain_char(#[trigger] surface[j]) by {}
    assert forall|j: int| 0 <= j < underground.len() implies crate::text::json_plain_char(#[trigger] underground[j]) by {}
    assert forall|j: int| 0 <= j < underwater.len() implies crate::text::json_plain_char(#[trigger] underwater[j]) by {}
    assert forall|j: int| 0 <= j < void.len() implies crate::text::json_plain_char(#[trigger] void[j]) by {}
    assert forall|j: int| 0 <= j < north.len() implies crate::text::json_plain_char(#[trigger] north[j]) by {}
    assert forall|j: int| 0 <= j < south.len() implies crate::text::json_plain_char(#[trigger] south[j]) by {}
    assert forall|j: int| 0 <= j < avatar.len() implies crate::text::json_plain_char(#[trigger] avatar[j]) by {}
    assert forall|j: int| 0 <= j < minion.len() implies crate::text::json_plain_char(#[trigger] minion[j]) by {}
    assert forall|j: int| 0 <= j < site.len() implies crate::text::json_plain_char(#[trigger] site[j]) by {}
    lemma_plain_name_less(surface, underground, 0);
    assert forall|j: int| 0 <= j < 5 implies underground[j] == underwater[j] by {}
    lemma_plain_name_less(underground, underwater, 5);
    lemma_plain_name_less(underwater, void, 0);
    lemma_plain_name_less(north, south, 0);
    lemma_plain_name_less(avatar, minion, 0);
    lemma_plain_name_less(minion, site, 0);
    assert forall|k: int| 0 <= k < region_names().len() - 1 implies #[trigger] json_text_order(
        region_names()[k],
        region_names()[k + 1],
    ) == Ordering::Less by {}
    assert forall|k: int| 0 <= k < combat_kind_names().len() - 1 implies #[trigger] json_text_order(
        combat_kind_names()[k],
        combat_kind_names()[k + 1],
    ) == Ordering::Less by {}
}

/// The JSON text of a cell: its quoted name.
pub open spec fn cell_text(c: Cell) -> Seq<char> {
    string_text(index_name(c@))
}

/// A cell field, followed by anything, compares as cells do.
proof fn lemma_cell_field(a: Cell, b: Cell, x: Seq<char>, y: Seq<char>)
    requires
        a@ < 20,
        b@ < 20,
    ensures
        lex_order(char_codes(cell_text(a) + x), char_codes(cell_text(b) + y)) == then_order(
            cell_order(a, b),
            lex_order(char_codes(x), char_codes(y)),
        ),
{
    let na = index_name(a@);
    let nb = index_name(b@);
    lemma_index_name_chars(a@);
    lemma_index_name_chars(b@);
    lemma_string_field_order(na, nb, x, y);
    assert forall|j: int| 0 <= j < na.len() implies crate::text::json_plain_char(#[trigger] na[j]) by {}
    assert forall|j: int| 0 <= j < nb.len() implies crate::text::json_plain_char(#[trigger] nb[j]) by {}
    lemma_escape_plain(na);
    lemma_escape_plain(nb);
    let ca = char_codes(na.push('"'));
    let cb = char_codes(nb.push('"'));
    assert(ca[0] == 65 + index_file(a@) && cb[0] == 65 + index_file(b@));
    assert(ca[1] == 49 + index_rank(a@) && cb[1] == 49 + index_rank(b@));
    assert(ca[2] == 34 && cb[2] == 34);
    assert(a@ == 4 * index_file(a@) + index_rank(a@));
    assert(b@ == 4 * index_file(b@) + index_rank(b@));
    if index_file(a@) != index_file(b@) {
        lemma_lex_order_skip(ca, cb, 0);
        assert(ca.skip(0) =~= ca && cb.skip(0) =~= cb);
    } else if index_rank(a@) != index_rank(b@) {
        lemma_lex_order_skip(ca, cb, 1);
        assert(ca.skip(1)[0] == ca[1] && cb.skip(1)[0] == cb[1]);
    } else {
        assert(ca =~= cb);
        lemma_lex_order_equal(ca, cb);
    }
}

/// The JSON text of a location.
#[verifier::opaque]
pub open spec fn location_text(l: Location) -> Seq<char> {
    "{\"cell\":"@ + cell_text(l.cell) + ",\"region\":"@ + string_text(
        region_names()[region_code(l.region)],
    ) + "}"@
}

/// A location field, followed by anything, compares as locations do.
proof fn lemma_location_field(a: Location, b: Location, x: Seq<char>, y: Seq<char>)
    requires
        a.cell@ < 20,
        b.cell@ < 20,
    ensures
        lex_order(char_codes(location_text(a) + x), char_codes(location_text(b) + y)) == then_order(
            location_order(a, b),
            lex_order(char_codes(x), char_codes(y)),
        ),
{
    reveal(location_text);
    let p = "{\"cell\":"@;
    let q = ",\"region\":"@;
    let close = "}"@;
    let ra = string_text(region_names()[region_code(a.region)]);
    let rb = string_text(region_names()[region_code(b.region)]);
    let sa = q + ra + close + x;
    let sb = q + rb + close + y;
    assert(location_text(a) + x =~= p + (cell_text(a.cell) + sa));
    assert(location_text(b) + y =~= p + (cell_text(b.cell) + sb));
    lemma_text_prefix(p, cell_text(a.cell) + sa, cell_text(b.cell) + sb);
    lemma_cell_field(a.cell, b.cell, sa, sb);
    assert(sa =~= q + (ra + (close + x)));
    assert(sb =~= q + (rb + (close + y)));
    lemma_text_prefix(q, ra + (close + x), rb + (close + y));
    lemma_small_names_ascending();
    lemma_name_field(region_names(), region_code(a.region), region_code(b.region), close + x, close + y);
    lemma_text_prefix(close, x, y);
}

/// The JSON text of a unit target.
pub open spec fn unit_target_text(t: UnitTarget) -> Seq<char> {
    "{\"instanceId\":"@ + string_text(crate::action::unit_target_id(t)) + ",\"kind\":"@
        + string_text(unit_kind_names()[unit_target_code(t)]) + ",\"seat\":"@ + string_text(
        seat_names()[seat_code(crate::action::unit_target_seat(t))],
    ) + "}"@
}

/// The JSON text of a combat target.
pub open spec fn combat_target_text(t: CombatTarget) -> Seq<char> {
    "{\"instanceId\":"@ + string_text(crate::action::combat_target_id(t)) + ",\"kind\":"@
        + string_text(combat_kind_names()[combat_target_code(t)]) + ",\"seat\":"@ + string_text(
        seat_names()[seat_code(crate::action::combat_target_seat(t))],
    ) + "}"@
}

/// A target object (identity, kind, seat), followed by anything, compares by
/// identity, then kind position, then seat position.
proof fn lemma_target_field(
    kinds: Seq<Seq<char>>,
    ia: Seq<char>,
    ka: int,
    sa: int,
    ib: Seq<char>,
    kb: int,
    sb: int,
    x: Seq<char>,
    y: Seq<char>,
)
    requires
        names_ascending(kinds),
        0 <= ka < kinds.len(),
        0 <= kb < kinds.len(),
        0 <= sa < 2,
        0 <= sb < 2,
        valid_identity(ia),
        valid_identity(ib),
    ensures
        lex_order(
            char_codes(
                "{\"instanceId\":"@ + string_text(ia) + ",\"kind\":"@ + string_text(kinds[ka])
                    + ",\"seat\":"@ + string_text(seat_names()[sa]) + "}"@ + x,
            ),
            char_codes(
                "{\"instanceId\":"@ + string_text(ib) + ",\"kind\":"@ + string_text(kinds[kb])
                    + ",\"seat\":"@ + string_text(seat_names()[sb]) + "}"@ + y,
            ),
        ) == then_order(
            identity_order(ia, ib),
            then_order(
                int_order(ka, kb),
                then_order(int_order(sa, sb), lex_order(char_codes(x), char_codes(y))),
            ),
        ),
{
    let p = "{\"instanceId\":"@;
    let k = ",\"kind\":"@;
    let t = ",\"seat\":"@;
    let close = "}"@;
    let za = close + x;
    let zb = close + y;
    let wa = string_text(seat_names()[sa]) + za;
    let wb = string_text(seat_names()[sb]) + zb;
    let va = string_text(kinds[ka]) + (t + wa);
    let vb = string_text(kinds[kb]) + (t + wb);
    let ua = string_text(ia) + (k + va);
    let ub = string_text(ib) + (k + vb);
    assert(p + string_text(ia) + k + string_text(kinds[ka]) + t + string_text(seat_names()[sa])
        + close + x =~= p + ua);
    assert(p + string_text(ib) + k + string_text(kinds[kb]) + t + string_text(seat_names()[sb])
        + close + y =~= p + ub);
    lemma_text_prefix(p, ua, ub);
    lemma_string_field_order(ia, ib, k + va, k + vb);
    lemma_identity_text_order(ia, ib);
    lemma_text_prefix(k, va, vb);
    lemma_name_field(kinds, ka, kb, t + wa, t + wb);
    lemma_text_prefix(t, wa, wb);
    lemma_small_names_ascending();
    lemma_name_field(seat_names(), sa, sb, za, zb);
    lemma_text_prefix(close, x, y);
}

/// A unit target field, followed by anything, compares as unit targets do.
proof fn lemma_unit_target_field(a: UnitTarget, b: UnitTarget, x: Seq<char>, y: Seq<char>)
    requires
        valid_identity(crate::action::unit_target_id(a)),
        valid_identity(crate::action::unit_target_id(b)),
    ensures
        lex_order(char_codes(unit_target_text(a) + x), char_codes(unit_target_text(b) + y))
            == then_order(unit_target_order(a, b), lex_order(char_codes(x), char_codes(y))),
{
    lemma_small_names_ascending();
    lemma_target_field(
        unit_kind_names(),
        crate::action::unit_target_id(a),
        unit_target_code(a),
        seat_code(crate::action::unit_target_seat(a)),
        crate::action::unit_target_id(b),
        unit_target_code(b),
        seat_code(crate::action::unit_target_seat(b)),
        x,
        y,
    );
}

/// A combat target field, followed by anything, compares as combat targets do.
proof fn lemma_combat_target_field(a: CombatTarget, b: CombatTarget, x: Seq<char>, y: Seq<char>)
    requires
        valid_identity(crate::action::combat_target_id(a)),
        valid_identity(crate::action::combat_target_id(b)),
    ensures
        lex_order(char_codes(combat_target_text(a) + x), char_codes(combat_target_text(b) + y))
            == then_order(combat_target_order(a, b), lex_order(char_codes(x), char_codes(y))),
{
    lemma_small_names_ascending();
    lemma_target_field(
        combat_kind_names(),
        crate::action::combat_target_id(a),
        combat_target_code(a),
        seat_code(crate::action::combat_target_seat(a)),
        crate::action::combat_target_id(b),
        combat_target_code(b),
        seat_code(crate::action::combat_target_seat(b)),
        x,
        y,
    );
}

/// The canonical JSON text of a list of bytes after its opening bracket.
pub open spec fn byte_list_tail(bytes: Seq<u8>) -> Seq<char>
    decreases bytes.len(),
{
    if bytes.len() == 0 {
        "]"@
    } else if bytes.len() == 1 {
        digit_text(bytes[0]) + "]"@
    } else {
        digit_text(bytes[0]) + (","@ + byte_list_tail(bytes.skip(1)))
    }
}

/// Whether two bytes, the first differing entries of two lists, compare as
/// their texts do: their numeric and decimal-text orders agree, and a
/// rendering that is a proper prefix of the other is not the last entry of its
/// list (so it is followed by a comma, not by the closing bracket).
pub open spec fn byte_pair_comparable(x: u8, y: u8, x_last: bool, y_last: bool) -> bool {
    &&& json_int_order(byte_u64(x), byte_u64(y)) == byte_elem()(x, y)
    &&& proper_prefix(digit_text(x), digit_text(y)) ==> !x_last
    &&& proper_prefix(digit_text(y), digit_text(x)) ==> !y_last
}

/// Whether two byte lists compare as their texts do: at their first
/// differing entry, if any, the two bytes do.
pub open spec fn byte_lists_comparable(a: Seq<u8>, b: Seq<u8>) -> bool
    decreases a.len(),
{
    if a.len() == 0 || b.len() == 0 {
        true
    } else if a[0] == b[0] {
        byte_lists_comparable(a.skip(1), b.skip(1))
    } else {
        byte_pair_comparable(a[0], b[0], a.len() == 1, b.len() == 1)
    }
}

/// A list of bytes compares, inside canonical JSON text, as the byte array
/// order of this module says, when the lists are comparable; only equal
/// lists let what follows decide.
proof fn lemma_byte_list_order(a: Seq<u8>, b: Seq<u8>, x: Seq<char>, y: Seq<char>)
    requires
        byte_lists_comparable(a, b),
    ensures
        lex_order(char_codes(byte_list_tail(a) + x), char_codes(byte_list_tail(b) + y)) == then_order(
            array_order(a, b, byte_elem()),
            lex_order(char_codes(x), char_codes(y)),
        ),
    decreases a.len(),
{
    reveal_strlit("]");
    reveal_strlit(",");
    let close = "]"@;
    let comma = ","@;
    if a.len() == 0 && b.len() == 0 {
        lemma_text_prefix(close, x, y);
        assert(byte_list_tail(a) == close);
        assert(byte_list_tail(b) == close);
    } else if a.len() == 0 || b.len() == 0 {
        let ta = byte_list_tail(a) + x;
        let tb = byte_list_tail(b) + y;
        if a.len() == 0 {
            let d = digit_text(b[0]);
            lemma_decimal_of_digits(byte_u64(b[0]));
            assert(char_codes(d)[0] <= 57);
            assert(tb[0] == d[0]);
            assert(ta[0] == ']');
            assert(char_codes(tb)[0] == char_codes(d)[0]);
            assert(array_order(a, b, byte_elem()) == Ordering::Greater);
        } else {
            let d = digit_text(a[0]);
            lemma_decimal_of_digits(byte_u64(a[0]));
            assert(char_codes(d)[0] <= 57);
            assert(ta[0] == d[0]);
            assert(tb[0] == ']');
            assert(char_codes(ta)[0] == char_codes(d)[0]);
            assert(array_order(a, b, byte_elem()) == Ordering::Less);
        }
        assert(char_codes(ta)[0] == char_int(ta[0]));
        assert(char_codes(tb)[0] == char_int(tb[0]));
    } else {
        let sa = if a.len() == 1 {
            close + x
        } else {
            comma + byte_list_tail(a.skip(1)) + x
        };
        let sb = if b.len() == 1 {
            close + y
        } else {
            comma + byte_list_tail(b.skip(1)) + y
        };
        assert(byte_list_tail(a) + x =~= digit_text(a[0]) + sa);
        assert(byte_list_tail(b) + y =~= digit_text(b[0]) + sb);
        assert(char_codes(sa)[0] == char_int(sa[0]));
        assert(char_codes(sb)[0] == char_int(sb[0]));
        assert(digit_text(a[0]) == decimal_of(byte_u64(a[0])));
        assert(digit_text(b[0]) == decimal_of(byte_u64(b[0])));
        if a.len() > 1 {
            assert(sa[0] == ',');
        }
        if b.len() > 1 {
            assert(sb[0] == ',');
        }
        if a[0] != b[0] {
            assert(byte_pair_comparable(a[0], b[0], a.len() == 1, b.len() == 1));
        }
        lemma_integer_followed(byte_u64(a[0]), byte_u64(b[0]), sa, sb);
        assert(array_order(a, b, byte_elem()) == then_order(
            byte_elem()(a[0], b[0]),
            array_order(a.skip(1), b.skip(1), byte_elem()),
        ));
        if a[0] != b[0] {
            assert(byte_elem()(a[0], b[0]) != Ordering::Equal);
        } else {
            lemma_lex_order_equal(
                char_codes(decimal_of(byte_u64(a[0]))),
                char_codes(decimal_of(byte_u64(b[0]))),
            );
            assert(byte_elem()(a[0], b[0]) == Ordering::Equal);
            let a1 = a.skip(1);
            let b1 = b.skip(1);
            assert(byte_lists_comparable(a1, b1));
            if a.len() == 1 && b.len() == 1 {
                lemma_text_prefix(close, x, y);
                assert(a1.len() == 0 && b1.len() == 0);
            } else if a.len() == 1 || b.len() == 1 {
                lemma_texts_differ_at(sa, sb, 0);
            } else {
                lemma_byte_list_order(a1, b1, x, y);
                assert(sa =~= comma + (byte_list_tail(a1) + x));
                assert(sb =~= comma + (byte_list_tail(b1) + y));
                lemma_text_prefix(comma, byte_list_tail(a1) + x, byte_list_tail(b1) + y);
            }
        }
    }
}

/// Projectile direction names in code order.
pub open spec fn direction_names() -> Seq<Seq<char>> {
    seq!["east"@, "north"@, "south"@, "west"@]
}

proof fn lemma_direction_names_ascending()
    ensures
        names_ascending(direction_names()),
{
    reveal_strlit("east");
    reveal_strlit("north");
    reveal_strlit("south");
    reveal_strlit("west");
    let e = "east"@;
    let n = "north"@;
    let so = "south"@;
    let w = "west"@;
    assert forall|j: int| 0 <= j < e.len() implies crate::text::json_plain_char(#[trigger] e[j]) by {}
    assert forall|j: int| 0 <= j < n.len() implies crate::text::json_plain_char(#[trigger] n[j]) by {}
    assert forall|j: int| 0 <= j < so.len() implies crate::text::json_plain_char(#[trigger] so[j]) by {}
    assert forall|j: int| 0 <= j < w.len() implies crate::text::json_plain_char(#[trigger] w[j]) by {}
    lemma_plain_name_less(e, n, 0);
    lemma_plain_name_less(n, so, 0);
    lemma_plain_name_less(so, w, 0);
    assert forall|k: int| 0 <= k < direction_names().len() - 1 implies #[trigger] json_text_order(
        direction_names()[k],
        direction_names()[k + 1],
    ) == Ordering::Less by {}
}

/// Whether every location of a list names a cell of the realm.
pub open spec fn locations_valid(locs: Seq<Location>) -> bool {
    forall|i: int| 0 <= i < locs.len() ==> (#[trigger] locs[i]).cell@ < 20
}

/// The canonical JSON text of a list of locations after its opening bracket.
#[verifier::opaque]
pub open spec fn location_list_tail(locs: Seq<Location>) -> Seq<char>
    decreases locs.len(),
{
    if locs.len() == 0 {
        "]"@
    } else if locs.len() == 1 {
        location_text(locs[0]) + "]"@
    } else {
        location_text(locs[0]) + (","@ + location_list_tail(locs.skip(1)))
    }
}

/// A nonempty list of locations compares, inside canonical JSON text, as the
/// array order of this module says; only equal lists let what follows decide.
/// (An empty list's text sorts before any nonempty one, where the array order
/// puts longer lists first; the two agree only on nonempty lists.)
proof fn lemma_location_list_order(a: Seq<Location>, b: Seq<Location>, x: Seq<char>, y: Seq<char>)
    requires
        locations_valid(a),
        locations_valid(b),
        a.len() > 0,
        b.len() > 0,
    ensures
        lex_order(char_codes(location_list_tail(a) + x), char_codes(location_list_tail(b) + y))
            == then_order(array_order(a, b, location_elem()), lex_order(char_codes(x), char_codes(y))),
    decreases a.len(),
{
    reveal(location_list_tail);
    reveal(location_text);
    reveal_strlit("]");
    reveal_strlit(",");
    reveal_strlit("{\"cell\":");
    let close = "]"@;
    let comma = ","@;
    {
        let sa = if a.len() == 1 {
            close + x
        } else {
            comma + location_list_tail(a.skip(1)) + x
        };
        let sb = if b.len() == 1 {
            close + y
        } else {
            comma + location_list_tail(b.skip(1)) + y
        };
        assert(location_list_tail(a) + x =~= location_text(a[0]) + sa);
        assert(location_list_tail(b) + y =~= location_text(b[0]) + sb);
        lemma_location_field(a[0], b[0], sa, sb);
        assert(location_elem()(a[0], b[0]) == location_order(a[0], b[0]));
        assert(array_order(a, b, location_elem()) == then_order(
            location_elem()(a[0], b[0]),
            array_order(a.skip(1), b.skip(1), location_elem()),
        ));
        let a1 = a.skip(1);
        let b1 = b.skip(1);
        assert(locations_valid(a1)) by {
            assert forall|i: int| 0 <= i < a1.len() implies (#[trigger] a1[i]).cell@ < 20 by {
                assert(a1[i] == a[i + 1]);
            }
        }
        assert(locations_valid(b1)) by {
            assert forall|i: int| 0 <= i < b1.len() implies (#[trigger] b1[i]).cell@ < 20 by {
                assert(b1[i] == b[i + 1]);
            }
        }
        if a.len() == 1 && b.len() == 1 {
            lemma_text_prefix(close, x, y);
            assert(a1.len() == 0 && b1.len() == 0);
            assert(lex_order(char_codes(location_list_tail(a) + x), char_codes(location_list_tail(b) + y)) == then_order(array_order(a, b, location_elem()), lex_order(char_codes(x), char_codes(y))));
        } else if a.len() == 1 || b.len() == 1 {
            if a.len() == 1 {
                assert(sa[0] == ']');
                assert(sb[0] == ',');
            } else {
                assert(sa[0] == ',');
                assert(sb[0] == ']');
            }
            assert(char_codes(sa)[0] == char_int(sa[0]));
            assert(char_codes(sb)[0] == char_int(sb[0]));
            assert(lex_order(char_codes(location_list_tail(a) + x), char_codes(location_list_tail(b) + y)) == then_order(array_order(a, b, location_elem()), lex_order(char_codes(x), char_codes(y))));
        } else {
            lemma_location_list_order(a1, b1, x, y);
            assert(sa =~= comma + (location_list_tail(a1) + x));
            assert(sb =~= comma + (location_list_tail(b1) + y));
            lemma_text_prefix(comma, location_list_tail(a1) + x, location_list_tail(b1) + y);
            assert(lex_order(char_codes(location_list_tail(a) + x), char_codes(location_list_tail(b) + y)) == then_order(array_order(a, b, location_elem()), lex_order(char_codes(x), char_codes(y))));
        }
    }
}

/// The JSON text of a nullable unit target.
#[verifier::opaque]
pub open spec fn nullable_target_text(t: Option<UnitTarget>) -> Seq<char> {
    match t {
        Some(target) => unit_target_text(target),
        None => "null"@,
    }
}

/// Whether a nullable unit target names a well-formed identity when present.
pub open spec fn nullable_target_valid(t: Option<UnitTarget>) -> bool {
    match t {
        Some(target) => valid_identity(crate::action::unit_target_id(target)),
        None => true,
    }
}

/// A nullable unit target field, followed by anything, compares as the
/// nullable order of this module says.
proof fn lemma_nullable_target_field(
    a: Option<UnitTarget>,
    b: Option<UnitTarget>,
    x: Seq<char>,
    y: Seq<char>,
)
    requires
        nullable_target_valid(a),
        nullable_target_valid(b),
    ensures
        lex_order(char_codes(nullable_target_text(a) + x), char_codes(nullable_target_text(b) + y))
            == then_order(nullable_target_order(a, b), lex_order(char_codes(x), char_codes(y))),
{
    reveal(nullable_target_text);
    reveal_strlit("null");
    reveal_strlit("{\"instanceId\":");
    match (a, b) {
        (Some(ta), Some(tb)) => {
            lemma_unit_target_field(ta, tb, x, y);
        },
        (None, None) => {
            lemma_text_prefix("null"@, x, y);
        },
        _ => {
            let sa = nullable_target_text(a) + x;
            let sb = nullable_target_text(b) + y;
            assert(char_codes(sa)[0] == char_int(sa[0]));
            assert(char_codes(sb)[0] == char_int(sb[0]));
        },
    }
}

/// The kind name of a movement descriptor.
pub open spec fn movement_kind_name(d: ActionDescriptor) -> Seq<char> {
    if d is Defend {
        "defend"@
    } else {
        "move-and-attack"@
    }
}

/// The canonical JSON text of a movement descriptor (a move-and-attack or a
/// defend).
pub open spec fn movement_text(d: ActionDescriptor) -> Seq<char> {
    let (from, path, to, unit) = movement_spec(d);
    "{\"from\":"@ + location_text(from) + ",\"kind\":"@ + string_text(movement_kind_name(d))
        + ",\"path\":["@ + location_list_tail(path) + ",\"to\":"@ + location_text(to)
        + ",\"unitInstanceId\":"@ + string_text(unit) + "}"@
}

/// Whether a movement descriptor is well formed: realm cells, a nonempty
/// path, and a well-formed unit identity.
pub open spec fn movement_stated(d: ActionDescriptor) -> bool {
    let (from, path, to, unit) = movement_spec(d);
    &&& d is MoveAndAttack || d is Defend
    &&& from.cell@ < 20
    &&& to.cell@ < 20
    &&& path.len() > 0
    &&& locations_valid(path)
    &&& valid_identity(unit)
}

/// The order the canonical JSON text of two movement descriptors gives,
/// field by field.
pub open spec fn movement_text_order(l: ActionDescriptor, r: ActionDescriptor) -> Ordering {
    let (lf, lp, lt, lu) = movement_spec(l);
    let (rf, rp, rt, ru) = movement_spec(r);
    then_order(
        location_order(lf, rf),
        then_order(
            json_text_order(movement_kind_name(l), movement_kind_name(r)),
            then_order(
                array_order(lp, rp, location_elem()),
                then_order(location_order(lt, rt), identity_order(lu, ru)),
            ),
        ),
    )
}

proof fn lemma_movement_text(l: ActionDescriptor, r: ActionDescriptor)
    requires
        movement_stated(l),
        movement_stated(r),
    ensures
        lex_order(char_codes(movement_text(l)), char_codes(movement_text(r))) == movement_text_order(
            l,
            r,
        ),
{
    let (lf, lp, lt, lu) = movement_spec(l);
    let (rf, rp, rt, ru) = movement_spec(r);
    let p0 = "{\"from\":"@;
    let p1 = ",\"kind\":"@;
    let p2 = ",\"path\":["@;
    let p3 = ",\"to\":"@;
    let p4 = ",\"unitInstanceId\":"@;
    let close = "}"@;
    let e_l = p4 + string_text(lu) + close;
    let e_r = p4 + string_text(ru) + close;
    let d_l = p3 + (location_text(lt) + e_l);
    let d_r = p3 + (location_text(rt) + e_r);
    let c_l = p2 + (location_list_tail(lp) + d_l);
    let c_r = p2 + (location_list_tail(rp) + d_r);
    let b_l = p1 + (string_text(movement_kind_name(l)) + c_l);
    let b_r = p1 + (string_text(movement_kind_name(r)) + c_r);
    assert(movement_text(l) =~= p0 + (location_text(lf) + b_l));
    assert(movement_text(r) =~= p0 + (location_text(rf) + b_r));
    lemma_text_prefix(p0, location_text(lf) + b_l, location_text(rf) + b_r);
    lemma_location_field(lf, rf, b_l, b_r);
    lemma_text_prefix(
        p1,
        string_text(movement_kind_name(l)) + c_l,
        string_text(movement_kind_name(r)) + c_r,
    );
    lemma_string_field_order(movement_kind_name(l), movement_kind_name(r), c_l, c_r);
    lemma_text_prefix(p2, location_list_tail(lp) + d_l, location_list_tail(rp) + d_r);
    lemma_location_list_order(lp, rp, d_l, d_r);
    lemma_text_prefix(p3, location_text(lt) + e_l, location_text(rt) + e_r);
    lemma_location_field(lt, rt, e_l, e_r);
    lemma_id_rest_order(p4, lu, ru);
}

proof fn lemma_movement_canonical(l: ActionDescriptor, r: ActionDescriptor)
    requires
        movement_stated(l),
        movement_stated(r),
    ensures
        canonical_order(l, r) == movement_text_order(l, r),
{
    reveal_strlit("defend");
    reveal_strlit("move-and-attack");
    let dn = "defend"@;
    let mn = "move-and-attack"@;
    assert forall|j: int| 0 <= j < dn.len() implies crate::text::json_plain_char(#[trigger] dn[j]) by {}
    assert forall|j: int| 0 <= j < mn.len() implies crate::text::json_plain_char(#[trigger] mn[j]) by {}
    lemma_plain_name_less(dn, mn, 0);
    lemma_text_antisymmetric(dn, mn);
    lemma_lex_order_equal(char_codes(json_string_tail(dn)), char_codes(json_string_tail(dn)));
    lemma_lex_order_equal(char_codes(json_string_tail(mn)), char_codes(json_string_tail(mn)));
}

/// Movement descriptors sort exactly as their canonical JSON texts do.
proof fn lemma_movements_order_as_text(l: ActionDescriptor, r: ActionDescriptor)
    requires
        movement_stated(l),
        movement_stated(r),
    ensures
        canonical_order(l, r) == lex_order(char_codes(movement_text(l)), char_codes(movement_text(r))),
{
    lemma_movement_text(l, r);
    lemma_movement_canonical(l, r);
}

/// The canonical JSON text of a projectile descriptor.
pub open spec fn projectile_text(d: ActionDescriptor) -> Seq<char> {
    let (direction, hit, kind, path, shooter) = projectile_spec(d);
    "{\"direction\":"@ + string_text(direction_names()[direction_code(direction)]) + ",\"hit\":"@
        + nullable_target_text(hit) + ",\"kind\":"@ + string_text(kind) + ",\"path\":["@
        + location_list_tail(path) + ",\"shooterInstanceId\":"@ + string_text(shooter) + "}"@
}

/// Whether a projectile descriptor is well formed: a well-formed hit, a
/// nonempty path of realm cells, and a well-formed shooter identity.
pub open spec fn projectile_stated(d: ActionDescriptor) -> bool {
    let (direction, hit, kind, path, shooter) = projectile_spec(d);
    &&& d is ShootProjectile || d is ShootDamageProjectile
    &&& nullable_target_valid(hit)
    &&& path.len() > 0
    &&& locations_valid(path)
    &&& valid_identity(shooter)
}

/// The canonical JSON text of a projectile, from its fields.
pub open spec fn projectile_fields_text(
    direction: ProjectileDirection,
    hit: Option<UnitTarget>,
    kind: Seq<char>,
    path: Seq<Location>,
    shooter: Seq<char>,
) -> Seq<char> {
    "{\"direction\":"@ + string_text(direction_names()[direction_code(direction)]) + ",\"hit\":"@
        + nullable_target_text(hit) + projectile_rest(kind, path, shooter)
}

proof fn lemma_projectile_fields(
    ld: ProjectileDirection,
    lh: Option<UnitTarget>,
    lk: Seq<char>,
    lp: Seq<Location>,
    ls: Seq<char>,
    rd: ProjectileDirection,
    rh: Option<UnitTarget>,
    rk: Seq<char>,
    rp: Seq<Location>,
    rs: Seq<char>,
)
    requires
        nullable_target_valid(lh),
        nullable_target_valid(rh),
        lp.len() > 0,
        rp.len() > 0,
        locations_valid(lp),
        locations_valid(rp),
        valid_identity(ls),
        valid_identity(rs),
    ensures
        lex_order(
            char_codes(projectile_fields_text(ld, lh, lk, lp, ls)),
            char_codes(projectile_fields_text(rd, rh, rk, rp, rs)),
        ) == then_order(
            int_order(direction_code(ld), direction_code(rd)),
            then_order(
                nullable_target_order(lh, rh),
                then_order(
                    json_text_order(lk, rk),
                    then_order(array_order(lp, rp, location_elem()), identity_order(ls, rs)),
                ),
            ),
        ),
{
    let p0 = "{\"direction\":"@;
    let p1 = ",\"hit\":"@;
    let c_l = projectile_rest(lk, lp, ls);
    let c_r = projectile_rest(rk, rp, rs);
    let b_l = p1 + (nullable_target_text(lh) + c_l);
    let b_r = p1 + (nullable_target_text(rh) + c_r);
    let nl = direction_names()[direction_code(ld)];
    let nr = direction_names()[direction_code(rd)];
    assert(projectile_fields_text(ld, lh, lk, lp, ls) =~= p0 + (string_text(nl) + b_l));
    assert(projectile_fields_text(rd, rh, rk, rp, rs) =~= p0 + (string_text(nr) + b_r));
    lemma_text_prefix(p0, string_text(nl) + b_l, string_text(nr) + b_r);
    lemma_direction_names_ascending();
    lemma_name_field(direction_names(), direction_code(ld), direction_code(rd), b_l, b_r);
    lemma_text_prefix(p1, nullable_target_text(lh) + c_l, nullable_target_text(rh) + c_r);
    lemma_nullable_target_field(lh, rh, c_l, c_r);
    lemma_projectile_rest(lk, lp, ls, rk, rp, rs);
}

/// A projectile's text after its hit: kind, path, shooter.
pub open spec fn projectile_rest(kind: Seq<char>, path: Seq<Location>, shooter: Seq<char>) -> Seq<
    char,
> {
    ",\"kind\":"@ + string_text(kind) + ",\"path\":["@ + location_list_tail(path)
        + ",\"shooterInstanceId\":"@ + string_text(shooter) + "}"@
}

proof fn lemma_projectile_rest(
    lk: Seq<char>,
    lp: Seq<Location>,
    ls: Seq<char>,
    rk: Seq<char>,
    rp: Seq<Location>,
    rs: Seq<char>,
)
    requires
        lp.len() > 0,
        rp.len() > 0,
        locations_valid(lp),
        locations_valid(rp),
        valid_identity(ls),
        valid_identity(rs),
    ensures
        lex_order(char_codes(projectile_rest(lk, lp, ls)), char_codes(projectile_rest(rk, rp, rs)))
            == then_order(
            json_text_order(lk, rk),
            then_order(array_order(lp, rp, location_elem()), identity_order(ls, rs)),
        ),
{
    let p2 = ",\"kind\":"@;
    let p3 = ",\"path\":["@;
    let p4 = ",\"shooterInstanceId\":"@;
    let close = "}"@;
    let e_l = p4 + string_text(ls) + close;
    let e_r = p4 + string_text(rs) + close;
    let d_l = p3 + (location_list_tail(lp) + e_l);
    let d_r = p3 + (location_list_tail(rp) + e_r);
    assert(projectile_rest(lk, lp, ls) =~= p2 + (string_text(lk) + d_l));
    assert(projectile_rest(rk, rp, rs) =~= p2 + (string_text(rk) + d_r));
    lemma_text_prefix(p2, string_text(lk) + d_l, string_text(rk) + d_r);
    lemma_string_field_order(lk, rk, d_l, d_r);
    lemma_text_prefix(p3, location_list_tail(lp) + e_l, location_list_tail(rp) + e_r);
    lemma_location_list_order(lp, rp, e_l, e_r);
    lemma_id_rest_order(p4, ls, rs);
}

#[verifier::rlimit(40)]
proof fn lemma_projectile_text(l: ActionDescriptor, r: ActionDescriptor)
    requires
        projectile_stated(l),
        projectile_stated(r),
    ensures
        lex_order(char_codes(projectile_text(l)), char_codes(projectile_text(r))) == projectile_order(
            l,
            r,
        ),
{
    let (ld, lh, lk, lp, ls) = projectile_spec(l);
    let (rd, rh, rk, rp, rs) = projectile_spec(r);
    assert(projectile_text(l) == projectile_fields_text(ld, lh, lk, lp, ls));
    assert(projectile_text(r) == projectile_fields_text(rd, rh, rk, rp, rs));
    lemma_projectile_fields(ld, lh, lk, lp, ls, rd, rh, rk, rp, rs);
}

/// Projectile descriptors sort exactly as their canonical JSON texts do.
proof fn lemma_projectiles_order_as_text(l: ActionDescriptor, r: ActionDescriptor)
    requires
        projectile_stated(l),
        projectile_stated(r),
    ensures
        canonical_order(l, r) == lex_order(
            char_codes(projectile_text(l)),
            char_codes(projectile_text(r)),
        ),
{
    lemma_projectile_text(l, r);
}

/// Texts that agree on their first `k` characters compare by the next one.
proof fn lemma_texts_differ_at(a: Seq<char>, b: Seq<char>, k: int)
    requires
        0 <= k < a.len(),
        k < b.len(),
        forall|j: int| 0 <= j < k ==> a[j] == b[j],
        a[k] != b[k],
    ensures
        lex_order(char_codes(a), char_codes(b)) == int_order(char_int(a[k]), char_int(b[k])),
{
    let ca = char_codes(a);
    let cb = char_codes(b);
    assert forall|j: int| 0 <= j < k implies ca[j] == cb[j] by {}
    lemma_lex_order_skip(ca, cb, k);
    assert(ca.skip(k)[0] == ca[k]);
    assert(cb.skip(k)[0] == cb[k]);
}

/// Genesis token choice names in code order.
pub open spec fn token_names() -> Seq<Seq<char>> {
    seq!["decline"@, "pay-one-mana"@]
}

proof fn lemma_token_names_ascending()
    ensures
        names_ascending(token_names()),
{
    reveal_strlit("decline");
    reveal_strlit("pay-one-mana");
    let d = "decline"@;
    let p = "pay-one-mana"@;
    assert forall|j: int| 0 <= j < d.len() implies crate::text::json_plain_char(#[trigger] d[j]) by {}
    assert forall|j: int| 0 <= j < p.len() implies crate::text::json_plain_char(#[trigger] p[j]) by {}
    lemma_plain_name_less(d, p, 0);
    assert forall|k: int| 0 <= k < token_names().len() - 1 implies #[trigger] json_text_order(
        token_names()[k],
        token_names()[k + 1],
    ) == Ordering::Less by {}
}

/// The optional `createRubbleAt` member of a Play Site text.
pub open spec fn rubble_member(c: Option<Cell>) -> Seq<char> {
    match c {
        Some(cell) => ",\"createRubbleAt\":"@ + cell_text(cell),
        None => Seq::empty(),
    }
}

/// The optional `genesisTokenChoice` member of a Play Site text.
pub open spec fn token_member(t: Option<GenesisTokenChoice>) -> Seq<char> {
    match t {
        Some(choice) => ",\"genesisTokenChoice\":"@ + string_text(
            token_names()[token_choice_code(choice)],
        ),
        None => Seq::empty(),
    }
}

/// The members of a Play Site text after its card and card instance.
pub open spec fn play_site_tail(
    cell: Cell,
    rubble: Option<Cell>,
    token: Option<GenesisTokenChoice>,
) -> Seq<char> {
    ",\"cell\":"@ + cell_text(cell) + rubble_member(rubble) + token_member(token)
        + ",\"kind\":\"play-site\"}"@
}

proof fn lemma_token_members(a: Option<GenesisTokenChoice>, b: Option<GenesisTokenChoice>)
    ensures
        lex_order(
            char_codes(token_member(a) + ",\"kind\":\"play-site\"}"@),
            char_codes(token_member(b) + ",\"kind\":\"play-site\"}"@),
        ) == option_order(
            a,
            b,
            |x: GenesisTokenChoice, y: GenesisTokenChoice|
                int_order(token_choice_code(x), token_choice_code(y)),
        ),
{
    let k = ",\"kind\":\"play-site\"}"@;
    let g = ",\"genesisTokenChoice\":"@;
    reveal_strlit(",\"kind\":\"play-site\"}");
    reveal_strlit(",\"genesisTokenChoice\":");
    lemma_lex_order_equal(char_codes(k), char_codes(k));
    match (a, b) {
        (Some(x), Some(y)) => {
            let nx = string_text(token_names()[token_choice_code(x)]);
            let ny = string_text(token_names()[token_choice_code(y)]);
            assert(token_member(a) + k =~= g + (nx + k));
            assert(token_member(b) + k =~= g + (ny + k));
            lemma_text_prefix(g, nx + k, ny + k);
            lemma_token_names_ascending();
            lemma_name_field(token_names(), token_choice_code(x), token_choice_code(y), k, k);
        },
        (Some(x), None) => {
            let ta = token_member(a) + k;
            assert(token_member(b) + k =~= k);
            lemma_texts_differ_at(ta, k, 2);
        },
        (None, Some(y)) => {
            let tb = token_member(b) + k;
            assert(token_member(a) + k =~= k);
            lemma_texts_differ_at(k, tb, 2);
        },
        (None, None) => {
            assert(token_member(a) + k =~= k);
            assert(token_member(b) + k =~= k);
        },
    }
}

proof fn lemma_play_site_tails(
    lc: Cell,
    lr: Option<Cell>,
    lt: Option<GenesisTokenChoice>,
    rc: Cell,
    rr: Option<Cell>,
    rt: Option<GenesisTokenChoice>,
)
    requires
        lc@ < 20,
        rc@ < 20,
        lr matches Some(c) ==> c@ < 20,
        rr matches Some(c) ==> c@ < 20,
    ensures
        lex_order(char_codes(play_site_tail(lc, lr, lt)), char_codes(play_site_tail(rc, rr, rt)))
            == then_order(
            cell_order(lc, rc),
            then_order(
                option_order(lr, rr, cell_elem()),
                option_order(
                    lt,
                    rt,
                    |x: GenesisTokenChoice, y: GenesisTokenChoice|
                        int_order(token_choice_code(x), token_choice_code(y)),
                ),
            ),
        ),
{
    let p = ",\"cell\":"@;
    let k = ",\"kind\":\"play-site\"}"@;
    let q = ",\"createRubbleAt\":"@;
    reveal_strlit(",\"kind\":\"play-site\"}");
    reveal_strlit(",\"createRubbleAt\":");
    reveal_strlit(",\"genesisTokenChoice\":");
    let wl = token_member(lt) + k;
    let wr = token_member(rt) + k;
    let vl = rubble_member(lr) + wl;
    let vr = rubble_member(rr) + wr;
    assert(play_site_tail(lc, lr, lt) =~= p + (cell_text(lc) + vl));
    assert(play_site_tail(rc, rr, rt) =~= p + (cell_text(rc) + vr));
    lemma_text_prefix(p, cell_text(lc) + vl, cell_text(rc) + vr);
    lemma_cell_field(lc, rc, vl, vr);
    lemma_token_members(lt, rt);
    match (lr, rr) {
        (Some(x), Some(y)) => {
            assert(vl =~= q + (cell_text(x) + wl));
            assert(vr =~= q + (cell_text(y) + wr));
            lemma_text_prefix(q, cell_text(x) + wl, cell_text(y) + wr);
            lemma_cell_field(x, y, wl, wr);
            assert(cell_elem()(x, y) == cell_order(x, y));
        },
        (Some(x), None) => {
            assert(vr =~= wr);
            assert(vl[2] == 'c');
            assert(vr[2] == 'g' || vr[2] == 'k');
            lemma_texts_differ_at(vl, vr, 2);
        },
        (None, Some(y)) => {
            assert(vl =~= wl);
            assert(vr[2] == 'c');
            assert(vl[2] == 'g' || vl[2] == 'k');
            lemma_texts_differ_at(vl, vr, 2);
        },
        (None, None) => {
            assert(vl =~= wl);
            assert(vr =~= wr);
        },
    }
}

/// The members of a Begin Chain Magic text after its card and card instance.
pub open spec fn begin_chain_tail(caster: Seq<char>, target: UnitTarget) -> Seq<char> {
    ",\"casterInstanceId\":"@ + string_text(caster) + ",\"kind\":\"begin-chain-magic\",\"target\":"@
        + unit_target_text(target) + "}"@
}

/// The members of a card-playing descriptor's text after its card and card
/// instance.
pub open spec fn card_tail(d: ActionDescriptor) -> Seq<char> {
    match d {
        ActionDescriptor::PlaySite { cell, create_rubble_at, genesis_token_choice, .. } =>
            play_site_tail(cell, create_rubble_at, genesis_token_choice),
        ActionDescriptor::BeginChainMagic { caster_instance_id, target, .. } => begin_chain_tail(
            caster_instance_id@,
            target,
        ),
        ActionDescriptor::CastMagic {
            caster_instance_id,
            cemetery_minion_instance_id,
            target,
            target_location,
            target_site_instance_id,
            ..
        } => ",\"casterInstanceId\":"@ + string_text(caster_instance_id@) + cast_r0(
            cemetery_minion_instance_id,
            target,
            target_location,
            target_site_instance_id,
        ),
        ActionDescriptor::SummonMinion {
            caster_instance_id,
            cell,
            cells,
            genesis_damage_choice,
            genesis_damage_target,
            mana_cost,
            payment_mode,
            sacrificed_minion_instance_ids,
            ..
        } => ",\"casterInstanceId\":"@ + string_text(caster_instance_id@) + ",\"cell\":"@
            + cell_text(cell) + summon_s0(
            cells,
            genesis_damage_choice,
            genesis_damage_target,
            mana_cost,
            payment_mode,
            sacrificed_minion_instance_ids,
        ),
        _ => Seq::empty(),
    }
}

/// The canonical JSON text of a Play Site, Begin Chain Magic, or ally-less
/// Cast Magic descriptor.
pub open spec fn card_text(d: ActionDescriptor) -> Seq<char> {
    "{\"cardId\":"@ + string_text(card_prefix_spec(d).0) + ",\"cardInstanceId\":"@ + string_text(
        card_prefix_spec(d).1,
    ) + card_tail(d)
}

/// Whether a Play Site, Begin Chain Magic, or ally-less Cast Magic
/// descriptor is well formed: well-formed identities and realm cells, and no
/// ally destination or strike location without an ally.
pub open spec fn card_stated(d: ActionDescriptor) -> bool {
    match d {
        ActionDescriptor::PlaySite { card_instance_id, cell, create_rubble_at, .. } => valid_identity(
            card_instance_id@,
        ) && cell@ < 20 && (create_rubble_at matches Some(c) ==> c@ < 20),
        ActionDescriptor::BeginChainMagic { card_instance_id, caster_instance_id, target, .. } =>
            valid_identity(card_instance_id@) && valid_identity(caster_instance_id@) && valid_identity(
            crate::action::unit_target_id(target),
        ),
        ActionDescriptor::CastMagic {
            ally,
            ally_destination,
            ally_strike_location,
            card_instance_id,
            caster_instance_id,
            cemetery_minion_instance_id,
            target,
            target_location,
            target_site_instance_id,
            ..
        } => {
            &&& ally is None
            &&& ally_destination is None
            &&& ally_strike_location is None
            &&& valid_identity(card_instance_id@)
            &&& valid_identity(caster_instance_id@)
            &&& opt_id_valid(cemetery_minion_instance_id)
            &&& nullable_target_valid(target)
            &&& (target_location matches Some(l) ==> l.cell@ < 20)
            &&& opt_id_valid(target_site_instance_id)
        },
        ActionDescriptor::SummonMinion {
            card_instance_id,
            caster_instance_id,
            cell,
            cells,
            genesis_damage_target,
            mana_cost,
            sacrificed_minion_instance_ids,
            ..
        } => {
            &&& valid_identity(card_instance_id@)
            &&& valid_identity(caster_instance_id@)
            &&& cell@ < 20
            &&& (cells matches Some(area) ==> cells_valid(area@))
            &&& nullable_target_valid(genesis_damage_target)
            &&& opt_ids_valid(sacrificed_minion_instance_ids)
        },
        _ => false,
    }
}

/// Whether two descriptors are of the same card-playing kind.
pub open spec fn same_card_kind(l: ActionDescriptor, r: ActionDescriptor) -> bool {
    ||| l is PlaySite && r is PlaySite
    ||| l is BeginChainMagic && r is BeginChainMagic
    ||| l is CastMagic && r is CastMagic
    ||| l is SummonMinion && r is SummonMinion
}

/// Whether two engine-issued descriptors are consistent: card-playing
/// descriptors that play the same card instance are of the same kind.
pub open spec fn consistent_pair(l: ActionDescriptor, r: ActionDescriptor) -> bool {
    is_card_action(l) && is_card_action(r) && card_prefix_spec(l).1 == card_prefix_spec(r).1
        ==> same_card_kind(l, r)
}

proof fn lemma_card_tails(l: ActionDescriptor, r: ActionDescriptor)
    requires
        numbers_comparable(l, r),
        card_stated(l),
        card_stated(r),
        same_card_kind(l, r),
    ensures
        l is PlaySite ==> lex_order(char_codes(card_tail(l)), char_codes(card_tail(r))) == then_order(
            cell_order(play_site_cell(l), play_site_cell(r)),
            play_site_options(l, r),
        ),
        l is BeginChainMagic ==> lex_order(char_codes(card_tail(l)), char_codes(card_tail(r)))
            == then_order(
            identity_order(begin_caster(l), begin_caster(r)),
            unit_target_order(begin_target(l), begin_target(r)),
        ),
        l is CastMagic ==> lex_order(char_codes(card_tail(l)), char_codes(card_tail(r)))
            == cast_tail_order(l, r),
        l is SummonMinion ==> lex_order(char_codes(card_tail(l)), char_codes(card_tail(r)))
            == summon_tail_order(l, r),
{
    if l is PlaySite {
        lemma_card_tails_play_site(l, r);
    }
    if l is BeginChainMagic {
        lemma_card_tails_begin_chain_magic(l, r);
    }
    if l is CastMagic {
        lemma_card_tails_cast_magic(l, r);
    }
    if l is SummonMinion {
        lemma_card_tails_summon_minion(l, r);
    }
}

proof fn lemma_card_tails_play_site(l: ActionDescriptor, r: ActionDescriptor)
    requires
        card_stated(l),
        card_stated(r),
        l is PlaySite,
        r is PlaySite,
    ensures
        l is PlaySite ==> lex_order(char_codes(card_tail(l)), char_codes(card_tail(r))) == then_order(
            cell_order(play_site_cell(l), play_site_cell(r)),
            play_site_options(l, r),
        ),
        l is BeginChainMagic ==> lex_order(char_codes(card_tail(l)), char_codes(card_tail(r)))
            == then_order(
            identity_order(begin_caster(l), begin_caster(r)),
            unit_target_order(begin_target(l), begin_target(r)),
        ),
        l is CastMagic ==> lex_order(char_codes(card_tail(l)), char_codes(card_tail(r)))
            == cast_tail_order(l, r),
        l is SummonMinion ==> lex_order(char_codes(card_tail(l)), char_codes(card_tail(r)))
            == summon_tail_order(l, r),
{
    match (l, r) {
        (
            ActionDescriptor::PlaySite { cell: lc, create_rubble_at: lr, genesis_token_choice: lt, .. },
            ActionDescriptor::PlaySite { cell: rc, create_rubble_at: rr, genesis_token_choice: rt, .. },
        ) => {
            lemma_play_site_tails(lc, lr, lt, rc, rr, rt);
        },
        _ => {},
    }
}

proof fn lemma_card_tails_begin_chain_magic(l: ActionDescriptor, r: ActionDescriptor)
    requires
        card_stated(l),
        card_stated(r),
        l is BeginChainMagic,
        r is BeginChainMagic,
    ensures
        l is PlaySite ==> lex_order(char_codes(card_tail(l)), char_codes(card_tail(r))) == then_order(
            cell_order(play_site_cell(l), play_site_cell(r)),
            play_site_options(l, r),
        ),
        l is BeginChainMagic ==> lex_order(char_codes(card_tail(l)), char_codes(card_tail(r)))
            == then_order(
            identity_order(begin_caster(l), begin_caster(r)),
            unit_target_order(begin_target(l), begin_target(r)),
        ),
        l is CastMagic ==> lex_order(char_codes(card_tail(l)), char_codes(card_tail(r)))
            == cast_tail_order(l, r),
        l is SummonMinion ==> lex_order(char_codes(card_tail(l)), char_codes(card_tail(r)))
            == summon_tail_order(l, r),
{
    match (l, r) {
        (
            ActionDescriptor::BeginChainMagic { caster_instance_id: lk, target: lt, .. },
            ActionDescriptor::BeginChainMagic { caster_instance_id: rk, target: rt, .. },
        ) => {
            let p = ",\"casterInstanceId\":"@;
            let k = ",\"kind\":\"begin-chain-magic\",\"target\":"@;
            let close = "}"@;
            let vl = k + (unit_target_text(lt) + close);
            let vr = k + (unit_target_text(rt) + close);
            assert(card_tail(l) =~= p + (string_text(lk@) + vl));
            assert(card_tail(r) =~= p + (string_text(rk@) + vr));
            lemma_text_prefix(p, string_text(lk@) + vl, string_text(rk@) + vr);
            lemma_string_field_order(lk@, rk@, vl, vr);
            lemma_identity_text_order(lk@, rk@);
            lemma_text_prefix(k, unit_target_text(lt) + close, unit_target_text(rt) + close);
            lemma_unit_target_field(lt, rt, close, close);
            lemma_lex_order_equal(char_codes(close), char_codes(close));
        },
        _ => {},
    }
}

proof fn lemma_card_tails_cast_magic(l: ActionDescriptor, r: ActionDescriptor)
    requires
        card_stated(l),
        card_stated(r),
        l is CastMagic,
        r is CastMagic,
    ensures
        l is PlaySite ==> lex_order(char_codes(card_tail(l)), char_codes(card_tail(r))) == then_order(
            cell_order(play_site_cell(l), play_site_cell(r)),
            play_site_options(l, r),
        ),
        l is BeginChainMagic ==> lex_order(char_codes(card_tail(l)), char_codes(card_tail(r)))
            == then_order(
            identity_order(begin_caster(l), begin_caster(r)),
            unit_target_order(begin_target(l), begin_target(r)),
        ),
        l is CastMagic ==> lex_order(char_codes(card_tail(l)), char_codes(card_tail(r)))
            == cast_tail_order(l, r),
        l is SummonMinion ==> lex_order(char_codes(card_tail(l)), char_codes(card_tail(r)))
            == summon_tail_order(l, r),
{
    match (l, r) {
        (
            ActionDescriptor::CastMagic {
                caster_instance_id: lk,
                cemetery_minion_instance_id: lm,
                target: lt,
                target_location: ll,
                target_site_instance_id: ls,
                ..
            },
            ActionDescriptor::CastMagic {
                caster_instance_id: rk,
                cemetery_minion_instance_id: rm,
                target: rt,
                target_location: rl,
                target_site_instance_id: rs,
                ..
            },
        ) => {
            let p = ",\"casterInstanceId\":"@;
            let vl = cast_r0(lm, lt, ll, ls);
            let vr = cast_r0(rm, rt, rl, rs);
            assert(card_tail(l) =~= p + (string_text(lk@) + vl));
            assert(card_tail(r) =~= p + (string_text(rk@) + vr));
            lemma_text_prefix(p, string_text(lk@) + vl, string_text(rk@) + vr);
            lemma_string_field_order(lk@, rk@, vl, vr);
            lemma_identity_text_order(lk@, rk@);
            lemma_cast_r0(lm, lt, ll, ls, rm, rt, rl, rs);
            lemma_cast_r1(lt, ll, ls, rt, rl, rs);
            lemma_cast_r2(ll, ls, rl, rs);
            lemma_cast_r3(ls, rs);
        },
        _ => {},
    }
}

proof fn lemma_card_tails_summon_minion(l: ActionDescriptor, r: ActionDescriptor)
    requires
        numbers_comparable(l, r),
        card_stated(l),
        card_stated(r),
        l is SummonMinion,
        r is SummonMinion,
    ensures
        l is PlaySite ==> lex_order(char_codes(card_tail(l)), char_codes(card_tail(r))) == then_order(
            cell_order(play_site_cell(l), play_site_cell(r)),
            play_site_options(l, r),
        ),
        l is BeginChainMagic ==> lex_order(char_codes(card_tail(l)), char_codes(card_tail(r)))
            == then_order(
            identity_order(begin_caster(l), begin_caster(r)),
            unit_target_order(begin_target(l), begin_target(r)),
        ),
        l is CastMagic ==> lex_order(char_codes(card_tail(l)), char_codes(card_tail(r)))
            == cast_tail_order(l, r),
        l is SummonMinion ==> lex_order(char_codes(card_tail(l)), char_codes(card_tail(r)))
            == summon_tail_order(l, r),
{
    match (l, r) {
        (
            ActionDescriptor::SummonMinion {
                caster_instance_id: lk,
                cell: lc,
                cells: la,
                genesis_damage_choice: lg,
                genesis_damage_target: lt,
                mana_cost: lm,
                payment_mode: lp,
                sacrificed_minion_instance_ids: ls,
                ..
            },
            ActionDescriptor::SummonMinion {
                caster_instance_id: rk,
                cell: rc,
                cells: ra,
                genesis_damage_choice: rg,
                genesis_damage_target: rt,
                mana_cost: rm,
                payment_mode: rp,
                sacrificed_minion_instance_ids: rs,
                ..
            },
        ) => {
            let p = ",\"casterInstanceId\":"@;
            let q = ",\"cell\":"@;
            let wl = summon_s0(la, lg, lt, lm, lp, ls);
            let wr = summon_s0(ra, rg, rt, rm, rp, rs);
            let vl = q + (cell_text(lc) + wl);
            let vr = q + (cell_text(rc) + wr);
            assert(card_tail(l) =~= p + (string_text(lk@) + vl));
            assert(card_tail(r) =~= p + (string_text(rk@) + vr));
            lemma_text_prefix(p, string_text(lk@) + vl, string_text(rk@) + vr);
            lemma_string_field_order(lk@, rk@, vl, vr);
            lemma_identity_text_order(lk@, rk@);
            lemma_text_prefix(q, cell_text(lc) + wl, cell_text(rc) + wr);
            lemma_cell_field(lc, rc, wl, wr);
            lemma_summon_s0(la, lg, lt, lm, lp, ls, ra, rg, rt, rm, rp, rs);
            lemma_summon_s1(lg, lt, lm, lp, ls, rg, rt, rm, rp, rs);
            lemma_summon_s2(lt, lm, lp, ls, rt, rm, rp, rs);
            lemma_summon_s3(lm, lp, ls, rm, rp, rs);
            lemma_summon_s4(lp, ls, rp, rs);
        },
        _ => {},
    }
}


/// The order of two Summon Minion descriptors' members after their card
/// instance, in key order.
pub open spec fn summon_tail_order(l: ActionDescriptor, r: ActionDescriptor) -> Ordering {
    match (l, r) {
        (
            ActionDescriptor::SummonMinion {
                caster_instance_id: lk,
                cell: lcell,
                cells: lcells,
                genesis_damage_choice: lg,
                genesis_damage_target: lt,
                mana_cost: lmana,
                payment_mode: lp,
                sacrificed_minion_instance_ids: ls,
                ..
            },
            ActionDescriptor::SummonMinion {
                caster_instance_id: rk,
                cell: rcell,
                cells: rcells,
                genesis_damage_choice: rg,
                genesis_damage_target: rt,
                mana_cost: rmana,
                payment_mode: rp,
                sacrificed_minion_instance_ids: rs,
                ..
            },
        ) => then_order(
            identity_order(lk@, rk@),
            then_order(
                cell_order(lcell, rcell),
                then_order(
                    option_order(
                        lcells,
                        rcells,
                        |x: SquareArea, y: SquareArea| array_order(x@, y@, cell_elem()),
                    ),
                    then_order(
                        option_order(
                            lg,
                            rg,
                            |x: GenesisDamageChoice, y: GenesisDamageChoice|
                                int_order(damage_choice_code(x), damage_choice_code(y)),
                        ),
                        then_order(
                            option_order(lt, rt, unit_target_elem()),
                            then_order(
                                json_int_order(lmana, rmana),
                                then_order(
                                    option_order(
                                        lp,
                                        rp,
                                        |x: SummonPaymentMode, y: SummonPaymentMode|
                                            int_order(payment_code(x), payment_code(y)),
                                    ),
                                    option_order(
                                        ls,
                                        rs,
                                        |x: Vec<IdentityHash>, y: Vec<IdentityHash>|
                                            array_order(x@, y@, id_elem()),
                                    ),
                                ),
                            ),
                        ),
                    ),
                ),
            ),
        ),
        _ => Ordering::Equal,
    }
}

/// The order of two ally-less Cast Magic descriptors' members after their
/// card instance: caster, then each optional member in key order.
pub open spec fn cast_tail_order(l: ActionDescriptor, r: ActionDescriptor) -> Ordering {
    match (l, r) {
        (
            ActionDescriptor::CastMagic {
                caster_instance_id: lk,
                cemetery_minion_instance_id: lm,
                target: lt,
                target_location: ll,
                target_site_instance_id: ls,
                ..
            },
            ActionDescriptor::CastMagic {
                caster_instance_id: rk,
                cemetery_minion_instance_id: rm,
                target: rt,
                target_location: rl,
                target_site_instance_id: rs,
                ..
            },
        ) => then_order(
            identity_order(lk@, rk@),
            then_order(
                option_order(lm, rm, id_elem()),
                then_order(
                    option_order(lt, rt, unit_target_elem()),
                    then_order(option_order(ll, rl, location_elem()), option_order(ls, rs, id_elem())),
                ),
            ),
        ),
        _ => Ordering::Equal,
    }
}

/// The cell of a Play Site descriptor.
pub open spec fn play_site_cell(d: ActionDescriptor) -> Cell {
    match d {
        ActionDescriptor::PlaySite { cell, .. } => cell,
        _ => arbitrary(),
    }
}

/// The order of two Play Site descriptors' optional members.
pub open spec fn play_site_options(l: ActionDescriptor, r: ActionDescriptor) -> Ordering {
    match (l, r) {
        (
            ActionDescriptor::PlaySite { create_rubble_at: lr, genesis_token_choice: lt, .. },
            ActionDescriptor::PlaySite { create_rubble_at: rr, genesis_token_choice: rt, .. },
        ) => then_order(
            option_order(lr, rr, cell_elem()),
            option_order(
                lt,
                rt,
                |x: GenesisTokenChoice, y: GenesisTokenChoice|
                    int_order(token_choice_code(x), token_choice_code(y)),
            ),
        ),
        _ => Ordering::Equal,
    }
}

/// The caster of a Begin Chain Magic descriptor.
pub open spec fn begin_caster(d: ActionDescriptor) -> Seq<char> {
    match d {
        ActionDescriptor::BeginChainMagic { caster_instance_id, .. } => caster_instance_id@,
        _ => Seq::empty(),
    }
}

/// The target of a Begin Chain Magic descriptor.
pub open spec fn begin_target(d: ActionDescriptor) -> UnitTarget {
    match d {
        ActionDescriptor::BeginChainMagic { target, .. } => target,
        _ => arbitrary(),
    }
}

/// The order the canonical JSON text of two card-playing descriptors gives.
pub open spec fn card_text_order(l: ActionDescriptor, r: ActionDescriptor) -> Ordering {
    then_order(
        json_text_order(card_prefix_spec(l).0, card_prefix_spec(r).0),
        then_order(
            identity_order(card_prefix_spec(l).1, card_prefix_spec(r).1),
            lex_order(char_codes(card_tail(l)), char_codes(card_tail(r))),
        ),
    )
}

proof fn lemma_card_text(l: ActionDescriptor, r: ActionDescriptor)
    requires
        card_stated(l),
        card_stated(r),
    ensures
        lex_order(char_codes(card_text(l)), char_codes(card_text(r))) == card_text_order(l, r),
{
    let p = "{\"cardId\":"@;
    let q = ",\"cardInstanceId\":"@;
    let (lc, li) = card_prefix_spec(l);
    let (rc, ri) = card_prefix_spec(r);
    let vl = q + (string_text(li) + card_tail(l));
    let vr = q + (string_text(ri) + card_tail(r));
    assert(card_text(l) =~= p + (string_text(lc) + vl));
    assert(card_text(r) =~= p + (string_text(rc) + vr));
    lemma_text_prefix(p, string_text(lc) + vl, string_text(rc) + vr);
    lemma_string_field_order(lc, rc, vl, vr);
    lemma_text_prefix(q, string_text(li) + card_tail(l), string_text(ri) + card_tail(r));
    lemma_string_field_order(li, ri, card_tail(l), card_tail(r));
    lemma_identity_text_order(li, ri);
}

/// Play Site, Begin Chain Magic, and ally-less Cast Magic descriptors sort
/// exactly as their canonical JSON texts do, when descriptors that play the same card
/// instance are of the same kind.
#[verifier::rlimit(60)]
proof fn lemma_cards_order_as_text(l: ActionDescriptor, r: ActionDescriptor)
    requires
        numbers_comparable(l, r),
        card_stated(l),
        card_stated(r),
        consistent_pair(l, r),
    ensures
        canonical_order(l, r) == lex_order(char_codes(card_text(l)), char_codes(card_text(r))),
{
    lemma_card_text(l, r);
    let (lc, li) = card_prefix_spec(l);
    let (rc, ri) = card_prefix_spec(r);
    lemma_lex_order_equal(char_codes(li), char_codes(ri));
    if same_card_kind(l, r) {
        lemma_card_tails(l, r);
        if l is PlaySite {
            assert(canonical_order(l, r) == play_site_order(l, r));
        } else if l is BeginChainMagic {
            assert(canonical_order(l, r) == begin_chain_order(l, r));
        } else if l is CastMagic {
            assert(canonical_order(l, r) == cast_magic_order(l, r));
        } else {
            assert(canonical_order(l, r) == summon_order(l, r));
        }
    } else {
        assert(li != ri);
        if char_codes(li) == char_codes(ri) {
            assert forall|j: int| 0 <= j < li.len() implies li[j] == ri[j] by {
                assert(char_codes(li)[j] == char_codes(ri)[j]);
            }
            assert(li =~= ri);
        }
        assert(identity_order(li, ri) != Ordering::Equal);
        assert(canonical_order(l, r) == then_order(card_prefix_order(l, r), int_order(
            card_kind_rank(l),
            card_kind_rank(r),
        )));
    }
}

/// The optional `targetSiteInstanceId` member of a Cast Magic text, then the
/// closing brace.
pub open spec fn cast_r3(ts: Option<IdentityHash>) -> Seq<char> {
    match ts {
        Some(id) => ",\"targetSiteInstanceId\":"@ + string_text(id@) + "}"@,
        None => "}"@,
    }
}

/// The optional `targetLocation` member of a Cast Magic text, then what follows.
pub open spec fn cast_r2(tl: Option<Location>, ts: Option<IdentityHash>) -> Seq<char> {
    match tl {
        Some(l) => ",\"targetLocation\":"@ + location_text(l) + cast_r3(ts),
        None => cast_r3(ts),
    }
}

/// The optional `target` member of a Cast Magic text, then what follows.
pub open spec fn cast_r1(
    t: Option<UnitTarget>,
    tl: Option<Location>,
    ts: Option<IdentityHash>,
) -> Seq<char> {
    match t {
        Some(u) => ",\"target\":"@ + unit_target_text(u) + cast_r2(tl, ts),
        None => cast_r2(tl, ts),
    }
}

/// The optional `cemeteryMinionInstanceId` member of a Cast Magic text, its
/// kind, then what follows.
pub open spec fn cast_r0(
    cem: Option<IdentityHash>,
    t: Option<UnitTarget>,
    tl: Option<Location>,
    ts: Option<IdentityHash>,
) -> Seq<char> {
    match cem {
        Some(id) => ",\"cemeteryMinionInstanceId\":"@ + string_text(id@) + ",\"kind\":\"cast-magic\""@
            + cast_r1(t, tl, ts),
        None => ",\"kind\":\"cast-magic\""@ + cast_r1(t, tl, ts),
    }
}

/// Whether optional identities are well formed where present.
pub open spec fn opt_id_valid(o: Option<IdentityHash>) -> bool {
    match o {
        Some(id) => valid_identity(id@),
        None => true,
    }
}

proof fn lemma_cast_r3(a: Option<IdentityHash>, b: Option<IdentityHash>)
    requires
        opt_id_valid(a),
        opt_id_valid(b),
    ensures
        lex_order(char_codes(cast_r3(a)), char_codes(cast_r3(b))) == option_order(a, b, id_elem()),
{
    reveal_strlit(",\"targetSiteInstanceId\":");
    reveal_strlit("}");
    let p = ",\"targetSiteInstanceId\":"@;
    match (a, b) {
        (Some(x), Some(y)) => {
            lemma_id_rest_order(p, x@, y@);
        },
        (None, None) => {
            lemma_lex_order_equal(char_codes("}"@), char_codes("}"@));
        },
        _ => {
            lemma_texts_differ_at(cast_r3(a), cast_r3(b), 0);
        },
    }
}

proof fn lemma_cast_r2(
    tla: Option<Location>,
    tsa: Option<IdentityHash>,
    tlb: Option<Location>,
    tsb: Option<IdentityHash>,
)
    requires
        tla matches Some(l) ==> l.cell@ < 20,
        tlb matches Some(l) ==> l.cell@ < 20,
    ensures
        lex_order(char_codes(cast_r2(tla, tsa)), char_codes(cast_r2(tlb, tsb))) == then_order(
            option_order(tla, tlb, location_elem()),
            lex_order(char_codes(cast_r3(tsa)), char_codes(cast_r3(tsb))),
        ),
{
    reveal_strlit(",\"targetLocation\":");
    reveal_strlit(",\"targetSiteInstanceId\":");
    reveal_strlit("}");
    let p = ",\"targetLocation\":"@;
    match (tla, tlb) {
        (Some(x), Some(y)) => {
            assert(cast_r2(tla, tsa) =~= p + (location_text(x) + cast_r3(tsa)));
            assert(cast_r2(tlb, tsb) =~= p + (location_text(y) + cast_r3(tsb)));
            lemma_text_prefix(p, location_text(x) + cast_r3(tsa), location_text(y) + cast_r3(tsb));
            lemma_location_field(x, y, cast_r3(tsa), cast_r3(tsb));
        },
        (None, None) => {},
        (Some(x), None) => {
            let a = cast_r2(tla, tsa);
            let b = cast_r2(tlb, tsb);
            if tsb is Some {
                assert forall|j: int| 0 <= j < 8 implies a[j] == b[j] by {}
                lemma_texts_differ_at(a, b, 8);
            } else {
                lemma_texts_differ_at(a, b, 0);
            }
        },
        (None, Some(y)) => {
            let a = cast_r2(tla, tsa);
            let b = cast_r2(tlb, tsb);
            if tsa is Some {
                assert forall|j: int| 0 <= j < 8 implies a[j] == b[j] by {}
                lemma_texts_differ_at(a, b, 8);
            } else {
                lemma_texts_differ_at(a, b, 0);
            }
        },
    }
}

proof fn lemma_cast_r1(
    ta: Option<UnitTarget>,
    tla: Option<Location>,
    tsa: Option<IdentityHash>,
    tb: Option<UnitTarget>,
    tlb: Option<Location>,
    tsb: Option<IdentityHash>,
)
    requires
        nullable_target_valid(ta),
        nullable_target_valid(tb),
    ensures
        lex_order(char_codes(cast_r1(ta, tla, tsa)), char_codes(cast_r1(tb, tlb, tsb))) == then_order(
            option_order(ta, tb, unit_target_elem()),
            lex_order(char_codes(cast_r2(tla, tsa)), char_codes(cast_r2(tlb, tsb))),
        ),
{
    reveal(location_text);
    reveal_strlit(",\"target\":");
    reveal_strlit(",\"targetLocation\":");
    reveal_strlit(",\"targetSiteInstanceId\":");
    reveal_strlit("}");
    let p = ",\"target\":"@;
    match (ta, tb) {
        (Some(x), Some(y)) => {
            assert(cast_r1(ta, tla, tsa) =~= p + (unit_target_text(x) + cast_r2(tla, tsa)));
            assert(cast_r1(tb, tlb, tsb) =~= p + (unit_target_text(y) + cast_r2(tlb, tsb)));
            lemma_text_prefix(p, unit_target_text(x) + cast_r2(tla, tsa), unit_target_text(y) + cast_r2(tlb, tsb));
            lemma_unit_target_field(x, y, cast_r2(tla, tsa), cast_r2(tlb, tsb));
            assert(unit_target_elem()(x, y) == unit_target_order(x, y));
        },
        (None, None) => {},
        (Some(x), None) => {
            let a = cast_r1(ta, tla, tsa);
            let b = cast_r1(tb, tlb, tsb);
            if tlb is Some || tsb is Some {
                assert forall|j: int| 0 <= j < 8 implies a[j] == b[j] by {}
                lemma_texts_differ_at(a, b, 8);
            } else {
                lemma_texts_differ_at(a, b, 0);
            }
        },
        (None, Some(y)) => {
            let a = cast_r1(ta, tla, tsa);
            let b = cast_r1(tb, tlb, tsb);
            if tla is Some || tsa is Some {
                assert forall|j: int| 0 <= j < 8 implies a[j] == b[j] by {}
                lemma_texts_differ_at(a, b, 8);
            } else {
                lemma_texts_differ_at(a, b, 0);
            }
        },
    }
}

proof fn lemma_cast_r0(
    ca: Option<IdentityHash>,
    ta: Option<UnitTarget>,
    tla: Option<Location>,
    tsa: Option<IdentityHash>,
    cb: Option<IdentityHash>,
    tb: Option<UnitTarget>,
    tlb: Option<Location>,
    tsb: Option<IdentityHash>,
)
    requires
        opt_id_valid(ca),
        opt_id_valid(cb),
    ensures
        lex_order(char_codes(cast_r0(ca, ta, tla, tsa)), char_codes(cast_r0(cb, tb, tlb, tsb)))
            == then_order(
            option_order(ca, cb, id_elem()),
            lex_order(char_codes(cast_r1(ta, tla, tsa)), char_codes(cast_r1(tb, tlb, tsb))),
        ),
{
    reveal_strlit(",\"cemeteryMinionInstanceId\":");
    reveal_strlit(",\"kind\":\"cast-magic\"");
    let p = ",\"cemeteryMinionInstanceId\":"@;
    let k = ",\"kind\":\"cast-magic\""@;
    let ra = cast_r1(ta, tla, tsa);
    let rb = cast_r1(tb, tlb, tsb);
    lemma_text_prefix(k, ra, rb);
    match (ca, cb) {
        (Some(x), Some(y)) => {
            assert(cast_r0(ca, ta, tla, tsa) =~= p + (string_text(x@) + (k + ra)));
            assert(cast_r0(cb, tb, tlb, tsb) =~= p + (string_text(y@) + (k + rb)));
            lemma_text_prefix(p, string_text(x@) + (k + ra), string_text(y@) + (k + rb));
            lemma_string_field_order(x@, y@, k + ra, k + rb);
            lemma_identity_text_order(x@, y@);
        },
        (None, None) => {
            assert(cast_r0(ca, ta, tla, tsa) =~= k + ra);
            assert(cast_r0(cb, tb, tlb, tsb) =~= k + rb);
        },
        _ => {
            let a = cast_r0(ca, ta, tla, tsa);
            let b = cast_r0(cb, tb, tlb, tsb);
            assert forall|j: int| 0 <= j < 2 implies a[j] == b[j] by {}
            lemma_texts_differ_at(a, b, 2);
        },
    }
}

/// Whether every cell of a list lies in the realm.
pub open spec fn cells_valid(cells: Seq<Cell>) -> bool {
    forall|i: int| 0 <= i < cells.len() ==> (#[trigger] cells[i])@ < 20
}

/// The canonical JSON text of a list of cells after its opening bracket.
pub open spec fn cell_list_tail(cells: Seq<Cell>) -> Seq<char>
    decreases cells.len(),
{
    if cells.len() == 0 {
        "]"@
    } else if cells.len() == 1 {
        cell_text(cells[0]) + "]"@
    } else {
        cell_text(cells[0]) + (","@ + cell_list_tail(cells.skip(1)))
    }
}

proof fn lemma_cell_list_order(a: Seq<Cell>, b: Seq<Cell>, x: Seq<char>, y: Seq<char>)
    requires
        cells_valid(a),
        cells_valid(b),
        a.len() > 0,
        b.len() > 0,
    ensures
        lex_order(char_codes(cell_list_tail(a) + x), char_codes(cell_list_tail(b) + y)) == then_order(
            array_order(a, b, cell_elem()),
            lex_order(char_codes(x), char_codes(y)),
        ),
    decreases a.len(),
{
    reveal_strlit("]");
    reveal_strlit(",");
    let close = "]"@;
    let comma = ","@;
    let sa = if a.len() == 1 {
        close + x
    } else {
        comma + cell_list_tail(a.skip(1)) + x
    };
    let sb = if b.len() == 1 {
        close + y
    } else {
        comma + cell_list_tail(b.skip(1)) + y
    };
    assert(cell_list_tail(a) + x =~= cell_text(a[0]) + sa);
    assert(cell_list_tail(b) + y =~= cell_text(b[0]) + sb);
    lemma_cell_field(a[0], b[0], sa, sb);
    assert(cell_elem()(a[0], b[0]) == cell_order(a[0], b[0]));
    assert(array_order(a, b, cell_elem()) == then_order(
        cell_elem()(a[0], b[0]),
        array_order(a.skip(1), b.skip(1), cell_elem()),
    ));
    let a1 = a.skip(1);
    let b1 = b.skip(1);
    assert(cells_valid(a1)) by {
        assert forall|i: int| 0 <= i < a1.len() implies (#[trigger] a1[i])@ < 20 by {
            assert(a1[i] == a[i + 1]);
        }
    }
    assert(cells_valid(b1)) by {
        assert forall|i: int| 0 <= i < b1.len() implies (#[trigger] b1[i])@ < 20 by {
            assert(b1[i] == b[i + 1]);
        }
    }
    if a.len() == 1 && b.len() == 1 {
        lemma_text_prefix(close, x, y);
        assert(a1.len() == 0 && b1.len() == 0);
    } else if a.len() == 1 || b.len() == 1 {
        lemma_texts_differ_at(sa, sb, 0);
    } else {
        lemma_cell_list_order(a1, b1, x, y);
        assert(sa =~= comma + (cell_list_tail(a1) + x));
        assert(sb =~= comma + (cell_list_tail(b1) + y));
        lemma_text_prefix(comma, cell_list_tail(a1) + x, cell_list_tail(b1) + y);
    }
}

/// Genesis damage choice names in code order.
pub open spec fn damage_choice_names() -> Seq<Seq<char>> {
    seq!["decline"@, "target"@]
}

proof fn lemma_damage_choice_names_ascending()
    ensures
        names_ascending(damage_choice_names()),
{
    reveal_strlit("decline");
    reveal_strlit("target");
    let d = "decline"@;
    let t = "target"@;
    assert forall|j: int| 0 <= j < d.len() implies crate::text::json_plain_char(#[trigger] d[j]) by {}
    assert forall|j: int| 0 <= j < t.len() implies crate::text::json_plain_char(#[trigger] t[j]) by {}
    lemma_plain_name_less(d, t, 0);
    assert forall|k: int| 0 <= k < damage_choice_names().len() - 1 implies #[trigger] json_text_order(
        damage_choice_names()[k],
        damage_choice_names()[k + 1],
    ) == Ordering::Less by {}
}

/// A Summon Minion text from its sacrifice list on.
pub open spec fn summon_s5(sac: Option<Vec<IdentityHash>>) -> Seq<char> {
    match sac {
        Some(ids) => ",\"sacrificedMinionInstanceIds\":["@ + id_list_tail(ids@) + "}"@,
        None => "}"@,
    }
}

/// A Summon Minion text from its payment mode on.
pub open spec fn summon_s4(pay: Option<SummonPaymentMode>, sac: Option<Vec<IdentityHash>>) -> Seq<char> {
    match pay {
        Some(_) => ",\"paymentMode\":\"random-card-discard\""@ + summon_s5(sac),
        None => summon_s5(sac),
    }
}

/// A Summon Minion text from its kind on.
pub open spec fn summon_s3(mana: u64, pay: Option<SummonPaymentMode>, sac: Option<Vec<IdentityHash>>) -> Seq<char> {
    ",\"kind\":\"summon-minion\",\"manaCost\":"@ + decimal_of(mana) + summon_s4(pay, sac)
}

/// Whether an optional list of identities is well formed where present.
pub open spec fn opt_ids_valid(o: Option<Vec<IdentityHash>>) -> bool {
    match o {
        Some(ids) => ids_valid(ids@),
        None => true,
    }
}

proof fn lemma_summon_s5(a: Option<Vec<IdentityHash>>, b: Option<Vec<IdentityHash>>)
    requires
        opt_ids_valid(a),
        opt_ids_valid(b),
    ensures
        lex_order(char_codes(summon_s5(a)), char_codes(summon_s5(b))) == option_order(
            a,
            b,
            |x: Vec<IdentityHash>, y: Vec<IdentityHash>| array_order(x@, y@, id_elem()),
        ),
{
    reveal_strlit(",\"sacrificedMinionInstanceIds\":[");
    reveal_strlit("}");
    let p = ",\"sacrificedMinionInstanceIds\":["@;
    let close = "}"@;
    lemma_lex_order_equal(char_codes(close), char_codes(close));
    match (a, b) {
        (Some(x), Some(y)) => {
            assert(summon_s5(a) =~= p + (id_list_tail(x@) + close));
            assert(summon_s5(b) =~= p + (id_list_tail(y@) + close));
            lemma_text_prefix(p, id_list_tail(x@) + close, id_list_tail(y@) + close);
            lemma_id_list_order(x@, y@, close, close);
        },
        (None, None) => {},
        _ => {
            lemma_texts_differ_at(summon_s5(a), summon_s5(b), 0);
        },
    }
}

proof fn lemma_summon_s4(
    pa: Option<SummonPaymentMode>,
    sa: Option<Vec<IdentityHash>>,
    pb: Option<SummonPaymentMode>,
    sb: Option<Vec<IdentityHash>>,
)
    requires
        opt_ids_valid(sa),
        opt_ids_valid(sb),
    ensures
        lex_order(char_codes(summon_s4(pa, sa)), char_codes(summon_s4(pb, sb))) == then_order(
            option_order(
                pa,
                pb,
                |x: SummonPaymentMode, y: SummonPaymentMode| int_order(payment_code(x), payment_code(y)),
            ),
            option_order(
                sa,
                sb,
                |x: Vec<IdentityHash>, y: Vec<IdentityHash>| array_order(x@, y@, id_elem()),
            ),
        ),
{
    reveal_strlit(",\"paymentMode\":\"random-card-discard\"");
    reveal_strlit(",\"sacrificedMinionInstanceIds\":[");
    reveal_strlit("}");
    let p = ",\"paymentMode\":\"random-card-discard\""@;
    lemma_summon_s5(sa, sb);
    match (pa, pb) {
        (Some(x), Some(y)) => {
            lemma_text_prefix(p, summon_s5(sa), summon_s5(sb));
        },
        (None, None) => {},
        (Some(_), None) => {
            let a = summon_s4(pa, sa);
            let b = summon_s4(pb, sb);
            if sb is Some {
                assert forall|j: int| 0 <= j < 2 implies a[j] == b[j] by {}
                lemma_texts_differ_at(a, b, 2);
            } else {
                lemma_texts_differ_at(a, b, 0);
            }
        },
        (None, Some(_)) => {
            let a = summon_s4(pa, sa);
            let b = summon_s4(pb, sb);
            if sa is Some {
                assert forall|j: int| 0 <= j < 2 implies a[j] == b[j] by {}
                lemma_texts_differ_at(a, b, 2);
            } else {
                lemma_texts_differ_at(a, b, 0);
            }
        },
    }
}

/// Whether two summons' mana costs compare as their texts do: a cost whose
/// rendering is a proper prefix of the other's is followed by a further
/// member (a payment mode or sacrifices), not by the closing brace.
pub open spec fn mana_costs_comparable(
    ma: u64,
    pa: Option<SummonPaymentMode>,
    sa: Option<Vec<IdentityHash>>,
    mb: u64,
    pb: Option<SummonPaymentMode>,
    sb: Option<Vec<IdentityHash>>,
) -> bool {
    &&& proper_prefix(decimal_of(ma), decimal_of(mb)) ==> pa is Some || sa is Some
    &&& proper_prefix(decimal_of(mb), decimal_of(ma)) ==> pb is Some || sb is Some
}

proof fn lemma_summon_s4_head(p: Option<SummonPaymentMode>, s: Option<Vec<IdentityHash>>)
    ensures
        summon_s4(p, s).len() > 0,
        p is Some || s is Some ==> char_codes(summon_s4(p, s))[0] == 44,
{
    reveal_strlit(",\"paymentMode\":\"random-card-discard\"");
    reveal_strlit(",\"sacrificedMinionInstanceIds\":[");
    reveal_strlit("}");
    let t = summon_s4(p, s);
    assert(char_codes(t)[0] == char_int(t[0]));
}

proof fn lemma_summon_s3(
    ma: u64,
    pa: Option<SummonPaymentMode>,
    sa: Option<Vec<IdentityHash>>,
    mb: u64,
    pb: Option<SummonPaymentMode>,
    sb: Option<Vec<IdentityHash>>,
)
    requires
        mana_costs_comparable(ma, pa, sa, mb, pb, sb),
    ensures
        lex_order(char_codes(summon_s3(ma, pa, sa)), char_codes(summon_s3(mb, pb, sb))) == then_order(
            json_int_order(ma, mb),
            lex_order(char_codes(summon_s4(pa, sa)), char_codes(summon_s4(pb, sb))),
        ),
{
    let p = ",\"kind\":\"summon-minion\",\"manaCost\":"@;
    let da = decimal_of(ma);
    let db = decimal_of(mb);
    assert(summon_s3(ma, pa, sa) =~= p + (da + summon_s4(pa, sa)));
    assert(summon_s3(mb, pb, sb) =~= p + (db + summon_s4(pb, sb)));
    lemma_text_prefix(p, da + summon_s4(pa, sa), db + summon_s4(pb, sb));
    lemma_summon_s4_head(pa, sa);
    lemma_summon_s4_head(pb, sb);
    lemma_integer_followed(ma, mb, summon_s4(pa, sa), summon_s4(pb, sb));
}

/// A Summon Minion text from its Genesis damage target on.
pub open spec fn summon_s2(
    gdt: Option<UnitTarget>,
    mana: u64,
    pay: Option<SummonPaymentMode>,
    sac: Option<Vec<IdentityHash>>,
) -> Seq<char> {
    match gdt {
        Some(t) => ",\"genesisDamageTarget\":"@ + unit_target_text(t) + summon_s3(mana, pay, sac),
        None => summon_s3(mana, pay, sac),
    }
}

/// A Summon Minion text from its Genesis damage choice on.
pub open spec fn summon_s1(
    gdc: Option<GenesisDamageChoice>,
    gdt: Option<UnitTarget>,
    mana: u64,
    pay: Option<SummonPaymentMode>,
    sac: Option<Vec<IdentityHash>>,
) -> Seq<char> {
    match gdc {
        Some(c) => ",\"genesisDamageChoice\":"@ + string_text(
            damage_choice_names()[damage_choice_code(c)],
        ) + summon_s2(gdt, mana, pay, sac),
        None => summon_s2(gdt, mana, pay, sac),
    }
}

/// A Summon Minion text from its footprint on.
pub open spec fn summon_s0(
    cells: Option<SquareArea>,
    gdc: Option<GenesisDamageChoice>,
    gdt: Option<UnitTarget>,
    mana: u64,
    pay: Option<SummonPaymentMode>,
    sac: Option<Vec<IdentityHash>>,
) -> Seq<char> {
    match cells {
        Some(area) => ",\"cells\":["@ + cell_list_tail(area@) + summon_s1(gdc, gdt, mana, pay, sac),
        None => summon_s1(gdc, gdt, mana, pay, sac),
    }
}

proof fn lemma_summon_s2(
    ta: Option<UnitTarget>,
    ma: u64,
    pa: Option<SummonPaymentMode>,
    sa: Option<Vec<IdentityHash>>,
    tb: Option<UnitTarget>,
    mb: u64,
    pb: Option<SummonPaymentMode>,
    sb: Option<Vec<IdentityHash>>,
)
    requires
        nullable_target_valid(ta),
        nullable_target_valid(tb),
    ensures
        lex_order(char_codes(summon_s2(ta, ma, pa, sa)), char_codes(summon_s2(tb, mb, pb, sb)))
            == then_order(
            option_order(ta, tb, unit_target_elem()),
            lex_order(char_codes(summon_s3(ma, pa, sa)), char_codes(summon_s3(mb, pb, sb))),
        ),
{
    reveal_strlit(",\"genesisDamageTarget\":");
    reveal_strlit(",\"kind\":\"summon-minion\",\"manaCost\":");
    let p = ",\"genesisDamageTarget\":"@;
    match (ta, tb) {
        (Some(x), Some(y)) => {
            let ra = summon_s3(ma, pa, sa);
            let rb = summon_s3(mb, pb, sb);
            assert(summon_s2(ta, ma, pa, sa) =~= p + (unit_target_text(x) + ra));
            assert(summon_s2(tb, mb, pb, sb) =~= p + (unit_target_text(y) + rb));
            lemma_text_prefix(p, unit_target_text(x) + ra, unit_target_text(y) + rb);
            lemma_unit_target_field(x, y, ra, rb);
            assert(unit_target_elem()(x, y) == unit_target_order(x, y));
        },
        (None, None) => {},
        _ => {
            let a = summon_s2(ta, ma, pa, sa);
            let b = summon_s2(tb, mb, pb, sb);
            assert forall|j: int| 0 <= j < 2 implies a[j] == b[j] by {}
            lemma_texts_differ_at(a, b, 2);
        },
    }
}

proof fn lemma_summon_s1(
    ca: Option<GenesisDamageChoice>,
    ta: Option<UnitTarget>,
    ma: u64,
    pa: Option<SummonPaymentMode>,
    sa: Option<Vec<IdentityHash>>,
    cb: Option<GenesisDamageChoice>,
    tb: Option<UnitTarget>,
    mb: u64,
    pb: Option<SummonPaymentMode>,
    sb: Option<Vec<IdentityHash>>,
)
    ensures
        lex_order(char_codes(summon_s1(ca, ta, ma, pa, sa)), char_codes(summon_s1(cb, tb, mb, pb, sb)))
            == then_order(
            option_order(
                ca,
                cb,
                |x: GenesisDamageChoice, y: GenesisDamageChoice|
                    int_order(damage_choice_code(x), damage_choice_code(y)),
            ),
            lex_order(char_codes(summon_s2(ta, ma, pa, sa)), char_codes(summon_s2(tb, mb, pb, sb))),
        ),
{
    reveal_strlit(",\"genesisDamageChoice\":");
    reveal_strlit(",\"genesisDamageTarget\":");
    reveal_strlit(",\"kind\":\"summon-minion\",\"manaCost\":");
    let p = ",\"genesisDamageChoice\":"@;
    match (ca, cb) {
        (Some(x), Some(y)) => {
            let ra = summon_s2(ta, ma, pa, sa);
            let rb = summon_s2(tb, mb, pb, sb);
            let nx = string_text(damage_choice_names()[damage_choice_code(x)]);
            let ny = string_text(damage_choice_names()[damage_choice_code(y)]);
            assert(summon_s1(ca, ta, ma, pa, sa) =~= p + (nx + ra));
            assert(summon_s1(cb, tb, mb, pb, sb) =~= p + (ny + rb));
            lemma_text_prefix(p, nx + ra, ny + rb);
            lemma_damage_choice_names_ascending();
            lemma_name_field(damage_choice_names(), damage_choice_code(x), damage_choice_code(y), ra, rb);
        },
        (None, None) => {},
        (Some(_), None) => {
            let a = summon_s1(ca, ta, ma, pa, sa);
            let b = summon_s1(cb, tb, mb, pb, sb);
            if tb is Some {
                assert forall|j: int| 0 <= j < 15 implies a[j] == b[j] by {}
                lemma_texts_differ_at(a, b, 15);
            } else {
                assert forall|j: int| 0 <= j < 2 implies a[j] == b[j] by {}
                lemma_texts_differ_at(a, b, 2);
            }
        },
        (None, Some(_)) => {
            let a = summon_s1(ca, ta, ma, pa, sa);
            let b = summon_s1(cb, tb, mb, pb, sb);
            if ta is Some {
                assert forall|j: int| 0 <= j < 15 implies a[j] == b[j] by {}
                lemma_texts_differ_at(a, b, 15);
            } else {
                assert forall|j: int| 0 <= j < 2 implies a[j] == b[j] by {}
                lemma_texts_differ_at(a, b, 2);
            }
        },
    }
}

proof fn lemma_summon_s0(
    aa: Option<SquareArea>,
    ca: Option<GenesisDamageChoice>,
    ta: Option<UnitTarget>,
    ma: u64,
    pa: Option<SummonPaymentMode>,
    sa: Option<Vec<IdentityHash>>,
    ab: Option<SquareArea>,
    cb: Option<GenesisDamageChoice>,
    tb: Option<UnitTarget>,
    mb: u64,
    pb: Option<SummonPaymentMode>,
    sb: Option<Vec<IdentityHash>>,
)
    requires
        aa matches Some(x) ==> cells_valid(x@),
        ab matches Some(y) ==> cells_valid(y@),
    ensures
        lex_order(
            char_codes(summon_s0(aa, ca, ta, ma, pa, sa)),
            char_codes(summon_s0(ab, cb, tb, mb, pb, sb)),
        ) == then_order(
            option_order(
                aa,
                ab,
                |x: SquareArea, y: SquareArea| array_order(x@, y@, cell_elem()),
            ),
            lex_order(
                char_codes(summon_s1(ca, ta, ma, pa, sa)),
                char_codes(summon_s1(cb, tb, mb, pb, sb)),
            ),
        ),
{
    reveal_strlit(",\"cells\":[");
    reveal_strlit(",\"genesisDamageChoice\":");
    reveal_strlit(",\"genesisDamageTarget\":");
    reveal_strlit(",\"kind\":\"summon-minion\",\"manaCost\":");
    let p = ",\"cells\":["@;
    match (aa, ab) {
        (Some(x), Some(y)) => {
            let ra = summon_s1(ca, ta, ma, pa, sa);
            let rb = summon_s1(cb, tb, mb, pb, sb);
            assert(summon_s0(aa, ca, ta, ma, pa, sa) =~= p + (cell_list_tail(x@) + ra));
            assert(summon_s0(ab, cb, tb, mb, pb, sb) =~= p + (cell_list_tail(y@) + rb));
            lemma_text_prefix(p, cell_list_tail(x@) + ra, cell_list_tail(y@) + rb);
            assert(x@.len() == 4 && y@.len() == 4);
            lemma_cell_list_order(x@, y@, ra, rb);
        },
        (None, None) => {},
        _ => {
            let a = summon_s0(aa, ca, ta, ma, pa, sa);
            let b = summon_s0(ab, cb, tb, mb, pb, sb);
            assert forall|j: int| 0 <= j < 2 implies a[j] == b[j] by {}
            lemma_texts_differ_at(a, b, 2);
        },
    }
}

/// The optional `allyDestination` member of an ally cast's text.
pub open spec fn ally_destination_member(l: Option<Location>) -> Seq<char> {
    match l {
        Some(loc) => ",\"allyDestination\":"@ + location_text(loc),
        None => Seq::empty(),
    }
}

/// The optional `allyStrikeLocation` member of an ally cast's text.
pub open spec fn ally_strike_member(l: Option<Location>) -> Seq<char> {
    match l {
        Some(loc) => ",\"allyStrikeLocation\":"@ + location_text(loc),
        None => Seq::empty(),
    }
}

/// The text of a Cast Magic descriptor from its card on.
pub open spec fn cast_card_text(d: ActionDescriptor) -> Seq<char> {
    ",\"cardId\":"@ + string_text(card_prefix_spec(d).0) + ",\"cardInstanceId\":"@ + string_text(
        card_prefix_spec(d).1,
    ) + card_tail(d)
}

/// The canonical JSON text of a Cast Magic descriptor with an ally.
pub open spec fn ally_cast_text(d: ActionDescriptor) -> Seq<char> {
    match d {
        ActionDescriptor::CastMagic { ally: Some(a), ally_destination, ally_strike_location, .. } =>
            "{\"ally\":"@ + unit_target_text(a) + ally_destination_member(ally_destination)
            + ally_strike_member(ally_strike_location) + cast_card_text(d),
        _ => Seq::empty(),
    }
}

/// Whether a Cast Magic descriptor with an ally is well formed.
pub open spec fn ally_cast_stated(d: ActionDescriptor) -> bool {
    match d {
        ActionDescriptor::CastMagic {
            ally: Some(a),
            ally_destination,
            ally_strike_location,
            card_instance_id,
            caster_instance_id,
            cemetery_minion_instance_id,
            target,
            target_location,
            target_site_instance_id,
            ..
        } => {
            &&& valid_identity(crate::action::unit_target_id(a))
            &&& (ally_destination matches Some(l) ==> l.cell@ < 20)
            &&& (ally_strike_location matches Some(l) ==> l.cell@ < 20)
            &&& valid_identity(card_instance_id@)
            &&& valid_identity(caster_instance_id@)
            &&& opt_id_valid(cemetery_minion_instance_id)
            &&& nullable_target_valid(target)
            &&& (target_location matches Some(l) ==> l.cell@ < 20)
            &&& opt_id_valid(target_site_instance_id)
        },
        _ => false,
    }
}

proof fn lemma_ally_strike(a: Option<Location>, b: Option<Location>, x: Seq<char>, y: Seq<char>)
    requires
        a matches Some(l) ==> l.cell@ < 20,
        b matches Some(l) ==> l.cell@ < 20,
        x.len() > 2 && x[0] == ',' && x[1] == '"' && x[2] == 'c',
        y.len() > 2 && y[0] == ',' && y[1] == '"' && y[2] == 'c',
    ensures
        lex_order(char_codes(ally_strike_member(a) + x), char_codes(ally_strike_member(b) + y))
            == then_order(option_order(a, b, location_elem()), lex_order(char_codes(x), char_codes(y))),
{
    reveal_strlit(",\"allyStrikeLocation\":");
    let p = ",\"allyStrikeLocation\":"@;
    match (a, b) {
        (Some(u), Some(v)) => {
            assert(ally_strike_member(a) + x =~= p + (location_text(u) + x));
            assert(ally_strike_member(b) + y =~= p + (location_text(v) + y));
            lemma_text_prefix(p, location_text(u) + x, location_text(v) + y);
            lemma_location_field(u, v, x, y);
        },
        (None, None) => {
            assert(ally_strike_member(a) + x =~= x);
            assert(ally_strike_member(b) + y =~= y);
        },
        _ => {
            let s = ally_strike_member(a) + x;
            let t = ally_strike_member(b) + y;
            assert forall|j: int| 0 <= j < 2 implies s[j] == t[j] by {}
            lemma_texts_differ_at(s, t, 2);
        },
    }
}

proof fn lemma_ally_destination(
    a: Option<Location>,
    b: Option<Location>,
    x: Seq<char>,
    y: Seq<char>,
)
    requires
        a matches Some(l) ==> l.cell@ < 20,
        b matches Some(l) ==> l.cell@ < 20,
        x.len() > 6 && x[0] == ',' && x[1] == '"' && (x[2] == 'c' || (x[2] == 'a' && x[3] == 'l'
            && x[4] == 'l' && x[5] == 'y' && x[6] == 'S')),
        y.len() > 6 && y[0] == ',' && y[1] == '"' && (y[2] == 'c' || (y[2] == 'a' && y[3] == 'l'
            && y[4] == 'l' && y[5] == 'y' && y[6] == 'S')),
    ensures
        lex_order(
            char_codes(ally_destination_member(a) + x),
            char_codes(ally_destination_member(b) + y),
        ) == then_order(option_order(a, b, location_elem()), lex_order(char_codes(x), char_codes(y))),
{
    reveal_strlit(",\"allyDestination\":");
    let p = ",\"allyDestination\":"@;
    match (a, b) {
        (Some(u), Some(v)) => {
            assert(ally_destination_member(a) + x =~= p + (location_text(u) + x));
            assert(ally_destination_member(b) + y =~= p + (location_text(v) + y));
            lemma_text_prefix(p, location_text(u) + x, location_text(v) + y);
            lemma_location_field(u, v, x, y);
        },
        (None, None) => {
            assert(ally_destination_member(a) + x =~= x);
            assert(ally_destination_member(b) + y =~= y);
        },
        (Some(_), None) => {
            let s = ally_destination_member(a) + x;
            let t = ally_destination_member(b) + y;
            if y[2] == 'c' {
                assert forall|j: int| 0 <= j < 2 implies s[j] == t[j] by {}
                lemma_texts_differ_at(s, t, 2);
            } else {
                assert forall|j: int| 0 <= j < 6 implies s[j] == t[j] by {}
                lemma_texts_differ_at(s, t, 6);
            }
        },
        (None, Some(_)) => {
            let s = ally_destination_member(a) + x;
            let t = ally_destination_member(b) + y;
            if x[2] == 'c' {
                assert forall|j: int| 0 <= j < 2 implies s[j] == t[j] by {}
                lemma_texts_differ_at(s, t, 2);
            } else {
                assert forall|j: int| 0 <= j < 6 implies s[j] == t[j] by {}
                lemma_texts_differ_at(s, t, 6);
            }
        },
    }
}

proof fn lemma_cast_card_text(l: ActionDescriptor, r: ActionDescriptor)
    requires
        ally_cast_stated(l),
        ally_cast_stated(r),
    ensures
        lex_order(char_codes(cast_card_text(l)), char_codes(cast_card_text(r))) == then_order(
            json_text_order(card_prefix_spec(l).0, card_prefix_spec(r).0),
            then_order(
                identity_order(card_prefix_spec(l).1, card_prefix_spec(r).1),
                cast_tail_order(l, r),
            ),
        ),
{
    match (l, r) {
        (
            ActionDescriptor::CastMagic {
                card_id: lc,
                card_instance_id: li,
                caster_instance_id: lk,
                cemetery_minion_instance_id: lm,
                target: lt,
                target_location: ll,
                target_site_instance_id: lsite,
                ..
            },
            ActionDescriptor::CastMagic {
                card_id: rc,
                card_instance_id: ri,
                caster_instance_id: rk,
                cemetery_minion_instance_id: rm,
                target: rt,
                target_location: rl,
                target_site_instance_id: rsite,
                ..
            },
        ) => {
            let q0 = ",\"cardId\":"@;
            let q1 = ",\"cardInstanceId\":"@;
            let q2 = ",\"casterInstanceId\":"@;
            let tl_ = cast_r0(lm, lt, ll, lsite);
            let tr_ = cast_r0(rm, rt, rl, rsite);
            let kl = q2 + (string_text(lk@) + tl_);
            let kr = q2 + (string_text(rk@) + tr_);
            let il = q1 + (string_text(li@) + kl);
            let ir = q1 + (string_text(ri@) + kr);
            assert(cast_card_text(l) =~= q0 + (string_text(lc@) + il));
            assert(cast_card_text(r) =~= q0 + (string_text(rc@) + ir));
            lemma_text_prefix(q0, string_text(lc@) + il, string_text(rc@) + ir);
            lemma_string_field_order(lc@, rc@, il, ir);
            lemma_text_prefix(q1, string_text(li@) + kl, string_text(ri@) + kr);
            lemma_string_field_order(li@, ri@, kl, kr);
            lemma_identity_text_order(li@, ri@);
            lemma_text_prefix(q2, string_text(lk@) + tl_, string_text(rk@) + tr_);
            lemma_string_field_order(lk@, rk@, tl_, tr_);
            lemma_identity_text_order(lk@, rk@);
            lemma_cast_r0(lm, lt, ll, lsite, rm, rt, rl, rsite);
            lemma_cast_r1(lt, ll, lsite, rt, rl, rsite);
            lemma_cast_r2(ll, lsite, rl, rsite);
            lemma_cast_r3(lsite, rsite);
        },
        _ => {},
    }
}

proof fn lemma_ally_casts_head(l: ActionDescriptor, r: ActionDescriptor)
    requires
        ally_cast_stated(l),
        ally_cast_stated(r),
    ensures
        lex_order(char_codes(ally_cast_text(l)), char_codes(ally_cast_text(r))) == then_order(
            option_order(ally_of(l), ally_of(r), unit_target_elem()),
            then_order(
                option_order(destination_of(l), destination_of(r), location_elem()),
                then_order(
                    option_order(strike_of(l), strike_of(r), location_elem()),
                    lex_order(char_codes(cast_card_text(l)), char_codes(cast_card_text(r))),
                ),
            ),
        ),
{
    reveal_strlit("{\"ally\":");
    reveal_strlit(",\"allyStrikeLocation\":");
    reveal_strlit(",\"cardId\":");
    match (l, r) {
        (
            ActionDescriptor::CastMagic {
                ally: Some(la),
                ally_destination: ld,
                ally_strike_location: ls,
                ..
            },
            ActionDescriptor::CastMagic {
                ally: Some(ra),
                ally_destination: rd,
                ally_strike_location: rs,
                ..
            },
        ) => {
            let p = "{\"ally\":"@;
            let cl = cast_card_text(l);
            let cr = cast_card_text(r);
            let sl = ally_strike_member(ls) + cl;
            let sr = ally_strike_member(rs) + cr;
            let dl = ally_destination_member(ld) + sl;
            let dr = ally_destination_member(rd) + sr;
            assert(ally_cast_text(l) =~= p + (unit_target_text(la) + dl));
            assert(ally_cast_text(r) =~= p + (unit_target_text(ra) + dr));
            lemma_text_prefix(p, unit_target_text(la) + dl, unit_target_text(ra) + dr);
            lemma_unit_target_field(la, ra, dl, dr);
            assert(cl[0] == ',' && cl[1] == '"' && cl[2] == 'c');
            assert(cr[0] == ',' && cr[1] == '"' && cr[2] == 'c');
            assert(cl.len() > 6 && cr.len() > 6);
            lemma_ally_strike(ls, rs, cl, cr);
            assert(sl.len() > 6 && sr.len() > 6);
            assert(sl[0] == ',' && sl[1] == '"');
            assert(sr[0] == ',' && sr[1] == '"');
            assert(sl[2] == 'c' || (sl[2] == 'a' && sl[3] == 'l' && sl[4] == 'l' && sl[5] == 'y'
                && sl[6] == 'S'));
            assert(sr[2] == 'c' || (sr[2] == 'a' && sr[3] == 'l' && sr[4] == 'l' && sr[5] == 'y'
                && sr[6] == 'S'));
            lemma_ally_destination(ld, rd, sl, sr);
            assert(unit_target_elem()(la, ra) == unit_target_order(la, ra));
        },
        _ => {},
    }
}

/// The ally of a Cast Magic descriptor.
pub open spec fn ally_of(d: ActionDescriptor) -> Option<UnitTarget> {
    match d {
        ActionDescriptor::CastMagic { ally, .. } => ally,
        _ => None,
    }
}

/// The ally destination of a Cast Magic descriptor.
pub open spec fn destination_of(d: ActionDescriptor) -> Option<Location> {
    match d {
        ActionDescriptor::CastMagic { ally_destination, .. } => ally_destination,
        _ => None,
    }
}

/// The ally strike location of a Cast Magic descriptor.
pub open spec fn strike_of(d: ActionDescriptor) -> Option<Location> {
    match d {
        ActionDescriptor::CastMagic { ally_strike_location, .. } => ally_strike_location,
        _ => None,
    }
}

/// Cast Magic descriptors with an ally sort exactly as their canonical JSON
/// texts do.
proof fn lemma_ally_casts_order_as_text(l: ActionDescriptor, r: ActionDescriptor)
    requires
        ally_cast_stated(l),
        ally_cast_stated(r),
    ensures
        canonical_order(l, r) == lex_order(char_codes(ally_cast_text(l)), char_codes(ally_cast_text(r))),
{
    lemma_ally_casts_head(l, r);
    lemma_cast_card_text(l, r);
    assert(canonical_order(l, r) == cast_magic_order(l, r));
}

/// Whether `p` is a proper prefix of `q`.
pub open spec fn proper_prefix(p: Seq<char>, q: Seq<char>) -> bool {
    p.len() < q.len() && q.subrange(0, len_code(p.len())) == p
}

/// When one decimal rendering is a proper prefix of another and is followed
/// by a character below the digits, the shorter sorts first, as its rendering
/// does.
proof fn lemma_decimal_prefix_followed(da: Seq<char>, db: Seq<char>, x: Seq<char>, y: Seq<char>)
    requires
        proper_prefix(da, db),
        x.len() > 0,
        char_codes(x)[0] < 48,
        48 <= char_codes(db)[len_code(da.len())] <= 57,
    ensures
        lex_order(char_codes(da + x), char_codes(db + y)) == Ordering::Less,
        lex_order(char_codes(da), char_codes(db)) == Ordering::Less,
{
    let n = len_code(da.len());
    let p = char_codes(da + x);
    let q = char_codes(db);
    lemma_char_codes_concat(da, x);
    lemma_char_codes_concat(db, y);
    assert(p[n] == char_codes(x)[0]);
    assert forall|j: int| 0 <= j < n implies p[j] == q[j] by {
        assert(db.subrange(0, n)[j] == db[j]);
        assert(p[j] == char_codes(da)[j]);
    }
    lemma_lex_order_extend(p, q, Seq::empty(), char_codes(y), n);
    assert(p + Seq::<int>::empty() =~= p);
    lemma_lex_order_skip(p, q, n);
    assert(p.skip(n)[0] == p[n]);
    assert(q.skip(n)[0] == q[n]);
    assert forall|j: int| 0 <= j < n implies char_codes(da)[j] == q[j] by {
        assert(db.subrange(0, n)[j] == db[j]);
    }
    lemma_lex_order_skip(char_codes(da), q, n);
    assert(char_codes(da).skip(n).len() == 0);
}

/// A JSON integer followed by text compares, inside canonical JSON text, as
/// the integer order of this module says, unless one rendering is a proper
/// prefix of the other and the shorter is followed by a character that sorts
/// after the digits (a closing brace or bracket); only equal integers let
/// what follows decide.
pub proof fn lemma_integer_followed(a: u64, b: u64, x: Seq<char>, y: Seq<char>)
    requires
        x.len() > 0,
        y.len() > 0,
        proper_prefix(decimal_of(a), decimal_of(b)) ==> char_codes(x)[0] < 48,
        proper_prefix(decimal_of(b), decimal_of(a)) ==> char_codes(y)[0] < 48,
    ensures
        lex_order(char_codes(decimal_of(a) + x), char_codes(decimal_of(b) + y)) == then_order(
            json_int_order(a, b),
            lex_order(char_codes(x), char_codes(y)),
        ),
{
    let da = decimal_of(a);
    let db = decimal_of(b);
    let ca = char_codes(da);
    let cb = char_codes(db);
    lemma_decimal_of_digits(a);
    lemma_decimal_of_digits(b);
    lemma_lex_order_equal(ca, cb);
    lemma_lex_order_antisymmetric(ca, cb);
    lemma_char_codes_concat(da, x);
    lemma_char_codes_concat(db, y);
    let m = if da.len() <= db.len() {
        da.len()
    } else {
        db.len()
    };
    if exists|i: int| 0 <= i < m && ca[i] != cb[i] {
        let i = choose|i: int| 0 <= i < m && ca[i] != cb[i];
        lemma_lex_order_extend(ca, cb, char_codes(x), char_codes(y), i);
        assert(ca != cb);
    } else if da.len() == db.len() {
        assert(ca =~= cb);
        assert forall|j: int| 0 <= j < da.len() implies da[j] == db[j] by {
            assert(ca[j] == cb[j]);
        }
        assert(da =~= db);
        lemma_text_prefix(da, x, y);
    } else if da.len() < db.len() {
        assert forall|j: int| 0 <= j < da.len() implies da[j] == db[j] by {
            assert(ca[j] == cb[j]);
        }
        assert(db.subrange(0, len_code(da.len())) =~= da);
        lemma_decimal_prefix_followed(da, db, x, y);
    } else {
        assert forall|j: int| 0 <= j < db.len() implies da[j] == db[j] by {
            assert(ca[j] == cb[j]);
        }
        assert(da.subrange(0, len_code(db.len())) =~= db);
        lemma_decimal_prefix_followed(db, da, y, x);
        lemma_lex_order_antisymmetric(char_codes(da + x), char_codes(db + y));
    }
}

/// Whether two descriptors compare as their canonical JSON texts do in the
/// members where integers could break that: summons' mana costs and Genesis
/// spell orders (see [`mana_costs_comparable`], [`byte_lists_comparable`]).
pub open spec fn numbers_comparable(l: ActionDescriptor, r: ActionDescriptor) -> bool {
    match (l, r) {
        (
            ActionDescriptor::SummonMinion {
                mana_cost: ma,
                payment_mode: pa,
                sacrificed_minion_instance_ids: sa,
                ..
            },
            ActionDescriptor::SummonMinion {
                mana_cost: mb,
                payment_mode: pb,
                sacrificed_minion_instance_ids: sb,
                ..
            },
        ) => mana_costs_comparable(ma, pa, sa, mb, pb, sb),
        (
            ActionDescriptor::ResolveGenesisSpellOrder { order: lo },
            ActionDescriptor::ResolveGenesisSpellOrder { order: ro },
        ) => byte_lists_comparable(lo@, ro@),
        _ => true,
    }
}

} // verus!
