//! Sparse temporary modifiers attached to one game object.

use vstd::prelude::*;

use crate::ability::TemporaryModifierKind;
use crate::canonical::IdentityHash;

verus! {

impl TemporaryModifierKind {
    /// The event emitted when this modifier is granted.
    pub fn grant_event(self) -> (r: &'static str)
        ensures
            r@ == grant_event_name(self),
    {
        match self {
            TemporaryModifierKind::Airborne => "airborne-granted",
            TemporaryModifierKind::Charge => "charge-granted",
            TemporaryModifierKind::FirstStrike => "first-strike-granted",
            TemporaryModifierKind::Lethal => "lethal-granted",
            TemporaryModifierKind::NextStrikeDouble => "next-strike-double-granted",
            TemporaryModifierKind::Movement => "movement-granted",
            TemporaryModifierKind::Power => "power-granted",
            TemporaryModifierKind::Ranged => "ranged-granted",
            TemporaryModifierKind::Silence => "silence-granted",
        }
    }

    /// The event emitted when this modifier expires.
    pub fn expiration_event(self) -> (r: &'static str)
        ensures
            r@ == expiration_event_name(self),
    {
        match self {
            TemporaryModifierKind::Airborne => "airborne-expired",
            TemporaryModifierKind::Charge => "charge-expired",
            TemporaryModifierKind::FirstStrike => "first-strike-expired",
            TemporaryModifierKind::Lethal => "lethal-expired",
            TemporaryModifierKind::NextStrikeDouble => "next-strike-double-expired",
            TemporaryModifierKind::Movement => "movement-expired",
            TemporaryModifierKind::Power => "power-expired",
            TemporaryModifierKind::Ranged => "ranged-expired",
            TemporaryModifierKind::Silence => "silence-expired",
        }
    }
}

/// The grant event of a modifier kind.
pub open spec fn grant_event_name(kind: TemporaryModifierKind) -> Seq<char> {
    match kind {
        TemporaryModifierKind::Airborne => "airborne-granted"@,
        TemporaryModifierKind::Charge => "charge-granted"@,
        TemporaryModifierKind::FirstStrike => "first-strike-granted"@,
        TemporaryModifierKind::Lethal => "lethal-granted"@,
        TemporaryModifierKind::NextStrikeDouble => "next-strike-double-granted"@,
        TemporaryModifierKind::Movement => "movement-granted"@,
        TemporaryModifierKind::Power => "power-granted"@,
        TemporaryModifierKind::Ranged => "ranged-granted"@,
        TemporaryModifierKind::Silence => "silence-granted"@,
    }
}

/// The expiration event of a modifier kind.
pub open spec fn expiration_event_name(kind: TemporaryModifierKind) -> Seq<char> {
    match kind {
        TemporaryModifierKind::Airborne => "airborne-expired"@,
        TemporaryModifierKind::Charge => "charge-expired"@,
        TemporaryModifierKind::FirstStrike => "first-strike-expired"@,
        TemporaryModifierKind::Lethal => "lethal-expired"@,
        TemporaryModifierKind::NextStrikeDouble => "next-strike-double-expired"@,
        TemporaryModifierKind::Movement => "movement-expired"@,
        TemporaryModifierKind::Power => "power-expired"@,
        TemporaryModifierKind::Ranged => "ranged-expired"@,
        TemporaryModifierKind::Silence => "silence-expired"@,
    }
}

/// One independently granted temporary effect.
#[derive(Clone, Debug, Eq, PartialEq)]
pub struct TemporaryModifier {
    /// Granted modifier kind.
    pub kind: TemporaryModifierKind,
    /// Granted magnitude.
    pub amount: u16,
    /// Granting source.
    pub source_instance_id: IdentityHash,
}

/// The modifiers of one kind, in grant order.
pub open spec fn of_kind(s: Seq<TemporaryModifier>, kind: TemporaryModifierKind) -> Seq<
    TemporaryModifier,
>
    decreases s.len(),
{
    if s.len() == 0 {
        Seq::empty()
    } else if s.last().kind == kind {
        of_kind(s.drop_last(), kind).push(s.last())
    } else {
        of_kind(s.drop_last(), kind)
    }
}

/// The modifiers of every other kind, in grant order.
pub open spec fn not_of_kind(s: Seq<TemporaryModifier>, kind: TemporaryModifierKind) -> Seq<
    TemporaryModifier,
>
    decreases s.len(),
{
    if s.len() == 0 {
        Seq::empty()
    } else if s.last().kind != kind {
        not_of_kind(s.drop_last(), kind).push(s.last())
    } else {
        not_of_kind(s.drop_last(), kind)
    }
}

/// The exact magnitude sum of one modifier kind.
pub open spec fn kind_total(s: Seq<TemporaryModifier>, kind: TemporaryModifierKind) -> nat
    decreases s.len(),
{
    if s.len() == 0 {
        0
    } else if s.last().kind == kind {
        kind_total(s.drop_last(), kind) + s.last().amount as nat
    } else {
        kind_total(s.drop_last(), kind)
    }
}

/// The sources of one modifier kind, in grant order.
pub open spec fn kind_sources(s: Seq<TemporaryModifier>, kind: TemporaryModifierKind) -> Seq<
    Seq<char>,
> {
    of_kind(s, kind).map_values(|m: TemporaryModifier| m.source_instance_id@)
}

/// Taking a kind splits the grants into that kind and every other kind; the
/// two parts together hold every grant exactly as often as before.
pub proof fn lemma_take_partitions(s: Seq<TemporaryModifier>, kind: TemporaryModifierKind)
    ensures
        of_kind(s, kind).len() + not_of_kind(s, kind).len() == s.len(),
        of_kind(s, kind).to_multiset().add(not_of_kind(s, kind).to_multiset()) =~= s.to_multiset(),
        forall|i: int|
            0 <= i < not_of_kind(s, kind).len() ==> (#[trigger] not_of_kind(s, kind)[i]).kind
                != kind,
        forall|i: int|
            0 <= i < of_kind(s, kind).len() ==> (#[trigger] of_kind(s, kind)[i]).kind == kind,
    decreases s.len(),
{
    broadcast use vstd::seq_lib::group_to_multiset_ensures;

    if s.len() > 0 {
        lemma_take_partitions(s.drop_last(), kind);
        assert(s =~= s.drop_last().push(s.last()));
    }
}

/// A prefix never sums to more than the whole.
proof fn lemma_kind_total_prefix(s: Seq<TemporaryModifier>, i: int, kind: TemporaryModifierKind)
    requires
        0 <= i <= s.len(),
    ensures
        kind_total(s.take(i), kind) <= kind_total(s, kind),
    decreases s.len(),
{
    if i == s.len() {
        assert(s.take(i) =~= s);
    } else {
        lemma_kind_total_prefix(s.drop_last(), i, kind);
        assert(s.drop_last().take(i) =~= s.take(i));
    }
}

/// A magnitude sum exceeded `u16`.
#[derive(Clone, Copy, Debug, Eq, PartialEq)]
pub struct MagnitudeOverflow;

/// Sparse, duplicate-preserving temporary effects for one object.
#[derive(Clone, Debug, Default, Eq, PartialEq)]
pub struct TemporaryModifiers {
    entries: Vec<TemporaryModifier>,
}

impl View for TemporaryModifiers {
    type V = Seq<TemporaryModifier>;

    closed spec fn view(&self) -> Seq<TemporaryModifier> {
        self.entries@
    }
}

impl TemporaryModifiers {
    /// Returns an empty modifier set.
    pub fn new() -> (r: Self)
        ensures
            r@ == Seq::<TemporaryModifier>::empty(),
    {
        TemporaryModifiers { entries: Vec::new() }
    }

    /// Records one more grant; duplicates stay independent.
    pub fn grant(&mut self, kind: TemporaryModifierKind, amount: u16, source_instance_id: IdentityHash)
        ensures
            final(self)@ == old(self)@.push(
                TemporaryModifier { kind, amount, source_instance_id },
            ),
    {
        self.entries.push(TemporaryModifier { kind, amount, source_instance_id });
    }

    /// Whether any grant of `kind` is present.
    pub fn has(&self, kind: TemporaryModifierKind) -> (r: bool)
        ensures
            r == (exists|i: int| 0 <= i < self@.len() && (#[trigger] self@[i]).kind == kind),
    {
        let mut i: usize = 0;
        while i < self.entries.len()
            invariant
                i <= self.entries@.len(),
                forall|j: int| 0 <= j < i ==> (#[trigger] self.entries@[j]).kind != kind,
            decreases self.entries@.len() - i,
        {
            if self.entries[i].kind == kind {
                return true;
            }
            i = i + 1;
        }
        false
    }

    /// Returns the checked `u16` magnitude sum for one modifier kind.
    pub fn amount(&self, kind: TemporaryModifierKind) -> (r: Result<u16, MagnitudeOverflow>)
        ensures
            r is Ok <==> kind_total(self@, kind) <= u16::MAX,
            r matches Ok(total) ==> total == kind_total(self@, kind),
    {
        let mut total: u64 = 0;
        let mut i: usize = 0;
        while i < self.entries.len()
            invariant
                i <= self.entries@.len(),
                total == kind_total(self.entries@.take(i as int), kind),
                total <= 65535,
            decreases self.entries@.len() - i,
        {
            assert(self.entries@.take(i + 1).drop_last() =~= self.entries@.take(i as int));
            let m = &self.entries[i];
            if m.kind == kind {
                total = total + m.amount as u64;
                if total > 65535 {
                    proof {
                        lemma_kind_total_prefix(self.entries@, i + 1, kind);
                    }
                    return Err(MagnitudeOverflow);
                }
            }
            i = i + 1;
        }
        assert(self.entries@.take(self.entries@.len() as int) =~= self.entries@);
        if total <= 65535 {
            Ok(total as u16)
        } else {
            Err(MagnitudeOverflow)
        }
    }

    /// The sources of every grant of `kind`, in grant order.
    pub fn sources(&self, kind: TemporaryModifierKind) -> (r: Vec<IdentityHash>)
        ensures
            r@.map_values(|h: IdentityHash| h@) == kind_sources(self@, kind),
    {
        let mut out: Vec<IdentityHash> = Vec::new();
        let mut i: usize = 0;
        while i < self.entries.len()
            invariant
                i <= self.entries@.len(),
                out@.map_values(|h: IdentityHash| h@) == kind_sources(
                    self.entries@.take(i as int),
                    kind,
                ),
            decreases self.entries@.len() - i,
        {
            assert(self.entries@.take(i + 1).drop_last() =~= self.entries@.take(i as int));
            let m = &self.entries[i];
            if m.kind == kind {
                let ghost before = out@;
                out.push(m.source_instance_id.clone());
                assert(out@.map_values(|h: IdentityHash| h@) =~= before.map_values(
                    |h: IdentityHash| h@,
                ).push(m.source_instance_id@));
                assert(of_kind(self.entries@.take(i + 1), kind) == of_kind(
                    self.entries@.take(i as int),
                    kind,
                ).push(self.entries@[i as int]));
                assert(kind_sources(self.entries@.take(i + 1), kind) =~= kind_sources(
                    self.entries@.take(i as int),
                    kind,
                ).push(m.source_instance_id@));
            }
            i = i + 1;
        }
        assert(self.entries@.take(self.entries@.len() as int) =~= self.entries@);
        out
    }

    /// Removes every grant of one kind, retaining insertion order in both results.
    pub fn take(&mut self, kind: TemporaryModifierKind) -> (r: Vec<TemporaryModifier>)
        ensures
            r@ == of_kind(old(self)@, kind),
            final(self)@ == not_of_kind(old(self)@, kind),
    {
        let ghost original = self.entries@;
        let mut rest: Vec<TemporaryModifier> = Vec::new();
        std::mem::swap(&mut rest, &mut self.entries);
        let mut removed: Vec<TemporaryModifier> = Vec::new();
        let ghost mut i: int = 0;
        while rest.len() > 0
            invariant
                0 <= i <= original.len(),
                rest@ == original.subrange(i, original.len() as int),
                removed@ == of_kind(original.take(i), kind),
                self.entries@ == not_of_kind(original.take(i), kind),
            decreases rest@.len(),
        {
            assert(original.take(i + 1).drop_last() =~= original.take(i));
            let m = rest.remove(0);
            if m.kind == kind {
                removed.push(m);
            } else {
                self.entries.push(m);
            }
            proof {
                i = i + 1;
            }
            assert(rest@ =~= original.subrange(i, original.len() as int));
        }
        assert(original.take(original.len() as int) =~= original);
        removed
    }

    /// Removes and returns every grant in grant order.
    pub fn drain(&mut self) -> (r: Vec<TemporaryModifier>)
        ensures
            r@ == old(self)@,
            final(self)@ == Seq::<TemporaryModifier>::empty(),
    {
        let mut all: Vec<TemporaryModifier> = Vec::new();
        std::mem::swap(&mut all, &mut self.entries);
        all
    }

    /// Every grant in grant order.
    pub fn iter(&self) -> (r: &[TemporaryModifier])
        ensures
            r@ == self@,
    {
        self.entries.as_slice()
    }

    /// Whether no grant is present.
    pub fn is_empty(&self) -> (r: bool)
        ensures
            r == (self@.len() == 0),
    {
        self.entries.len() == 0
    }
}

} // verus!
