//! Ordering of simultaneous triggers: the active player orders first, then the
//! non-active player; non-active triggers resolve before active ones.

use vstd::prelude::*;

use crate::canonical::IdentityHash;
use crate::contract::Seat;

verus! {

/// A trigger source that can be ordered by its controller.
#[derive(Clone, Debug, Eq, PartialEq)]
pub struct TriggerSource {
    /// Seat that orders and controls the trigger.
    pub controller: Seat,
    /// Authoritative source identity.
    pub instance_id: IdentityHash,
}

/// The ordering step a batch is waiting for.
#[derive(Clone, Copy, Debug, Eq, PartialEq, Structural)]
pub enum TriggerOrderStage {
    /// The active player is choosing the next trigger.
    ActiveOrder,
    /// The non-active player is choosing the next trigger.
    NonActiveOrder,
    /// Every trigger is ordered and resolving.
    Resolve,
}

/// A trigger-order request was not legal in the current batch state.
#[derive(Clone, Copy, Debug, Eq, PartialEq, Structural)]
pub enum GameError {
    /// The request named no pending choice.
    IllegalAction,
}

/// Simultaneous triggers split by controller while they are ordered.
#[derive(Clone, Debug, Eq, PartialEq)]
pub struct TriggerBatch {
    /// Active triggers already ordered, first to resolve first.
    pub active_order: Vec<TriggerSource>,
    /// Active triggers not yet ordered.
    pub active_remaining: Vec<TriggerSource>,
    /// Non-active triggers already ordered.
    pub non_active_order: Vec<TriggerSource>,
    /// Non-active triggers not yet ordered.
    pub non_active_remaining: Vec<TriggerSource>,
    /// Triggers in resolution order once ordering finished.
    pub resolving: Vec<TriggerSource>,
    /// Current step.
    pub stage: TriggerOrderStage,
}

/// The mathematical state of a trigger batch.
pub struct TriggerBatchModel {
    pub active_order: Seq<TriggerSource>,
    pub active_remaining: Seq<TriggerSource>,
    pub non_active_order: Seq<TriggerSource>,
    pub non_active_remaining: Seq<TriggerSource>,
    pub resolving: Seq<TriggerSource>,
    pub stage: TriggerOrderStage,
}

impl View for TriggerBatch {
    type V = TriggerBatchModel;

    open spec fn view(&self) -> TriggerBatchModel {
        TriggerBatchModel {
            active_order: self.active_order@,
            active_remaining: self.active_remaining@,
            non_active_order: self.non_active_order@,
            non_active_remaining: self.non_active_remaining@,
            resolving: self.resolving@,
            stage: self.stage,
        }
    }
}

/// The sources controlled by `seat` (or by the other seat), in input order.
pub open spec fn controlled_by(sources: Seq<TriggerSource>, seat: Seat, wanted: bool) -> Seq<
    TriggerSource,
>
    decreases sources.len(),
{
    if sources.len() == 0 {
        Seq::empty()
    } else if (sources.last().controller == seat) == wanted {
        controlled_by(sources.drop_last(), seat, wanted).push(sources.last())
    } else {
        controlled_by(sources.drop_last(), seat, wanted)
    }
}

/// Moves the ordered triggers into resolution order: non-active first.
pub open spec fn start_resolving_spec(b: TriggerBatchModel) -> TriggerBatchModel {
    TriggerBatchModel {
        resolving: b.non_active_order + b.active_order,
        non_active_order: Seq::empty(),
        active_order: Seq::empty(),
        stage: TriggerOrderStage::Resolve,
        ..b
    }
}

/// The batch created from simultaneous `sources`.
pub open spec fn new_batch_spec(sources: Seq<TriggerSource>, active_seat: Seat) -> TriggerBatchModel {
    let active = controlled_by(sources, active_seat, true);
    let non_active = controlled_by(sources, active_seat, false);
    let active_needs = active.len() > 1;
    let non_active_needs = non_active.len() > 1;
    let initial = TriggerBatchModel {
        active_order: if active_needs { Seq::empty() } else { active },
        active_remaining: if active_needs { active } else { Seq::empty() },
        non_active_order: if non_active_needs { Seq::empty() } else { non_active },
        non_active_remaining: if non_active_needs { non_active } else { Seq::empty() },
        resolving: Seq::empty(),
        stage: if active_needs {
            TriggerOrderStage::ActiveOrder
        } else if non_active_needs {
            TriggerOrderStage::NonActiveOrder
        } else {
            TriggerOrderStage::Resolve
        },
    };
    if !active_needs && !non_active_needs {
        start_resolving_spec(initial)
    } else {
        initial
    }
}

/// The first position of `id` among `sources`, if any.
pub open spec fn position_of(sources: Seq<TriggerSource>, id: Seq<char>) -> Option<int> {
    if exists|i: int| 0 <= i < sources.len() && (#[trigger] sources[i]).instance_id@ == id {
        let i = choose|i: int|
            0 <= i < sources.len() && (#[trigger] sources[i]).instance_id@ == id && forall|j: int|
                0 <= j < i ==> (#[trigger] sources[j]).instance_id@ != id;
        Some(i)
    } else {
        None
    }
}

/// Commits `sources[index]` next and, when one source remains, that source too.
pub open spec fn commit_side(
    committed: Seq<TriggerSource>,
    remaining: Seq<TriggerSource>,
    index: int,
) -> (Seq<TriggerSource>, Seq<TriggerSource>) {
    let committed1 = committed.push(remaining[index]);
    let remaining1 = remaining.remove(index);
    if remaining1.len() == 1 {
        (committed1.push(remaining1[0]), Seq::empty())
    } else {
        (committed1, remaining1)
    }
}

/// The batch after its controller commits `id` as the next trigger, or `None`
/// when that commit is illegal.
pub open spec fn commit_spec(b: TriggerBatchModel, id: Seq<char>) -> Option<TriggerBatchModel> {
    let active_stage = b.stage == TriggerOrderStage::ActiveOrder;
    let remaining = if active_stage {
        b.active_remaining
    } else {
        b.non_active_remaining
    };
    let committed = if active_stage {
        b.active_order
    } else {
        b.non_active_order
    };
    if b.stage == TriggerOrderStage::Resolve || remaining.len() < 2 || position_of(
        remaining,
        id,
    ) is None {
        None
    } else {
        let (c, r) = commit_side(committed, remaining, position_of(remaining, id)->0);
        let after = if active_stage {
            TriggerBatchModel { active_order: c, active_remaining: r, ..b }
        } else {
            TriggerBatchModel { non_active_order: c, non_active_remaining: r, ..b }
        };
        if r.len() > 1 {
            Some(after)
        } else if active_stage && b.non_active_remaining.len() > 1 {
            Some(TriggerBatchModel { stage: TriggerOrderStage::NonActiveOrder, ..after })
        } else {
            Some(start_resolving_spec(after))
        }
    }
}

fn split_by_controller(sources: Vec<TriggerSource>, seat: Seat) -> (r: (
    Vec<TriggerSource>,
    Vec<TriggerSource>,
))
    ensures
        r.0@ == controlled_by(sources@, seat, true),
        r.1@ == controlled_by(sources@, seat, false),
{
    let ghost original = sources@;
    let mut rest = sources;
    let mut matching: Vec<TriggerSource> = Vec::new();
    let mut others: Vec<TriggerSource> = Vec::new();
    let ghost mut i: int = 0;
    while rest.len() > 0
        invariant
            0 <= i <= original.len(),
            rest@ == original.subrange(i, original.len() as int),
            matching@ == controlled_by(original.take(i), seat, true),
            others@ == controlled_by(original.take(i), seat, false),
        decreases rest@.len(),
    {
        assert(original.take(i + 1).drop_last() =~= original.take(i));
        let s = rest.remove(0);
        if s.controller == seat {
            matching.push(s);
        } else {
            others.push(s);
        }
        proof {
            i = i + 1;
        }
        assert(rest@ =~= original.subrange(i, original.len() as int));
    }
    assert(original.take(original.len() as int) =~= original);
    (matching, others)
}

fn find_source(sources: &Vec<TriggerSource>, id: &IdentityHash) -> (r: Option<usize>)
    ensures
        r matches Some(i) ==> position_of(sources@, id@) == Some(i as int) && i < sources@.len(),
        r is None ==> position_of(sources@, id@) is None,
{
    let mut i: usize = 0;
    while i < sources.len()
        invariant
            i <= sources@.len(),
            forall|j: int| 0 <= j < i ==> (#[trigger] sources@[j]).instance_id@ != id@,
        decreases sources@.len() - i,
    {
        if sources[i].instance_id.same_as(id) {
            let ghost k = choose|k: int|
                0 <= k < sources@.len() && (#[trigger] sources@[k]).instance_id@ == id@
                    && forall|j: int| 0 <= j < k ==> (#[trigger] sources@[j]).instance_id@ != id@;
            assert(0 <= i < sources@.len() && sources@[i as int].instance_id@ == id@ && forall|
                j: int,
            | 0 <= j < i ==> (#[trigger] sources@[j]).instance_id@ != id@);
            assert(k == i as int) by {
                if k < i {
                } else if k > i {
                    assert(sources@[i as int].instance_id@ == id@);
                }
            }
            return Some(i);
        }
        i = i + 1;
    }
    None
}

impl TriggerBatch {
    /// Starts ordering simultaneous triggers; `None` when there are none.
    pub fn new(sources: Vec<TriggerSource>, active_seat: Seat) -> (r: Option<TriggerBatch>)
        ensures
            r is None <==> sources@.len() == 0,
            r matches Some(b) ==> b@ == new_batch_spec(sources@, active_seat),
    {
        if sources.len() == 0 {
            return None;
        }
        let ghost input = sources@;
        let (active, non_active) = split_by_controller(sources, active_seat);
        let active_needs_order = active.len() > 1;
        let non_active_needs_order = non_active.len() > 1;
        let stage = if active_needs_order {
            TriggerOrderStage::ActiveOrder
        } else if non_active_needs_order {
            TriggerOrderStage::NonActiveOrder
        } else {
            TriggerOrderStage::Resolve
        };
        let (active_order, active_remaining) = if active_needs_order {
            (Vec::new(), active)
        } else {
            (active, Vec::new())
        };
        let (non_active_order, non_active_remaining) = if non_active_needs_order {
            (Vec::new(), non_active)
        } else {
            (non_active, Vec::new())
        };
        let mut batch = TriggerBatch {
            active_order,
            active_remaining,
            non_active_order,
            non_active_remaining,
            resolving: Vec::new(),
            stage,
        };
        if stage == TriggerOrderStage::Resolve {
            batch.start_resolving();
        }
        proof {
            let spec = new_batch_spec(input, active_seat);
            assert(batch@.active_order =~= spec.active_order);
            assert(batch@.active_remaining =~= spec.active_remaining);
            assert(batch@.non_active_order =~= spec.non_active_order);
            assert(batch@.non_active_remaining =~= spec.non_active_remaining);
            assert(batch@.resolving =~= spec.resolving);
        }
        Some(batch)
    }

    fn start_resolving(&mut self)
        ensures
            final(self)@ == start_resolving_spec(old(self)@),
    {
        let mut resolving: Vec<TriggerSource> = Vec::new();
        std::mem::swap(&mut resolving, &mut self.non_active_order);
        let mut active: Vec<TriggerSource> = Vec::new();
        std::mem::swap(&mut active, &mut self.active_order);
        resolving.append(&mut active);
        self.resolving = resolving;
        self.stage = TriggerOrderStage::Resolve;
    }

    /// The sources the deciding player still has to order, when a choice is pending.
    pub fn pending_order(&self) -> (r: Option<&[TriggerSource]>)
        ensures
            self.stage == TriggerOrderStage::ActiveOrder && self.active_remaining@.len() > 1
                ==> (r matches Some(s) && s@ == self.active_remaining@),
            self.stage == TriggerOrderStage::NonActiveOrder && self.non_active_remaining@.len()
                > 1 ==> (r matches Some(s) && s@ == self.non_active_remaining@),
            !(self.stage == TriggerOrderStage::ActiveOrder && self.active_remaining@.len() > 1)
                && !(self.stage == TriggerOrderStage::NonActiveOrder
                && self.non_active_remaining@.len() > 1) ==> r is None,
    {
        match self.stage {
            TriggerOrderStage::ActiveOrder => {
                if self.active_remaining.len() > 1 {
                    Some(self.active_remaining.as_slice())
                } else {
                    None
                }
            },
            TriggerOrderStage::NonActiveOrder => {
                if self.non_active_remaining.len() > 1 {
                    Some(self.non_active_remaining.as_slice())
                } else {
                    None
                }
            },
            TriggerOrderStage::Resolve => None,
        }
    }

    /// Commits `source_instance_id` as the deciding player's next trigger.
    pub fn commit(&mut self, source_instance_id: &IdentityHash) -> (r: Result<(), GameError>)
        ensures
            r is Ok <==> commit_spec(old(self)@, source_instance_id@) is Some,
            r is Ok ==> final(self)@ == commit_spec(old(self)@, source_instance_id@)->0,
            r is Err ==> final(self)@ == old(self)@ && r == Err::<(), GameError>(
                GameError::IllegalAction,
            ),
    {
        let ghost before = self@;
        let active_stage = self.stage == TriggerOrderStage::ActiveOrder;
        if !active_stage && self.stage != TriggerOrderStage::NonActiveOrder {
            return Err(GameError::IllegalAction);
        }
        let index = if active_stage {
            if self.active_remaining.len() < 2 {
                return Err(GameError::IllegalAction);
            }
            match find_source(&self.active_remaining, source_instance_id) {
                Some(i) => i,
                None => return Err(GameError::IllegalAction),
            }
        } else {
            if self.non_active_remaining.len() < 2 {
                return Err(GameError::IllegalAction);
            }
            match find_source(&self.non_active_remaining, source_instance_id) {
                Some(i) => i,
                None => return Err(GameError::IllegalAction),
            }
        };
        let remaining_len = if active_stage {
            let chosen = self.active_remaining.remove(index);
            self.active_order.push(chosen);
            if self.active_remaining.len() == 1 {
                let last = self.active_remaining.remove(0);
                self.active_order.push(last);
            }
            self.active_remaining.len()
        } else {
            let chosen = self.non_active_remaining.remove(index);
            self.non_active_order.push(chosen);
            if self.non_active_remaining.len() == 1 {
                let last = self.non_active_remaining.remove(0);
                self.non_active_order.push(last);
            }
            self.non_active_remaining.len()
        };
        proof {
            let spec_remaining = if active_stage {
                before.active_remaining
            } else {
                before.non_active_remaining
            };
            let spec_committed = if active_stage {
                before.active_order
            } else {
                before.non_active_order
            };
            let (c, rr) = commit_side(spec_committed, spec_remaining, index as int);
            if active_stage {
                assert(self.active_order@ =~= c);
                assert(self.active_remaining@ =~= rr);
            } else {
                assert(self.non_active_order@ =~= c);
                assert(self.non_active_remaining@ =~= rr);
            }
        }
        if remaining_len > 1 {
            return Ok(());
        }
        if active_stage && self.non_active_remaining.len() > 1 {
            self.stage = TriggerOrderStage::NonActiveOrder;
            return Ok(());
        }
        self.start_resolving();
        Ok(())
    }
}

} // verus!
