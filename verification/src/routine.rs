//! Policies: what an agent takes up next when its last goal has ended.
//!
//! A policy is asked once per tick, with the outcome of the goal phase. It
//! only ever announces goals; it never moves the agent or touches what the
//! agent carries.

use vstd::prelude::*;

use crate::carriablesearch::{find_closest_available_with_type, is_closest};
use crate::entity::Entity;
use crate::mental::{Brains, Intention, IntentionClass, IntentionCompleted, PRIORITY_BASE};
use crate::messaging::Communicator;
use crate::position::{Ps, PsProvider, PsSigned};
use crate::random::random_below;
use crate::routing::SUCCESSORS;
use crate::sanity::Sanity;
use crate::state::Reality;
use crate::worldmap::Cellmap;

verus! {

/// How long an agent waits when its random step is blocked, in think ticks.
pub const BLOCKED_STEP_WAIT: isize = 10;

/// The priority with which a hunter walks to its prey ...
pub const HUNT_WALK_PRIORITY: i32 = 2;

/// ... and the priority with which it then takes it.
pub const HUNT_TAKE_PRIORITY: i32 = 1;

/// The mind `after` is `before` with the goal `value` announced at
/// `priority`.
pub open spec fn announced(
    before: Brains,
    after: Brains,
    priority: i32,
    value: IntentionClass,
) -> bool {
    &&& after.intentions@ == before.intentions@.intended(Intention { priority, value })
    &&& after.mem == before.mem
    &&& after.cycles_counter == before.cycles_counter
    &&& after.time_reference == before.time_reference
}

/// The mind `after` is `before` with a wait of `cycles` think ticks
/// announced at `priority`, and started.
pub open spec fn waiting(before: Brains, after: Brains, cycles: isize, priority: i32) -> bool {
    &&& after.intentions@ == before.intentions@.intended(
        Intention { priority, value: IntentionClass::WaitCycles(cycles) },
    )
    &&& after.mem == before.mem
    &&& after.cycles_counter == cycles
    &&& after.time_reference == before.time_reference
}

/// The mind `after` is `before` after a step to the `k`-th neighbour of
/// `at` was considered: the goal of walking there is announced if the cell
/// can be entered now, and a short wait otherwise.
pub open spec fn is_step_to(
    before: Brains,
    after: Brains,
    at: Ps,
    cellmap: &Cellmap,
    k: int,
) -> bool {
    match at.forward_by(PsSigned { x: SUCCESSORS[k].0, y: SUCCESSORS[k].1 }) {
        Some(cell) if cellmap.free(cell, true) => announced(
            before,
            after,
            0,
            IntentionClass::MoveToPs(cell),
        ),
        _ => waiting(before, after, BLOCKED_STEP_WAIT, PRIORITY_BASE),
    }
}

/// The mind `after` is `before` after a step to one of the four
/// neighbours of `at` was considered.
pub open spec fn is_random_step(before: Brains, after: Brains, at: Ps, cellmap: &Cellmap) -> bool {
    exists|k: int| 0 <= k < 4 && #[trigger] is_step_to(before, after, at, cellmap, k)
}

/// The mind `after` is `before` with the goal announced of walking onto
/// some cell that is free now; where the grid has no such cell, nothing is
/// announced.
pub open spec fn is_random_walk(before: Brains, after: Brains, cellmap: &Cellmap) -> bool {
    if forall|p: Ps| !cellmap.free(p, true) {
        after == before
    } else {
        exists|cell: Ps|
            #[trigger] cellmap.free(cell, true) && announced(
                before,
                after,
                0,
                IntentionClass::MoveToPs(cell),
            )
    }
}

/// A policy. `result` is the outcome of the goal phase; `dt` is the length
/// of the tick in milliseconds.
pub trait Routine {
    /// What one turn of the policy does: asked with the outcome `result`,
    /// for an agent that stands on `at` with `holdings` in its hands and
    /// `mind` in its head, the policy `self` becomes `after` and leaves the
    /// agent with the mind `decided`. `communication` is what the agent can
    /// look around with.
    spec fn decides(
        &self,
        after: &Self,
        mind: Brains,
        decided: Brains,
        result: IntentionCompleted,
        at: Ps,
        holdings: Set<Entity>,
        map: &Reality,
        communication: &Communicator,
    ) -> bool;

    fn get_processing_fn(
        &mut self,
        sane: &mut Sanity,
        result: IntentionCompleted,
        map: &Reality,
        entity: Entity,
        communication: &Communicator,
        dt: u32,
    )
        requires
            old(sane).wf(),
            map.wf(),
        ensures
            final(sane).wf(),
            final(sane).mv == old(sane).mv,
            final(sane).carrier == old(sane).carrier,
            final(sane).mind.mem == old(sane).mind.mem,
            old(self).decides(
                final(self),
                old(sane).mind,
                final(sane).mind,
                result,
                old(sane).mv@.pos(),
                old(sane).carrier@,
                map,
                communication,
            ),
    ;
}

/// The policy of an agent that never takes anything up by itself.
#[derive(Debug)]
pub struct NoRoutine;

impl Routine for NoRoutine {
    /// The mind stays as it is.
    open spec fn decides(
        &self,
        after: &Self,
        mind: Brains,
        decided: Brains,
        result: IntentionCompleted,
        at: Ps,
        holdings: Set<Entity>,
        map: &Reality,
        communication: &Communicator,
    ) -> bool {
        decided == mind
    }

    fn get_processing_fn(
        &mut self,
        sane: &mut Sanity,
        result: IntentionCompleted,
        map: &Reality,
        entity: Entity,
        communication: &Communicator,
        dt: u32,
    )
        ensures
            *final(sane) == *old(sane),
    {
    }
}

/// The mark of an agent that is to walk to random free cells.
#[derive(Debug)]
pub struct GoToRandomFreePsRoutine;

/// The policy of an agent that takes single steps in random directions.
#[derive(Debug, Clone, Copy)]
pub struct RandomStepRoutine;

/// What `RandomStepRoutine` does with the mind of an agent on `at`: an
/// agent that has no goal, and whose goal phase did not end `Pending`,
/// considers a step to a random neighbour.
pub open spec fn is_random_step_policy(
    before: Brains,
    after: Brains,
    result: IntentionCompleted,
    at: Ps,
    cellmap: &Cellmap,
) -> bool {
    if result != IntentionCompleted::Pending && before.intentions@.count() == 0 {
        is_random_step(before, after, at, cellmap)
    } else {
        after == before
    }
}

impl Routine for RandomStepRoutine {
    open spec fn decides(
        &self,
        after: &Self,
        mind: Brains,
        decided: Brains,
        result: IntentionCompleted,
        at: Ps,
        holdings: Set<Entity>,
        map: &Reality,
        communication: &Communicator,
    ) -> bool {
        is_random_step_policy(mind, decided, result, at, &map.cellmap)
    }

    fn get_processing_fn(
        &mut self,
        sane: &mut Sanity,
        result: IntentionCompleted,
        map: &Reality,
        entity: Entity,
        communication: &Communicator,
        dt: u32,
    )
        ensures
            is_random_step_policy(
                old(sane).mind,
                final(sane).mind,
                result,
                old(sane).mv@.pos(),
                &map.cellmap,
            ),
    {
        match result {
            IntentionCompleted::Success
            | IntentionCompleted::Failure
            | IntentionCompleted::Undefined => {
                if sane.no_intentions_left() {
                    let k: usize = random_below(4);
                    let succ = PsSigned { x: SUCCESSORS[k].0, y: SUCCESSORS[k].1 };
                    let here: Ps = sane.get_current_ps();
                    let free_cell: Option<Ps> = match here.plus(succ) {
                        Some(cell) => if map.cellmap.is_free(&cell, true) {
                            Some(cell)
                        } else {
                            None
                        },
                        None => None,
                    };
                    match free_cell {
                        Some(cell) => {
                            sane.intend_go_to(cell);
                        },
                        None => {
                            sane.mind.intend_cycles_count(BLOCKED_STEP_WAIT, PRIORITY_BASE);
                        },
                    }
                    assert(is_step_to(
                        old(sane).mind,
                        sane.mind,
                        old(sane).mv@.pos(),
                        &map.cellmap,
                        k as int,
                    ));
                }
            },
            IntentionCompleted::Pending => (),
        }
    }
}

/// The policy of an agent that walks to random free cells.
#[derive(Debug, Clone, Copy)]
pub struct RandomWalkRoutine;

/// What `RandomWalkRoutine` does with the mind of an agent on `at`: after
/// a success, or without a goal phase to speak of, an agent that has no
/// goal takes up a walk to a random free cell; after a failure it falls back
/// to a random step.
pub open spec fn is_random_walk_policy(
    before: Brains,
    after: Brains,
    result: IntentionCompleted,
    at: Ps,
    cellmap: &Cellmap,
) -> bool {
    match result {
        IntentionCompleted::Success | IntentionCompleted::Undefined => if before.intentions@.count()
            == 0 {
            is_random_walk(before, after, cellmap)
        } else {
            after == before
        },
        IntentionCompleted::Pending => after == before,
        IntentionCompleted::Failure => is_random_step_policy(before, after, result, at, cellmap),
    }
}

impl Routine for RandomWalkRoutine {
    open spec fn decides(
        &self,
        after: &Self,
        mind: Brains,
        decided: Brains,
        result: IntentionCompleted,
        at: Ps,
        holdings: Set<Entity>,
        map: &Reality,
        communication: &Communicator,
    ) -> bool {
        is_random_walk_policy(mind, decided, result, at, &map.cellmap)
    }

    fn get_processing_fn(
        &mut self,
        sane: &mut Sanity,
        result: IntentionCompleted,
        map: &Reality,
        entity: Entity,
        communication: &Communicator,
        dt: u32,
    )
        ensures
            is_random_walk_policy(
                old(sane).mind,
                final(sane).mind,
                result,
                old(sane).mv@.pos(),
                &map.cellmap,
            ),
    {
        match result {
            IntentionCompleted::Success | IntentionCompleted::Undefined => {
                if sane.no_intentions_left() {
                    match map.cellmap.pick_random_passable_ps() {
                        Some(cell) => {
                            sane.intend_go_to(cell);
                            assert(map.cellmap.free(cell, true));
                        },
                        None => {},
                    }
                }
            },
            IntentionCompleted::Pending => (),
            IntentionCompleted::Failure => {
                let mut mov = RandomStepRoutine;
                mov.get_processing_fn(sane, result, map, entity, communication, dt);
            },
        }
    }
}

/// The policy of an agent that walks to one cell, again and again.
#[derive(Debug, Clone, Copy)]
pub struct GoToRoutine {
    pub target: Ps,
}

/// What `GoToRoutine` does with the mind of an agent on `at`: after a
/// success, or without a goal phase to speak of, an agent that has no goal
/// takes up the walk onto `target`; after a failure it falls back to a
/// random step.
pub open spec fn is_go_to_policy(
    before: Brains,
    after: Brains,
    result: IntentionCompleted,
    at: Ps,
    target: Ps,
    cellmap: &Cellmap,
) -> bool {
    match result {
        IntentionCompleted::Success | IntentionCompleted::Undefined => if before.intentions@.count()
            == 0 {
            announced(before, after, 0, IntentionClass::MoveToPs(target))
        } else {
            after == before
        },
        IntentionCompleted::Pending => after == before,
        IntentionCompleted::Failure => is_random_step_policy(before, after, result, at, cellmap),
    }
}

impl Routine for GoToRoutine {
    /// The target stays the same.
    open spec fn decides(
        &self,
        after: &Self,
        mind: Brains,
        decided: Brains,
        result: IntentionCompleted,
        at: Ps,
        holdings: Set<Entity>,
        map: &Reality,
        communication: &Communicator,
    ) -> bool {
        &&& after.target == self.target
        &&& is_go_to_policy(mind, decided, result, at, self.target, &map.cellmap)
    }

    fn get_processing_fn(
        &mut self,
        sane: &mut Sanity,
        result: IntentionCompleted,
        map: &Reality,
        entity: Entity,
        communication: &Communicator,
        dt: u32,
    )
        ensures
            final(self).target == old(self).target,
            is_go_to_policy(
                old(sane).mind,
                final(sane).mind,
                result,
                old(sane).mv@.pos(),
                old(self).target,
                &map.cellmap,
            ),
    {
        match result {
            IntentionCompleted::Success | IntentionCompleted::Undefined => {
                if sane.no_intentions_left() {
                    sane.intend_go_to(self.target)
                }
            },
            IntentionCompleted::Pending => (),
            IntentionCompleted::Failure => {
                let mut mov = RandomStepRoutine;
                mov.get_processing_fn(sane, result, map, entity, communication, dt);
            },
        }
    }
}

/// The policy of an agent that goes after items of one type, to pick them
/// up or to consume them on the spot.
#[derive(Debug, Clone, Copy)]
pub struct EntityTypeHunter {
    pub item_type: &'static str,
    pub pick: bool,
}

/// What an `EntityTypeHunter` for `item_type` does with the mind of an
/// agent on `at`.
///
/// Unless the goal phase ended `Pending`, the hunter looks for the nearest
/// item of its type that can be taken. With one in sight, an agent without a
/// goal takes up the walk onto the item's cell, at `HUNT_WALK_PRIORITY`, and
/// behind it the goal of taking the item (to pick it up if `pick`, else to
/// consume it), at `HUNT_TAKE_PRIORITY`. With none in sight the agent does
/// what `RandomWalkRoutine` does.
pub open spec fn is_hunter_policy(
    before: Brains,
    after: Brains,
    result: IntentionCompleted,
    at: Ps,
    item_type: &'static str,
    pick: bool,
    map: &Reality,
) -> bool {
    let items = map.carriables.items@;
    if result == IntentionCompleted::Pending {
        after == before
    } else if exists|i: int| is_closest(items, Some(item_type), at, i) {
        if before.intentions@.count() == 0 {
            exists|i: int|
                {
                    &&& #[trigger] is_closest(items, Some(item_type), at, i)
                    &&& after.intentions@ == before.intentions@.intended(
                        Intention {
                            priority: HUNT_WALK_PRIORITY,
                            value: IntentionClass::MoveToPs(items[i].position),
                        },
                    ).intended(
                        Intention {
                            priority: HUNT_TAKE_PRIORITY,
                            value: if pick {
                                IntentionClass::PickItemOfType(item_type)
                            } else {
                                IntentionClass::ConsumeItemOfType(item_type)
                            },
                        },
                    )
                    &&& after.mem == before.mem
                    &&& after.cycles_counter == before.cycles_counter
                    &&& after.time_reference == before.time_reference
                }
        } else {
            after == before
        }
    } else {
        is_random_walk_policy(before, after, result, at, &map.cellmap)
    }
}

impl EntityTypeHunter {
    pub fn new(item_type: &'static str, pick: bool) -> (r: EntityTypeHunter)
        ensures
            r.item_type == item_type,
            r.pick == pick,
    {
        EntityTypeHunter { item_type, pick }
    }
}

impl Routine for EntityTypeHunter {
    /// What is hunted, and what for, stays the same.
    open spec fn decides(
        &self,
        after: &Self,
        mind: Brains,
        decided: Brains,
        result: IntentionCompleted,
        at: Ps,
        holdings: Set<Entity>,
        map: &Reality,
        communication: &Communicator,
    ) -> bool {
        &&& after.item_type == self.item_type
        &&& after.pick == self.pick
        &&& is_hunter_policy(mind, decided, result, at, self.item_type, self.pick, map)
    }

    fn get_processing_fn(
        &mut self,
        sane: &mut Sanity,
        result: IntentionCompleted,
        map: &Reality,
        entity: Entity,
        communication: &Communicator,
        dt: u32,
    )
        ensures
            final(self).item_type == old(self).item_type,
            final(self).pick == old(self).pick,
            is_hunter_policy(
                old(sane).mind,
                final(sane).mind,
                result,
                old(sane).mv@.pos(),
                old(self).item_type,
                old(self).pick,
                map,
            ),
    {
        match result {
            IntentionCompleted::Success
            | IntentionCompleted::Failure
            | IntentionCompleted::Undefined => {
                let target_opt = find_closest_available_with_type(
                    &map.carriables,
                    Some(self.item_type),
                    sane.get_current_ps(),
                );
                match target_opt {
                    Some(target) => {
                        if sane.no_intentions_left() {
                            sane.intend_with_priority(
                                HUNT_WALK_PRIORITY,
                                IntentionClass::MoveToPs(target.position),
                            );
                            sane.intend_with_priority(
                                HUNT_TAKE_PRIORITY,
                                if self.pick {
                                    IntentionClass::PickItemOfType(self.item_type)
                                } else {
                                    IntentionClass::ConsumeItemOfType(self.item_type)
                                },
                            )
                        }
                    },
                    None => {
                        proof {
                            assert forall|i: int|
                                !is_closest(
                                    map.carriables.items@,
                                    Some(self.item_type),
                                    sane.mv@.pos(),
                                    i,
                                ) by {}
                        }
                        let mut rand = RandomWalkRoutine;
                        rand.get_processing_fn(sane, result, map, entity, communication, dt);
                    },
                }
            },
            IntentionCompleted::Pending => (),
        }
    }
}

} // verus!
