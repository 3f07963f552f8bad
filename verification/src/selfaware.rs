//! An agent together with its policy, and the two phases of its tick.

use vstd::prelude::*;

use crate::creatures::{slide_length, PsOffsetProvider, RoutingView, SelfMovingThingData};
use crate::entity::Entity;
use crate::mental::{Brains, IntentionCompleted};
use crate::messaging::Communicator;
use crate::position::{Offset, Ps};
use crate::routine::Routine;
use crate::pursuit::{moved, next_is_blocked, occupancy_moved, takes_step};
use crate::sanity::{is_thought, Sanity};
use crate::state::Reality;

verus! {

/// An agent and the policy that decides what it takes up.
///
/// `last_result` is the outcome of the agent's last goal phase; it is what
/// the policy gets to see in the next tick.
#[derive(Debug)]
pub struct SelfAware<T: Routine> {
    pub routine: T,
    pub sanity: Sanity,
    pub last_result: IntentionCompleted,
}

/// The routing state `v` after `dt` milliseconds of sliding.
pub open spec fn slid_on(v: RoutingView, dt: u32) -> RoutingView {
    RoutingView {
        movement: SelfMovingThingData {
            loc: v.movement.loc.slide(slide_length(v.movement.speed, dt)),
            speed: v.movement.speed,
        },
        ..v
    }
}

/// What the thinking part of a tick of `dt` milliseconds does to the agent
/// `entity` and to the world.
///
/// The agent slides on, if it is in the middle of a step; it does not
/// leave its cell. Its policy then has its turn, with the outcome of the last
/// goal phase, and leaves the agent with the mind `decided`. An agent that is
/// still in the middle of a step keeps that mind; one that is at rest works
/// on its current goal with it, as `is_thought` says. The grid, the clock and
/// the map of who stands where stay as they are.
pub open spec fn is_think<T: Routine>(
    before: SelfAware<T>,
    world: Reality,
    after: SelfAware<T>,
    world_after: Reality,
    r: IntentionCompleted,
    entity: Entity,
    communication: Communicator,
    dt: u32,
) -> bool {
    let slid = slid_on(before.sanity.mv@, dt);
    &&& world_after.cellmap == world.cellmap
    &&& world_after.time == world.time
    &&& world_after.comm_map == world.comm_map
    &&& after.last_result == r
    &&& after.sanity.mv@.pos() == before.sanity.mv@.pos()
    &&& exists|decided: Brains|
        {
            &&& decided.wf()
            &&& decided.mem == before.sanity.mind.mem
            &&& #[trigger] before.routine.decides(
                &after.routine,
                before.sanity.mind,
                decided,
                before.last_result,
                before.sanity.mv@.pos(),
                before.sanity.carrier@,
                &world,
                &communication,
            )
            &&& if slid.movement.loc.direction is Some {
                &&& r == IntentionCompleted::Pending
                &&& after.sanity.mv@ == slid
                &&& after.sanity.mind == decided
                &&& after.sanity.carrier@ == before.sanity.carrier@
                &&& world_after.carriables.items@ == world.carriables.items@
                &&& world_after.interactive.items@ == world.interactive.items@
            } else {
                is_thought(
                    slid,
                    decided,
                    before.sanity.carrier@,
                    world,
                    after.sanity.mv@,
                    after.sanity.mind,
                    after.sanity.carrier@,
                    world_after,
                    r,
                    entity,
                )
            }
        }
}

/// What the acting part of a tick does to an agent and to the world.
///
/// Every item that the agent carries is moved to where the agent is, and
/// an identifier that the registry no longer knows leaves the holdings. An
/// agent in the middle of a step takes no new step. An agent at rest takes
/// the next step of its path, as `moved` says, and the occupancy of the grid
/// follows it; it never steps onto a cell that is not free. `r` says whether
/// the agent thereby stands on its target.
pub open spec fn is_step<T: Routine>(
    before: SelfAware<T>,
    world: Reality,
    after: SelfAware<T>,
    world_after: Reality,
    r: bool,
) -> bool {
    let v = before.sanity.mv@;
    &&& world_after.cellmap.contains(after.sanity.mv@.pos())
    &&& world_after.cellmap.same_terrain(&world.cellmap)
    &&& world_after.time == world.time
    &&& world_after.interactive == world.interactive
    &&& world_after.comm_map == world.comm_map
    &&& world_after.carriables.same_ids(&world.carriables)
    &&& forall|i: int|
        0 <= i < world.carriables.items.len() ==> #[trigger] world_after.carriables.items[i]
            == if before.sanity.carrier@.contains(world.carriables.items[i].item_id) {
            world.carriables.items[i].carried_to(v.pos(), v.movement.loc.offset)
        } else {
            world.carriables.items[i]
        }
    &&& after.sanity.mind == before.sanity.mind
    &&& after.last_result == before.last_result
    &&& forall|e: Entity| #[trigger]
        after.sanity.carrier@.contains(e) <==> before.sanity.carrier@.contains(e)
            && world.carriables.has(e)
    &&& v.movement.loc.direction is Some ==> {
        &&& !r
        &&& after.sanity.mv@ == v
        &&& world_after.cellmap == world.cellmap
    }
    &&& v.movement.loc.direction is None ==> {
        &&& after.sanity.mv@ == moved(v, &world.cellmap)
        &&& r == (!next_is_blocked(v, &world.cellmap) && takes_step(v)
            && v.step_taken().at_destination())
        &&& occupancy_moved(&world.cellmap, &world_after.cellmap, v.pos(), after.sanity.mv@.pos())
        &&& after.sanity.mv@.pos() != v.pos() ==> world.cellmap.free(after.sanity.mv@.pos(), true)
    }
}

impl<T: Routine> SelfAware<T> {
    /// An agent at rest on `pos` that follows the policy `routine`. `speed`
    /// is in thousandths of a cell per second.
    pub fn new(speed: u32, pos: Ps, routine: T) -> (r: Self)
        ensures
            r.sanity.wf(),
            r.sanity.fresh(speed, pos),
            r.routine == routine,
            r.last_result == IntentionCompleted::Undefined,
    {
        SelfAware {
            routine,
            sanity: Sanity::new(speed, pos),
            last_result: IntentionCompleted::Undefined,
        }
    }

    /// The policy phase of a tick: the policy sees how the last goal phase
    /// ended and may announce goals. What it does with itself and with the
    /// agent's mind is what its `decides` says; where the agent stands and
    /// what it carries stay as they are.
    pub fn think_routine_level(
        &mut self,
        result: IntentionCompleted,
        map: &Reality,
        entity: Entity,
        communication: &Communicator,
        dt: u32,
    )
        requires
            old(self).sanity.wf(),
            map.wf(),
        ensures
            final(self).sanity.wf(),
            final(self).sanity.mv == old(self).sanity.mv,
            final(self).sanity.carrier == old(self).sanity.carrier,
            final(self).sanity.mind.mem == old(self).sanity.mind.mem,
            final(self).last_result == old(self).last_result,
            old(self).routine.decides(
                &final(self).routine,
                old(self).sanity.mind,
                final(self).sanity.mind,
                result,
                old(self).sanity.mv@.pos(),
                old(self).sanity.carrier@,
                map,
                communication,
            ),
    {
        self.routine.get_processing_fn(&mut self.sanity, result, map, entity, communication, dt)
    }

    /// The thinking part of a tick of `dt` milliseconds, which touches
    /// nothing of the grid: an agent in the middle of a step slides on; the
    /// policy sees the outcome of the last goal phase; and an agent that is
    /// at rest then works on its current goal. Returns the outcome of this
    /// goal phase, which is also kept for the next tick.
    pub fn think(
        &mut self,
        entity: Entity,
        reality: &mut Reality,
        communication: &Communicator,
        dt: u32,
    ) -> (r: IntentionCompleted)
        requires
            old(self).sanity.wf(),
            old(reality).wf(),
        ensures
            final(self).sanity.wf(),
            final(reality).wf(),
            is_think(
                *old(self),
                *old(reality),
                *final(self),
                *final(reality),
                r,
                entity,
                *communication,
                dt,
            ),
    {
        self.sanity.move_direction_if_can(dt);
        let last: IntentionCompleted = self.last_result;
        self.think_routine_level(last, reality, entity, communication, dt);
        let ghost decided = self.sanity.mind;
        let result = self.sanity.think_intention_level_if_not_moving(entity, reality);
        self.last_result = result;
        assert(old(self).routine.decides(
            &self.routine,
            old(self).sanity.mind,
            decided,
            old(self).last_result,
            old(self).sanity.mv@.pos(),
            old(self).sanity.carrier@,
            &*old(reality),
            communication,
        ));
        result
    }

    /// The acting part of a tick, to be run for one agent after the other:
    /// what the agent carries is moved to where the agent is, and an agent
    /// at rest takes the next step of its path, unless that step leads to a
    /// cell that is not free now. Returns whether the agent thereby stands on
    /// its target.
    pub fn step(&mut self, reality: &mut Reality) -> (r: bool)
        requires
            old(self).sanity.wf(),
            old(reality).wf(),
            old(reality).cellmap.contains(old(self).sanity.mv@.pos()),
        ensures
            final(self).sanity.wf(),
            final(reality).wf(),
            is_step(*old(self), *old(reality), *final(self), *final(reality), r),
    {
        if self.sanity.carrier.has_anything() {
            let ps_offset = self.sanity.mv.as_ps_offset_container();
            self.sanity.carrier.update_positions(&mut reality.carriables, &ps_offset);
        }
        assert forall|e: Entity| #[trigger]
            self.sanity.carrier@.contains(e) <==> old(self).sanity.carrier@.contains(e)
                && old(reality).carriables.has(e) by {}
        self.sanity.think_movement_level_if_not_moving(&mut reality.cellmap)
    }

    /// One whole tick of `dt` milliseconds for an agent that has the world
    /// to itself: it thinks, then it acts. Returns the outcome of the goal
    /// phase.
    ///
    /// Where several agents share a world, all of them are to think before
    /// the first of them acts; `think` and `step` are there for that.
    pub fn tick(
        &mut self,
        entity: Entity,
        reality: &mut Reality,
        communication: &Communicator,
        dt: u32,
    ) -> (r: IntentionCompleted)
        requires
            old(self).sanity.wf(),
            old(reality).wf(),
            old(reality).cellmap.contains(old(self).sanity.mv@.pos()),
        ensures
            final(self).sanity.wf(),
            final(reality).wf(),
            final(reality).cellmap.contains(final(self).sanity.mv@.pos()),
            exists|thought: SelfAware<T>, world: Reality, reached: bool|
                {
                    &&& #[trigger] is_think(
                        *old(self),
                        *old(reality),
                        thought,
                        world,
                        r,
                        entity,
                        *communication,
                        dt,
                    )
                    &&& #[trigger] is_step(thought, world, *final(self), *final(reality), reached)
                },
    {
        let result = self.think(entity, reality, communication, dt);
        let ghost thought = *self;
        let ghost world = *reality;
        let reached = self.step(reality);
        assert(is_step(thought, world, *self, *reality, reached));
        result
    }
}

impl<T: Routine> PsOffsetProvider for SelfAware<T> {
    open spec fn ps(&self) -> Ps {
        self.sanity.mv@.pos()
    }

    open spec fn offset_in_cell(&self) -> Offset {
        self.sanity.mv@.movement.loc.offset
    }

    fn get_ps(&self) -> (r: Ps) {
        self.sanity.mv.get_ps()
    }

    fn get_offset(&self) -> (r: Offset) {
        self.sanity.mv.get_offset()
    }
}

} // verus!
