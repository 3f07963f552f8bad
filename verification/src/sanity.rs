//! The agent itself: a mind that holds goals, a body that walks, and hands
//! that carry. Each tick an agent thinks about its current goal and then
//! takes at most one step.

use vstd::prelude::*;

use crate::carriableitem::CarriableItems;
use crate::carrier::Carrier;
use crate::creatures::{
    chained, lemma_chained_connected, slide_length, validate_path, Direction, RoutingView,
    SelfMovingThingData, SelfRoutingData,
};
use crate::dealings::{
    claimed_at, goal_closed_with, is_claim, is_consume, is_held, is_let_go, is_pick, is_release,
    is_use_tick, lemma_update_keeps_ids, lies_ready, stands_at,
};
use crate::entity::{passes_type_filter, Entity};
use crate::gametime::{Time, TimeSpan};
use crate::interactive::InteractiveObjects;
use crate::mental::{Brains, Intention, IntentionClass, IntentionCompleted};
use crate::position::{Ps, PsProvider};
use crate::pursuit::{
    budget_fits, can_detour, can_detour_any, can_replan, cooling_down, detour_goal, goal_closed,
    is_destination_tick, is_detour, is_detour_to, is_first_detour, is_fresh_plan, is_plan,
    is_plan_near, is_repair, is_replan, lemma_plan_on_track, lemma_splice_connected, moved,
    neighbour_inside, next_is_blocked, next_step_valid, occupancy_moved, reachable_near, takes_step,
    COOLDOWN_LOW, COOLDOWN_SPREAD, DETOURS, UNSTUCK_PRIORITY,
};
use crate::random::{choose_one, random_below};
use crate::routing::{
    end_of, is_route, is_shortest, no_route, step_allowed, try_find_route_from_to, PathfindPoint,
};
use crate::state::Reality;
use crate::worldmap::Cellmap;

verus! {

/// What walks by routes: it can be sent to a cell, or next to one.
pub trait PathfindRouter: PsProvider {
    /// The routing state.
    spec fn routing(&self) -> RoutingView;

    /// Starts to follow `steps` towards `target`. The steps are taken as
    /// they are; where they do not share edges all the way, the first jump
    /// is returned, as `validate_path` finds it.
    fn follow_steps(&mut self, target: Ps, steps: Vec<Ps>) -> (defect: Option<(Ps, Ps, usize)>)
        ensures
            final(self).routing().movement == old(self).routing().movement,
            final(self).routing().target == Some(target),
            final(self).routing().steps == steps@,
            !final(self).routing().stuck,
            !final(self).routing().reached_cell,
            budget_fits(final(self).routing()),
            defect is None <==> chained(steps@),
            defect is None && (steps.len() > 0 ==> old(self).routing().pos().adjacent(steps[0]))
                ==> final(self).routing().on_track(),
    ;

    /// Plans a shortest route onto `target` over cells that are free now.
    /// Returns `false`, and changes nothing, where there is none.
    fn move_to_ps(&mut self, cellmap: &Cellmap, target: Ps) -> (r: bool)
        requires
            cellmap.wf(),
        ensures
            r <==> !no_route(cellmap, true, old(self).routing().pos(), target),
            r ==> is_plan(old(self).routing(), final(self).routing(), cellmap, target),
            r ==> final(self).routing().on_track(),
            !r ==> final(self).routing() == old(self).routing(),
    ;

    /// Plans a shortest route onto one of the free cells next to `target`,
    /// picked at random among those that can be reached. Returns `false`, and
    /// changes nothing, where there is none.
    fn move_around_ps(&mut self, cellmap: &Cellmap, target: Ps) -> (r: bool)
        requires
            cellmap.wf(),
        ensures
            r <==> reachable_near(cellmap, old(self).routing().pos(), target),
            r ==> is_plan_near(old(self).routing(), final(self).routing(), cellmap, target),
            r ==> final(self).routing().on_track(),
            !r ==> final(self).routing() == old(self).routing(),
    ;

    /// Plans a route onto `target` or, failing that, next to it.
    fn move_to_ps_or_around_1(&mut self, cellmap: &Cellmap, target: Ps) -> (r: bool)
        requires
            cellmap.wf(),
        ensures
            r <==> !no_route(cellmap, true, old(self).routing().pos(), target) || reachable_near(
                cellmap,
                old(self).routing().pos(),
                target,
            ),
            !no_route(cellmap, true, old(self).routing().pos(), target) ==> is_plan(
                old(self).routing(),
                final(self).routing(),
                cellmap,
                target,
            ),
            r && no_route(cellmap, true, old(self).routing().pos(), target) ==> is_plan_near(
                old(self).routing(),
                final(self).routing(),
                cellmap,
                target,
            ),
            r ==> final(self).routing().on_track(),
            !r ==> final(self).routing() == old(self).routing(),
    ;
}

/// One agent: its mind, its body and what it carries.
#[derive(Debug)]
pub struct Sanity {
    pub mind: Brains,
    pub mv: SelfRoutingData,
    pub carrier: Carrier,
}

/// A copy of `cells`.
fn copy_cells(cells: &Vec<Ps>) -> (r: Vec<Ps>)
    ensures
        r@ == cells@,
{
    let mut copy: Vec<Ps> = Vec::with_capacity(cells.len());
    let mut i: usize = 0;
    while i < cells.len()
        invariant
            i <= cells.len(),
            copy@ == cells@.take(i as int),
        decreases cells.len() - i,
    {
        copy.push(cells[i]);
        assert(cells@.take(i as int).push(cells[i as int]) =~= cells@.take(i + 1));
        i += 1;
    }
    assert(cells@.take(cells.len() as int) =~= cells@);
    copy
}

impl PsProvider for Sanity {
    open spec fn current_ps(&self) -> Ps {
        self.mv@.pos()
    }

    fn get_current_ps(&self) -> (r: Ps) {
        self.mv.get_current_ps()
    }
}

impl PathfindRouter for Sanity {
    open spec fn routing(&self) -> RoutingView {
        self.mv@
    }

    fn follow_steps(&mut self, target: Ps, steps: Vec<Ps>) -> (defect: Option<(Ps, Ps, usize)>)
        ensures
            final(self).mind == old(self).mind,
            final(self).carrier == old(self).carrier,
    {
        let defect = validate_path(&steps);
        proof {
            lemma_chained_connected(self.mv@.pos(), steps@);
        }
        self.mv.set_movement_path(steps, target);
        defect
    }

    fn move_to_ps(&mut self, cellmap: &Cellmap, target: Ps) -> (r: bool)
        ensures
            final(self).mind == old(self).mind,
            final(self).carrier == old(self).carrier,
    {
        let path = try_find_route_from_to(cellmap, true, self.get_current_ps(), target);
        match path {
            Some(p) => {
                assert(is_route(cellmap, true, self.mv@.pos(), target, p@));
                self.follow_steps(target, p);
                proof {
                    lemma_plan_on_track(old(self).mv@, self.mv@, cellmap, target);
                }
                true
            },
            None => false,
        }
    }

    fn move_around_ps(&mut self, cellmap: &Cellmap, target: Ps) -> (r: bool)
        ensures
            final(self).mind == old(self).mind,
            final(self).carrier == old(self).carrier,
    {
        let here: Ps = self.get_current_ps();
        let around = target.successors(cellmap, true);
        let mut routes: Vec<Vec<Ps>> = Vec::new();
        let mut i: usize = 0;
        while i < around.len()
            invariant
                i <= around.len(),
                cellmap.wf(),
                forall|p: Ps| around@.contains(p) <==> step_allowed(cellmap, true, target, p),
                forall|k: int|
                    0 <= k < routes.len() ==> {
                        &&& step_allowed(cellmap, true, target, end_of(here,
                            (#[trigger] routes[k])@))
                        &&& is_route(cellmap, true, here, end_of(here, routes[k]@), routes[k]@)
                        &&& is_shortest(cellmap, true, here, end_of(here, routes[k]@), routes[k]@)
                        &&& !routes[k]@.contains(here)
                    },
                routes.len() == 0 ==> forall|j: int|
                    0 <= j < i ==> no_route(cellmap, true, here, #[trigger] around[j]),
            decreases around.len() - i,
        {
            let tgt: Ps = around[i];
            assert(around@.contains(tgt));
            match try_find_route_from_to(cellmap, true, here, tgt) {
                Some(route) => {
                    assert(is_route(cellmap, true, here, tgt, route@));
                    routes.push(route);
                },
                None => {},
            }
            i += 1;
        }
        match choose_one(&routes) {
            Some(found_path) => {
                let path = copy_cells(found_path);
                let ghost n = end_of(here, path@);
                let goal: Ps = if path.len() > 0 {
                    path[path.len() - 1]
                } else {
                    here
                };
                self.follow_steps(goal, path);
                proof {
                    assert(step_allowed(cellmap, true, target, n));
                    assert(is_plan(old(self).mv@, self.mv@, cellmap, n));
                    lemma_plan_on_track(old(self).mv@, self.mv@, cellmap, n);
                }
                true
            },
            None => {
                proof {
                    assert forall|n: Ps| #[trigger]
                        step_allowed(cellmap, true, target, n) implies no_route(
                        cellmap,
                        true,
                        here,
                        n,
                    ) by {
                        assert(around@.contains(n));
                        let j = choose|j: int| 0 <= j < around.len() && around[j] == n;
                        assert(no_route(cellmap, true, here, around[j]));
                    }
                }
                false
            },
        }
    }

    fn move_to_ps_or_around_1(&mut self, cellmap: &Cellmap, target: Ps) -> (r: bool)
        ensures
            final(self).mind == old(self).mind,
            final(self).carrier == old(self).carrier,
    {
        let first_try = self.move_to_ps(cellmap, target);
        match first_try {
            false => self.move_around_ps(cellmap, target),
            true => true,
        }
    }
}

/// What one tick of thinking about the current goal leads to, for the
/// agent `entity` in the world `world`.
pub open spec fn is_thought(
    mv: RoutingView,
    mind: Brains,
    holdings: Set<Entity>,
    world: Reality,
    mv_after: RoutingView,
    mind_after: Brains,
    holdings_after: Set<Entity>,
    world_after: Reality,
    r: IntentionCompleted,
    entity: Entity,
) -> bool {
    let items = world.carriables.items@;
    let items_after = world_after.carriables.items@;
    let objects = world.interactive.items@;
    let objects_after = world_after.interactive.items@;
    let at = mv.pos();
    match mind.intentions@.current {
        None => {
            &&& r == IntentionCompleted::Undefined
            &&& mv_after == mv
            &&& mind_after == mind
            &&& holdings_after == holdings
            &&& items_after == items
            &&& objects_after == objects
        },
        Some(goal) => match goal.value {
            IntentionClass::MoveToDestination(dest) => {
                &&& is_destination_tick(mv, mind, mv_after, mind_after, r, &world.cellmap, dest,
                    false)
                &&& holdings_after == holdings
                &&& items_after == items
                &&& objects_after == objects
            },
            IntentionClass::MoveToPs(dest) => {
                &&& is_destination_tick(mv, mind, mv_after, mind_after, r, &world.cellmap, dest,
                    true)
                &&& holdings_after == holdings
                &&& items_after == items
                &&& objects_after == objects
            },
            IntentionClass::WaitCycles(_) => {
                &&& if mind.cycles_counter <= 0 {
                    r == IntentionCompleted::Success && goal_closed(mind, mind_after, true)
                } else {
                    r == IntentionCompleted::Undefined && mind_after == (Brains {
                        cycles_counter: (mind.cycles_counter - 1) as isize,
                        ..mind
                    })
                }
                &&& mv_after == mv
                &&& holdings_after == holdings
                &&& items_after == items
                &&& objects_after == objects
            },
            IntentionClass::PickItemOfType(item_type) => {
                &&& is_pick(items, holdings, items_after, holdings_after, r, at, entity,
                    Some(item_type))
                &&& goal_closed_with(mind, mind_after, r)
                &&& mv_after == mv
                &&& objects_after == objects
            },
            IntentionClass::PickAnyItem => {
                &&& is_pick(items, holdings, items_after, holdings_after, r, at, entity, None)
                &&& goal_closed_with(mind, mind_after, r)
                &&& mv_after == mv
                &&& objects_after == objects
            },
            IntentionClass::ConsumeItemOfType(item_type) => {
                &&& is_consume(items, items_after, r, at, Some(item_type))
                &&& goal_closed_with(mind, mind_after, r)
                &&& mv_after == mv
                &&& holdings_after == holdings
                &&& objects_after == objects
            },
            IntentionClass::ConsumeAnyItem => {
                &&& is_consume(items, items_after, r, at, None)
                &&& goal_closed_with(mind, mind_after, r)
                &&& mv_after == mv
                &&& holdings_after == holdings
                &&& objects_after == objects
            },
            IntentionClass::DropCarriedItemOfType(item_type) => {
                &&& is_let_go(items, holdings, items_after, holdings_after, r, Some(item_type),
                    false)
                &&& goal_closed_with(mind, mind_after, r)
                &&& mv_after == mv
                &&& objects_after == objects
            },
            IntentionClass::DropAnyCarriedItem => {
                &&& is_let_go(items, holdings, items_after, holdings_after, r, None, false)
                &&& goal_closed_with(mind, mind_after, r)
                &&& mv_after == mv
                &&& objects_after == objects
            },
            IntentionClass::ConsumeCarriedItemOfType(item_type) => {
                &&& is_let_go(items, holdings, items_after, holdings_after, r, Some(item_type),
                    true)
                &&& goal_closed_with(mind, mind_after, r)
                &&& mv_after == mv
                &&& objects_after == objects
            },
            IntentionClass::ConsumeAnyCarriedItem => {
                &&& is_let_go(items, holdings, items_after, holdings_after, r, None, true)
                &&& goal_closed_with(mind, mind_after, r)
                &&& mv_after == mv
                &&& objects_after == objects
            },
            IntentionClass::UseInteractiveMinutes(minutes) => {
                &&& is_use_tick(
                    mind,
                    objects,
                    world.time,
                    mind_after,
                    objects_after,
                    r,
                    at,
                    entity,
                    minutes,
                )
                &&& mv_after == mv
                &&& holdings_after == holdings
                &&& items_after == items
            },
        },
    }
}

impl Sanity {
    /// The agent's parts are well formed.
    pub open spec fn wf(&self) -> bool {
        self.mind.wf()
    }

    /// An agent that was just made: at rest on `pos`, with a blank mind and
    /// empty hands.
    pub open spec fn fresh(&self, speed: u32, pos: Ps) -> bool {
        &&& self.mv@ == RoutingView::resting(speed, pos)
        &&& self.mind.blank()
        &&& self.carrier@ == Set::<Entity>::empty()
    }

    pub fn new(speed: u32, pos: Ps) -> (r: Sanity)
        ensures
            r.wf(),
            r.fresh(speed, pos),
    {
        Sanity {
            mv: SelfRoutingData::new(speed, pos),
            mind: Brains::new(),
            carrier: Carrier::new(),
        }
    }

    /// Closes the current goal as a success or a failure. Returns `false`
    /// where there was no goal.
    pub fn finish_current_intention(&mut self, success: bool) -> (r: bool)
        ensures
            r == old(self).mind.intentions@.current is Some,
            goal_closed(old(self).mind, final(self).mind, success),
            final(self).mv == old(self).mv,
            final(self).carrier == old(self).carrier,
            old(self).wf() ==> final(self).wf(),
    {
        match *self.mind.intentions.get_current() {
            Some(current) => {
                self.mind.remember_intention_result(current.value, success)
            },
            None => {},
        }
        self.mind.intentions.finish_current()
    }

    /// Closes the current goal with `result`. Only a success or a failure is
    /// noted in the memory; the goal leaves the queue in any case.
    pub fn finish_current_intention_with(&mut self, result: IntentionCompleted) -> (r:
        IntentionCompleted)
        ensures
            r == result,
            result == IntentionCompleted::Success ==> goal_closed(
                old(self).mind,
                final(self).mind,
                true,
            ),
            result == IntentionCompleted::Failure ==> goal_closed(
                old(self).mind,
                final(self).mind,
                false,
            ),
            result != IntentionCompleted::Success && result != IntentionCompleted::Failure ==> {
                &&& final(self).mind.intentions@ == old(self).mind.intentions@.finished()
                &&& final(self).mind.mem == old(self).mind.mem
                &&& final(self).mind.cycles_counter == old(self).mind.cycles_counter
                &&& final(self).mind.time_reference == old(self).mind.time_reference
            },
            final(self).mv == old(self).mv,
            final(self).carrier == old(self).carrier,
            old(self).wf() ==> final(self).wf(),
    {
        match result {
            IntentionCompleted::Success => {
                self.finish_current_intention(true);
            },
            IntentionCompleted::Failure => {
                self.finish_current_intention(false);
            },
            _ => {
                self.mind.intentions.finish_current();
            },
        }
        result
    }

    /// Whether the agent has no goal at all.
    pub fn no_intentions_left(&self) -> (r: bool)
        ensures
            r == (self.mind.intentions@.count() == 0),
    {
        self.mind.intentions.is_idle()
    }

    /// Forgets every goal.
    pub fn reset_intentions(&mut self)
        ensures
            final(self).mind.intentions@.current is None,
            final(self).mind.intentions@.backlog.len() == 0,
            final(self).mind.mem == old(self).mind.mem,
            final(self).mind.cycles_counter == old(self).mind.cycles_counter,
            final(self).mind.time_reference == old(self).mind.time_reference,
            final(self).mv == old(self).mv,
            final(self).carrier == old(self).carrier,
            old(self).wf() ==> final(self).wf(),
    {
        self.mind.intentions.clear_all()
    }

    /// Drops current goals until the current goal is at least as urgent as
    /// `priority`.
    pub fn reset_intentions_lower_than(&mut self, priority: i32)
        requires
            old(self).wf(),
        ensures
            final(self).wf(),
            final(self).mind.intentions@ == old(self).mind.intentions@.cleared_lower_than(priority),
            final(self).mind.mem == old(self).mind.mem,
            final(self).mind.cycles_counter == old(self).mind.cycles_counter,
            final(self).mind.time_reference == old(self).mind.time_reference,
            final(self).mv == old(self).mv,
            final(self).carrier == old(self).carrier,
    {
        self.mind.intentions.clear_lower_than(priority)
    }

    /// Announces the goal `intention` with the given priority.
    pub fn intend_with_priority(&mut self, priority: i32, intention: IntentionClass)
        ensures
            final(self).mind.intentions@ == old(self).mind.intentions@.intended(
                Intention { priority, value: intention },
            ),
            final(self).mind.mem == old(self).mind.mem,
            final(self).mind.cycles_counter == old(self).mind.cycles_counter,
            final(self).mind.time_reference == old(self).mind.time_reference,
            final(self).mv == old(self).mv,
            final(self).carrier == old(self).carrier,
            old(self).wf() ==> final(self).wf(),
    {
        self.mind.intentions.intend(Intention::new(priority, intention))
    }

    /// Announces the goal `intention` and saves the clock reading `time`,
    /// from which a goal that lasts a while counts its minutes.
    pub fn intend_with_priority_timed(
        &mut self,
        priority: i32,
        intention: IntentionClass,
        time: &Time,
    )
        ensures
            final(self).mind.intentions@ == old(self).mind.intentions@.intended(
                Intention { priority, value: intention },
            ),
            final(self).mind.mem == old(self).mind.mem,
            final(self).mind.cycles_counter == old(self).mind.cycles_counter,
            final(self).mind.time_reference == time.snapshot_value(),
            final(self).mv == old(self).mv,
            final(self).carrier == old(self).carrier,
            old(self).wf() && time.wf() ==> final(self).wf(),
    {
        self.mind.save_time(time);
        self.intend_with_priority(priority, intention);
    }

    /// Announces the goal `intention` with priority 0.
    pub fn intend(&mut self, intention: IntentionClass)
        ensures
            final(self).mind.intentions@ == old(self).mind.intentions@.intended(
                Intention { priority: 0, value: intention },
            ),
            final(self).mind.mem == old(self).mind.mem,
            final(self).mind.cycles_counter == old(self).mind.cycles_counter,
            final(self).mind.time_reference == old(self).mind.time_reference,
            final(self).mv == old(self).mv,
            final(self).carrier == old(self).carrier,
            old(self).wf() ==> final(self).wf(),
    {
        self.intend_with_priority(0, intention)
    }

    /// Announces the goal of walking next to `target`, with priority 0.
    pub fn intend_go_to_around(&mut self, target: Ps)
        ensures
            final(self).mind.intentions@ == old(self).mind.intentions@.intended(
                Intention { priority: 0, value: IntentionClass::MoveToDestination(target) },
            ),
            final(self).mind.mem == old(self).mind.mem,
            final(self).mind.cycles_counter == old(self).mind.cycles_counter,
            final(self).mind.time_reference == old(self).mind.time_reference,
            final(self).mv == old(self).mv,
            final(self).carrier == old(self).carrier,
            old(self).wf() ==> final(self).wf(),
    {
        self.intend(IntentionClass::MoveToDestination(target))
    }

    /// Announces the goal of walking onto `target`, with priority 0.
    pub fn intend_go_to(&mut self, target: Ps)
        ensures
            final(self).mind.intentions@ == old(self).mind.intentions@.intended(
                Intention { priority: 0, value: IntentionClass::MoveToPs(target) },
            ),
            final(self).mind.mem == old(self).mind.mem,
            final(self).mind.cycles_counter == old(self).mind.cycles_counter,
            final(self).mind.time_reference == old(self).mind.time_reference,
            final(self).mv == old(self).mv,
            final(self).carrier == old(self).carrier,
            old(self).wf() ==> final(self).wf(),
    {
        self.intend(IntentionClass::MoveToPs(target))
    }

    /// Begins a step in direction `dir` by hand, path or no path, if the
    /// cell in that direction lies inside the grid. Returns whether it did.
    pub fn start_move_direction(&mut self, dir: Direction, cellmap: &Cellmap) -> (r: bool)
        ensures
            r == neighbour_inside(cellmap, old(self).mv@.pos(), dir),
            r ==> final(self).mv@ == (RoutingView {
                movement: SelfMovingThingData {
                    loc: old(self).mv@.movement.loc.begun(dir),
                    speed: old(self).mv@.movement.speed,
                },
                stuck: false,
                ..old(self).mv@
            }) && cellmap.contains(final(self).mv@.pos()),
            !r ==> final(self).mv@ == old(self).mv@,
            final(self).mind == old(self).mind,
            final(self).carrier == old(self).carrier,
    {
        let here: Ps = self.get_current_ps();
        let inside: bool = match dir {
            Direction::Up => here.x < cellmap.width && here.y < usize::MAX && here.y + 1
                < cellmap.height,
            Direction::Down => here.x < cellmap.width && here.y > 0 && here.y - 1 < cellmap.height,
            Direction::Left => here.y < cellmap.height && here.x > 0 && here.x - 1 < cellmap.width,
            Direction::Right => here.y < cellmap.height && here.x < usize::MAX && here.x + 1
                < cellmap.width,
        };
        if inside {
            self.mv.start_move_direction(dir);
        }
        inside
    }

    /// Plans the path anew, from the agent's cell to the target it has.
    /// Returns `false`, and changes nothing, where there is no target or no
    /// route to it.
    pub fn force_recalculate_path_to_target(&mut self, cellmap: &Cellmap) -> (r: bool)
        requires
            cellmap.wf(),
        ensures
            r <==> can_replan(old(self).mv@, cellmap),
            r ==> is_replan(old(self).mv@, final(self).mv@, cellmap),
            !r ==> final(self).mv@ == old(self).mv@,
            final(self).mind == old(self).mind,
            final(self).carrier == old(self).carrier,
    {
        match self.mv.current_move_path.target {
            None => false,
            Some(target) => self.move_to_ps(cellmap, target),
        }
    }

    /// Repairs the path locally: the steps up to the one `detour_dist`
    /// ahead (or up to the last one, on a shorter path) are replaced by a
    /// shortest route to that step over cells that are free now. Returns
    /// `false`, and changes nothing, where the path is empty, the agent
    /// already stands on that step, or no route leads there.
    pub fn try_small_detour(&mut self, cellmap: &Cellmap, detour_dist: usize) -> (r: bool)
        requires
            cellmap.wf(),
            detour_dist >= 1,
        ensures
            r <==> can_detour(old(self).mv@, cellmap, detour_dist),
            r ==> is_detour(old(self).mv@, final(self).mv@, cellmap, detour_dist),
            !r ==> final(self).mv@ == old(self).mv@,
            old(self).mv@.on_track() ==> final(self).mv@.on_track(),
            final(self).mind == old(self).mind,
            final(self).carrier == old(self).carrier,
    {
        match self.mv.peek_close_step_or_final_step(detour_dist) {
            Some((position_target, position_index)) => {
                let here: Ps = self.get_current_ps();
                if position_target.x == here.x && position_target.y == here.y {
                    return false;
                }
                match try_find_route_from_to(cellmap, true, here, position_target) {
                    Some(path) => {
                        let ghost before = self.mv@;
                        self.mv.change_near_movement_path(&path, position_index);
                        proof {
                            assert(self.mv@.steps
                                == path@ + before.steps.skip(position_index as int));
                            assert(is_route(cellmap, true, before.pos(), position_target, path@));
                            assert(is_shortest(cellmap, true, before.pos(), position_target,
                                path@));
                            assert(detour_goal(before, detour_dist) == Some(
                                (position_target, position_index as int),
                            ));
                            assert(is_detour_to(
                                before,
                                self.mv@,
                                cellmap,
                                position_target,
                                position_index as int,
                            ));
                            if before.on_track() {
                                lemma_splice_connected(
                                    before.pos(),
                                    before.steps,
                                    position_index as int,
                                    path@,
                                );
                            }
                        }
                        true
                    },
                    None => false,
                }
            },
            None => false,
        }
    }

    /// Tries a local repair with each reach of `DETOURS` in turn, and stops
    /// at the first that works.
    pub fn try_multiple_detours(&mut self, cellmap: &Cellmap) -> (r: bool)
        requires
            cellmap.wf(),
        ensures
            r <==> can_detour_any(old(self).mv@, cellmap),
            r ==> is_first_detour(old(self).mv@, final(self).mv@, cellmap),
            !r ==> final(self).mv@ == old(self).mv@,
            old(self).mv@.on_track() ==> final(self).mv@.on_track(),
            final(self).mind == old(self).mind,
            final(self).carrier == old(self).carrier,
    {
        let mut k: usize = 0;
        while k < 4
            invariant
                k <= 4,
                cellmap.wf(),
                self.mv@ == old(self).mv@,
                self.mind == old(self).mind,
                self.carrier == old(self).carrier,
                forall|j: int| 0 <= j < k ==> !#[trigger] can_detour(self.mv@, cellmap, DETOURS[j]),
            decreases 4 - k,
        {
            let detour_len: usize = DETOURS[k];
            if self.try_small_detour(cellmap, detour_len) {
                assert(is_detour(old(self).mv@, self.mv@, cellmap, DETOURS[k as int]));
                assert(can_detour(old(self).mv@, cellmap, DETOURS[k as int]));
                return true;
            }
            k += 1;
        }
        false
    }

    /// Whether the next step may be taken: enough of the path must be
    /// trusted, and the next cell, if there is one, must be free.
    pub fn is_next_step_valid(&self, cellmap: &Cellmap) -> (r: bool)
        requires
            cellmap.wf(),
        ensures
            r == next_step_valid(self.mv@, cellmap),
    {
        if self.mv.is_no_reliabler_steps_left() {
            return false;
        }
        match self.mv.peek_next_loc() {
            Some(loc) => cellmap.is_free(&loc, true),
            None => true,
        }
    }

    /// Gives up the path and waits a while, at a priority that beats the
    /// goal that failed to make progress.
    fn cool_down(&mut self)
        ensures
            final(self).mv@ == old(self).mv@.stopped(),
            cooling_down(old(self).mind, final(self).mind),
            final(self).carrier == old(self).carrier,
            old(self).wf() ==> final(self).wf(),
    {
        self.mv.stop_moving();
        let cycles: usize = COOLDOWN_LOW + random_below(COOLDOWN_SPREAD);
        self.mind.intend_cycles_count(cycles as isize, UNSTUCK_PRIORITY)
    }

    /// One tick of thinking about the goal of walking to `dest`: onto it if
    /// `exact`, else next to it.
    ///
    /// An agent without a plan that ends close enough to `dest` makes one;
    /// where none can be made, the goal fails and the agent stops. With a
    /// plan, the goal succeeds once the agent is close enough. Else the next
    /// step is looked at: where it may not be taken, the path is planned
    /// anew or repaired, as `is_repair` says. The goal stays the current one
    /// for as long as the result is `Pending`.
    pub fn process_destination_intention(&mut self, dest: Ps, cellmap: &Cellmap, exact: bool) -> (r:
        IntentionCompleted)
        requires
            old(self).wf(),
            cellmap.wf(),
        ensures
            final(self).wf(),
            final(self).carrier == old(self).carrier,
            is_destination_tick(
                old(self).mv@,
                old(self).mind,
                final(self).mv@,
                final(self).mind,
                r,
                cellmap,
                dest,
                exact,
            ),
    {
        let required_distance: usize = if exact {
            0
        } else {
            1
        };
        let restart_intention: bool = match self.mv.current_move_path.target {
            Some(tgt) => !dest.within_distance(&tgt, required_distance),
            None => true,
        };
        if restart_intention {
            let possible: bool = if !exact {
                self.move_to_ps_or_around_1(cellmap, dest)
            } else {
                self.move_to_ps(cellmap, dest)
            };
            if !possible {
                self.finish_current_intention(false);
                self.mv.stop_moving();
                return IntentionCompleted::Failure;
            }
            assert(is_fresh_plan(old(self).mv@, self.mv@, cellmap, dest, exact));
        }
        let ghost planned = self.mv@;
        let reached: bool = dest.within_distance(&self.get_current_ps(), required_distance)
            || self.mv.is_reached_cell_flag_set();
        if reached {
            self.finish_current_intention(true);
            return IntentionCompleted::Success;
        }
        if !self.is_next_step_valid(cellmap) {
            if self.mv.is_no_reliabler_steps_left() {
                if !self.force_recalculate_path_to_target(cellmap) {
                    self.cool_down();
                }
            } else {
                if !self.try_multiple_detours(cellmap) {
                    self.cool_down();
                }
            }
            assert(is_repair(planned, old(self).mind, self.mv@, self.mind, cellmap));
            return IntentionCompleted::Pending;
        }
        IntentionCompleted::Pending
    }

    /// Picks up the first item of the registry that lies ready on the
    /// agent's cell and passes `item_type`.
    pub fn try_pick_item(
        &mut self,
        entity: Entity,
        carriables: &mut CarriableItems,
        item_type: Option<&'static str>,
    ) -> (r: IntentionCompleted)
        requires
            old(carriables).wf(),
        ensures
            final(carriables).wf(),
            is_pick(
                old(carriables).items@,
                old(self).carrier@,
                final(carriables).items@,
                final(self).carrier@,
                r,
                old(self).mv@.pos(),
                entity,
                item_type,
            ),
            final(self).mind == old(self).mind,
            final(self).mv == old(self).mv,
    {
        let position: Ps = self.get_current_ps();
        let mut i: usize = 0;
        while i < carriables.items.len()
            invariant
                i <= carriables.items.len(),
                *self == *old(self),
                *carriables == *old(carriables),
                carriables.wf(),
                position == self.mv@.pos(),
                forall|j: int|
                    0 <= j < i ==> !lies_ready(#[trigger] carriables.items[j], position, item_type),
            decreases carriables.items.len() - i,
        {
            let item = carriables.items[i];
            if item.position.x == position.x && item.position.y == position.y && item.available()
                && passes_type_filter(item.item_type, item_type) {
                let mut handle = item;
                self.carrier.pick_up(entity, &mut handle);
                carriables.items.set(i, handle);
                proof {
                    lemma_update_keeps_ids(old(carriables).items@, i as int, handle);
                    assert(lies_ready(old(carriables).items@[i as int], position, item_type));
                }
                return IntentionCompleted::Success;
            }
            i += 1;
        }
        IntentionCompleted::Failure
    }

    /// Consumes the first item of the registry that lies ready on the
    /// agent's cell and passes `item_type`.
    pub fn try_consume_item(
        &mut self,
        _entity: Entity,
        carriables: &mut CarriableItems,
        item_type: Option<&'static str>,
    ) -> (r: IntentionCompleted)
        requires
            old(carriables).wf(),
        ensures
            final(carriables).wf(),
            is_consume(
                old(carriables).items@,
                final(carriables).items@,
                r,
                old(self).mv@.pos(),
                item_type,
            ),
            *final(self) == *old(self),
    {
        let position: Ps = self.get_current_ps();
        let mut i: usize = 0;
        while i < carriables.items.len()
            invariant
                i <= carriables.items.len(),
                *self == *old(self),
                *carriables == *old(carriables),
                carriables.wf(),
                position == self.mv@.pos(),
                forall|j: int|
                    0 <= j < i ==> !lies_ready(#[trigger] carriables.items[j], position, item_type),
            decreases carriables.items.len() - i,
        {
            let item = carriables.items[i];
            if item.position.x == position.x && item.position.y == position.y && item.available()
                && passes_type_filter(item.item_type, item_type) {
                let mut handle = item;
                handle.consume();
                carriables.items.set(i, handle);
                proof {
                    lemma_update_keeps_ids(old(carriables).items@, i as int, handle);
                    assert(lies_ready(old(carriables).items@[i as int], position, item_type));
                }
                return IntentionCompleted::Success;
            }
            i += 1;
        }
        IntentionCompleted::Failure
    }

    /// Lets go of the first item of the registry that the agent holds and
    /// that passes `item_type`; with `consume` set the item is used up too.
    fn let_go_of_item(
        &mut self,
        carriables: &mut CarriableItems,
        item_type: Option<&'static str>,
        consume: bool,
    ) -> (r: IntentionCompleted)
        requires
            old(carriables).wf(),
        ensures
            final(carriables).wf(),
            is_let_go(
                old(carriables).items@,
                old(self).carrier@,
                final(carriables).items@,
                final(self).carrier@,
                r,
                item_type,
                consume,
            ),
            final(self).mind == old(self).mind,
            final(self).mv == old(self).mv,
    {
        let mut i: usize = 0;
        while i < carriables.items.len()
            invariant
                i <= carriables.items.len(),
                self.mind == old(self).mind,
                self.mv == old(self).mv,
                self.carrier@ == old(self).carrier@,
                *carriables == *old(carriables),
                carriables.wf(),
                forall|j: int|
                    0 <= j < i ==> !is_held(#[trigger] carriables.items[j], self.carrier@,
                        item_type),
            decreases carriables.items.len() - i,
        {
            let item = carriables.items[i];
            if passes_type_filter(item.item_type, item_type) {
                let mut handle = item;
                let done: bool = if consume {
                    self.carrier.try_consume(&mut handle)
                } else {
                    self.carrier.try_drop(&mut handle)
                };
                if done {
                    carriables.items.set(i, handle);
                    proof {
                        lemma_update_keeps_ids(old(carriables).items@, i as int, handle);
                        assert(is_held(
                            old(carriables).items@[i as int],
                            old(self).carrier@,
                            item_type,
                        ));
                    }
                    return IntentionCompleted::Success;
                }
            }
            i += 1;
        }
        IntentionCompleted::Failure
    }

    /// Drops the first item of the registry that the agent holds and that
    /// passes `item_type`. The item stays where it was last carried to.
    pub fn try_drop_item(
        &mut self,
        _entity: Entity,
        carriables: &mut CarriableItems,
        item_type: Option<&'static str>,
    ) -> (r: IntentionCompleted)
        requires
            old(carriables).wf(),
        ensures
            final(carriables).wf(),
            is_let_go(
                old(carriables).items@,
                old(self).carrier@,
                final(carriables).items@,
                final(self).carrier@,
                r,
                item_type,
                false,
            ),
            final(self).mind == old(self).mind,
            final(self).mv == old(self).mv,
    {
        self.let_go_of_item(carriables, item_type, false)
    }

    /// Consumes the first item of the registry that the agent holds and
    /// that passes `item_type`.
    pub fn try_consume_carried_item(
        &mut self,
        _entity: Entity,
        carriables: &mut CarriableItems,
        item_type: Option<&'static str>,
    ) -> (r: IntentionCompleted)
        requires
            old(carriables).wf(),
        ensures
            final(carriables).wf(),
            is_let_go(
                old(carriables).items@,
                old(self).carrier@,
                final(carriables).items@,
                final(self).carrier@,
                r,
                item_type,
                true,
            ),
            final(self).mind == old(self).mind,
            final(self).mv == old(self).mv,
    {
        self.let_go_of_item(carriables, item_type, true)
    }

    /// Claims the interactive object that is used from the agent's cell, or
    /// confirms the claim that the agent has on it. Returns `None` where the
    /// agent holds the claim afterwards, and a failure where it does not.
    pub fn try_use_interactive(
        &mut self,
        entity: Entity,
        interactive: &mut InteractiveObjects,
    ) -> (r:
        Option<IntentionCompleted>)
        ensures
            is_claim(
                old(interactive).items@,
                final(interactive).items@,
                r,
                old(self).mv@.pos(),
                entity,
            ),
            *final(self) == *old(self),
    {
        let position: Ps = self.get_current_ps();
        let mut i: usize = 0;
        while i < interactive.items.len()
            invariant
                i <= interactive.items.len(),
                *self == *old(self),
                *interactive == *old(interactive),
                position == self.mv@.pos(),
                forall|j: int| 0 <= j < i ==> !stands_at(#[trigger] interactive.items[j], position),
            decreases interactive.items.len() - i,
        {
            let item = interactive.items[i];
            if item.is_used_from(position) {
                assert(stands_at(old(interactive).items@[i as int], position));
                match item.used_by {
                    Some(user) => {
                        if user != entity {
                            return Some(IntentionCompleted::Failure);
                        }
                        return None;
                    },
                    None => {
                        let mut handle = item;
                        handle.take(entity);
                        interactive.items.set(i, handle);
                        return None;
                    },
                }
            }
            i += 1;
        }
        Some(IntentionCompleted::Failure)
    }

    /// Gives up the agent's claim on the interactive object that is used
    /// from its cell.
    pub fn try_release_interactive(
        &mut self,
        entity: Entity,
        interactive: &mut InteractiveObjects,
    ) -> (r:
        IntentionCompleted)
        ensures
            is_release(
                old(interactive).items@,
                final(interactive).items@,
                r,
                old(self).mv@.pos(),
                entity,
            ),
            *final(self) == *old(self),
    {
        let position: Ps = self.get_current_ps();
        let mut i: usize = 0;
        while i < interactive.items.len()
            invariant
                i <= interactive.items.len(),
                *self == *old(self),
                *interactive == *old(interactive),
                position == self.mv@.pos(),
                forall|j: int| 0 <= j < i
                    ==> !claimed_at(#[trigger] interactive.items[j], position),
            decreases interactive.items.len() - i,
        {
            let item = interactive.items[i];
            if item.is_used_from(position) {
                match item.used_by {
                    Some(user) => {
                        assert(claimed_at(old(interactive).items@[i as int], position));
                        if user != entity {
                            return IntentionCompleted::Failure;
                        } else {
                            let mut handle = item;
                            handle.release();
                            interactive.items.set(i, handle);
                            return IntentionCompleted::Success;
                        }
                    },
                    None => {},
                }
            }
            i += 1;
        }
        IntentionCompleted::Failure
    }

    /// One tick of thinking about the goal of using the interactive object
    /// on the agent's cell for `minutes` simulated minutes, counted from the
    /// clock reading that the mind saved when the goal was announced.
    pub fn use_interactive_minutes(
        &mut self,
        entity: Entity,
        minutes: isize,
        interactive: &mut InteractiveObjects,
        now: &Time,
    ) -> (r: IntentionCompleted)
        requires
            old(self).wf(),
            now.wf(),
        ensures
            final(self).wf(),
            is_use_tick(
                old(self).mind,
                old(interactive).items@,
                *now,
                final(self).mind,
                final(interactive).items@,
                r,
                old(self).mv@.pos(),
                entity,
                minutes,
            ),
            final(self).mv == old(self).mv,
            final(self).carrier == old(self).carrier,
    {
        if self.mind.time_reference.elapsed(now).at_least(&TimeSpan::new(minutes)) {
            let result = self.try_release_interactive(entity, interactive);
            self.finish_current_intention_with(result)
        } else {
            let claim = self.try_use_interactive(entity, interactive);
            match claim {
                Some(outcome) => outcome,
                None => IntentionCompleted::Pending,
            }
        }
    }

    /// One tick of thinking about the current goal: the goal is worked on
    /// according to its kind, and the result says how it ended, if it did.
    /// An agent without a goal reports `Undefined`, and so does one that is
    /// still waiting.
    pub fn think_intentions_level(&mut self, entity: Entity, reality: &mut Reality) -> (r:
        IntentionCompleted)
        requires
            old(self).wf(),
            old(reality).wf(),
        ensures
            final(self).wf(),
            final(reality).wf(),
            final(reality).cellmap == old(reality).cellmap,
            final(reality).time == old(reality).time,
            final(reality).comm_map == old(reality).comm_map,
            is_thought(
                old(self).mv@,
                old(self).mind,
                old(self).carrier@,
                *old(reality),
                final(self).mv@,
                final(self).mind,
                final(self).carrier@,
                *final(reality),
                r,
                entity,
            ),
    {
        let current: Option<Intention> = *self.mind.intentions.get_current();
        match current {
            None => IntentionCompleted::Undefined,
            Some(current_intention) => match current_intention.value {
                IntentionClass::MoveToDestination(dest) => {
                    self.process_destination_intention(dest, &reality.cellmap, false)
                },
                IntentionClass::MoveToPs(dest) => {
                    self.process_destination_intention(dest, &reality.cellmap, true)
                },
                IntentionClass::WaitCycles(_) => {
                    if self.mind.count_cycles() {
                        self.finish_current_intention(true);
                        IntentionCompleted::Success
                    } else {
                        IntentionCompleted::Undefined
                    }
                },
                IntentionClass::PickItemOfType(item_type) => {
                    let result = self.try_pick_item(entity, &mut reality.carriables,
                        Some(item_type));
                    self.finish_current_intention_with(result)
                },
                IntentionClass::PickAnyItem => {
                    let result = self.try_pick_item(entity, &mut reality.carriables, None);
                    self.finish_current_intention_with(result)
                },
                IntentionClass::ConsumeItemOfType(item_type) => {
                    let result = self.try_consume_item(
                        entity,
                        &mut reality.carriables,
                        Some(item_type),
                    );
                    self.finish_current_intention_with(result)
                },
                IntentionClass::DropCarriedItemOfType(item_type) => {
                    let result = self.try_drop_item(entity, &mut reality.carriables,
                        Some(item_type));
                    self.finish_current_intention_with(result)
                },
                IntentionClass::ConsumeAnyItem => {
                    let result = self.try_consume_item(entity, &mut reality.carriables, None);
                    self.finish_current_intention_with(result)
                },
                IntentionClass::DropAnyCarriedItem => {
                    let result = self.try_drop_item(entity, &mut reality.carriables, None);
                    self.finish_current_intention_with(result)
                },
                IntentionClass::ConsumeCarriedItemOfType(item_type) => {
                    let result = self.try_consume_carried_item(
                        entity,
                        &mut reality.carriables,
                        Some(item_type),
                    );
                    self.finish_current_intention_with(result)
                },
                IntentionClass::ConsumeAnyCarriedItem => {
                    let result = self.try_consume_carried_item(entity, &mut reality.carriables,
                        None);
                    self.finish_current_intention_with(result)
                },
                IntentionClass::UseInteractiveMinutes(minutes) => {
                    self.use_interactive_minutes(
                        entity,
                        minutes,
                        &mut reality.interactive,
                        &reality.time,
                    )
                },
            },
        }
    }

    /// The movement phase of a tick, for an agent that is at rest: the
    /// next step of the path is taken, unless it leads to a cell that is not
    /// free now, and the grid's occupancy follows the agent. Returns whether
    /// the agent thereby stands on its target.
    pub fn think_movement_level(&mut self, cellmap: &mut Cellmap) -> (r: bool)
        requires
            old(cellmap).wf(),
            old(cellmap).contains(old(self).mv@.pos()),
        ensures
            final(self).mv@ == moved(old(self).mv@, old(cellmap)),
            r == (!next_is_blocked(old(self).mv@, old(cellmap)) && takes_step(old(self).mv@)
                && old(self).mv@.step_taken().at_destination()),
            occupancy_moved(old(cellmap), final(cellmap), old(self).mv@.pos(),
                final(self).mv@.pos()),
            final(cellmap).contains(final(self).mv@.pos()),
            final(self).mv@.pos() != old(self).mv@.pos() ==> old(cellmap).free(
                final(self).mv@.pos(),
                true,
            ) && old(self).mv@.pos().adjacent(final(self).mv@.pos()),
            final(self).mind == old(self).mind,
            final(self).carrier == old(self).carrier,
    {
        let mut movement_dest_reached: bool = false;
        let prev_position: Ps = self.get_current_ps();
        let blocked: bool = match self.mv.peek_next_loc() {
            Some(loc) => !cellmap.is_free(&loc, true),
            None => false,
        };
        if blocked {
            self.mv.stuck();
        } else {
            let next = self.mv.step_next_direction();
            if next.is_some() {
                movement_dest_reached = self.mv.stop_if_destination_cell_reached();
            }
        }
        let here: Ps = self.get_current_ps();
        cellmap.move_occupy_ps(&prev_position, &here);
        movement_dest_reached
    }

    /// Lets `dt` milliseconds pass for an agent that is in the middle of a
    /// step: it slides on towards the centre of its cell. Returns whether
    /// the agent was in the middle of a step.
    pub fn move_direction_if_can(&mut self, dt: u32) -> (r: bool)
        ensures
            r == old(self).mv@.movement.loc.direction is Some,
            final(self).mv@ == (RoutingView {
                movement: SelfMovingThingData {
                    loc: old(self).mv@.movement.loc.slide(
                        slide_length(old(self).mv@.movement.speed, dt),
                    ),
                    speed: old(self).mv@.movement.speed,
                },
                ..old(self).mv@
            }),
            final(self).mind == old(self).mind,
            final(self).carrier == old(self).carrier,
    {
        match self.mv.movement.loc.direction {
            Some(_direction) => {
                self.just_move_direction(dt);
                true
            },
            None => false,
        }
    }

    fn follow_direction_until_next_cell(&mut self, dt: u32) -> (r: Option<Ps>)
        ensures
            final(self).mv@ == (RoutingView {
                movement: SelfMovingThingData {
                    loc: old(self).mv@.movement.loc.slide(
                        slide_length(old(self).mv@.movement.speed, dt),
                    ),
                    speed: old(self).mv@.movement.speed,
                },
                ..old(self).mv@
            }),
            r is Some ==> final(self).mv@ == old(self).mv@.arrived(),
            final(self).mind == old(self).mind,
            final(self).carrier == old(self).carrier,
    {
        self.mv.follow_direction_until_stop(dt)
    }

    fn just_move_direction(&mut self, dt: u32)
        ensures
            final(self).mv@ == (RoutingView {
                movement: SelfMovingThingData {
                    loc: old(self).mv@.movement.loc.slide(
                        slide_length(old(self).mv@.movement.speed, dt),
                    ),
                    speed: old(self).mv@.movement.speed,
                },
                ..old(self).mv@
            }),
            final(self).mind == old(self).mind,
            final(self).carrier == old(self).carrier,
    {
        self.follow_direction_until_next_cell(dt);
    }

    /// The goal phase of a tick. An agent in the middle of a step does not
    /// think: the result is `Pending` and nothing changes.
    pub fn think_intention_level_if_not_moving(
        &mut self,
        entity: Entity,
        reality: &mut Reality,
    ) -> (r:
        IntentionCompleted)
        requires
            old(self).wf(),
            old(reality).wf(),
        ensures
            final(self).wf(),
            final(reality).wf(),
            final(reality).cellmap == old(reality).cellmap,
            final(reality).time == old(reality).time,
            final(reality).comm_map == old(reality).comm_map,
            old(self).mv@.movement.loc.direction is Some ==> {
                &&& r == IntentionCompleted::Pending
                &&& final(self).mv@ == old(self).mv@
                &&& final(self).mind == old(self).mind
                &&& final(self).carrier@ == old(self).carrier@
                &&& final(reality).carriables.items@ == old(reality).carriables.items@
                &&& final(reality).interactive.items@ == old(reality).interactive.items@
            },
            old(self).mv@.movement.loc.direction is None ==> is_thought(
                old(self).mv@,
                old(self).mind,
                old(self).carrier@,
                *old(reality),
                final(self).mv@,
                final(self).mind,
                final(self).carrier@,
                *final(reality),
                r,
                entity,
            ),
    {
        match self.mv.movement.loc.direction {
            Some(_) => IntentionCompleted::Pending,
            None => self.think_intentions_level(entity, reality),
        }
    }

    /// The movement phase of a tick. An agent in the middle of a step takes
    /// no new step: the result is `false` and nothing changes.
    pub fn think_movement_level_if_not_moving(&mut self, cellmap: &mut Cellmap) -> (r: bool)
        requires
            old(cellmap).wf(),
            old(cellmap).contains(old(self).mv@.pos()),
        ensures
            final(cellmap).wf(),
            final(cellmap).contains(final(self).mv@.pos()),
            final(cellmap).same_terrain(old(cellmap)),
            old(self).mv@.movement.loc.direction is Some ==> {
                &&& !r
                &&& final(self).mv@ == old(self).mv@
                &&& *final(cellmap) == *old(cellmap)
            },
            old(self).mv@.movement.loc.direction is None ==> {
                &&& final(self).mv@ == moved(old(self).mv@, old(cellmap))
                &&& r == (!next_is_blocked(old(self).mv@, old(cellmap)) && takes_step(
                    old(self).mv@,
                ) && old(self).mv@.step_taken().at_destination())
                &&& occupancy_moved(
                    old(cellmap),
                    final(cellmap),
                    old(self).mv@.pos(),
                    final(self).mv@.pos(),
                )
                &&& final(self).mv@.pos() != old(self).mv@.pos() ==> old(cellmap).free(
                    final(self).mv@.pos(),
                    true,
                )
            },
            final(self).mind == old(self).mind,
            final(self).carrier == old(self).carrier,
    {
        match self.mv.movement.loc.direction {
            Some(_) => false,
            None => self.think_movement_level(cellmap),
        }
    }
}

} // verus!
