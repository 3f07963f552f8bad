//! What it means to pursue a walking goal: to plan a route, to follow it,
//! to repair it when it is blocked, and to take the steps one by one. These
//! are the relations in which the contracts of the agent speak.

use vstd::prelude::*;

use crate::creatures::{
    lemma_direction_between, neighbour, Direction, RoutingView, MIN_RELIABLE_STEPS,
        RELIABLE_CAP_LOW, RELIABLE_CAP_SPREAD,
    SHORT_PATH,
};
use crate::mental::{Brains, Intention, IntentionClass, IntentionCompleted};
use crate::position::Ps;
use crate::routing::{
    connected_from, end_of, is_route, is_shortest, lemma_route_is_connected, no_route,
        standing_before,
    step_allowed,
};
use crate::worldmap::Cellmap;

verus! {

/// How far ahead a local repair of the path aims: it is tried with each of
/// these distances in turn.
pub const DETOURS: [usize; 4] = [6, 8, 16, 32];

/// The priority of the wait that follows a failed repair of the path.
pub const UNSTUCK_PRIORITY: i32 = 100;

/// A wait after a failed repair lasts at least this many think ticks ...
pub const COOLDOWN_LOW: usize = 10;

/// ... and fewer than this many more.
pub const COOLDOWN_SPREAD: usize = 50;

/// The number of trusted steps suits the length of the path.
pub open spec fn budget_fits(v: RoutingView) -> bool {
    &&& v.steps.len() < SHORT_PATH ==> v.reliable_steps_left == v.steps.len()
    &&& v.steps.len() >= SHORT_PATH ==> MIN_RELIABLE_STEPS <= v.reliable_steps_left
        < RELIABLE_CAP_LOW + RELIABLE_CAP_SPREAD
}

/// `after` is `before` with a fresh plan towards `goal`: a shortest route
/// from the agent's cell to `goal` over cells that are free right now.
pub open spec fn is_plan(
    before: RoutingView,
    after: RoutingView,
    cellmap: &Cellmap,
    goal: Ps,
) -> bool {
    &&& after.movement == before.movement
    &&& after.target == Some(goal)
    &&& is_route(cellmap, true, before.pos(), goal, after.steps)
    &&& is_shortest(cellmap, true, before.pos(), goal, after.steps)
    &&& !after.steps.contains(before.pos())
    &&& !after.stuck
    &&& !after.reached_cell
    &&& budget_fits(after)
}

/// A fresh plan leads along cells that share edges, from the agent's cell on.
pub proof fn lemma_plan_on_track(
    before: RoutingView,
    after: RoutingView,
    cellmap: &Cellmap,
    goal: Ps,
)
    requires
        is_plan(before, after, cellmap, goal),
    ensures
        after.on_track(),
        end_of(after.pos(), after.steps) == goal,
{
    lemma_route_is_connected(cellmap, true, before.pos(), goal, after.steps);
}

/// Some free cell next to `dest` can be reached from `from`.
pub open spec fn reachable_near(cellmap: &Cellmap, from: Ps, dest: Ps) -> bool {
    exists|n: Ps| #[trigger] step_allowed(cellmap, true, dest, n)
        && !no_route(cellmap, true, from, n)
}

/// `after` is `before` with a fresh plan towards a free cell next to `dest`.
pub open spec fn is_plan_near(
    before: RoutingView,
    after: RoutingView,
    cellmap: &Cellmap,
    dest: Ps,
) -> bool {
    exists|n: Ps| #[trigger] step_allowed(cellmap, true, dest, n)
        && is_plan(before, after, cellmap, n)
}

/// A fresh plan next to a cell leads over cells that share edges to a cell
/// that shares an edge with that cell, and never back over the cell the
/// agent starts from.
pub proof fn lemma_plan_near_ends_beside(
    before: RoutingView,
    after: RoutingView,
    cellmap: &Cellmap,
    dest: Ps,
)
    requires
        is_plan_near(before, after, cellmap, dest),
    ensures
        after.on_track(),
        dest.adjacent(end_of(before.pos(), after.steps)),
        cellmap.free(end_of(before.pos(), after.steps), true),
        !after.steps.contains(before.pos()),
{
    let n = choose|n: Ps| #[trigger]
        step_allowed(cellmap, true, dest, n) && is_plan(before, after, cellmap, n);
    lemma_plan_on_track(before, after, cellmap, n);
}

/// How close to its destination an agent must get: onto it for an exact
/// goal, next to it otherwise.
pub open spec fn arrival_distance(exact: bool) -> int {
    if exact {
        0
    } else {
        1
    }
}

/// The agent has no plan that ends close enough to `dest`.
pub open spec fn must_plan(v: RoutingView, dest: Ps, exact: bool) -> bool {
    match v.target {
        Some(target) => dest.distance(target) > arrival_distance(exact),
        None => true,
    }
}

/// A plan for `dest` exists: onto it, or, for a goal that is not exact,
/// next to it.
pub open spec fn can_plan(cellmap: &Cellmap, from: Ps, dest: Ps, exact: bool) -> bool {
    !no_route(cellmap, true, from, dest) || (!exact && reachable_near(cellmap, from, dest))
}

/// `after` is `before` with the plan that a goal for `dest` asks for: onto
/// `dest` where that can be reached, else next to it.
pub open spec fn is_fresh_plan(
    before: RoutingView,
    after: RoutingView,
    cellmap: &Cellmap,
    dest: Ps,
    exact: bool,
) -> bool {
    if !no_route(cellmap, true, before.pos(), dest) {
        is_plan(before, after, cellmap, dest)
    } else {
        !exact && is_plan_near(before, after, cellmap, dest)
    }
}

/// The goal for `dest` is reached: the agent is close enough, or has been
/// told by its last step that it reached the cell it headed for.
pub open spec fn has_arrived(v: RoutingView, dest: Ps, exact: bool) -> bool {
    dest.distance(v.pos()) <= arrival_distance(exact) || v.reached_cell
}

/// The next step may be taken: enough of the path is trusted, and the next
/// cell, if there is one, is free.
pub open spec fn next_step_valid(v: RoutingView, cellmap: &Cellmap) -> bool {
    !v.no_reliable_steps() && (v.target is Some && v.steps.len() > 0 ==> cellmap.free(
        v.steps[0],
        true,
    ))
}

/// The path can be planned anew towards the target it has.
pub open spec fn can_replan(v: RoutingView, cellmap: &Cellmap) -> bool {
    v.target matches Some(target) && !no_route(cellmap, true, v.pos(), target)
}

/// `after` is `before` with its path planned anew towards the same target.
pub open spec fn is_replan(before: RoutingView, after: RoutingView, cellmap: &Cellmap) -> bool {
    before.target matches Some(target) && is_plan(before, after, cellmap, target)
}

/// The cell that a repair of reach `dist` aims for, and how many steps of
/// the path it replaces: the step `dist` ahead, or the last step of a path
/// that is no longer than that.
pub open spec fn detour_goal(v: RoutingView, dist: usize) -> Option<(Ps, int)> {
    if v.steps.len() == 0 {
        None
    } else {
        let ahead = if v.steps.len() > dist {
            dist as int
        } else {
            v.steps.len() as int
        };
        Some((v.steps[ahead - 1], ahead))
    }
}

/// A repair of reach `dist` is possible: there is a cell to aim for, the
/// agent does not stand on it, and it can be reached.
pub open spec fn can_detour(v: RoutingView, cellmap: &Cellmap, dist: usize) -> bool {
    detour_goal(v, dist) matches Some((cell, ahead)) && cell != v.pos() && !no_route(
        cellmap,
        true,
        v.pos(),
        cell,
    )
}

/// `after` is `before` with the first `ahead` steps of its path replaced by
/// a shortest route to the cell `cell`.
pub open spec fn is_detour_to(
    before: RoutingView,
    after: RoutingView,
    cellmap: &Cellmap,
    cell: Ps,
    ahead: int,
) -> bool {
    &&& exists|bypass: Seq<Ps>|
        {
            &&& #[trigger] is_route(cellmap, true, before.pos(), cell, bypass)
            &&& is_shortest(cellmap, true, before.pos(), cell, bypass)
            &&& after.steps == bypass + before.steps.skip(ahead)
        }
    &&& after.movement == before.movement
    &&& after.target == before.target
    &&& after.stuck == before.stuck
    &&& !after.reached_cell
    &&& budget_fits(after)
}

/// `after` is `before` with the front of its path replaced by a shortest
/// route to the cell that a repair of reach `dist` aims for.
pub open spec fn is_detour(
    before: RoutingView,
    after: RoutingView,
    cellmap: &Cellmap,
    dist: usize,
) -> bool {
    match detour_goal(before, dist) {
        Some(goal) => is_detour_to(before, after, cellmap, goal.0, goal.1),
        None => false,
    }
}

/// Replacing the front of a connected path by a route to the cell where
/// the rest of the path goes on leaves the path connected.
pub proof fn lemma_splice_connected(start: Ps, steps: Seq<Ps>, ahead: int, bypass: Seq<Ps>)
    requires
        connected_from(start, steps),
        1 <= ahead <= steps.len(),
        connected_from(start, bypass),
        bypass.len() > 0,
        bypass.last() == steps[ahead - 1],
    ensures
        connected_from(start, bypass + steps.skip(ahead)),
{
    let spliced = bypass + steps.skip(ahead);
    assert forall|i: int| 0 <= i < spliced.len() implies (#[trigger] standing_before(
        start,
        spliced,
        i,
    )).adjacent(spliced[i]) by {
        if i < bypass.len() {
            assert(spliced[i] == bypass[i]);
            assert(standing_before(start, bypass, i).adjacent(bypass[i]));
        } else {
            let k = i - bypass.len();
            assert(spliced[i] == steps[ahead + k]);
            assert(standing_before(start, steps, ahead + k).adjacent(steps[ahead + k]));
            if k > 0 {
                assert(spliced[i - 1] == steps[ahead + k - 1]);
            } else {
                assert(spliced[i - 1] == bypass.last());
            }
        }
    }
}

/// A repair is possible with one of the reaches of `DETOURS`.
pub open spec fn can_detour_any(v: RoutingView, cellmap: &Cellmap) -> bool {
    exists|k: int| 0 <= k < 4 && #[trigger] can_detour(v, cellmap, DETOURS[k])
}

/// `after` is `before` repaired with the first reach of `DETOURS` with
/// which a repair is possible.
pub open spec fn is_first_detour(
    before: RoutingView,
    after: RoutingView,
    cellmap: &Cellmap,
) -> bool {
    exists|k: int|
        {
            &&& 0 <= k < 4
            &&& #[trigger] is_detour(before, after, cellmap, DETOURS[k])
            &&& forall|j: int| 0 <= j < k ==> !#[trigger] can_detour(before, cellmap, DETOURS[j])
        }
}

/// The mind `after` is `before` with its current goal closed as a success
/// or a failure: the outcome is noted and the next goal is promoted. A mind
/// without a goal stays as it is.
pub open spec fn goal_closed(before: Brains, after: Brains, success: bool) -> bool {
    &&& after.intentions@ == before.intentions@.finished()
    &&& after.mem == match before.intentions@.current {
        Some(current) => before.mem.noted(current.value, success),
        None => before.mem,
    }
    &&& after.cycles_counter == before.cycles_counter
    &&& after.time_reference == before.time_reference
}

/// The mind `after` is `before` with a wait of between `COOLDOWN_LOW` and
/// `COOLDOWN_LOW + COOLDOWN_SPREAD` think ticks announced at
/// `UNSTUCK_PRIORITY`, and started.
pub open spec fn cooling_down(before: Brains, after: Brains) -> bool {
    &&& COOLDOWN_LOW <= after.cycles_counter < COOLDOWN_LOW + COOLDOWN_SPREAD
    &&& after.intentions@ == before.intentions@.intended(
        Intention {
            priority: UNSTUCK_PRIORITY,
            value: IntentionClass::WaitCycles(after.cycles_counter),
        },
    )
    &&& after.mem == before.mem
    &&& after.time_reference == before.time_reference
}

/// What a blocked path leads to, from the routing state `planned` and the
/// mind `mind`: a new plan where too little of the path is trusted, else a
/// local repair; and where neither can be had, the path is given up and the
/// agent waits a while.
pub open spec fn is_repair(
    planned: RoutingView,
    mind: Brains,
    after: RoutingView,
    mind_after: Brains,
    cellmap: &Cellmap,
) -> bool {
    if planned.no_reliable_steps() {
        if can_replan(planned, cellmap) {
            is_replan(planned, after, cellmap) && mind_after == mind
        } else {
            after == planned.stopped() && cooling_down(mind, mind_after)
        }
    } else {
        if can_detour_any(planned, cellmap) {
            is_first_detour(planned, after, cellmap) && mind_after == mind
        } else {
            after == planned.stopped() && cooling_down(mind, mind_after)
        }
    }
}

/// What one tick of thinking about a goal for `dest` leads to, once the
/// agent has the plan `planned`.
pub open spec fn is_pursuit(
    planned: RoutingView,
    mind: Brains,
    after: RoutingView,
    mind_after: Brains,
    r: IntentionCompleted,
    cellmap: &Cellmap,
    dest: Ps,
    exact: bool,
) -> bool {
    if has_arrived(planned, dest, exact) {
        r == IntentionCompleted::Success && after == planned && goal_closed(mind, mind_after, true)
    } else if next_step_valid(planned, cellmap) {
        r == IntentionCompleted::Pending && after == planned && mind_after == mind
    } else {
        r == IntentionCompleted::Pending && is_repair(planned, mind, after, mind_after, cellmap)
    }
}

/// What one tick of thinking about the goal of walking to `dest` leads to.
///
/// An agent whose plan does not end close enough to `dest` makes a new one
/// first; where none can be made, the goal fails and the agent stops.
pub open spec fn is_destination_tick(
    before: RoutingView,
    mind: Brains,
    after: RoutingView,
    mind_after: Brains,
    r: IntentionCompleted,
    cellmap: &Cellmap,
    dest: Ps,
    exact: bool,
) -> bool {
    if !must_plan(before, dest, exact) {
        is_pursuit(before, mind, after, mind_after, r, cellmap, dest, exact)
    } else if !can_plan(cellmap, before.pos(), dest, exact) {
        &&& r == IntentionCompleted::Failure
        &&& after == before.stopped()
        &&& goal_closed(mind, mind_after, false)
    } else {
        exists|planned: RoutingView|
            {
                &&& #[trigger] is_fresh_plan(before, planned, cellmap, dest, exact)
                &&& is_pursuit(planned, mind, after, mind_after, r, cellmap, dest, exact)
            }
    }
}

/// The cell one step in direction `dir` from `from` lies inside the grid.
pub open spec fn neighbour_inside(cellmap: &Cellmap, from: Ps, dir: Direction) -> bool {
    0 <= neighbour(from, dir).0 < cellmap.width && 0 <= neighbour(from, dir).1 < cellmap.height
}

/// The next step of the path leads to a cell that may not be entered now.
pub open spec fn next_is_blocked(v: RoutingView, cellmap: &Cellmap) -> bool {
    v.target is Some && v.steps.len() > 0 && !cellmap.free(v.steps[0], true)
}

/// The next step of the path can be taken: it leads to a cell next to the
/// agent's.
pub open spec fn takes_step(v: RoutingView) -> bool {
    v.target is Some && v.steps.len() > 0 && v.pos().adjacent(v.steps[0])
}

/// The routing state after the movement phase of a tick on the map
/// `cellmap`.
///
/// A step onto a cell that is not free is not taken: the agent notes that
/// it is stuck and keeps its path. Any other step is taken, and an agent
/// that thereby stands on its target gives up its path and notes that it
/// reached the cell.
pub open spec fn moved(v: RoutingView, cellmap: &Cellmap) -> RoutingView {
    if next_is_blocked(v, cellmap) {
        RoutingView { stuck: true, ..v }
    } else if takes_step(v) && v.step_taken().at_destination() {
        RoutingView {
            target: None,
            steps: Seq::empty(),
            reached_cell: true,
            reliable_steps_left: 0,
            ..v.step_taken()
        }
    } else {
        v.step_taken()
    }
}

/// The grid `after` is the grid `before` with the occupancy of the cell
/// `from` handed over to the cell `to`.
pub open spec fn occupancy_moved(before: &Cellmap, after: &Cellmap, from: Ps, to: Ps) -> bool {
    &&& after.wf()
    &&& after.same_terrain(before)
    &&& after.occupied(to)
    &&& from != to ==> !after.occupied(from)
    &&& forall|other: Ps|
        before.contains(other) && other != from && other != to ==> after.cell(other)
            == #[trigger] before.cell(other)
}

/// An agent never steps onto a cell that somebody else occupies: whatever
/// the movement phase does, the agent does not end up on an occupied cell
/// other than its own.
pub proof fn lemma_step_keeps_agents_apart(v: RoutingView, cellmap: &Cellmap, other: Ps)
    requires
        cellmap.occupied(other),
        other != v.pos(),
    ensures
        moved(v, cellmap).pos() != other,
{
    if !next_is_blocked(v, cellmap) && takes_step(v) {
        lemma_direction_between(v.pos(), v.steps[0]);
        assert(cellmap.free(v.steps[0], true));
    }
}

/// The agents on the cells `places` stand apart: each of them on a cell of
/// the grid that is marked as occupied, no two of them on the same cell.
pub open spec fn stand_apart(places: Seq<Ps>, cellmap: &Cellmap) -> bool {
    &&& forall|i: int| 0 <= i < places.len() ==> cellmap.occupied(#[trigger] places[i])
    &&& forall|i: int, j: int| 0 <= i < j < places.len() ==> places[i] != places[j]
}

/// Agents that stand apart still stand apart after one of them has had its
/// movement phase, whatever the paths they follow: two agents that head for
/// the same cell never both enter it.
pub proof fn lemma_step_keeps_crowd_apart(
    places: Seq<Ps>,
    k: int,
    v: RoutingView,
    before: &Cellmap,
    after: &Cellmap,
)
    requires
        before.wf(),
        stand_apart(places, before),
        0 <= k < places.len(),
        v.pos() == places[k],
        occupancy_moved(before, after, v.pos(), moved(v, before).pos()),
    ensures
        stand_apart(places.update(k, moved(v, before).pos()), after),
{
    let to = moved(v, before).pos();
    let from = v.pos();
    let places_after = places.update(k, to);
    if to != from {
        lemma_direction_between(from, v.steps[0]);
        assert(before.free(to, true));
    }
    assert forall|i: int| 0 <= i < places_after.len() implies after.occupied(
        #[trigger] places_after[i],
    ) by {
        if i != k {
            assert(before.occupied(places[i]));
            if i < k {
                assert(places[i] != places[k]);
            } else {
                assert(places[k] != places[i]);
            }
            assert(after.cell(places[i]) == before.cell(places[i]));
        }
    }
    assert forall|i: int, j: int| 0 <= i < j < places_after.len() implies places_after[i]
        != places_after[j] by {
        if i == k {
            assert(before.occupied(places[j]));
            assert(places[k] != places[j]);
        } else if j == k {
            assert(before.occupied(places[i]));
            assert(places[i] != places[k]);
        } else {
            assert(places[i] != places[j]);
        }
    }
}

} // verus!
