//! How an agent moves: one cell at a time along a planned path, with a
//! sub-cell offset that slides back to the centre of the cell after each
//! step.

use vstd::prelude::*;

use crate::position::{Offset, Ps, PsProvider, PsSigned, ARRIVAL_THRESHOLD, OFFSET_UNIT};
use crate::random::random_below;
use crate::routing::{connected_from, end_of, standing_before};

verus! {

/// A path shorter than this is trusted for its whole length.
pub const SHORT_PATH: usize = 4;

/// The least number of steps that a longer path is trusted for.
pub const MIN_RELIABLE_STEPS: usize = 4;

/// The random cap on the trusted steps of a longer path lies between
/// `RELIABLE_CAP_LOW` and `RELIABLE_CAP_LOW + RELIABLE_CAP_SPREAD - 1`.
pub const RELIABLE_CAP_LOW: usize = 20;

pub const RELIABLE_CAP_SPREAD: usize = 60;

/// With fewer than this many steps left, a path is no longer repaired
/// locally.
pub const FEW_STEPS_LEFT: usize = 3;

#[derive(Copy, Clone, Debug, PartialEq, Eq, Structural)]
pub enum Direction {
    /// Towards larger `y`.
    Up,
    /// Towards smaller `y`.
    Down,
    /// Towards smaller `x`.
    Left,
    /// Towards larger `x`.
    Right,
}

/// The direction of the single step that leads from `from` to `to`, where
/// the two cells share an edge.
pub open spec fn direction_between(from: Ps, to: Ps) -> Option<Direction> {
    if to.x == from.x && to.y == from.y + 1 {
        Some(Direction::Up)
    } else if to.x == from.x && to.y + 1 == from.y {
        Some(Direction::Down)
    } else if to.y == from.y && to.x == from.x + 1 {
        Some(Direction::Right)
    } else if to.y == from.y && to.x + 1 == from.x {
        Some(Direction::Left)
    } else {
        None
    }
}

/// The cell one step in direction `dir` from `from`.
pub open spec fn neighbour(from: Ps, dir: Direction) -> (int, int) {
    match dir {
        Direction::Up => (from.x as int, from.y + 1),
        Direction::Down => (from.x as int, from.y - 1),
        Direction::Left => (from.x - 1, from.y as int),
        Direction::Right => (from.x + 1, from.y as int),
    }
}

/// A direction exists exactly between cells that share an edge, and it
/// points from the one to the other.
pub proof fn lemma_direction_between(from: Ps, to: Ps)
    ensures
        direction_between(from, to) is Some <==> from.adjacent(to),
        direction_between(from, to) matches Some(dir) ==> neighbour(from, dir) == (
            to.x as int,
            to.y as int,
        ),
{
}

/// The direction of the step from `from` to `to`; `None` where the cells do
/// not share an edge, so that no single step leads from one to the other.
pub fn try_get_direction_from_to(from: Ps, to: Ps) -> (r: Option<Direction>)
    ensures
        r == direction_between(from, to),
        r is Some <==> from.adjacent(to),
{
    if to.x == from.x {
        if from.y < usize::MAX && to.y == from.y + 1 {
            Some(Direction::Up)
        } else if to.y < usize::MAX && to.y + 1 == from.y {
            Some(Direction::Down)
        } else {
            None
        }
    } else if to.y == from.y {
        if from.x < usize::MAX && to.x == from.x + 1 {
            Some(Direction::Right)
        } else if to.x < usize::MAX && to.x + 1 == from.x {
            Some(Direction::Left)
        } else {
            None
        }
    } else {
        None
    }
}

/// The direction of the step between two cells that share an edge.
pub fn get_direction_from_to(from: Ps, to: Ps) -> (r: Direction)
    requires
        from.adjacent(to),
    ensures
        Some(r) == direction_between(from, to),
{
    match try_get_direction_from_to(from, to) {
        Some(direction) => direction,
        None => Direction::Up,
    }
}

/// The cell at index `i` of `path` shares an edge with the cell before it.
pub open spec fn linked(path: Seq<Ps>, i: int) -> bool {
    path[i - 1].adjacent(path[i])
}

/// Every cell of `path` but the first shares an edge with the cell before.
pub open spec fn chained(path: Seq<Ps>) -> bool {
    forall|i: int| 1 <= i < path.len() ==> #[trigger] linked(path, i)
}

/// Looks for the first place where `path` jumps: two cells in a row that do
/// not share an edge. Returns the two cells and the index of the second, or
/// `None` for a path without a jump.
pub fn validate_path(path: &Vec<Ps>) -> (r: Option<(Ps, Ps, usize)>)
    ensures
        r is None <==> chained(path@),
        r matches Some((before, after, at)) ==> {
            &&& 1 <= at < path.len()
            &&& before == path[at - 1]
            &&& after == path[at as int]
            &&& !before.adjacent(after)
            &&& chained(path@.take(at as int))
        },
{
    let mut i: usize = 1;
    while i < path.len()
        invariant
            1 <= i,
            forall|j: int| 1 <= j < i && j < path.len() ==> #[trigger] linked(path@, j),
        decreases path.len() - i,
    {
        let prev = path[i - 1];
        let current = path[i];
        if !prev.is_adjacent(&current) {
            assert(chained(path@.take(i as int))) by {
                assert forall|j: int| 1 <= j < path@.take(i as int).len() implies #[trigger] linked(
                    path@.take(i as int),
                    j,
                ) by {
                    assert(linked(path@, j));
                }
            }
            assert(!linked(path@, i as int));
            return Some((prev, current, i));
        }
        assert(linked(path@, i as int));
        i += 1;
    }
    None
}

/// A path whose first cell is next to `start` and which has no jump is
/// connected from `start`, and the other way round.
pub proof fn lemma_chained_connected(start: Ps, steps: Seq<Ps>)
    ensures
        connected_from(start, steps) <==> (chained(steps) && (steps.len() > 0 ==> start.adjacent(
            steps[0],
        ))),
{
    if connected_from(start, steps) {
        assert forall|i: int| 1 <= i < steps.len() implies #[trigger] linked(steps, i) by {
            assert(standing_before(start, steps, i).adjacent(steps[i]));
        }
        if steps.len() > 0 {
            assert(standing_before(start, steps, 0).adjacent(steps[0]));
        }
    }
    if chained(steps) && (steps.len() > 0 ==> start.adjacent(steps[0])) {
        assert forall|i: int| 0 <= i < steps.len() implies (#[trigger] standing_before(
            start,
            steps,
            i,
        )).adjacent(steps[i]) by {
            if i > 0 {
                assert(linked(steps, i));
            }
        }
    }
}

/// Where an agent wants to go and how: the cell it heads for, the steps
/// that remain, and whether its next step was found blocked.
#[derive(Debug)]
pub struct MovementIntention {
    pub target: Option<Ps>,
    pub calculated_steps: Vec<Ps>,
    pub stuck: bool,
}

/// `steps` without its first `count` cells, or without all of them if it has
/// fewer.
pub open spec fn without_front(steps: Seq<Ps>, count: int) -> Seq<Ps> {
    if count >= steps.len() {
        Seq::empty()
    } else {
        steps.skip(count)
    }
}

impl MovementIntention {
    /// Whether the agent heads for a cell.
    pub fn has_target(&self) -> (r: bool)
        ensures
            r == self.target is Some,
    {
        self.target.is_some()
    }

    /// Notes that the next step is blocked.
    pub fn stuck(&mut self)
        ensures
            final(self).stuck,
            final(self).target == old(self).target,
            final(self).calculated_steps == old(self).calculated_steps,
    {
        self.stuck = true
    }

    /// Notes that the agent moves again.
    pub fn unstuck(&mut self)
        ensures
            !final(self).stuck,
            final(self).target == old(self).target,
            final(self).calculated_steps == old(self).calculated_steps,
    {
        self.stuck = false
    }

    /// Drops the first `remove_all_including` steps, or all steps if there
    /// are fewer.
    pub fn remove_front(&mut self, remove_all_including: usize)
        ensures
            final(self).calculated_steps@ == without_front(
                old(self).calculated_steps@,
                remove_all_including as int,
            ),
            final(self).target == old(self).target,
            final(self).stuck == old(self).stuck,
    {
        let empty: Vec<Ps> = Vec::new();
        self.replace_front(&empty, remove_all_including);
        assert(empty@ + without_front(old(self).calculated_steps@, remove_all_including as int)
            =~= without_front(old(self).calculated_steps@, remove_all_including as int));
    }

    /// Puts the steps of `path` in front of the steps that remain.
    pub fn prepend(&mut self, path: &Vec<Ps>)
        ensures
            final(self).calculated_steps@ == path@ + old(self).calculated_steps@,
            final(self).target == old(self).target,
            final(self).stuck == old(self).stuck,
    {
        self.replace_front(path, 0);
        assert(without_front(old(self).calculated_steps@, 0) =~= old(self).calculated_steps@);
    }

    /// Replaces the first `remove_all_including` steps by the steps of
    /// `path`.
    pub fn replace_front(&mut self, path: &Vec<Ps>, remove_all_including: usize)
        ensures
            final(self).calculated_steps@ == path@ + without_front(
                old(self).calculated_steps@,
                remove_all_including as int,
            ),
            final(self).target == old(self).target,
            final(self).stuck == old(self).stuck,
    {
        let mut spliced: Vec<Ps> = Vec::new();
        let mut i: usize = 0;
        while i < path.len()
            invariant
                i <= path.len(),
                spliced@ == path@.take(i as int),
            decreases path.len() - i,
        {
            spliced.push(path[i]);
            assert(path@.take(i as int).push(path[i as int]) =~= path@.take(i + 1));
            i += 1;
        }
        assert(path@.take(path.len() as int) =~= path@);
        let ghost rest = without_front(self.calculated_steps@, remove_all_including as int);
        let mut k: usize = remove_all_including;
        if k >= self.calculated_steps.len() {
            assert(spliced@ =~= path@ + rest);
        } else {
            while k < self.calculated_steps.len()
                invariant
                    remove_all_including <= k <= self.calculated_steps.len(),
                    remove_all_including < self.calculated_steps.len(),
                    self.calculated_steps == old(self).calculated_steps,
                    rest == old(self).calculated_steps@.skip(remove_all_including as int),
                    spliced@ == path@ + rest.take(k - remove_all_including),
                decreases self.calculated_steps.len() - k,
            {
                spliced.push(self.calculated_steps[k]);
                assert(rest.take(k - remove_all_including).push(
                    self.calculated_steps[k as int],
                ) =~= rest.take(k + 1 - remove_all_including));
                assert(spliced@ =~= path@ + rest.take(k + 1 - remove_all_including));
                k += 1;
            }
            assert(rest.take(rest.len() as int) =~= rest);
        }
        self.calculated_steps = spliced;
    }
}

/// Where something that moves is: its cell, its offset inside the cell and
/// the direction of the step it is making, if it is making one.
#[derive(Clone, Copy, Debug, PartialEq, Eq, Structural)]
pub struct MovingObjectData {
    pub pos: Ps,
    pub offset: Offset,
    pub direction: Option<Direction>,
}

/// The offset right after a step in direction `dir` has begun: the thing has
/// entered its new cell at the edge it came through.
pub open spec fn entry_offset(before: Offset, dir: Direction) -> Offset {
    match dir {
        Direction::Down => Offset { y: OFFSET_UNIT, ..before },
        Direction::Up => Offset { y: (-OFFSET_UNIT) as i32, ..before },
        Direction::Left => Offset { x: OFFSET_UNIT, ..before },
        Direction::Right => Offset { x: (-OFFSET_UNIT) as i32, ..before },
    }
}

/// Whether an offset of `value` on the axis of travel, after it slid by
/// `ds`, counts as arrived. `rising` says that the offset grows towards zero.
pub open spec fn slide_arrives(value: i32, ds: u64, rising: bool) -> bool {
    if rising {
        value + ds > -ARRIVAL_THRESHOLD
    } else {
        value - ds < ARRIVAL_THRESHOLD
    }
}

/// The offset `value` after it slid by `ds` without arriving.
pub open spec fn slid(value: i32, ds: u64, rising: bool) -> i32 {
    if rising {
        (value + ds) as i32
    } else {
        (value - ds) as i32
    }
}

impl MovingObjectData {
    /// The state after `ds` thousandths of a cell of sliding towards the
    /// centre of the cell.
    pub open spec fn slide(self, ds: u64) -> MovingObjectData {
        match self.direction {
            None => self,
            Some(dir) => {
                let rising = dir == Direction::Up || dir == Direction::Right;
                let vertical = dir == Direction::Up || dir == Direction::Down;
                let value = if vertical {
                    self.offset.y
                } else {
                    self.offset.x
                };
                if slide_arrives(value, ds, rising) {
                    MovingObjectData {
                        pos: self.pos,
                        offset: Offset { x: 0, y: 0 },
                        direction: None,
                    }
                } else if vertical {
                    MovingObjectData {
                        offset: Offset { y: slid(value, ds, rising), ..self.offset },
                        ..self
                    }
                } else {
                    MovingObjectData {
                        offset: Offset { x: slid(value, ds, rising), ..self.offset },
                        ..self
                    }
                }
            },
        }
    }

    /// The state right after a step in direction `dir` has begun.
    pub open spec fn begun(self, dir: Direction) -> MovingObjectData {
        MovingObjectData {
            pos: Ps {
                x: neighbour(self.pos, dir).0 as usize,
                y: neighbour(self.pos, dir).1 as usize,
            },
            offset: entry_offset(self.offset, dir),
            direction: Some(dir),
        }
    }

    /// A step in direction `dir` stays among the cells that coordinates can
    /// name.
    pub open spec fn can_begin(self, dir: Direction) -> bool {
        0 <= neighbour(self.pos, dir).0 <= usize::MAX && 0 <= neighbour(self.pos, dir).1
            <= usize::MAX
    }

    /// The drawing position in thousandths of a cell: the cell's centre plus
    /// the offset.
    pub fn get_exact_pos(&self) -> (r: (i128, i128))
        ensures
            r.0 == self.pos.x * OFFSET_UNIT + self.offset.x,
            r.1 == self.pos.y * OFFSET_UNIT + self.offset.y,
    {
        (
            (self.pos.x as i128) * (OFFSET_UNIT as i128) + self.offset.x as i128,
            (self.pos.y as i128) * (OFFSET_UNIT as i128) + self.offset.y as i128,
        )
    }

    /// Slides the axis of travel by `ds` and tells whether the thing has
    /// arrived; on arrival it stops and is centred.
    fn check_movement_stop(&mut self, value: i32, ds: u64, vertical: bool, rising: bool) -> (r:
        Option<Ps>)
        requires
            old(self).direction is Some,
        ensures
            slide_arrives(value, ds, rising) ==> r == Some(old(self).pos) && *final(self) == (
            MovingObjectData {
                pos: old(self).pos,
                offset: Offset { x: 0, y: 0 },
                direction: None,
            }),
            !slide_arrives(value, ds, rising) ==> r is None && *final(self) == (if vertical {
                MovingObjectData {
                    offset: Offset { y: slid(value, ds, rising), ..old(self).offset },
                    ..*old(self)
                }
            } else {
                MovingObjectData {
                    offset: Offset { x: slid(value, ds, rising), ..old(self).offset },
                    ..*old(self)
                }
            }),
    {
        let limit: i64 = (ARRIVAL_THRESHOLD as i64) + (i32::MAX as i64) + 1;
        let arrives: bool = if rising {
            ds >= limit as u64 || (value as i64) + (ds as i64) > -(ARRIVAL_THRESHOLD as i64)
        } else {
            ds >= limit as u64 || (value as i64) - (ds as i64) < ARRIVAL_THRESHOLD as i64
        };
        if arrives {
            self.direction = None;
            self.offset = Offset { x: 0, y: 0 };
            Some(self.pos)
        } else {
            let moved: i32 = if rising {
                ((value as i64) + (ds as i64)) as i32
            } else {
                ((value as i64) - (ds as i64)) as i32
            };
            if vertical {
                self.offset.y = moved;
            } else {
                self.offset.x = moved;
            }
            None
        }
    }

    /// Slides the thing by `ds` thousandths of a cell towards the centre of
    /// its cell. Once the offset on the axis of travel is closer to the
    /// centre than `ARRIVAL_THRESHOLD`, the step is over: the direction is
    /// cleared, the offset is set to zero and the cell is returned.
    pub fn follow_direction_until_stop(&mut self, ds: u64) -> (r: Option<Ps>)
        ensures
            *final(self) == old(self).slide(ds),
            r is Some <==> old(self).direction is Some && final(self).direction is None,
            r matches Some(cell) ==> cell == old(self).pos,
    {
        match self.direction {
            Some(Direction::Up) => self.check_movement_stop(self.offset.y, ds, true, true),
            Some(Direction::Down) => self.check_movement_stop(self.offset.y, ds, true, false),
            Some(Direction::Left) => self.check_movement_stop(self.offset.x, ds, false, false),
            Some(Direction::Right) => self.check_movement_stop(self.offset.x, ds, false, true),
            None => None,
        }
    }

    /// Begins a step in direction `dir`: the thing is on the next cell at
    /// once, at the edge it entered through.
    pub fn start_move_direction(&mut self, dir: Direction)
        requires
            old(self).can_begin(dir),
        ensures
            *final(self) == old(self).begun(dir),
    {
        match dir {
            Direction::Down => self.pos.y -= 1,
            Direction::Up => self.pos.y += 1,
            Direction::Left => self.pos.x -= 1,
            Direction::Right => self.pos.x += 1,
        }
        match dir {
            Direction::Down => self.offset.y = OFFSET_UNIT,
            Direction::Up => self.offset.y = -OFFSET_UNIT,
            Direction::Left => self.offset.x = OFFSET_UNIT,
            Direction::Right => self.offset.x = -OFFSET_UNIT,
        }
        self.direction = Some(dir)
    }
}

/// The offset never leaves the cell: neither when a step begins nor while
/// the thing slides, however far.
pub proof fn lemma_offset_stays_in_cell(thing: MovingObjectData, dir: Direction, ds: u64)
    requires
        thing.offset.in_cell(),
    ensures
        thing.begun(dir).offset.in_cell(),
        thing.slide(ds).offset.in_cell(),
{
}

impl PsProvider for MovingObjectData {
    open spec fn current_ps(&self) -> Ps {
        self.pos
    }

    fn get_current_ps(&self) -> (r: Ps) {
        self.pos
    }
}

/// Something that moves by itself: where it is, and how fast it slides, in
/// thousandths of a cell per second.
#[derive(Clone, Copy, Debug, PartialEq, Eq, Structural)]
pub struct SelfMovingThingData {
    pub loc: MovingObjectData,
    pub speed: u32,
}

/// How far a thing of speed `speed` slides in `dt` milliseconds, in
/// thousandths of a cell.
pub open spec fn slide_length(speed: u32, dt: u32) -> u64 {
    (speed * dt / 1000) as u64
}

impl SelfMovingThingData {
    pub fn get_exact_pos(&self) -> (r: (i128, i128))
        ensures
            r.0 == self.loc.pos.x * OFFSET_UNIT + self.loc.offset.x,
            r.1 == self.loc.pos.y * OFFSET_UNIT + self.loc.offset.y,
    {
        self.loc.get_exact_pos()
    }

    /// Lets `dt` milliseconds pass: the thing slides by its speed times `dt`.
    pub fn follow_direction_until_stop(&mut self, dt: u32) -> (r: Option<Ps>)
        ensures
            final(self).speed == old(self).speed,
            final(self).loc == old(self).loc.slide(slide_length(old(self).speed, dt)),
            r is Some <==> old(self).loc.direction is Some && final(self).loc.direction is None,
            r matches Some(cell) ==> cell == old(self).loc.pos,
    {
        assert(self.speed * dt <= 0xffff_ffff * 0xffff_ffff) by (nonlinear_arith)
            requires
                0 <= self.speed <= 0xffff_ffff,
                0 <= dt <= 0xffff_ffff,
        ;
        let ds: u64 = (self.speed as u64) * (dt as u64) / 1000;
        self.loc.follow_direction_until_stop(ds)
    }

    pub fn start_move_direction(&mut self, dir: Direction)
        requires
            old(self).loc.can_begin(dir),
        ensures
            final(self).speed == old(self).speed,
            final(self).loc == old(self).loc.begun(dir),
    {
        self.loc.start_move_direction(dir)
    }
}

impl PsProvider for SelfMovingThingData {
    open spec fn current_ps(&self) -> Ps {
        self.loc.pos
    }

    fn get_current_ps(&self) -> (r: Ps) {
        self.loc.get_current_ps()
    }
}

/// Anything that has a cell and an offset inside it.
pub trait PsOffsetProvider {
    spec fn ps(&self) -> Ps;

    spec fn offset_in_cell(&self) -> Offset;

    fn get_ps(&self) -> (r: Ps)
        ensures
            r == self.ps(),
    ;

    fn get_offset(&self) -> (r: Offset)
        ensures
            r == self.offset_in_cell(),
    ;
}

/// A cell and an offset inside it.
#[derive(Clone, Copy, Debug, PartialEq, Eq, Structural)]
pub struct PsOffsetContainer {
    pub pos: Ps,
    pub offset: Offset,
}

impl PsOffsetProvider for PsOffsetContainer {
    open spec fn ps(&self) -> Ps {
        self.pos
    }

    open spec fn offset_in_cell(&self) -> Offset {
        self.offset
    }

    fn get_ps(&self) -> (r: Ps) {
        self.pos
    }

    fn get_offset(&self) -> (r: Offset) {
        self.offset
    }
}

/// How many steps of a path of `len` steps are trusted, given the two
/// random draws that decide it.
///
/// A path of fewer than `SHORT_PATH` steps is trusted entirely. Of a longer
/// one a random share between half of it and all of it is trusted
/// (`len / 2 + share_roll` steps), but no more than a random cap
/// (`RELIABLE_CAP_LOW + cap_roll`) and no fewer than `MIN_RELIABLE_STEPS`.
pub open spec fn reliable_steps_of(len: usize, share_roll: usize, cap_roll: usize) -> int {
    if len < SHORT_PATH {
        len as int
    } else {
        let share = len / 2 + share_roll;
        let cap = RELIABLE_CAP_LOW + cap_roll;
        let capped = if share < cap {
            share
        } else {
            cap
        };
        if capped < MIN_RELIABLE_STEPS {
            MIN_RELIABLE_STEPS as int
        } else {
            capped
        }
    }
}

/// Computes `reliable_steps_of` for draws that are in range.
pub fn reliable_steps_for(len: usize, share_roll: usize, cap_roll: usize) -> (r: isize)
    requires
        len >= SHORT_PATH ==> share_roll < len - len / 2 && cap_roll < RELIABLE_CAP_SPREAD,
    ensures
        r == reliable_steps_of(len, share_roll, cap_roll),
        len < SHORT_PATH ==> r == len,
        len >= SHORT_PATH ==> MIN_RELIABLE_STEPS <= r < RELIABLE_CAP_LOW + RELIABLE_CAP_SPREAD,
{
    if len < SHORT_PATH {
        len as isize
    } else {
        let share: usize = len / 2 + share_roll;
        let cap: usize = RELIABLE_CAP_LOW + cap_roll;
        let capped: usize = if share < cap {
            share
        } else {
            cap
        };
        if capped < MIN_RELIABLE_STEPS {
            MIN_RELIABLE_STEPS as isize
        } else {
            capped as isize
        }
    }
}

/// `budget` after one more step was taken.
pub open spec fn lowered(budget: isize) -> isize {
    if budget > isize::MIN {
        (budget - 1) as isize
    } else {
        budget
    }
}

/// The routing state of an agent as a value.
pub struct RoutingView {
    pub movement: SelfMovingThingData,
    pub target: Option<Ps>,
    pub steps: Seq<Ps>,
    pub stuck: bool,
    pub reliable_steps_left: isize,
    pub reached_cell: bool,
}

impl RoutingView {
    /// The state of an agent that was just made: at rest on `pos`, a little
    /// above the centre of the cell, without a target or a path, and counted
    /// as having reached its cell.
    pub open spec fn resting(speed: u32, pos: Ps) -> RoutingView {
        RoutingView {
            movement: SelfMovingThingData {
                loc: MovingObjectData { pos, offset: Offset { x: 0, y: 500 }, direction: None },
                speed,
            },
            target: None,
            steps: Seq::empty(),
            stuck: false,
            reliable_steps_left: 0,
            reached_cell: true,
        }
    }

    /// The cell the agent stands on.
    pub open spec fn pos(self) -> Ps {
        self.movement.loc.pos
    }

    /// The steps that remain lead from the agent's cell on, each to a cell
    /// that shares an edge with the one before.
    pub open spec fn on_track(self) -> bool {
        connected_from(self.pos(), self.steps)
    }

    /// The state after the agent tried to take the next step of its path.
    ///
    /// Without a target nothing happens. With one, the flags `stuck` and
    /// `reached_cell` are cleared and the next step leaves the path; where
    /// that step leads to a cell next to the agent's, the agent is on it at
    /// once, at the edge it entered through, and one trusted step is used up.
    pub open spec fn step_taken(self) -> RoutingView {
        if self.target is None {
            self
        } else if self.steps.len() == 0 {
            RoutingView { stuck: false, reached_cell: false, ..self }
        } else {
            match direction_between(self.pos(), self.steps[0]) {
                Some(dir) => RoutingView {
                    movement: SelfMovingThingData {
                        loc: MovingObjectData {
                            pos: self.steps[0],
                            offset: entry_offset(self.movement.loc.offset, dir),
                            direction: Some(dir),
                        },
                        speed: self.movement.speed,
                    },
                    target: self.target,
                    steps: self.steps.drop_first(),
                    stuck: false,
                    reliable_steps_left: lowered(self.reliable_steps_left),
                    reached_cell: false,
                },
                None => RoutingView {
                    steps: self.steps.drop_first(),
                    stuck: false,
                    reached_cell: false,
                    ..self
                },
            }
        }
    }

    /// The state after the agent has slid to the centre of its cell.
    pub open spec fn arrived(self) -> RoutingView {
        RoutingView {
            movement: SelfMovingThingData {
                loc: MovingObjectData {
                    pos: self.pos(),
                    offset: Offset { x: 0, y: 0 },
                    direction: None,
                },
                speed: self.movement.speed,
            },
            ..self
        }
    }

    /// The state after `n` completed steps: `n` times, a step was taken and
    /// the agent slid to the centre of the cell it entered.
    pub open spec fn walked(self, n: nat) -> RoutingView
        decreases n,
    {
        if n == 0 {
            self
        } else {
            self.step_taken().arrived().walked((n - 1) as nat)
        }
    }

    /// The state after the path was given up.
    pub open spec fn stopped(self) -> RoutingView {
        RoutingView { target: None, steps: Seq::empty(), reached_cell: false, ..self }
    }

    /// The agent has no target, or stands on it.
    pub open spec fn at_destination(self) -> bool {
        match self.target {
            None => true,
            Some(target) => self.pos() == target,
        }
    }

    /// Too little of the path is left, or too little trust in it, to repair
    /// it locally.
    pub open spec fn no_reliable_steps(self) -> bool {
        self.steps.len() < FEW_STEPS_LEFT || self.reliable_steps_left <= 0
    }

    /// An agent that completes every step of a connected path of `n` steps
    /// stands on the path's last cell, at rest in the centre of the cell, and
    /// has no step left.
    pub proof fn lemma_walk_arrives(self, n: nat)
        requires
            self.target is Some,
            self.steps.len() == n,
            self.on_track(),
        ensures
            self.walked(n).pos() == end_of(self.pos(), self.steps),
            self.walked(n).steps.len() == 0,
            self.walked(n).target == self.target,
            n > 0 ==> self.walked(n).movement.loc.direction is None && self.walked(
                n,
            ).movement.loc.offset == (Offset { x: 0, y: 0 }),
        decreases n,
    {
        if n > 0 {
            let next = self.step_taken().arrived();
            assert(standing_before(self.pos(), self.steps, 0).adjacent(self.steps[0]));
            lemma_direction_between(self.pos(), self.steps[0]);
            assert(next.pos() == self.steps[0]);
            assert(next.steps == self.steps.drop_first());
            assert forall|i: int| 0 <= i < next.steps.len() implies (#[trigger] standing_before(
                next.pos(),
                next.steps,
                i,
            )).adjacent(next.steps[i]) by {
                assert(next.steps[i] == self.steps[i + 1]);
                assert(standing_before(self.pos(), self.steps, i + 1).adjacent(self.steps[i + 1]));
            }
            next.lemma_walk_arrives((n - 1) as nat);
            if n > 1 {
                assert(next.steps.last() == self.steps.last());
            }
        }
    }
}

/// Everything an agent knows about its own movement: where it is, the path
/// it follows, how many steps of it are still trusted, and whether the cell
/// it headed for was reached.
#[derive(Debug)]
pub struct SelfRoutingData {
    pub movement: SelfMovingThingData,
    pub current_move_path: MovementIntention,
    pub reliable_steps_left: isize,
    pub reached_cell: bool,
}

impl View for SelfRoutingData {
    type V = RoutingView;

    open spec fn view(&self) -> RoutingView {
        RoutingView {
            movement: self.movement,
            target: self.current_move_path.target,
            steps: self.current_move_path.calculated_steps@,
            stuck: self.current_move_path.stuck,
            reliable_steps_left: self.reliable_steps_left,
            reached_cell: self.reached_cell,
        }
    }
}

impl PsProvider for SelfRoutingData {
    open spec fn current_ps(&self) -> Ps {
        self.movement.loc.pos
    }

    fn get_current_ps(&self) -> (r: Ps) {
        self.movement.get_current_ps()
    }
}

impl PsOffsetProvider for SelfRoutingData {
    open spec fn ps(&self) -> Ps {
        self.movement.loc.pos
    }

    open spec fn offset_in_cell(&self) -> Offset {
        self.movement.loc.offset
    }

    fn get_ps(&self) -> (r: Ps) {
        self.get_current_ps()
    }

    fn get_offset(&self) -> (r: Offset) {
        self.movement.loc.offset
    }
}

impl SelfRoutingData {
    /// An agent at rest on `initial_position`, without a path.
    pub fn new(speed: u32, initial_position: Ps) -> (r: SelfRoutingData)
        ensures
            r@ == RoutingView::resting(speed, initial_position),
    {
        SelfRoutingData {
            movement: SelfMovingThingData {
                loc: MovingObjectData {
                    pos: initial_position,
                    offset: Offset { x: 0, y: OFFSET_UNIT / 2 },
                    direction: None,
                },
                speed,
            },
            current_move_path: MovementIntention {
                target: None,
                calculated_steps: Vec::new(),
                stuck: false,
            },
            reliable_steps_left: 0,
            reached_cell: true,
        }
    }

    pub fn as_ps_offset_container(&self) -> (r: PsOffsetContainer)
        ensures
            r.pos == self@.pos(),
            r.offset == self@.movement.loc.offset,
    {
        PsOffsetContainer { pos: self.get_current_ps(), offset: self.get_offset() }
    }

    /// The direction of the step onto `to`, which must be next to the agent.
    pub fn get_next_direction(&self, to: Ps) -> (r: Direction)
        requires
            self@.pos().adjacent(to),
        ensures
            Some(r) == direction_between(self@.pos(), to),
    {
        get_direction_from_to(self.movement.loc.pos, to)
    }

    /// The direction of the step onto `to`, if `to` is next to the agent.
    pub fn try_get_next_direction(&self, to: Ps) -> (r: Option<Direction>)
        ensures
            r == direction_between(self@.pos(), to),
            r is Some <==> self@.pos().adjacent(to),
    {
        try_get_direction_from_to(self.movement.loc.pos, to)
    }

    /// The next step of the path, if the agent has a target and a step left.
    pub fn peek_next_loc(&self) -> (r: Option<Ps>)
        ensures
            r is Some <==> self@.target is Some && self@.steps.len() > 0,
            r matches Some(next) ==> next == self@.steps[0],
    {
        if self.current_move_path.has_target()
            && self.current_move_path.calculated_steps.len() > 0 {
            Some(self.current_move_path.calculated_steps[0])
        } else {
            None
        }
    }

    /// Gives up the path and the target.
    pub fn stop_moving(&mut self)
        ensures
            final(self)@ == old(self)@.stopped(),
    {
        self.current_move_path.target = None;
        self.current_move_path.calculated_steps = Vec::new();
        self.reached_cell = false;
        assert(self@.steps =~= Seq::empty());
    }

    pub fn stuck(&mut self)
        ensures
            final(self)@ == (RoutingView { stuck: true, ..old(self)@ }),
    {
        self.current_move_path.stuck()
    }

    pub fn unstuck(&mut self)
        ensures
            final(self)@ == (RoutingView { stuck: false, ..old(self)@ }),
    {
        self.current_move_path.unstuck()
    }

    pub fn is_stuck_flag(&self) -> (r: bool)
        ensures
            r == self@.stuck,
    {
        self.current_move_path.stuck
    }

    /// Takes the next step off the path. With a target, this also clears the
    /// flags `stuck` and `reached_cell`, whether or not a step was left.
    pub fn consume_next_loc(&mut self) -> (r: Option<Ps>)
        ensures
            old(self)@.target is None ==> r is None && final(self)@ == old(self)@,
            old(self)@.target is Some ==> final(self)@ == (RoutingView {
                steps: without_front(old(self)@.steps, 1),
                stuck: false,
                reached_cell: false,
                ..old(self)@
            }),
            r is Some <==> old(self)@.target is Some && old(self)@.steps.len() > 0,
            r matches Some(next) ==> next == old(self)@.steps[0],
    {
        if self.current_move_path.has_target() {
            self.reached_cell = false;
            self.unstuck();
            if self.current_move_path.calculated_steps.len() > 0 {
                let popd = self.current_move_path.calculated_steps.remove(0);
                assert(self@.steps =~= without_front(old(self)@.steps, 1));
                Some(popd)
            } else {
                assert(self@.steps =~= without_front(old(self)@.steps, 1));
                None
            }
        } else {
            None
        }
    }

    /// Takes the next step of the path: the agent moves onto the next cell
    /// at once and starts sliding to its centre. Returns the direction of
    /// the step. Returns `None`, without moving, where there is no target,
    /// no step left, or the next cell of the path is not next to the agent.
    pub fn step_next_direction(&mut self) -> (r: Option<Direction>)
        ensures
            final(self)@ == old(self)@.step_taken(),
            r is Some <==> old(self)@.target is Some && old(self)@.steps.len() > 0
                && old(self)@.pos().adjacent(old(self)@.steps[0]),
            r matches Some(dir) ==> Some(dir) == direction_between(
                old(self)@.pos(),
                old(self)@.steps[0],
            ) && final(self)@.pos() == old(self)@.steps[0],
            r is None ==> final(self)@.movement == old(self)@.movement,
    {
        match self.consume_next_loc() {
            None => {
                assert(self@.steps =~= old(self)@.step_taken().steps);
                None
            },
            Some(loc) => {
                assert(self@.steps =~= old(self)@.steps.drop_first());
                if let Some(direction) = self.try_get_next_direction(loc) {
                    proof {
                        lemma_direction_between(self@.pos(), loc);
                    }
                    self.unstuck();
                    if self.reliable_steps_left > isize::MIN {
                        self.reliable_steps_left -= 1;
                    }
                    self.start_move_direction(direction);
                    self.movement.loc.pos = loc;
                    Some(direction)
                } else {
                    None
                }
            },
        }
    }

    /// Whether the agent stands on its target; an agent without a target
    /// counts as arrived.
    pub fn is_destination_cell_reached(&self) -> (r: bool)
        ensures
            r == self@.at_destination(),
    {
        match self.current_move_path.target {
            None => true,
            Some(dest) => self.movement.loc.pos.x == dest.x && self.movement.loc.pos.y == dest.y,
        }
    }

    /// Gives up the path where the agent stands on its target (or has none):
    /// the flag `reached_cell` is set and no step is trusted any more.
    pub fn stop_if_destination_cell_reached(&mut self) -> (r: bool)
        ensures
            r == old(self)@.at_destination(),
            r ==> final(self)@ == (RoutingView {
                target: None,
                steps: Seq::empty(),
                reached_cell: true,
                reliable_steps_left: 0,
                ..old(self)@
            }),
            !r ==> final(self)@ == old(self)@,
    {
        if self.is_destination_cell_reached() {
            self.stop_moving();
            self.reached_cell = true;
            self.reliable_steps_left = 0;
            return true;
        }
        false
    }

    /// Draws the number of steps of a path of `max` steps that are trusted:
    /// all of them for a short path; for a longer one a random share of at
    /// least half, capped at random below `RELIABLE_CAP_LOW +
    /// RELIABLE_CAP_SPREAD` and never fewer than `MIN_RELIABLE_STEPS`.
    pub fn calculate_reliable_steps(&self, max: usize) -> (r: isize)
        ensures
            max < SHORT_PATH ==> r == max,
            max >= SHORT_PATH ==> MIN_RELIABLE_STEPS <= r < RELIABLE_CAP_LOW + RELIABLE_CAP_SPREAD,
            exists|share_roll: usize, cap_roll: usize|
                r == #[trigger] reliable_steps_of(max, share_roll, cap_roll) && (max >= SHORT_PATH
                    ==> share_roll < max - max / 2 && cap_roll < RELIABLE_CAP_SPREAD),
    {
        if max < SHORT_PATH {
            let r: isize = reliable_steps_for(max, 0, 0);
            assert(r == reliable_steps_of(max, 0, 0));
            r
        } else {
            let share_roll: usize = random_below(max - max / 2);
            let cap_roll: usize = random_below(RELIABLE_CAP_SPREAD);
            let r: isize = reliable_steps_for(max, share_roll, cap_roll);
            assert(r == reliable_steps_of(max, share_roll, cap_roll));
            r
        }
    }

    /// The step `min` steps ahead and its distance `min`, or, where the path
    /// is no longer than that, its last step and the length of the path.
    /// `None` for an empty path.
    pub fn peek_close_step_or_final_step(&self, min: usize) -> (r: Option<(Ps, usize)>)
        requires
            min >= 1,
        ensures
            r is None <==> self@.steps.len() == 0,
            r matches Some((cell, ahead)) ==> {
                &&& 1 <= ahead <= self@.steps.len()
                &&& ahead == if self@.steps.len() > min {
                    min as int
                } else {
                    self@.steps.len() as int
                }
                &&& cell == self@.steps[ahead - 1]
            },
    {
        let len: usize = self.current_move_path.calculated_steps.len();
        if len > min {
            Some((self.current_move_path.calculated_steps[min - 1], min))
        } else if len > 0 {
            Some((self.current_move_path.calculated_steps[len - 1], len))
        } else {
            None
        }
    }

    /// Starts to follow `path` towards `target`.
    pub fn set_movement_path(&mut self, path: Vec<Ps>, target: Ps)
        ensures
            final(self)@.movement == old(self)@.movement,
            final(self)@.target == Some(target),
            final(self)@.steps == path@,
            !final(self)@.stuck,
            !final(self)@.reached_cell,
            path.len() < SHORT_PATH ==> final(self)@.reliable_steps_left == path.len(),
            path.len() >= SHORT_PATH ==> MIN_RELIABLE_STEPS <= final(self)@.reliable_steps_left
                < RELIABLE_CAP_LOW + RELIABLE_CAP_SPREAD,
    {
        self.reliable_steps_left = self.calculate_reliable_steps(path.len());
        self.reached_cell = false;
        self.current_move_path = MovementIntention {
            calculated_steps: path,
            target: Some(target),
            stuck: false,
        }
    }

    /// Replaces the first `remove_all_including` steps of the path by the
    /// steps of `path`, and draws anew how many steps are trusted.
    pub fn change_near_movement_path(&mut self, path: &Vec<Ps>, remove_all_including: usize)
        ensures
            final(self)@.movement == old(self)@.movement,
            final(self)@.target == old(self)@.target,
            final(self)@.steps == path@ + without_front(
                old(self)@.steps,
                remove_all_including as int,
            ),
            final(self)@.stuck == old(self)@.stuck,
            !final(self)@.reached_cell,
            final(self)@.steps.len() < SHORT_PATH
                ==> final(self)@.reliable_steps_left == final(self)@.steps.len(),
            final(self)@.steps.len() >= SHORT_PATH
                ==> MIN_RELIABLE_STEPS <= final(self)@.reliable_steps_left < RELIABLE_CAP_LOW
                + RELIABLE_CAP_SPREAD,
    {
        self.reached_cell = false;
        self.current_move_path.replace_front(path, remove_all_including);
        self.reliable_steps_left = self.calculate_reliable_steps(
            self.current_move_path.calculated_steps.len(),
        );
    }

    /// Whether the path may no longer be repaired locally: fewer than
    /// `FEW_STEPS_LEFT` steps are left, or no step is trusted any more.
    pub fn is_no_reliabler_steps_left(&self) -> (r: bool)
        ensures
            r == self@.no_reliable_steps(),
    {
        if self.current_move_path.calculated_steps.len() < FEW_STEPS_LEFT {
            return true;
        }
        if self.reliable_steps_left <= 0 {
            return true;
        }
        false
    }

    pub fn get_exact_pos(&self) -> (r: (i128, i128))
        ensures
            r.0 == self@.pos().x * OFFSET_UNIT + self@.movement.loc.offset.x,
            r.1 == self@.pos().y * OFFSET_UNIT + self@.movement.loc.offset.y,
    {
        self.movement.get_exact_pos()
    }

    /// Lets `dt` milliseconds pass while the agent slides towards the centre
    /// of its cell. Returns the cell once the agent has arrived there; it is
    /// then at rest, as `arrived` says.
    pub fn follow_direction_until_stop(&mut self, dt: u32) -> (r: Option<Ps>)
        ensures
            final(self)@ == (RoutingView {
                movement: SelfMovingThingData {
                    loc: old(self)@.movement.loc.slide(slide_length(old(self)@.movement.speed, dt)),
                    speed: old(self)@.movement.speed,
                },
                ..old(self)@
            }),
            r is Some <==> old(self)@.movement.loc.direction is Some
                && final(self)@.movement.loc.direction is None,
            r is Some ==> final(self)@ == old(self)@.arrived(),
            r matches Some(cell) ==> cell == old(self)@.pos(),
    {
        self.movement.follow_direction_until_stop(dt)
    }

    /// Begins a step in direction `dir`, path or no path.
    pub fn start_move_direction(&mut self, dir: Direction)
        requires
            old(self)@.movement.loc.can_begin(dir),
        ensures
            final(self)@ == (RoutingView {
                movement: SelfMovingThingData {
                    loc: old(self)@.movement.loc.begun(dir),
                    speed: old(self)@.movement.speed,
                },
                stuck: false,
                ..old(self)@
            }),
    {
        self.unstuck();
        self.movement.start_move_direction(dir)
    }

    /// The position one step in direction `dir` from the agent, which may
    /// lie outside every grid. `None` where the agent's own coordinates do
    /// not fit a signed position.
    pub fn predict_next_pos(&self, dir: Direction) -> (r: Option<PsSigned>)
        ensures
            r is Some <==> self@.pos().x < isize::MAX && self@.pos().y < isize::MAX,
            r matches Some(next) ==> (next.x as int, next.y as int) == neighbour(self@.pos(), dir),
    {
        let here = self.movement.loc.pos;
        if here.x >= isize::MAX as usize || here.y >= isize::MAX as usize {
            return None;
        }
        let mut pos = PsSigned { x: here.x as isize, y: here.y as isize };
        match dir {
            Direction::Down => pos.y -= 1,
            Direction::Up => pos.y += 1,
            Direction::Left => pos.x -= 1,
            Direction::Right => pos.x += 1,
        }
        Some(pos)
    }

    pub fn is_reached_cell_flag_set(&self) -> (r: bool)
        ensures
            r == self@.reached_cell,
    {
        self.reached_cell
    }
}

} // verus!
