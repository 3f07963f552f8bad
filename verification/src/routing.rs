//! Shortest routes over the grid.
//!
//! A route is a list of cells to step on, one after the other, each sharing
//! an edge with the one before; the cell the route starts from is not part
//! of it. The search itself is the A* implementation of the `pathfinding`
//! crate, called with the grid's neighbour function.

use pathfinding::directed::astar::astar;
use vstd::prelude::*;

use crate::position::Ps;
use crate::random::shuffle_cells;
use crate::worldmap::Cellmap;

verus! {

broadcast use vstd::seq_lib::group_to_multiset_ensures;

/// The four steps that lead from a cell to the cells it shares an edge with.
pub const SUCCESSORS: [(isize, isize); 4] = [(1, 0), (0, 1), (-1, 0), (0, -1)];

/// An agent standing on `from` may step onto `to`: the two cells share an
/// edge, and `to` lies inside the grid, is passable and, where
/// `skip_occupied` is set, is not occupied.
pub open spec fn step_allowed(cellmap: &Cellmap, skip_occupied: bool, from: Ps, to: Ps) -> bool {
    from.adjacent(to) && cellmap.free(to, skip_occupied)
}

/// The cell from which step `i` of `steps` is taken, when the walk starts on
/// `start`.
pub open spec fn standing_before(start: Ps, steps: Seq<Ps>, i: int) -> Ps {
    if i == 0 {
        start
    } else {
        steps[i - 1]
    }
}

/// The cell on which a walk along `steps` ends, when it starts on `start`.
pub open spec fn end_of(start: Ps, steps: Seq<Ps>) -> Ps {
    if steps.len() == 0 {
        start
    } else {
        steps.last()
    }
}

/// Every step of `steps` goes to a cell that shares an edge with the cell
/// before it, the first one with `start`.
pub open spec fn connected_from(start: Ps, steps: Seq<Ps>) -> bool {
    forall|i: int|
        0 <= i < steps.len() ==> (#[trigger] standing_before(start, steps, i)).adjacent(steps[i])
}

/// `steps` is a route from `start` to `target`: every step is allowed on the
/// map as it stands, and the walk ends on `target`.
pub open spec fn is_route(
    cellmap: &Cellmap,
    skip_occupied: bool,
    start: Ps,
    target: Ps,
    steps: Seq<Ps>,
) -> bool {
    &&& forall|i: int|
        0 <= i < steps.len() ==> step_allowed(
            cellmap,
            skip_occupied,
            #[trigger] standing_before(start, steps, i),
            steps[i],
        )
    &&& end_of(start, steps) == target
}

/// No route from `start` to `target` is shorter than `steps`.
pub open spec fn is_shortest(
    cellmap: &Cellmap,
    skip_occupied: bool,
    start: Ps,
    target: Ps,
    steps: Seq<Ps>,
) -> bool {
    forall|other: Seq<Ps>|
        #[trigger] is_route(cellmap, skip_occupied, start, target, other) ==> steps.len()
            <= other.len()
}

/// `target` cannot be reached from `start`.
pub open spec fn no_route(cellmap: &Cellmap, skip_occupied: bool, start: Ps, target: Ps) -> bool {
    forall|other: Seq<Ps>| !#[trigger] is_route(cellmap, skip_occupied, start, target, other)
}

/// A route is connected.
pub proof fn lemma_route_is_connected(
    cellmap: &Cellmap,
    skip_occupied: bool,
    start: Ps,
    target: Ps,
    steps: Seq<Ps>,
)
    requires
        is_route(cellmap, skip_occupied, start, target, steps),
    ensures
        connected_from(start, steps),
{
    assert forall|i: int| 0 <= i < steps.len() implies (#[trigger] standing_before(
        start,
        steps,
        i,
    )).adjacent(steps[i]) by {
        assert(step_allowed(cellmap, skip_occupied, standing_before(start, steps, i), steps[i]));
    }
}

/// A cell that can list the cells an agent may step to from it.
pub trait PathfindPoint {
    /// The cell whose neighbours are listed.
    spec fn point(&self) -> Ps;

    /// The cells that an agent on this cell may step to, in random order,
    /// each once.
    fn successors(&self, cellmap: &Cellmap, skip_occupied: bool) -> (r: Vec<Ps>)
        requires
            cellmap.wf(),
        ensures
            forall|p: Ps| r@.contains(p) <==> step_allowed(cellmap, skip_occupied, self.point(), p),
            r@.no_duplicates(),
            r.len() <= 4,
    ;

    /// The same cells, each with the cost of stepping there, which is 1.
    fn successors_weighted(&self, cellmap: &Cellmap, skip_occupied: bool) -> (r: Vec<(Ps, i32)>)
        requires
            cellmap.wf(),
        ensures
            forall|p: Ps|
                r@.contains((p, 1i32)) <==> step_allowed(cellmap, skip_occupied, self.point(), p),
            forall|i: int| 0 <= i < r.len() ==> (#[trigger] r[i]).1 == 1,
            r.len() <= 4,
    ;
}

/// Adds `candidate` to `found` where an agent may enter it.
fn push_if_free(found: &mut Vec<Ps>, cellmap: &Cellmap, skip_occupied: bool, candidate: Ps)
    requires
        cellmap.wf(),
    ensures
        forall|q: Ps|
            final(found)@.contains(q) <==> (old(found)@.contains(q) || (q == candidate
                && cellmap.free(candidate, skip_occupied))),
        old(found)@.no_duplicates() && !old(found)@.contains(candidate)
            ==> final(found)@.no_duplicates(),
        final(found).len() <= old(found).len() + 1,
{
    if cellmap.is_free(&candidate, skip_occupied) {
        found.push(candidate);
        proof {
            let before = old(found)@;
            let after = found@;
            assert(after == before.push(candidate));
            assert forall|q: Ps| after.contains(q) <==> (before.contains(q) || q
                == candidate) by {
                if before.contains(q) {
                    let i = choose|i: int| 0 <= i < before.len() && before[i] == q;
                    assert(after[i] == q);
                }
                if q == candidate {
                    assert(after[before.len() as int] == q);
                }
            }
        }
    }
}

impl PathfindPoint for Ps {
    open spec fn point(&self) -> Ps {
        *self
    }

    fn successors(&self, cellmap: &Cellmap, skip_occupied: bool) -> (r: Vec<Ps>) {
        let mut found: Vec<Ps> = Vec::with_capacity(4);
        let here = *self;
        assert(forall|q: Ps| !found@.contains(q));
        if self.x < usize::MAX {
            push_if_free(&mut found, cellmap, skip_occupied, Ps { x: self.x + 1, y: self.y });
        }
        if self.y < usize::MAX {
            push_if_free(&mut found, cellmap, skip_occupied, Ps { x: self.x, y: self.y + 1 });
        }
        if self.x > 0 {
            push_if_free(&mut found, cellmap, skip_occupied, Ps { x: self.x - 1, y: self.y });
        }
        if self.y > 0 {
            push_if_free(&mut found, cellmap, skip_occupied, Ps { x: self.x, y: self.y - 1 });
        }
        let ghost ordered = found@;
        assert(ordered.no_duplicates());
        assert forall|p: Ps| ordered.contains(p) <==> step_allowed(
            cellmap,
            skip_occupied,
            here,
            p,
        ) by {
            if step_allowed(cellmap, skip_occupied, here, p) {
                assert(p.x == here.x + 1 && p.y == here.y || p.x == here.x && p.y == here.y + 1
                    || p.x == here.x - 1 && p.y == here.y || p.x == here.x && p.y == here.y - 1);
            }
        }
        shuffle_cells(&mut found);
        proof {
            ordered.lemma_multiset_has_no_duplicates();
            found@.lemma_multiset_has_no_duplicates_conv();
            assert(found@.len() == found@.to_multiset().len());
            assert(ordered.len() == ordered.to_multiset().len());
            assert forall|p: Ps| found@.contains(p) <==> step_allowed(
                cellmap,
                skip_occupied,
                self.point(),
                p,
            ) by {
                found@.to_multiset_ensures();
                ordered.to_multiset_ensures();
                assert(found@.contains(p) <==> found@.to_multiset().count(p) > 0);
                assert(ordered.contains(p) <==> ordered.to_multiset().count(p) > 0);
                assert(ordered.contains(p) <==> step_allowed(cellmap, skip_occupied, here, p));
            }
        }
        found
    }

    fn successors_weighted(&self, cellmap: &Cellmap, skip_occupied: bool) -> (r: Vec<(Ps, i32)>) {
        let cells = self.successors(cellmap, skip_occupied);
        let mut weighted: Vec<(Ps, i32)> = Vec::with_capacity(4);
        let mut i: usize = 0;
        while i < cells.len()
            invariant
                i <= cells.len(),
                weighted.len() == i,
                forall|j: int| 0 <= j < i ==> #[trigger] weighted[j] == (cells[j], 1i32),
            decreases cells.len() - i,
        {
            weighted.push((cells[i], 1));
            i += 1;
        }
        proof {
            assert forall|p: Ps| weighted@.contains((p, 1i32)) <==> step_allowed(
                cellmap,
                skip_occupied,
                self.point(),
                p,
            ) by {
                if weighted@.contains((p, 1i32)) {
                    let j = choose|j: int| 0 <= j < weighted.len() && weighted[j] == (p, 1i32);
                    assert(cells[j] == p);
                    assert(cells@.contains(p));
                }
                if cells@.contains(p) {
                    let j = choose|j: int| 0 <= j < cells.len() && cells[j] == p;
                    assert(weighted[j] == (p, 1i32));
                }
            }
        }
        weighted
    }
}

/// What the search sees of the grid: the neighbours of the cell `node`, each
/// with step cost 1.
pub fn successor_nodes(cellmap: &Cellmap, skip_occupied: bool, node: &(usize, usize)) -> (r: Vec<
    ((usize, usize), u64),
>)
    requires
        cellmap.wf(),
    ensures
        r.len() <= 4,
        forall|i: int|
            0 <= i < r.len() ==> (#[trigger] r[i]).1 == 1 && step_allowed(
                cellmap,
                skip_occupied,
                Ps { x: node.0, y: node.1 },
                Ps { x: r[i].0.0, y: r[i].0.1 },
            ),
        forall|p: Ps|
            step_allowed(cellmap, skip_occupied, Ps { x: node.0, y: node.1 }, p) ==> r@.contains(
                ((p.x, p.y), 1u64),
            ),
{
    let here = Ps { x: node.0, y: node.1 };
    let cells = here.successors(cellmap, skip_occupied);
    let mut nodes: Vec<((usize, usize), u64)> = Vec::with_capacity(4);
    let mut i: usize = 0;
    while i < cells.len()
        invariant
            i <= cells.len(),
            nodes.len() == i,
            forall|j: int| 0 <= j < i ==> #[trigger] nodes[j] == ((cells[j].x, cells[j].y), 1u64),
        decreases cells.len() - i,
    {
        nodes.push(((cells[i].x, cells[i].y), 1));
        i += 1;
    }
    proof {
        assert forall|j: int| 0 <= j < nodes.len() implies (#[trigger] nodes[j]).1 == 1
            && step_allowed(
            cellmap,
            skip_occupied,
            here,
            Ps { x: nodes[j].0.0, y: nodes[j].0.1 },
        ) by {
            assert(cells@.contains(cells[j]));
        }
        assert forall|p: Ps| step_allowed(cellmap, skip_occupied, here, p) implies nodes@.contains(
            ((p.x, p.y), 1u64),
        ) by {
            assert(cells@.contains(p));
            let j = choose|j: int| 0 <= j < cells.len() && cells[j] == p;
            assert(nodes[j] == ((p.x, p.y), 1u64));
        }
    }
    nodes
}

/// The least number of steps that could lead from `node` to `target` if
/// every cell were free: their Manhattan distance (or `u64::MAX`, should the
/// distance not fit).
pub fn remaining_cost(node: &(usize, usize), target: &Ps) -> (r: u64)
    ensures
        r == if (Ps { x: node.0, y: node.1 }).distance(*target) <= u64::MAX {
            (Ps { x: node.0, y: node.1 }).distance(*target)
        } else {
            u64::MAX as int
        },
{
    let dx: u64 = if node.0 <= target.x {
        (target.x - node.0) as u64
    } else {
        (node.0 - target.x) as u64
    };
    let dy: u64 = if node.1 <= target.y {
        (target.y - node.1) as u64
    } else {
        (node.1 - target.y) as u64
    };
    if dx > u64::MAX - dy {
        u64::MAX
    } else {
        dx + dy
    }
}

/// Whether `node` is the cell `target`.
pub fn is_target(node: &(usize, usize), target: &Ps) -> (r: bool)
    ensures
        r == (node.0 == target.x && node.1 == target.y),
{
    node.0 == target.x && node.1 == target.y
}

/// Runs `pathfinding::directed::astar::astar` from `start`, with
/// `successor_nodes` as the neighbour function, `remaining_cost` as the
/// heuristic and `is_target` as the goal test, and hands back the cells of
/// the path it found, `start` included.
///
/// The contract is what the crate documents of `astar`, read for this grid:
/// the result is a shortest path from `start` to a node that passes the goal
/// test, built from moves that the neighbour function offers, and no node
/// occurs in it twice; `None` means that no path exists. The heuristic never
/// exceeds the true cost, as `astar` asks, because every move changes the
/// Manhattan distance by one. Grid sides within `i32` and a target inside the
/// grid keep the `u64` costs from overflowing.
#[verifier::external_body]
fn astar_cells(cellmap: &Cellmap, skip_occupied: bool, start: Ps, target: Ps) -> (found: Option<
    Vec<Ps>,
>)
    requires
        cellmap.wf(),
        cellmap.contains(target),
    ensures
        found matches Some(cells) ==> {
            &&& cells.len() >= 1
            &&& cells[0] == start
            &&& cells@.no_duplicates()
            &&& is_route(cellmap, skip_occupied, start, target, cells@.drop_first())
            &&& is_shortest(cellmap, skip_occupied, start, target, cells@.drop_first())
        },
        found is None ==> no_route(cellmap, skip_occupied, start, target),
{
    astar(
        &(start.x, start.y),
        |node| successor_nodes(cellmap, skip_occupied, node),
        |node| remaining_cost(node, &target),
        |node| is_target(node, &target),
    ).map(|(nodes, _cost)| nodes.into_iter().map(|(x, y)| Ps { x, y }).collect())
}

/// Searches a shortest route from `start` to `target`.
///
/// With `skip_occupied` set, occupied cells count as blocked. The route
/// leaves out `start` itself, so its first cell is the first step to take; it
/// is empty exactly when `start` is `target`. `None` means that `target`
/// cannot be reached.
pub fn try_find_route_from_to(cellmap: &Cellmap, skip_occupied: bool, start: Ps, target: Ps) -> (r:
    Option<Vec<Ps>>)
    requires
        cellmap.wf(),
    ensures
        r matches Some(steps) ==> {
            &&& is_route(cellmap, skip_occupied, start, target, steps@)
            &&& is_shortest(cellmap, skip_occupied, start, target, steps@)
            &&& connected_from(start, steps@)
            &&& !steps@.contains(start)
            &&& steps@.no_duplicates()
        },
        r is None <==> no_route(cellmap, skip_occupied, start, target),
{
    if !cellmap.pos_within_bounds(target) {
        if start.x == target.x && start.y == target.y {
            let steps: Vec<Ps> = Vec::new();
            assert(is_route(cellmap, skip_occupied, start, target, steps@));
            Some(steps)
        } else {
            proof {
                assert forall|other: Seq<Ps>| !#[trigger] is_route(
                    cellmap,
                    skip_occupied,
                    start,
                    target,
                    other,
                ) by {
                    if is_route(cellmap, skip_occupied, start, target, other) {
                        let last = other.len() - 1;
                        assert(step_allowed(
                            cellmap,
                            skip_occupied,
                            standing_before(start, other, last),
                            other[last],
                        ));
                    }
                }
            }
            None
        }
    } else {
        match astar_cells(cellmap, skip_occupied, start, target) {
            Some(mut cells) => {
                let ghost with_start = cells@;
                cells.remove(0);
                proof {
                    assert(cells@ =~= with_start.drop_first());
                    lemma_route_is_connected(cellmap, skip_occupied, start, target, cells@);
                    assert forall|i: int| 0 <= i < cells@.len() implies cells@[i] != start by {
                        assert(cells@[i] == with_start[i + 1]);
                    }
                    assert forall|i: int, j: int|
                        0 <= i < cells@.len() && 0 <= j < cells@.len() && i != j implies cells@[i]
                        != cells@[j] by {
                        assert(cells@[i] == with_start[i + 1]);
                        assert(cells@[j] == with_start[j + 1]);
                    }
                }
                Some(cells)
            },
            None => None,
        }
    }
}

} // verus!
