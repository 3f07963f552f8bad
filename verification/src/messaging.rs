//! What agents can see of one another: each agent marks its cell on a
//! shared map, and looks along straight rays over the grid for the agents
//! within its range of vision.

use vstd::prelude::*;

use crate::anycellmap::AnyCellmap;
use crate::entity::Entity;
use crate::position::{gap, Ps};
use crate::state::Reality;
use crate::worldmap::Cellmap;

verus! {

/// How far an agent sees unless told otherwise, in cells.
pub const DEFAULT_VISION_LIMIT: i32 = 10;

/// The end of an agent through which messages would reach it.
#[derive(Debug)]
pub struct MessagingHost {}

impl MessagingHost {
    pub fn new() -> MessagingHost {
        MessagingHost {  }
    }
}

/// The eyes of an agent: the cell it looks from and how far it sees, by
/// Manhattan distance.
#[derive(Copy, Clone, Debug, PartialEq, Eq, Hash)]
pub struct Communicator {
    pub ps: Ps,
    pub vision_limit: i32,
}

/// The larger of the distances between two cells along the two axes.
pub open spec fn reach(from: Ps, to: Ps) -> int {
    if gap(from.x as int, to.x as int) >= gap(from.y as int, to.y as int) {
        gap(from.x as int, to.x as int)
    } else {
        gap(from.y as int, to.y as int)
    }
}

/// `v` moved by one towards `goal`, if `go` is set.
pub open spec fn nearer(v: usize, goal: usize, go: bool) -> usize {
    if !go || v == goal {
        v
    } else if v < goal {
        (v + 1) as usize
    } else {
        (v - 1) as usize
    }
}

/// The next cell of the ray from `from` to `to`: one cell further along
/// each axis on which the distance to `to` is more than half of the larger
/// of the two distances.
pub open spec fn ray_step(from: Ps, to: Ps) -> Ps {
    Ps {
        x: nearer(from.x, to.x, 2 * gap(from.x as int, to.x as int) > reach(from, to)),
        y: nearer(from.y, to.y, 2 * gap(from.y as int, to.y as int) > reach(from, to)),
    }
}

/// Whether the ray from `from` reaches `to`.
///
/// The ray has reached `to` once it is on `to` or on a cell next to it.
/// Until then every cell that the ray enters must lie inside the grid and
/// be passable; who stands on it does not matter.
pub open spec fn ray_reaches(from: Ps, to: Ps, map: &Cellmap) -> bool
    decreases reach(from, to),
{
    if from.distance(to) < 2 {
        true
    } else {
        let next = ray_step(from, to);
        if next.distance(to) < 2 {
            true
        } else if map.free(next, false) {
            ray_reaches(next, to, map)
        } else {
            false
        }
    }
}

/// Moves `v` by one towards `goal`.
fn step_towards(v: usize, goal: usize) -> (r: usize)
    ensures
        r == nearer(v, goal, true),
{
    if v < goal {
        v + 1
    } else if v > goal {
        v - 1
    } else {
        v
    }
}

/// Casts the ray from `from` to `to` over `map`.
pub fn calculate_vision_ray(from: &Ps, to: &Ps, map: &Cellmap) -> (r: bool)
    requires
        map.wf(),
    ensures
        r == ray_reaches(*from, *to, map),
{
    let mut next: Ps = *from;
    if next.within_distance(to, 1) {
        return true;
    }
    loop
        invariant
            map.wf(),
            next.distance(*to) >= 2,
            ray_reaches(next, *to, map) == ray_reaches(*from, *to, map),
        decreases reach(next, *to),
    {
        let dx: usize = if next.x <= to.x {
            to.x - next.x
        } else {
            next.x - to.x
        };
        let dy: usize = if next.y <= to.y {
            to.y - next.y
        } else {
            next.y - to.y
        };
        let far: usize = if dx >= dy {
            dx
        } else {
            dy
        };
        let go_x: bool = dx > far - dx;
        let go_y: bool = dy > far - dy;
        let ghost before = next;
        if go_x {
            next.x = step_towards(next.x, to.x);
        }
        if go_y {
            next.y = step_towards(next.y, to.y);
        }
        assert(next == ray_step(before, *to));
        if next.within_distance(to, 1) {
            return true;
        }
        if !map.is_free(&next, false) {
            return false;
        }
    }
}

/// The cell whose marks are stored at index `i` of `map`.
pub open spec fn marked_cell(map: &AnyCellmap<Vec<Entity>>, i: int) -> Ps {
    Ps { x: (i % map.width as int) as usize, y: (i / map.width as int) as usize }
}

/// The marks on the cell stored at index `i`, each together with the cell,
/// if that cell lies no further than `distance` from `from` by Manhattan
/// distance; nothing otherwise.
pub open spec fn marks_at(map: &AnyCellmap<Vec<Entity>>, from: Ps, distance: int, i: int) -> Seq<
    (Ps, Entity),
> {
    if from.distance(marked_cell(map, i)) <= distance {
        map.map[i]@.map_values(|e: Entity| (marked_cell(map, i), e))
    } else {
        Seq::empty()
    }
}

/// The marks within `distance` of `from` on the cells stored before index
/// `n`: cell by cell in storage order, which is row by row, and on each cell
/// in the order in which the marks were made.
pub open spec fn marks_before(map: &AnyCellmap<Vec<Entity>>, from: Ps, distance: int, n: int) -> Seq<
    (Ps, Entity),
>
    decreases n,
{
    if n <= 0 {
        Seq::empty()
    } else {
        marks_before(map, from, distance, n - 1) + marks_at(map, from, distance, n - 1)
    }
}

/// The agents that eyes at `eyes` see in the world `world`: of the marks
/// within the limit of vision, those on a cell that the ray from the eyes
/// reaches.
pub open spec fn seen_by(eyes: Communicator, world: &Reality) -> Seq<Entity> {
    marks_before(
        &world.comm_map,
        eyes.ps,
        eyes.vision_limit as int,
        world.comm_map.map.len() as int,
    ).filter(|mark: (Ps, Entity)| ray_reaches(eyes.ps, mark.0, &world.cellmap)).map_values(
        |mark: (Ps, Entity)| mark.1,
    )
}

impl Communicator {
    /// Eyes that look from `ps` and see `DEFAULT_VISION_LIMIT` cells far.
    pub fn new(ps: Ps) -> (r: Communicator)
        ensures
            r.ps == ps,
            r.vision_limit == DEFAULT_VISION_LIMIT,
    {
        Communicator { ps, vision_limit: DEFAULT_VISION_LIMIT }
    }

    /// Marks the agent `entity` on the cell it looks from, unless it is
    /// marked there already.
    pub fn mark_position_on_map(&self, entity: Entity, map: &mut AnyCellmap<Vec<Entity>>)
        requires
            old(map).wf(),
            old(map).contains(self.ps),
        ensures
            final(map).wf(),
            final(map).width == old(map).width,
            final(map).height == old(map).height,
            final(map).map.len() == old(map).map.len(),
            final(map).value(self.ps)@ == if old(map).value(self.ps)@.contains(entity) {
                old(map).value(self.ps)@
            } else {
                old(map).value(self.ps)@.push(entity)
            },
            forall|i: int|
                0 <= i < old(map).map.len() && i != old(map).index_of(self.ps) ==> final(map).map[i]
                    == #[trigger] old(map).map[i],
    {
        proof {
            crate::worldmap::lemma_row_major(
                map.width as int,
                map.height as int,
                self.ps.x as int,
                self.ps.y as int,
            );
        }
        let index: usize = self.ps.y * map.width + self.ps.x;
        let mut found: bool = false;
        let mut i: usize = 0;
        while i < map.map[index].len()
            invariant
                index < map.map.len(),
                *map == *old(map),
                i <= map.map[index as int].len(),
                found ==> map.map[index as int]@.contains(entity),
                !found ==> forall|j: int| 0 <= j < i ==> map.map[index as int]@[j] != entity,
            decreases map.map[index as int].len() - i,
        {
            if map.map[index][i] == entity {
                found = true;
            }
            i += 1;
        }
        if !found {
            map.map[index].push(entity);
        }
    }

    /// Whether the cell `other` can be seen from where these eyes look.
    pub fn is_ps_visible_from(&self, other: &Ps, map: &Cellmap) -> (r: bool)
        requires
            map.wf(),
        ensures
            r == ray_reaches(self.ps, *other, map),
    {
        calculate_vision_ray(&self.ps, other, map)
    }

    /// The agents that these eyes see: those marked on a cell within the
    /// limit of vision that the ray from the eyes reaches. Cells are gone
    /// through row by row; an agent is listed once for each mark it has.
    pub fn find_visible_entities(&self, map: &Reality) -> (r: Vec<Entity>)
        requires
            map.wf(),
        ensures
            r@ == seen_by(*self, map),
    {
        let seen = query_all_max_distance(self.vision_limit, self, &map.comm_map);
        let ghost in_sight = |mark: (Ps, Entity)| ray_reaches(self.ps, mark.0, &map.cellmap);
        let ghost who = |mark: (Ps, Entity)| mark.1;
        let mut found: Vec<Entity> = Vec::new();
        let mut k: usize = 0;
        assert(seen@.take(0).filter(in_sight).map_values(who) =~= Seq::<Entity>::empty());
        while k < seen.len()
            invariant
                k <= seen.len(),
                map.wf(),
                in_sight == |mark: (Ps, Entity)| ray_reaches(self.ps, mark.0, &map.cellmap),
                who == |mark: (Ps, Entity)| mark.1,
                found@ == seen@.take(k as int).filter(in_sight).map_values(who),
            decreases seen.len() - k,
        {
            let (ps, entity) = seen[k];
            let visible: bool = self.is_ps_visible_from(&ps, &map.cellmap);
            proof {
                let next = seen@.take(k + 1);
                assert(next.drop_last() =~= seen@.take(k as int));
                assert(next.last() == seen@[k as int]);
                reveal_with_fuel(Seq::filter, 2);
                if visible {
                    assert(next.filter(in_sight) == seen@.take(k as int).filter(in_sight).push(
                        seen@[k as int],
                    ));
                    assert(next.filter(in_sight).map_values(who) =~= seen@.take(
                        k as int,
                    ).filter(in_sight).map_values(who).push(entity));
                } else {
                    assert(next.filter(in_sight) == seen@.take(k as int).filter(in_sight));
                }
            }
            if visible {
                found.push(entity);
            }
            k += 1;
        }
        assert(seen@.take(seen.len() as int) =~= seen@);
        found
    }
}

/// Lists every mark on a cell of `map` that lies no further than `distance`
/// from where `from` looks, by Manhattan distance, together with that cell:
/// cell by cell and row by row, the marks of a cell in the order in which
/// they were made.
pub fn query_all_max_distance(
    distance: i32,
    from: &Communicator,
    map: &AnyCellmap<Vec<Entity>>,
) -> (r: Vec<(Ps, Entity)>)
    requires
        map.wf(),
    ensures
        r@ == marks_before(map, from.ps, distance as int, map.map.len() as int),
{
    let mut found: Vec<(Ps, Entity)> = Vec::new();
    let mut i: usize = 0;
    while i < map.map.len()
        invariant
            i <= map.map.len(),
            map.wf(),
            found@ == marks_before(map, from.ps, distance as int, i as int),
        decreases map.map.len() - i,
    {
        proof {
            crate::worldmap::lemma_index_to_cell(map.width as int, map.height as int, i as int);
        }
        let pos = Ps { x: i % map.width, y: i / map.width };
        let ghost before = found@;
        let ghost paired = |e: Entity| (marked_cell(map, i as int), e);
        if distance >= 0 && pos.within_distance(&from.ps, distance as usize) {
            let cell = &map.map[i];
            let mut k: usize = 0;
            assert(cell@.take(0).map_values(paired) =~= Seq::<(Ps, Entity)>::empty());
            assert(before + cell@.take(0).map_values(paired) =~= before);
            while k < cell.len()
                invariant
                    k <= cell.len(),
                    i < map.map.len(),
                    *cell == map.map[i as int],
                    pos == marked_cell(map, i as int),
                    paired == |e: Entity| (marked_cell(map, i as int), e),
                    found@ == before + cell@.take(k as int).map_values(paired),
                decreases cell.len() - k,
            {
                found.push((pos, cell[k]));
                proof {
                    assert(cell@.take(k + 1).map_values(paired) =~= cell@.take(
                        k as int,
                    ).map_values(paired).push((pos, cell@[k as int])));
                    assert(found@ =~= before + cell@.take(k + 1).map_values(paired));
                }
                k += 1;
            }
            assert(cell@.take(cell.len() as int) =~= cell@);
        } else {
            assert(before + Seq::<(Ps, Entity)>::empty() =~= before);
        }
        i += 1;
    }
    found
}

} // verus!
