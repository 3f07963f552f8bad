//! The grid map: a rectangle of cells with a static passability flag and a
//! dynamic occupancy flag.

use vstd::prelude::*;

use crate::position::{Ps, XYprovider};
use crate::random::random_below;

verus! {

/// How many random cells `pick_random_passable_ps` samples before it falls
/// back to scanning the grid.
pub const SAMPLING_ATTEMPTS: usize = 64;

/// What changes about a cell while the simulation runs.
#[derive(Clone, Copy, Debug)]
pub struct CellStatus {
    pub occupied: bool,
}

/// One square of the grid.
#[derive(Clone, Copy, Debug)]
pub struct Cell {
    pub passable: bool,
    pub position: Ps,
    pub status: CellStatus,
}

impl CellStatus {
    pub fn new() -> (r: CellStatus)
        ensures
            !r.occupied,
    {
        CellStatus { occupied: false }
    }
}

impl Cell {
    /// A cell that nobody stands on.
    pub fn new(position: Ps, passable: bool) -> (r: Cell)
        ensures
            r.position == position,
            r.passable == passable,
            !r.status.occupied,
    {
        Cell { passable, position, status: CellStatus::new() }
    }

    /// Whether an agent may enter: the cell must be passable and, where
    /// `concern_occupied` is set, nobody may stand on it.
    pub open spec fn enterable(self, concern_occupied: bool) -> bool {
        self.passable && (concern_occupied ==> !self.status.occupied)
    }

    pub fn occupy(&mut self)
        ensures
            final(self).status.occupied,
            final(self).passable == old(self).passable,
            final(self).position == old(self).position,
    {
        self.status.occupied = true;
    }

    pub fn deoccupy(&mut self)
        ensures
            !final(self).status.occupied,
            final(self).passable == old(self).passable,
            final(self).position == old(self).position,
    {
        self.status.occupied = false;
    }

    pub fn is_passable(&self, concern_occupied: bool) -> (r: bool)
        ensures
            r == self.enterable(concern_occupied),
    {
        if concern_occupied {
            self.passable && !self.status.occupied
        } else {
            self.passable
        }
    }
}

/// A rectangular grid of cells, stored row by row.
///
/// Build one with [`Cellmap::new`]; every method expects the map to be
/// well formed (`wf`) and keeps it so.
#[derive(Debug)]
pub struct Cellmap {
    pub map: Vec<Cell>,
    pub width: usize,
    pub height: usize,
}

/// Row-major indexing: a cell inside a `w` by `h` grid has an index inside
/// the storage, and the index gives the coordinates back.
pub proof fn lemma_row_major(w: int, h: int, x: int, y: int)
    requires
        0 <= x < w,
        0 <= y < h,
    ensures
        0 <= y * w + x < w * h,
        (y * w + x) / w == y,
        (y * w + x) % w == x,
{
    vstd::arithmetic::div_mod::lemma_fundamental_div_mod_converse(y * w + x, w, y, x);
    assert(y * w + x < w * h) by (nonlinear_arith)
        requires
            0 <= x < w,
            0 <= y < h,
    ;
    assert(0 <= y * w) by (nonlinear_arith)
        requires
            0 <= y,
            0 <= w,
    ;
}

/// An index inside the storage of a `w` by `h` grid names a cell inside it.
pub proof fn lemma_index_to_cell(w: int, h: int, i: int)
    requires
        0 <= i < w * h,
        0 <= w,
        0 <= h,
    ensures
        0 <= i % w < w,
        0 <= i / w < h,
        (i / w) * w + i % w == i,
{
    assert(w > 0) by (nonlinear_arith)
        requires
            0 <= i < w * h,
            0 <= w,
    ;
    vstd::arithmetic::div_mod::lemma_fundamental_div_mod(i, w);
    vstd::arithmetic::div_mod::lemma_mod_bound(i, w);
    let q = i / w;
    let r = i % w;
    assert(w * q == q * w) by (nonlinear_arith);
    assert(q >= 0) by (nonlinear_arith)
        requires
            q * w + r == i,
            0 <= r < w,
            i >= 0,
    ;
    assert(q < h) by (nonlinear_arith)
        requires
            q * w + r == i,
            0 <= r < w,
            i < w * h,
            w > 0,
    ;
}

impl Cellmap {
    /// The cell `ps` lies inside the grid.
    pub open spec fn contains(&self, ps: Ps) -> bool {
        ps.x < self.width && ps.y < self.height
    }

    /// Where the cell `ps` is stored.
    pub open spec fn index_of(&self, ps: Ps) -> int {
        ps.y * self.width + ps.x
    }

    /// The cell at `ps`.
    pub open spec fn cell(&self, ps: Ps) -> Cell {
        self.map[self.index_of(ps)]
    }

    /// `ps` lies inside the grid and an agent may enter it.
    pub open spec fn free(&self, ps: Ps, concern_occupied: bool) -> bool {
        self.contains(ps) && self.cell(ps).enterable(concern_occupied)
    }

    /// `ps` lies inside the grid and an agent stands on it.
    pub open spec fn occupied(&self, ps: Ps) -> bool {
        self.contains(ps) && self.cell(ps).status.occupied
    }

    /// The cell stored at index `i`.
    pub open spec fn ps_at(&self, i: int) -> Ps {
        Ps { x: (i % self.width as int) as usize, y: (i / self.width as int) as usize }
    }

    /// The map's invariant: it holds `width * height` cells, row by row, each
    /// of which knows its own position, and both sides fit in an `i32`.
    pub open spec fn wf(&self) -> bool {
        &&& self.width <= i32::MAX
        &&& self.height <= i32::MAX
        &&& self.map.len() == self.width * self.height
        &&& forall|i: int|
            0 <= i < self.map.len() ==> (#[trigger] self.map[i]).position == self.ps_at(i)
    }

    /// Both maps have the same shape and the same passable cells.
    pub open spec fn same_terrain(&self, other: &Cellmap) -> bool {
        &&& self.width == other.width
        &&& self.height == other.height
        &&& self.map.len() == other.map.len()
        &&& forall|i: int|
            0 <= i < self.map.len() ==> {
                &&& (#[trigger] self.map[i]).passable == other.map[i].passable
                &&& self.map[i].position == other.map[i].position
            }
    }

    /// In a well-formed map every cell inside the grid is stored, at an index
    /// of its own, and carries its own position.
    pub proof fn lemma_cell_stored(&self, ps: Ps)
        requires
            self.wf(),
            self.contains(ps),
        ensures
            0 <= self.index_of(ps) < self.map.len(),
            self.ps_at(self.index_of(ps)) == ps,
            self.cell(ps).position == ps,
    {
        lemma_row_major(self.width as int, self.height as int, ps.x as int, ps.y as int);
    }

    /// Different cells are stored at different indices.
    pub proof fn lemma_index_distinct(&self, a: Ps, b: Ps)
        requires
            self.wf(),
            self.contains(a),
            self.contains(b),
            a != b,
        ensures
            self.index_of(a) != self.index_of(b),
    {
        self.lemma_cell_stored(a);
        self.lemma_cell_stored(b);
    }

    /// Every stored index names a cell inside the grid.
    pub proof fn lemma_index_names_cell(&self, i: int)
        requires
            self.wf(),
            0 <= i < self.map.len(),
        ensures
            self.contains(self.ps_at(i)),
            self.index_of(self.ps_at(i)) == i,
    {
        lemma_index_to_cell(self.width as int, self.height as int, i);
    }

    /// Builds a map from `width * height` cells given row by row.
    ///
    /// Returns `None` where a side is negative, the number of cells is not
    /// `width * height`, a cell is missing, or a cell's `position` is not the
    /// place it is stored at.
    pub fn new(vec: Vec<Option<Cell>>, width: i32, height: i32) -> (r: Option<Cellmap>)
        ensures
            r is Some <==> {
                &&& width >= 0
                &&& height >= 0
                &&& vec.len() == width * height
                &&& forall|i: int|
                    0 <= i < vec.len() ==> {
                        &&& (#[trigger] vec[i]) is Some
                        &&& vec[i].unwrap().position == (Ps {
                            x: (i % width as int) as usize,
                            y: (i / width as int) as usize,
                        })
                    }
            },
            r matches Some(m) ==> {
                &&& m.wf()
                &&& m.width == width
                &&& m.height == height
                &&& m.map.len() == vec.len()
                &&& forall|i: int| 0 <= i < vec.len() ==> Some(#[trigger] m.map[i]) == vec[i]
            },
    {
        if width < 0 || height < 0 {
            return None;
        }
        let w: usize = width as usize;
        let h: usize = height as usize;
        assert(width * height <= 0x7fff_ffff * 0x7fff_ffff) by (nonlinear_arith)
            requires
                0 <= width <= 0x7fff_ffff,
                0 <= height <= 0x7fff_ffff,
        ;
        assert(width * height >= 0) by (nonlinear_arith)
            requires
                0 <= width,
                0 <= height,
        ;
        let total: u64 = (width as u64) * (height as u64);
        if vec.len() as u64 != total {
            return None;
        }
        let mut map: Vec<Cell> = Vec::with_capacity(vec.len());
        let mut i: usize = 0;
        while i < vec.len()
            invariant
                i <= vec.len(),
                w == width,
                h == height,
                vec.len() == w * h,
                map.len() == i,
                forall|j: int|
                    0 <= j < i ==> {
                        &&& (#[trigger] vec[j]) is Some
                        &&& vec[j].unwrap().position == (Ps {
                            x: (j % w as int) as usize,
                            y: (j / w as int) as usize,
                        })
                    },
                forall|j: int| 0 <= j < i ==> Some(#[trigger] map[j]) == vec[j],
            decreases vec.len() - i,
        {
            proof {
                lemma_index_to_cell(w as int, h as int, i as int);
            }
            match vec[i] {
                None => {
                    return None;
                },
                Some(cell) => {
                    if cell.position.x != i % w || cell.position.y != i / w {
                        return None;
                    }
                    map.push(cell);
                },
            }
            i += 1;
        }
        let built = Cellmap { map, width: w, height: h };
        assert(built.wf());
        Some(built)
    }

    /// Width and height.
    pub fn wh_usize(&self) -> (r: (usize, usize))
        ensures
            r == (self.width, self.height),
    {
        (self.width, self.height)
    }

    /// Width and height as `i32`.
    pub fn wh_i32(&self) -> (r: (i32, i32))
        requires
            self.wf(),
        ensures
            r.0 == self.width,
            r.1 == self.height,
    {
        (self.width as i32, self.height as i32)
    }

    /// Width and height as `u32`.
    pub fn wh_u32(&self) -> (r: (u32, u32))
        requires
            self.wf(),
        ensures
            r.0 == self.width,
            r.1 == self.height,
    {
        (self.width as u32, self.height as u32)
    }

    /// Whether the signed coordinates name a cell of the grid.
    pub fn within_bounds(&self, x: isize, y: isize) -> (r: bool)
        ensures
            r == (0 <= x < self.width && 0 <= y < self.height),
    {
        x >= 0 && y >= 0 && (x as usize) < self.width && (y as usize) < self.height
    }

    /// Whether `pos` is a cell of the grid.
    pub fn pos_within_bounds(&self, pos: Ps) -> (r: bool)
        ensures
            r == self.contains(pos),
    {
        pos.x < self.width && pos.y < self.height
    }

    /// Whether what `pos_provider` names is a cell of the grid.
    pub fn xy_within_bounds<P: XYprovider>(&self, pos_provider: &P) -> (r: bool)
        ensures
            r == (0 <= pos_provider.xy().0 < self.width && 0 <= pos_provider.xy().1 < self.height),
    {
        let pos = pos_provider.get_xy();
        self.within_bounds(pos.0, pos.1)
    }

    /// The cell in column `x` of row `y`.
    pub fn get_xy(&self, x: usize, y: usize) -> (cell: &Cell)
        requires
            self.wf(),
            x < self.width,
            y < self.height,
        ensures
            *cell == self.cell(Ps { x, y }),
            cell.position == (Ps { x, y }),
    {
        proof {
            self.lemma_cell_stored(Ps { x, y });
        }
        &self.map[y * self.width + x]
    }

    /// The cell at `pos`.
    pub fn get_pos(&self, pos: &Ps) -> (cell: &Cell)
        requires
            self.wf(),
            self.contains(*pos),
        ensures
            *cell == self.cell(*pos),
            cell.position == *pos,
    {
        self.get_xy(pos.x, pos.y)
    }

    /// The cell in column `x` of row `y`, to be changed in place. The map
    /// stays well formed as long as the cell keeps its position.
    pub fn get_xy_mut(&mut self, x: usize, y: usize) -> (cell: &mut Cell)
        requires
            old(self).wf(),
            x < old(self).width,
            y < old(self).height,
        ensures
            *cell == old(self).cell(Ps { x, y }),
            cell.position == (Ps { x, y }),
            final(self).map@ == old(self).map@.update(
                old(self).index_of(Ps { x, y }),
                *final(cell),
            ),
            final(self).width == old(self).width,
            final(self).height == old(self).height,
            final(cell).position == cell.position ==> final(self).wf(),
    {
        proof {
            self.lemma_cell_stored(Ps { x, y });
        }
        let index: usize = y * self.width + x;
        &mut self.map[index]
    }

    /// The cell at `pos`, to be changed in place. The map stays well formed
    /// as long as the cell keeps its position.
    pub fn get_pos_mut(&mut self, pos: &Ps) -> (cell: &mut Cell)
        requires
            old(self).wf(),
            old(self).contains(*pos),
        ensures
            *cell == old(self).cell(*pos),
            cell.position == *pos,
            final(self).map@ == old(self).map@.update(old(self).index_of(*pos), *final(cell)),
            final(self).width == old(self).width,
            final(self).height == old(self).height,
            final(cell).position == cell.position ==> final(self).wf(),
    {
        self.get_xy_mut(pos.x, pos.y)
    }

    /// Whether `pos` lies inside the grid and may be entered.
    pub fn is_free(&self, pos: &Ps, concern_occupied: bool) -> (r: bool)
        requires
            self.wf(),
        ensures
            r == self.free(*pos, concern_occupied),
    {
        self.pos_within_bounds(*pos) && self.get_pos(pos).is_passable(concern_occupied)
    }

    /// Sets the occupancy flag of the cell in column `x` of row `y` and
    /// leaves everything else as it was.
    fn set_occupied(&mut self, x: usize, y: usize, occupied: bool)
        requires
            old(self).wf(),
            x < old(self).width,
            y < old(self).height,
        ensures
            final(self).wf(),
            final(self).same_terrain(old(self)),
            final(self).cell(Ps { x, y }).status.occupied == occupied,
            forall|other: Ps|
                old(self).contains(other) && other != (Ps { x, y }) ==> final(self).cell(other)
                    == old(self).cell(other),
    {
        let ps = Ps { x, y };
        proof {
            self.lemma_cell_stored(ps);
        }
        let index: usize = y * self.width + x;
        let mut cell = self.map[index];
        cell.status.occupied = occupied;
        self.map.set(index, cell);
        proof {
            assert forall|other: Ps|
                old(self).contains(other) && other != ps implies
                    self.cell(other) == old(self).cell(other) by {
                old(self).lemma_index_distinct(ps, other);
                old(self).lemma_cell_stored(other);
            }
        }
    }

    /// Marks the cell in column `x` of row `y` as occupied.
    pub fn occupy_xy(&mut self, x: usize, y: usize)
        requires
            old(self).wf(),
            x < old(self).width,
            y < old(self).height,
        ensures
            final(self).wf(),
            final(self).same_terrain(old(self)),
            final(self).occupied(Ps { x, y }),
            forall|other: Ps|
                old(self).contains(other) && other != (Ps { x, y }) ==> final(self).cell(other)
                    == old(self).cell(other),
    {
        self.set_occupied(x, y, true);
    }

    /// Marks the cell in column `x` of row `y` as not occupied.
    pub fn deoccupy_xy(&mut self, x: usize, y: usize)
        requires
            old(self).wf(),
            x < old(self).width,
            y < old(self).height,
        ensures
            final(self).wf(),
            final(self).same_terrain(old(self)),
            !final(self).occupied(Ps { x, y }),
            forall|other: Ps|
                old(self).contains(other) && other != (Ps { x, y }) ==> final(self).cell(other)
                    == old(self).cell(other),
    {
        self.set_occupied(x, y, false);
    }

    /// Marks `pos` as occupied.
    pub fn occupy_ps(&mut self, pos: &Ps)
        requires
            old(self).wf(),
            old(self).contains(*pos),
        ensures
            final(self).wf(),
            final(self).same_terrain(old(self)),
            final(self).occupied(*pos),
            forall|other: Ps|
                old(self).contains(other) && other != *pos
                    ==> final(self).cell(other) == old(self).cell(other),
    {
        self.set_occupied(pos.x, pos.y, true);
    }

    /// Marks `pos` as not occupied.
    pub fn deoccupy_ps(&mut self, pos: &Ps)
        requires
            old(self).wf(),
            old(self).contains(*pos),
        ensures
            final(self).wf(),
            final(self).same_terrain(old(self)),
            !final(self).occupied(*pos),
            forall|other: Ps|
                old(self).contains(other) && other != *pos
                    ==> final(self).cell(other) == old(self).cell(other),
    {
        self.set_occupied(pos.x, pos.y, false);
    }

    /// Hands the occupancy of `pos_from` over to `pos_to`: afterwards
    /// `pos_to` is occupied and, unless it is the same cell, `pos_from` is
    /// not. No other cell changes.
    pub fn move_occupy_ps(&mut self, pos_from: &Ps, pos_to: &Ps)
        requires
            old(self).wf(),
            old(self).contains(*pos_from),
            old(self).contains(*pos_to),
        ensures
            final(self).wf(),
            final(self).same_terrain(old(self)),
            final(self).occupied(*pos_to),
            *pos_from != *pos_to ==> !final(self).occupied(*pos_from),
            forall|other: Ps|
                old(self).contains(other) && other != *pos_from && other != *pos_to
                    ==> final(self).cell(other) == old(self).cell(other),
    {
        self.set_occupied(pos_from.x, pos_from.y, false);
        self.set_occupied(pos_to.x, pos_to.y, true);
    }

    /// The cell stored at index `i` is one that an agent may step on now.
    pub open spec fn free_at(&self, i: int) -> bool {
        0 <= i < self.map.len() && self.map[i].enterable(true)
    }

    /// No cell stored at an index from `from` up to `to` can be stepped on.
    pub open spec fn none_free_between(&self, from: int, to: int) -> bool {
        forall|j: int| from <= j < to ==> !self.free_at(j)
    }

    /// `i` is the first index, going up from `start` and wrapping round at the
    /// end of the storage, whose cell can be stepped on.
    pub open spec fn first_free_after(&self, start: int, i: int) -> bool {
        &&& self.free_at(i)
        &&& if start <= i {
            self.none_free_between(start, i)
        } else {
            self.none_free_between(start, self.map.len() as int) && self.none_free_between(0, i)
        }
    }

    /// Scans the grid row by row from storage index `start`, wrapping round,
    /// for a passable cell that nobody occupies.
    pub fn first_free_from(&self, start: usize) -> (r: Option<Ps>)
        requires
            self.wf(),
            start <= self.map.len(),
        ensures
            r matches Some(p) ==> self.free(p, true) && self.first_free_after(
                start as int,
                self.index_of(p),
            ),
            r is None <==> forall|p: Ps| !self.free(p, true),
    {
        let mut i: usize = start;
        while i < self.map.len()
            invariant
                self.wf(),
                start <= i <= self.map.len(),
                self.none_free_between(start as int, i as int),
            decreases self.map.len() - i,
        {
            if self.map[i].is_passable(true) {
                let found = Ps { x: i % self.width, y: i / self.width };
                proof {
                    self.lemma_index_names_cell(i as int);
                    assert(self.free(found, true));
                }
                return Some(found);
            }
            i += 1;
        }
        let mut k: usize = 0;
        while k < start
            invariant
                self.wf(),
                k <= start <= self.map.len(),
                self.none_free_between(start as int, self.map.len() as int),
                self.none_free_between(0, k as int),
            decreases start - k,
        {
            if self.map[k].is_passable(true) {
                let found = Ps { x: k % self.width, y: k / self.width };
                proof {
                    self.lemma_index_names_cell(k as int);
                    assert(self.free(found, true));
                }
                return Some(found);
            }
            k += 1;
        }
        proof {
            assert forall|p: Ps| !self.free(p, true) by {
                if self.contains(p) {
                    self.lemma_cell_stored(p);
                    assert(!self.free_at(self.index_of(p)));
                }
            }
        }
        None
    }

    /// Picks a passable cell that nobody occupies: a few cells are sampled at
    /// random, and if none of them will do the grid is scanned from a random
    /// place. `None` means that the grid has no such cell.
    pub fn pick_random_passable_ps(&self) -> (r: Option<Ps>)
        requires
            self.wf(),
        ensures
            r matches Some(p) ==> self.free(p, true),
            r is None <==> forall|p: Ps| !self.free(p, true),
    {
        if self.width == 0 || self.height == 0 {
            assert forall|p: Ps| !self.free(p, true) by {}
            return None;
        }
        let mut attempt: usize = 0;
        while attempt < SAMPLING_ATTEMPTS
            invariant
                self.wf(),
                self.width > 0,
                self.height > 0,
                attempt <= SAMPLING_ATTEMPTS,
            decreases SAMPLING_ATTEMPTS - attempt,
        {
            let x: usize = random_below(self.width);
            let y: usize = random_below(self.height);
            if self.get_xy(x, y).is_passable(true) {
                assert(self.free(Ps { x, y }, true));
                return Some(Ps { x, y });
            }
            attempt += 1;
        }
        proof {
            lemma_row_major(self.width as int, self.height as int, 0, 0);
        }
        let start: usize = random_below(self.map.len());
        self.first_free_from(start)
    }

    /// As `move_occupy_ps`, by coordinates: from `(x, y)` to `(x1, y1)`.
    pub fn move_occupy_xy(&mut self, x: usize, y: usize, x1: usize, y1: usize)
        requires
            old(self).wf(),
            x < old(self).width,
            y < old(self).height,
            x1 < old(self).width,
            y1 < old(self).height,
        ensures
            final(self).wf(),
            final(self).same_terrain(old(self)),
            final(self).occupied(Ps { x: x1, y: y1 }),
            (Ps { x, y }) != (Ps { x: x1, y: y1 }) ==> !final(self).occupied(Ps { x, y }),
            forall|other: Ps|
                old(self).contains(other) && other != (Ps { x, y }) && other != (Ps {
                    x: x1,
                    y: y1,
                }) ==> final(self).cell(other) == old(self).cell(other),
    {
        self.set_occupied(x, y, false);
        self.set_occupied(x1, y1, true);
    }
}

} // verus!
