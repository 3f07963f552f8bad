//! Grid positions: cells, signed cell deltas and sub-cell offsets.

use vstd::prelude::*;

verus! {

/// Number of offset units in one cell. Sub-cell offsets, speeds and step
/// lengths are all counted in thousandths of a cell.
pub const OFFSET_UNIT: i32 = 1000;

/// An offset whose magnitude has dropped below this many units counts as
/// having arrived at the centre of the cell.
pub const ARRIVAL_THRESHOLD: i32 = 10;

/// A grid cell, by column `x` and row `y`.
#[derive(Clone, Copy, Debug, PartialEq, Eq, Hash, Structural)]
pub struct Ps {
    pub x: usize,
    pub y: usize,
}

/// A signed pair of cell coordinates: a delta between two cells, or a
/// candidate position that may lie outside the grid.
#[derive(Clone, Copy, Debug, PartialEq, Eq, Structural)]
pub struct PsSigned {
    pub x: isize,
    pub y: isize,
}

/// Position inside a cell, in thousandths of a cell on each axis.
/// Zero means the centre of the cell.
#[derive(Clone, Copy, Debug, PartialEq, Eq, Structural)]
pub struct Offset {
    pub x: i32,
    pub y: i32,
}

/// The distance between two integers.
pub open spec fn gap(a: int, b: int) -> int {
    if a <= b {
        b - a
    } else {
        a - b
    }
}

/// Anything that can name a (possibly out-of-grid) pair of signed coordinates.
pub trait XYprovider {
    /// The coordinates that `get_xy` returns.
    spec fn xy(&self) -> (isize, isize);

    fn get_xy(&self) -> (r: (isize, isize))
        ensures
            r == self.xy(),
    ;
}

/// Anything that stands on a cell of the grid.
pub trait PsProvider {
    /// The cell that `get_current_ps` returns.
    spec fn current_ps(&self) -> Ps;

    fn get_current_ps(&self) -> (r: Ps)
        ensures
            r == self.current_ps(),
    ;
}

/// Anything that names a signed position.
pub trait PsSignedProvider {
    /// The position that `get_current_ps` returns.
    spec fn current_signed_ps(&self) -> PsSigned;

    fn get_current_ps(&self) -> (r: PsSigned)
        ensures
            r == self.current_signed_ps(),
    ;
}

/// A coordinate as a signed number; one too large for `isize` becomes
/// `isize::MAX`, which no grid contains.
pub open spec fn clamp_signed(v: usize) -> isize {
    if v <= isize::MAX {
        v as isize
    } else {
        isize::MAX
    }
}

fn to_signed_clamped(v: usize) -> (r: isize)
    ensures
        r == clamp_signed(v),
{
    if v <= isize::MAX as usize {
        v as isize
    } else {
        isize::MAX
    }
}

impl Ps {
    /// Manhattan distance between two cells.
    pub open spec fn distance(self, other: Ps) -> int {
        gap(self.x as int, other.x as int) + gap(self.y as int, other.y as int)
    }

    /// Two cells are adjacent when they share an edge.
    pub open spec fn adjacent(self, other: Ps) -> bool {
        self.distance(other) == 1
    }

    /// The cell `self - delta`, where it has no negative coordinate and fits.
    pub open spec fn back_by(self, delta: PsSigned) -> Option<Ps> {
        let x = self.x - delta.x;
        let y = self.y - delta.y;
        if 0 <= x <= usize::MAX && 0 <= y <= usize::MAX {
            Some(Ps { x: x as usize, y: y as usize })
        } else {
            None
        }
    }

    /// The cell `self + delta`, where it has no negative coordinate and fits.
    pub open spec fn forward_by(self, delta: PsSigned) -> Option<Ps> {
        let x = self.x + delta.x;
        let y = self.y + delta.y;
        if 0 <= x <= usize::MAX && 0 <= y <= usize::MAX {
            Some(Ps { x: x as usize, y: y as usize })
        } else {
            None
        }
    }

    /// Manhattan distance to `other`.
    pub fn manhattan_distance(&self, other: &Ps) -> (d: i32)
        requires
            self.distance(*other) <= i32::MAX,
        ensures
            d == self.distance(*other),
    {
        let dx: usize = if self.x <= other.x {
            other.x - self.x
        } else {
            self.x - other.x
        };
        let dy: usize = if self.y <= other.y {
            other.y - self.y
        } else {
            self.y - other.y
        };
        (dx + dy) as i32
    }

    /// Manhattan distance to `other`, in a type wide enough for any two
    /// cells.
    pub fn manhattan_wide(&self, other: &Ps) -> (d: u128)
        ensures
            d == self.distance(*other),
    {
        let dx: usize = if self.x <= other.x {
            other.x - self.x
        } else {
            self.x - other.x
        };
        let dy: usize = if self.y <= other.y {
            other.y - self.y
        } else {
            self.y - other.y
        };
        dx as u128 + dy as u128
    }

    /// Whether `other` lies at Manhattan distance `limit` or less. Unlike
    /// `manhattan_distance` this is defined for every pair of cells.
    pub fn within_distance(&self, other: &Ps, limit: usize) -> (r: bool)
        ensures
            r == (self.distance(*other) <= limit),
    {
        let dx: usize = if self.x <= other.x {
            other.x - self.x
        } else {
            self.x - other.x
        };
        let dy: usize = if self.y <= other.y {
            other.y - self.y
        } else {
            self.y - other.y
        };
        dx <= limit && dy <= limit - dx
    }

    /// Whether `other` shares an edge with this cell.
    pub fn is_adjacent(&self, other: &Ps) -> (r: bool)
        ensures
            r == self.adjacent(*other),
    {
        let dx: usize = if self.x <= other.x {
            other.x - self.x
        } else {
            self.x - other.x
        };
        let dy: usize = if self.y <= other.y {
            other.y - self.y
        } else {
            self.y - other.y
        };
        (dx == 1 && dy == 0) || (dx == 0 && dy == 1)
    }

    /// The same cell with signed coordinates; `None` where a coordinate does
    /// not fit.
    pub fn to_signed(&self) -> (r: Option<PsSigned>)
        ensures
            r is Some <==> self.x <= isize::MAX && self.y <= isize::MAX,
            r matches Some(p) ==> p.x == self.x && p.y == self.y,
    {
        if self.x <= isize::MAX as usize && self.y <= isize::MAX as usize {
            Some(PsSigned { x: self.x as isize, y: self.y as isize })
        } else {
            None
        }
    }

    /// The cell reached by going `delta` forward from here; `None` where that
    /// leaves the non-negative quadrant.
    pub fn plus(&self, delta: PsSigned) -> (r: Option<Ps>)
        ensures
            r == self.forward_by(delta),
    {
        match (self.x.checked_add_signed(delta.x), self.y.checked_add_signed(delta.y)) {
            (Some(x), Some(y)) => Some(Ps { x, y }),
            _ => None,
        }
    }

    /// The cell reached by going `delta` backward from here; `None` where that
    /// leaves the non-negative quadrant.
    pub fn minus(&self, delta: PsSigned) -> (r: Option<Ps>)
        ensures
            r == self.back_by(delta),
    {
        let x = step_back(self.x, delta.x);
        let y = step_back(self.y, delta.y);
        match (x, y) {
            (Some(x), Some(y)) => Some(Ps { x, y }),
            _ => None,
        }
    }
}

/// `v - d`, where that is a `usize`.
fn step_back(v: usize, d: isize) -> (r: Option<usize>)
    ensures
        r is Some <==> 0 <= v - d <= usize::MAX,
        r matches Some(w) ==> w == v - d,
{
    if d >= 0 {
        let back: usize = d as usize;
        if back <= v {
            Some(v - back)
        } else {
            None
        }
    } else {
        // -d == -(d + 1) + 1, and d + 1 cannot overflow
        let forward_less_one: usize = (-(d + 1)) as usize;
        if forward_less_one < usize::MAX - v {
            Some(v + forward_less_one + 1)
        } else {
            None
        }
    }
}

impl PsSigned {
    /// Manhattan distance between two signed positions.
    pub open spec fn distance(self, other: PsSigned) -> int {
        gap(self.x as int, other.x as int) + gap(self.y as int, other.y as int)
    }

    /// Manhattan distance to `other`.
    pub fn manhattan_distance(&self, other: &PsSigned) -> (d: i32)
        requires
            self.distance(*other) <= i32::MAX,
        ensures
            d == self.distance(*other),
    {
        let dx: i128 = if self.x <= other.x {
            other.x as i128 - self.x as i128
        } else {
            self.x as i128 - other.x as i128
        };
        let dy: i128 = if self.y <= other.y {
            other.y as i128 - self.y as i128
        } else {
            self.y as i128 - other.y as i128
        };
        (dx + dy) as i32
    }

    /// The cell with these coordinates; `None` where one of them is negative.
    pub fn to_ps(&self) -> (r: Option<Ps>)
        ensures
            r is Some <==> self.x >= 0 && self.y >= 0,
            r matches Some(p) ==> p.x == self.x && p.y == self.y,
    {
        if self.x >= 0 && self.y >= 0 {
            Some(Ps { x: self.x as usize, y: self.y as usize })
        } else {
            None
        }
    }
}

impl Offset {
    /// The centre of the cell.
    pub fn zero() -> (r: Offset)
        ensures
            r == (Offset { x: 0, y: 0 }),
    {
        Offset { x: 0, y: 0 }
    }

    /// Both axes lie within one cell of the centre.
    pub open spec fn in_cell(self) -> bool {
        -OFFSET_UNIT <= self.x <= OFFSET_UNIT && -OFFSET_UNIT <= self.y <= OFFSET_UNIT
    }

    /// The sum of two offsets, each axis kept within `i32`.
    pub open spec fn sum(self, other: Offset) -> Offset {
        Offset { x: clip(self.x + other.x), y: clip(self.y + other.y) }
    }

    /// Adds two offsets axis by axis; an axis that would leave `i32` stops at
    /// the nearest bound.
    pub fn plus(&self, other: Offset) -> (r: Offset)
        ensures
            r == self.sum(other),
    {
        Offset { x: clipped_sum(self.x, other.x), y: clipped_sum(self.y, other.y) }
    }
}

/// `v` brought into the range of `i32`.
pub open spec fn clip(v: int) -> i32 {
    if v < i32::MIN {
        i32::MIN
    } else if v > i32::MAX {
        i32::MAX
    } else {
        v as i32
    }
}

fn clipped_sum(a: i32, b: i32) -> (r: i32)
    ensures
        r == clip(a + b),
{
    let wide: i64 = a as i64 + b as i64;
    if wide < i32::MIN as i64 {
        i32::MIN
    } else if wide > i32::MAX as i64 {
        i32::MAX
    } else {
        wide as i32
    }
}

impl XYprovider for Ps {
    open spec fn xy(&self) -> (isize, isize) {
        (clamp_signed(self.x), clamp_signed(self.y))
    }

    fn get_xy(&self) -> (r: (isize, isize)) {
        (to_signed_clamped(self.x), to_signed_clamped(self.y))
    }
}

impl XYprovider for PsSigned {
    open spec fn xy(&self) -> (isize, isize) {
        (self.x, self.y)
    }

    fn get_xy(&self) -> (r: (isize, isize)) {
        (self.x, self.y)
    }
}

impl PsProvider for Ps {
    open spec fn current_ps(&self) -> Ps {
        *self
    }

    fn get_current_ps(&self) -> (r: Ps) {
        *self
    }
}

impl PsSignedProvider for PsSigned {
    open spec fn current_signed_ps(&self) -> PsSigned {
        *self
    }

    fn get_current_ps(&self) -> (r: PsSigned) {
        *self
    }
}

impl From<(usize, usize)> for Ps {
    fn from(value: (usize, usize)) -> (r: Ps) {
        Ps { x: value.0, y: value.1 }
    }
}

impl vstd::std_specs::convert::FromSpecImpl<(usize, usize)> for Ps {
    open spec fn obeys_from_spec() -> bool {
        true
    }

    open spec fn from_spec(value: (usize, usize)) -> Ps {
        Ps { x: value.0, y: value.1 }
    }
}

impl From<(isize, isize)> for PsSigned {
    fn from(value: (isize, isize)) -> (r: PsSigned) {
        PsSigned { x: value.0, y: value.1 }
    }
}

impl vstd::std_specs::convert::FromSpecImpl<(isize, isize)> for PsSigned {
    open spec fn obeys_from_spec() -> bool {
        true
    }

    open spec fn from_spec(value: (isize, isize)) -> PsSigned {
        PsSigned { x: value.0, y: value.1 }
    }
}

} // verus!
