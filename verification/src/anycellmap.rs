//! A rectangular grid that holds one value of any kind per cell.

use vstd::prelude::*;

use crate::position::{Ps, XYprovider};
use crate::worldmap::lemma_row_major;

verus! {

/// A grid of `width * height` values, stored row by row.
pub struct AnyCellmap<T: Clone> {
    pub map: Vec<T>,
    pub width: usize,
    pub height: usize,
}

impl<T: Clone> AnyCellmap<T> {
    /// The grid holds one value for each of its cells.
    pub open spec fn wf(&self) -> bool {
        self.map.len() == self.width * self.height
    }

    /// The cell `ps` lies inside the grid.
    pub open spec fn contains(&self, ps: Ps) -> bool {
        ps.x < self.width && ps.y < self.height
    }

    /// Where the value of cell `ps` is stored.
    pub open spec fn index_of(&self, ps: Ps) -> int {
        ps.y * self.width + ps.x
    }

    /// The value of cell `ps`.
    pub open spec fn value(&self, ps: Ps) -> T {
        self.map[self.index_of(ps)]
    }

    /// A grid of the given size in which every cell holds a clone of
    /// `init_value`.
    pub fn new(init_value: &T, width: i32, height: i32) -> (r: Self)
        requires
            width >= 0,
            height >= 0,
            width * height <= usize::MAX,
        ensures
            r.wf(),
            r.width == width,
            r.height == height,
            forall|i: int| 0 <= i < r.map.len() ==> cloned(*init_value, #[trigger] r.map[i]),
    {
        let width: usize = width as usize;
        let height: usize = height as usize;
        let total: usize = width * height;
        let mut map: Vec<T> = Vec::with_capacity(total);
        let mut i: usize = 0;
        while i < total
            invariant
                i <= total,
                map.len() == i,
                forall|j: int| 0 <= j < i ==> cloned(*init_value, #[trigger] map[j]),
            decreases total - i,
        {
            map.push(init_value.clone());
            i += 1;
        }
        AnyCellmap { map, width, height }
    }

    /// Gives the grid a new size and fills it with clones of `init_value`.
    pub fn reset_and_resize(&mut self, init_value: T, width: i32, height: i32)
        requires
            width >= 0,
            height >= 0,
            width * height <= usize::MAX,
        ensures
            final(self).wf(),
            final(self).width == width,
            final(self).height == height,
            forall|i: int|
                0 <= i < final(self).map.len()
                    ==> cloned(init_value, #[trigger] final(self).map[i]),
    {
        let width: usize = width as usize;
        let height: usize = height as usize;
        self.width = width;
        self.height = height;
        self.map = vec![init_value; width * height]
    }

    /// Fills the grid with clones of `init_value`.
    pub fn reset(&mut self, init_value: T)
        requires
            old(self).wf(),
        ensures
            final(self).wf(),
            final(self).width == old(self).width,
            final(self).height == old(self).height,
            forall|i: int|
                0 <= i < final(self).map.len()
                    ==> cloned(init_value, #[trigger] final(self).map[i]),
    {
        self.map = vec![init_value; self.width * self.height]
    }

    pub fn wh_usize(&self) -> (r: (usize, usize))
        ensures
            r == (self.width, self.height),
    {
        (self.width, self.height)
    }

    /// The value in column `x` of row `y`.
    pub fn get_xy(&self, x: usize, y: usize) -> (value: &T)
        requires
            self.wf(),
            x < self.width,
            y < self.height,
        ensures
            *value == self.value(Ps { x, y }),
    {
        proof {
            lemma_row_major(self.width as int, self.height as int, x as int, y as int);
        }
        &self.map[y * self.width + x]
    }

    /// Whether `pos` is a cell of the grid.
    pub fn pos_within_bounds(&self, pos: Ps) -> (r: bool)
        ensures
            r == self.contains(pos),
    {
        pos.x < self.width && pos.y < self.height
    }

    /// Whether what `pos_provider` names is a cell of the grid.
    pub fn xy_within_bounds<P: XYprovider>(&self, pos_provider: &P) -> (r: bool)
        ensures
            r == (0 <= pos_provider.xy().0 < self.width && 0 <= pos_provider.xy().1 < self.height),
    {
        let pos = pos_provider.get_xy();
        self.within_bounds(pos.0, pos.1)
    }

    /// The value of the cell `pos`.
    pub fn get_pos(&self, pos: &Ps) -> (value: &T)
        requires
            self.wf(),
            self.contains(*pos),
        ensures
            *value == self.value(*pos),
    {
        self.get_xy(pos.x, pos.y)
    }

    /// The value of the cell `pos`, to be changed in place.
    pub fn get_pos_mut(&mut self, pos: &Ps) -> (value: &mut T)
        requires
            old(self).wf(),
            old(self).contains(*pos),
        ensures
            *value == old(self).value(*pos),
            final(self).map@ == old(self).map@.update(old(self).index_of(*pos), *final(value)),
            final(self).width == old(self).width,
            final(self).height == old(self).height,
    {
        self.get_xy_mut(pos.x, pos.y)
    }

    /// Whether the signed coordinates name a cell of the grid.
    pub fn within_bounds(&self, x: isize, y: isize) -> (r: bool)
        ensures
            r == (0 <= x < self.width && 0 <= y < self.height),
    {
        x >= 0 && y >= 0 && (x as usize) < self.width && (y as usize) < self.height
    }

    /// The value in column `x` of row `y`, to be changed in place.
    pub fn get_xy_mut(&mut self, x: usize, y: usize) -> (value: &mut T)
        requires
            old(self).wf(),
            x < old(self).width,
            y < old(self).height,
        ensures
            *value == old(self).value(Ps { x, y }),
            final(self).map@ == old(self).map@.update(
                old(self).index_of(Ps { x, y }),
                *final(value),
            ),
            final(self).width == old(self).width,
            final(self).height == old(self).height,
    {
        proof {
            lemma_row_major(self.width as int, self.height as int, x as int, y as int);
        }
        let index: usize = y * self.width + x;
        &mut self.map[index]
    }
}

} // verus!
