//! The field of view: which cells the player sees this frame. It is
//! computed elsewhere; here it is only asked.

use vstd::prelude::*;

verus! {

/// For every cell of the map, whether it is in the field of view:
/// `cells[x][y]` answers for column `x`, row `y`.
#[derive(Debug)]
pub struct FovMap {
    pub cells: Vec<Vec<bool>>,
}

impl FovMap {
    /// Number of columns.
    pub open spec fn width(&self) -> int {
        self.cells@.len() as int
    }

    /// Number of rows.
    pub open spec fn height(&self) -> int {
        if self.cells@.len() > 0 {
            self.cells@[0]@.len() as int
        } else {
            0
        }
    }

    /// Every column has the same number of rows, and both dimensions can be
    /// written as `i32` coordinates.
    pub open spec fn wf(&self) -> bool {
        &&& self.width() <= i32::MAX
        &&& self.height() <= i32::MAX
        &&& forall|x: int| 0 <= x < self.width() ==> (#[trigger] self.cells@[x])@.len() == self.height()
    }

    /// Whether `(x, y)` addresses a cell.
    pub open spec fn in_bounds(&self, x: int, y: int) -> bool {
        0 <= x < self.width() && 0 <= y < self.height()
    }

    /// Whether the cell at `(x, y)` is in the field of view.
    pub open spec fn sees(&self, x: int, y: int) -> bool {
        self.cells@[x]@[y]
    }

    /// A field of view of `width` columns and `height` rows that holds no
    /// cell.
    pub fn new(width: usize, height: usize) -> (fov: Self)
        requires
            width <= i32::MAX,
            height <= i32::MAX,
        ensures
            fov.wf(),
            fov.width() == width,
            fov.height() == if width > 0 { height as int } else { 0 },
            forall|x: int, y: int| fov.in_bounds(x, y) ==> !#[trigger] fov.sees(x, y),
    {
        let mut cells: Vec<Vec<bool>> = Vec::new();
        let mut x: usize = 0;
        while x < width
            invariant
                x <= width,
                cells@.len() == x,
                forall|i: int| 0 <= i < x ==> (#[trigger] cells@[i])@.len() == height,
                forall|i: int, j: int| 0 <= i < x && 0 <= j < height ==> !#[trigger] cells@[i]@[j],
            decreases width - x,
        {
            let mut column: Vec<bool> = Vec::new();
            let mut y: usize = 0;
            while y < height
                invariant
                    y <= height,
                    column@.len() == y,
                    forall|j: int| 0 <= j < y ==> !#[trigger] column@[j],
                decreases height - y,
            {
                column.push(false);
                y += 1;
            }
            cells.push(column);
            x += 1;
        }
        FovMap { cells }
    }

    /// Whether the field of view is well formed.
    pub fn is_wf(&self) -> (ok: bool)
        ensures
            ok == self.wf(),
    {
        let width = self.cells.len();
        if width > 0x7fff_ffff {
            return false;
        }
        if width == 0 {
            return true;
        }
        let height = self.cells[0].len();
        if height > 0x7fff_ffff {
            return false;
        }
        let mut x: usize = 0;
        while x < width
            invariant
                x <= width,
                width == self.width(),
                height == self.height(),
                forall|i: int| 0 <= i < x ==> (#[trigger] self.cells@[i])@.len() == height,
            decreases width - x,
        {
            if self.cells[x].len() != height {
                return false;
            }
            x += 1;
        }
        true
    }

    /// Whether `(x, y)` addresses a cell.
    pub fn contains(&self, x: i32, y: i32) -> (inside: bool)
        requires
            self.wf(),
        ensures
            inside == self.in_bounds(x as int, y as int),
    {
        if x < 0 || y < 0 {
            return false;
        }
        if x as usize >= self.cells.len() {
            return false;
        }
        (y as usize) < self.cells[0].len()
    }

    /// Records whether the cell at `(x, y)` is in the field of view.
    pub fn set(&mut self, x: i32, y: i32, visible: bool)
        requires
            old(self).wf(),
            old(self).in_bounds(x as int, y as int),
        ensures
            final(self).wf(),
            final(self).width() == old(self).width(),
            final(self).height() == old(self).height(),
            forall|i: int, j: int| #![trigger final(self).sees(i, j)]
                old(self).in_bounds(i, j) ==> final(self).sees(i, j) == if i == x && j == y {
                    visible
                } else {
                    old(self).sees(i, j)
                },
    {
        self.cells[x as usize][y as usize] = visible;
    }

    /// The number of columns and the number of rows.
    pub fn size(&self) -> (size: (usize, usize))
        ensures
            size.0 == self.width(),
            size.1 == self.height(),
    {
        if self.cells.len() == 0 {
            (0, 0)
        } else {
            (self.cells.len(), self.cells[0].len())
        }
    }

    /// Whether the cell at `(x, y)` is in the field of view.
    pub fn is_in_fov(&self, x: i32, y: i32) -> (visible: bool)
        requires
            self.wf(),
            self.in_bounds(x as int, y as int),
        ensures
            visible == self.sees(x as int, y as int),
    {
        self.cells[x as usize][y as usize]
    }
}

} // verus!
