//! The dungeon grid: a rectangle of tiles addressed by `(x, y)`.

use vstd::prelude::*;
use crate::tile::Tile;

verus! {

/// The map: `tiles[x][y]` is the cell in column `x`, row `y`.
#[derive(Debug)]
pub struct Grid {
    pub tiles: Vec<Vec<Tile>>,
}

impl Grid {
    /// Number of columns.
    pub open spec fn width(&self) -> int {
        self.tiles@.len() as int
    }

    /// Number of rows.
    pub open spec fn height(&self) -> int {
        if self.tiles@.len() > 0 {
            self.tiles@[0]@.len() as int
        } else {
            0
        }
    }

    /// Every column has the same number of rows, and both dimensions can be
    /// written as `i32` coordinates.
    pub open spec fn wf(&self) -> bool {
        &&& self.width() <= i32::MAX
        &&& self.height() <= i32::MAX
        &&& forall|x: int| 0 <= x < self.width() ==> (#[trigger] self.tiles@[x])@.len() == self.height()
    }

    /// Whether `(x, y)` addresses a cell of the grid.
    pub open spec fn in_bounds(&self, x: int, y: int) -> bool {
        0 <= x < self.width() && 0 <= y < self.height()
    }

    /// The cell at `(x, y)`.
    pub open spec fn tile(&self, x: int, y: int) -> Tile {
        self.tiles@[x]@[y]
    }

    /// Whether the cell at `(x, y)` is impassable terrain.
    pub open spec fn blocked_at(&self, x: int, y: int) -> bool {
        self.tile(x, y).blocked
    }

    /// `self` has the dimensions of `other`.
    pub open spec fn same_size(&self, other: &Grid) -> bool {
        self.width() == other.width() && self.height() == other.height()
    }

    /// `self` is `other` with the cell at `(x, y)` replaced by `tile`.
    pub open spec fn is_update_of(&self, other: &Grid, x: int, y: int, tile: Tile) -> bool {
        &&& self.same_size(other)
        &&& forall|i: int, j: int| #![trigger self.tile(i, j)]
            other.in_bounds(i, j) ==> self.tile(i, j) == if i == x && j == y {
                tile
            } else {
                other.tile(i, j)
            }
    }

    /// A grid of `width` columns and `height` rows in which every cell is a
    /// wall.
    pub fn new(width: usize, height: usize) -> (grid: Self)
        requires
            width <= i32::MAX,
            height <= i32::MAX,
        ensures
            grid.wf(),
            grid.width() == width,
            grid.height() == if width > 0 { height as int } else { 0 },
            forall|x: int, y: int| grid.in_bounds(x, y) ==> #[trigger] grid.tile(x, y) == Tile::wall(),
    {
        let mut tiles: Vec<Vec<Tile>> = Vec::new();
        let mut x: usize = 0;
        while x < width
            invariant
                x <= width,
                tiles@.len() == x,
                forall|i: int| 0 <= i < x ==> (#[trigger] tiles@[i])@.len() == height,
                forall|i: int, j: int| 0 <= i < x && 0 <= j < height ==> #[trigger] tiles@[i]@[j] == Tile::wall(),
            decreases width - x,
        {
            let mut column: Vec<Tile> = Vec::new();
            let mut y: usize = 0;
            while y < height
                invariant
                    y <= height,
                    column@.len() == y,
                    forall|j: int| 0 <= j < y ==> #[trigger] column@[j] == Tile::wall(),
                decreases height - y,
            {
                column.push(Tile::wall());
                y += 1;
            }
            tiles.push(column);
            x += 1;
        }
        Grid { tiles }
    }

    /// Whether the grid is well formed.
    pub fn is_wf(&self) -> (ok: bool)
        ensures
            ok == self.wf(),
    {
        let width = self.tiles.len();
        if width > 0x7fff_ffff {
            return false;
        }
        if width == 0 {
            return true;
        }
        let height = self.tiles[0].len();
        if height > 0x7fff_ffff {
            return false;
        }
        let mut x: usize = 0;
        while x < width
            invariant
                x <= width,
                width == self.width(),
                height == self.height(),
                forall|i: int| 0 <= i < x ==> (#[trigger] self.tiles@[i])@.len() == height,
            decreases width - x,
        {
            if self.tiles[x].len() != height {
                return false;
            }
            x += 1;
        }
        true
    }

    /// Whether `(x, y)` addresses a cell of the grid.
    pub fn contains(&self, x: i32, y: i32) -> (inside: bool)
        requires
            self.wf(),
        ensures
            inside == self.in_bounds(x as int, y as int),
    {
        if x < 0 || y < 0 {
            return false;
        }
        if x as usize >= self.tiles.len() {
            return false;
        }
        (y as usize) < self.tiles[0].len()
    }

    /// The number of columns and the number of rows.
    pub fn size(&self) -> (size: (usize, usize))
        ensures
            size.0 == self.width(),
            size.1 == self.height(),
    {
        if self.tiles.len() == 0 {
            (0, 0)
        } else {
            (self.tiles.len(), self.tiles[0].len())
        }
    }

    /// The cell at `(x, y)`.
    pub fn get(&self, x: i32, y: i32) -> (tile: Tile)
        requires
            self.wf(),
            self.in_bounds(x as int, y as int),
        ensures
            tile == self.tile(x as int, y as int),
    {
        self.tiles[x as usize][y as usize]
    }

    /// Replaces the cell at `(x, y)` by `tile`.
    pub fn set(&mut self, x: i32, y: i32, tile: Tile)
        requires
            old(self).wf(),
            old(self).in_bounds(x as int, y as int),
        ensures
            final(self).wf(),
            final(self).is_update_of(old(self), x as int, y as int, tile),
    {
        self.tiles[x as usize][y as usize] = tile;
    }
}

} // verus!
