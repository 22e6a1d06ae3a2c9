//! Carving floor out of solid rock: rooms and the tunnels between them.

use vstd::prelude::*;
use crate::grid::Grid;
use crate::rect::Rect;
use crate::tile::Tile;

verus! {

/// Whether `v` lies between `a` and `b`, ends included, whichever of the
/// two is the smaller.
pub open spec fn between(a: int, b: int, v: int) -> bool {
    (a <= v <= b) || (b <= v <= a)
}

/// Whether `(x, y)` lies on the horizontal tunnel in row `row` from column
/// `x1` to column `x2`.
pub open spec fn on_h_tunnel(x1: int, x2: int, row: int, x: int, y: int) -> bool {
    y == row && between(x1, x2, x)
}

/// Whether `(x, y)` lies on the vertical tunnel in column `column` from row
/// `y1` to row `y2`.
pub open spec fn on_v_tunnel(y1: int, y2: int, column: int, x: int, y: int) -> bool {
    x == column && between(y1, y2, y)
}

/// Whether `(x, y)` lies on the corridor from `from` to `to`: an L of one
/// horizontal and one vertical tunnel, which leaves `from` horizontally if
/// `horizontal_first` and vertically if not.
pub open spec fn on_corridor(
    from: (int, int),
    to: (int, int),
    horizontal_first: bool,
    x: int,
    y: int,
) -> bool {
    if horizontal_first {
        on_h_tunnel(from.0, to.0, from.1, x, y) || on_v_tunnel(from.1, to.1, to.0, x, y)
    } else {
        on_v_tunnel(from.1, to.1, from.0, x, y) || on_h_tunnel(from.0, to.0, to.1, x, y)
    }
}

impl Grid {
    /// `self` is `before` with floor in every cell that `cut` selects, and
    /// with every other cell as it was.
    pub open spec fn is_carving_of(&self, before: &Grid, cut: spec_fn(int, int) -> bool) -> bool {
        &&& self.same_size(before)
        &&& forall|x: int, y: int| #![trigger self.tile(x, y)]
            before.in_bounds(x, y) ==> self.tile(x, y) == if cut(x, y) {
                Tile::empty()
            } else {
                before.tile(x, y)
            }
    }
}

/// Makes the inside of `room` passable. The rectangle's own boundary stays
/// as it is, so that walls remain between neighbouring rooms.
pub fn create_room(room: Rect, map: &mut Grid)
    requires
        old(map).wf(),
        forall|x: int, y: int| #[trigger] room.interior_contains(x, y) ==> old(map).in_bounds(x, y),
    ensures
        final(map).wf(),
        final(map).is_carving_of(old(map), |x: int, y: int| room.interior_contains(x, y)),
{
    let mut x: i64 = room.x1 as i64 + 1;
    while x < room.x2 as i64
        invariant
            room.x1 < x,
            map.wf(),
            map.same_size(old(map)),
            forall|i: int, j: int| #[trigger] room.interior_contains(i, j) ==> old(map).in_bounds(i, j),
            forall|i: int, j: int| #![trigger map.tile(i, j)]
                old(map).in_bounds(i, j) ==> map.tile(i, j) == if room.interior_contains(i, j) && i
                    < x {
                    Tile::empty()
                } else {
                    old(map).tile(i, j)
                },
        decreases room.x2 - x,
    {
        let mut y: i64 = room.y1 as i64 + 1;
        while y < room.y2 as i64
            invariant
                room.x1 < x < room.x2,
                room.y1 < y,
                map.wf(),
                map.same_size(old(map)),
                forall|i: int, j: int| #[trigger] room.interior_contains(i, j) ==> old(map).in_bounds(i, j),
                forall|i: int, j: int| #![trigger map.tile(i, j)]
                    old(map).in_bounds(i, j) ==> map.tile(i, j) == if room.interior_contains(i, j)
                        && (i < x || (i == x && j < y)) {
                        Tile::empty()
                    } else {
                        old(map).tile(i, j)
                    },
            decreases room.y2 - y,
        {
            assert(room.interior_contains(x as int, y as int));
            map.set(x as i32, y as i32, Tile::empty());
            y += 1;
        }
        x += 1;
    }
}

/// Digs a horizontal tunnel in row `y`, from column `x1` to column `x2`,
/// both ends included, whichever of the two is the smaller.
pub fn create_h_tunnel(x1: i32, x2: i32, y: i32, map: &mut Grid)
    requires
        old(map).wf(),
        old(map).in_bounds(x1 as int, y as int),
        old(map).in_bounds(x2 as int, y as int),
    ensures
        final(map).wf(),
        final(map).is_carving_of(
            old(map),
            |i: int, j: int| on_h_tunnel(x1 as int, x2 as int, y as int, i, j),
        ),
{
    let low: i32 = if x1 < x2 { x1 } else { x2 };
    let high: i32 = if x1 < x2 { x2 } else { x1 };
    let mut x: i32 = low;
    while x < high + 1
        invariant
            0 <= low <= x <= high + 1,
            high < map.width(),
            0 <= y < map.height(),
            low == if x1 < x2 { x1 } else { x2 },
            high == if x1 < x2 { x2 } else { x1 },
            map.wf(),
            map.same_size(old(map)),
            forall|i: int, j: int| #![trigger map.tile(i, j)]
                old(map).in_bounds(i, j) ==> map.tile(i, j) == if on_h_tunnel(
                    x1 as int,
                    x2 as int,
                    y as int,
                    i,
                    j,
                ) && i < x {
                    Tile::empty()
                } else {
                    old(map).tile(i, j)
                },
        decreases high + 1 - x,
    {
        map.set(x, y, Tile::empty());
        x += 1;
    }
}

/// Digs a vertical tunnel in column `x`, from row `y1` to row `y2`, both
/// ends included, whichever of the two is the smaller.
pub fn create_v_tunnel(y1: i32, y2: i32, x: i32, map: &mut Grid)
    requires
        old(map).wf(),
        old(map).in_bounds(x as int, y1 as int),
        old(map).in_bounds(x as int, y2 as int),
    ensures
        final(map).wf(),
        final(map).is_carving_of(
            old(map),
            |i: int, j: int| on_v_tunnel(y1 as int, y2 as int, x as int, i, j),
        ),
{
    let low: i32 = if y1 < y2 { y1 } else { y2 };
    let high: i32 = if y1 < y2 { y2 } else { y1 };
    let mut y: i32 = low;
    while y < high + 1
        invariant
            0 <= low <= y <= high + 1,
            high < map.height(),
            0 <= x < map.width(),
            low == if y1 < y2 { y1 } else { y2 },
            high == if y1 < y2 { y2 } else { y1 },
            map.wf(),
            map.same_size(old(map)),
            forall|i: int, j: int| #![trigger map.tile(i, j)]
                old(map).in_bounds(i, j) ==> map.tile(i, j) == if on_v_tunnel(
                    y1 as int,
                    y2 as int,
                    x as int,
                    i,
                    j,
                ) && j < y {
                    Tile::empty()
                } else {
                    old(map).tile(i, j)
                },
        decreases high + 1 - y,
    {
        map.set(x, y, Tile::empty());
        y += 1;
    }
}

/// Digs the corridor from `from` to `to`: first along one axis, then along
/// the other.
pub fn create_corridor(from: (i32, i32), to: (i32, i32), horizontal_first: bool, map: &mut Grid)
    requires
        old(map).wf(),
        old(map).in_bounds(from.0 as int, from.1 as int),
        old(map).in_bounds(to.0 as int, to.1 as int),
    ensures
        final(map).wf(),
        final(map).is_carving_of(
            old(map),
            |i: int, j: int|
                on_corridor(
                    (from.0 as int, from.1 as int),
                    (to.0 as int, to.1 as int),
                    horizontal_first,
                    i,
                    j,
                ),
        ),
{
    if horizontal_first {
        create_h_tunnel(from.0, to.0, from.1, map);
        create_v_tunnel(from.1, to.1, to.0, map);
    } else {
        create_v_tunnel(from.1, to.1, from.0, map);
        create_h_tunnel(from.0, to.0, to.1, map);
    }
}

} // verus!
