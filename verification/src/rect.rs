//! Axis-aligned rectangles: the rooms of the dungeon.

use vstd::prelude::*;

verus! {

/// A rectangle on the grid, given by two opposite corners.
#[derive(Clone, Copy, Debug, PartialEq, Eq, Structural)]
pub struct Rect {
    pub x1: i32,
    pub y1: i32,
    pub x2: i32,
    pub y2: i32,
}

/// Half of `sum`, rounded towards zero.
pub open spec fn midpoint(sum: int) -> int {
    if sum >= 0 {
        sum / 2
    } else {
        -((-sum) / 2)
    }
}

/// Half of the sum of two coordinates, rounded towards zero.
fn halfway(a: i32, b: i32) -> (mid: i32)
    ensures
        mid == midpoint(a + b),
{
    let sum: i64 = a as i64 + b as i64;
    if sum >= 0 {
        (sum / 2) as i32
    } else {
        (-((-sum) / 2)) as i32
    }
}

impl Rect {
    /// Whether the point `(x, y)` lies strictly inside the rectangle, off
    /// its boundary.
    pub open spec fn interior_contains(&self, x: int, y: int) -> bool {
        self.x1 < x < self.x2 && self.y1 < y < self.y2
    }

    /// Whether the point `(x, y)` lies in the rectangle, boundary included.
    pub open spec fn covers(&self, x: int, y: int) -> bool {
        self.x1 <= x <= self.x2 && self.y1 <= y <= self.y2
    }

    /// Whether the closed rectangles `self` and `other` share a point.
    pub open spec fn overlaps(&self, other: &Rect) -> bool {
        self.x1 <= other.x2 && self.x2 >= other.x1 && self.y1 <= other.y2 && self.y2 >= other.y1
    }

    /// The centre of the rectangle, as a point of the model.
    pub open spec fn center_spec(&self) -> (int, int) {
        (midpoint(self.x1 + self.x2), midpoint(self.y1 + self.y2))
    }

    /// The rectangle with corner `(x, y)`, width `w` and height `h`.
    pub fn new(x: i32, y: i32, w: i32, h: i32) -> (rect: Self)
        requires
            i32::MIN <= x + w <= i32::MAX,
            i32::MIN <= y + h <= i32::MAX,
        ensures
            rect == (Rect { x1: x, y1: y, x2: (x + w) as i32, y2: (y + h) as i32 }),
    {
        Rect { x1: x, y1: y, x2: x + w, y2: y + h }
    }

    /// The centre of the rectangle.
    pub fn center(&self) -> (c: (i32, i32))
        ensures
            (c.0 as int, c.1 as int) == self.center_spec(),
    {
        (halfway(self.x1, self.x2), halfway(self.y1, self.y2))
    }

    /// Whether the two rectangles share a point, boundaries included: rooms
    /// that merely touch count as intersecting.
    pub fn intersects_with(&self, other: &Rect) -> (hit: bool)
        ensures
            hit == self.overlaps(other),
    {
        (self.x1 <= other.x2) && (self.x2 >= other.x1) && (self.y1 <= other.y2) && (self.y2
            >= other.y1)
    }
}

/// Two rectangles intersect exactly when some point lies in both, boundaries
/// included.
pub proof fn lemma_overlap_is_shared_point(a: Rect, b: Rect)
    requires
        a.x1 <= a.x2,
        a.y1 <= a.y2,
        b.x1 <= b.x2,
        b.y1 <= b.y2,
    ensures
        a.overlaps(&b) <==> exists|x: int, y: int| #[trigger] a.covers(x, y) && b.covers(x, y),
{
    if a.overlaps(&b) {
        let x: int = if a.x1 >= b.x1 { a.x1 as int } else { b.x1 as int };
        let y: int = if a.y1 >= b.y1 { a.y1 as int } else { b.y1 as int };
        assert(a.covers(x, y) && b.covers(x, y));
    }
}

/// Intersection does not depend on the order of the two rectangles.
pub proof fn lemma_overlap_symmetric(a: Rect, b: Rect)
    ensures
        a.overlaps(&b) == b.overlaps(&a),
{
}

} // verus!
