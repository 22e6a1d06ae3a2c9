//! Why a dungeon is in one piece: every floor cell can be walked to from
//! the centre of the first room, one step along an axis at a time.

use vstd::prelude::*;
use crate::carve::{between, on_corridor, on_h_tunnel, on_v_tunnel};
use crate::dungeon::{
    corridor_open, floor_at, is_dungeon, lemma_center_inside, lemma_rooms_open_and_joined,
    room_fits, room_open, Plan,
};
use crate::grid::Grid;
use crate::rect::Rect;
use crate::tile::Tile;

verus! {

/// Whether two cells are neighbours along an axis.
pub open spec fn adjacent(a: (int, int), b: (int, int)) -> bool {
    ||| (a.0 == b.0 && (a.1 == b.1 + 1 || b.1 == a.1 + 1))
    ||| (a.1 == b.1 && (a.0 == b.0 + 1 || b.0 == a.0 + 1))
}

/// Whether `path` is a walk over floor: every cell of it is floor, and each
/// is a neighbour of the one before it.
pub open spec fn is_path(grid: &Grid, path: Seq<(int, int)>) -> bool {
    &&& path.len() > 0
    &&& forall|i: int| 0 <= i < path.len() ==> floor_at(grid, (#[trigger] path[i]).0, path[i].1)
    &&& forall|i: int| 0 < i < path.len() ==> adjacent(path[i - 1], #[trigger] path[i])
}

/// Whether `path` is a walk over floor from `a` to `b`.
pub open spec fn walks(grid: &Grid, path: Seq<(int, int)>, a: (int, int), b: (int, int)) -> bool {
    is_path(grid, path) && path[0] == a && path[path.len() - 1] == b
}

/// Whether one can walk over floor from `a` to `b`.
pub open spec fn linked(grid: &Grid, a: (int, int), b: (int, int)) -> bool {
    exists|path: Seq<(int, int)>| #[trigger] walks(grid, path, a, b)
}

/// A floor cell is linked to itself.
pub proof fn lemma_linked_to_itself(grid: &Grid, a: (int, int))
    requires
        floor_at(grid, a.0, a.1),
    ensures
        linked(grid, a, a),
{
    assert(walks(grid, seq![a], a, a));
}

/// Two walks that meet make one walk.
pub proof fn lemma_linked_onwards(grid: &Grid, a: (int, int), b: (int, int), c: (int, int))
    requires
        linked(grid, a, b),
        linked(grid, b, c),
    ensures
        linked(grid, a, c),
{
    let first = choose|path: Seq<(int, int)>| #[trigger] walks(grid, path, a, b);
    let second = choose|path: Seq<(int, int)>| #[trigger] walks(grid, path, b, c);
    let rest = second.subrange(1, second.len() as int);
    let whole = first + rest;
    assert forall|i: int| 0 <= i < whole.len() implies floor_at(
        grid,
        (#[trigger] whole[i]).0,
        whole[i].1,
    ) by {
        if i < first.len() {
            assert(whole[i] == first[i]);
        } else {
            assert(whole[i] == second[i - first.len() + 1]);
        }
    }
    assert forall|i: int| 0 < i < whole.len() implies adjacent(whole[i - 1], #[trigger] whole[i]) by {
        if i < first.len() {
            assert(whole[i] == first[i]);
            assert(whole[i - 1] == first[i - 1]);
        } else if i == first.len() {
            assert(whole[i] == second[1]);
            assert(whole[i - 1] == second[0]);
        } else {
            assert(whole[i] == second[i - first.len() + 1]);
            assert(whole[i - 1] == second[i - first.len()]);
        }
    }
    assert(walks(grid, whole, a, c));
}

/// A row of floor from column `x1` to column `x2` links its two ends.
pub proof fn lemma_row_links(grid: &Grid, x1: int, x2: int, y: int)
    requires
        forall|x: int| between(x1, x2, x) ==> #[trigger] floor_at(grid, x, y),
    ensures
        linked(grid, (x1, y), (x2, y)),
{
    let steps = if x1 <= x2 { x2 - x1 } else { x1 - x2 };
    let path = Seq::new(
        (steps + 1) as nat,
        |i: int| (if x1 <= x2 { x1 + i } else { x1 - i }, y),
    );
    assert forall|i: int| 0 <= i < path.len() implies floor_at(
        grid,
        (#[trigger] path[i]).0,
        path[i].1,
    ) by {
        assert(between(x1, x2, path[i].0));
    }
    assert(walks(grid, path, (x1, y), (x2, y)));
}

/// A column of floor from row `y1` to row `y2` links its two ends.
pub proof fn lemma_column_links(grid: &Grid, y1: int, y2: int, x: int)
    requires
        forall|y: int| between(y1, y2, y) ==> #[trigger] floor_at(grid, x, y),
    ensures
        linked(grid, (x, y1), (x, y2)),
{
    let steps = if y1 <= y2 { y2 - y1 } else { y1 - y2 };
    let path = Seq::new(
        (steps + 1) as nat,
        |i: int| (x, if y1 <= y2 { y1 + i } else { y1 - i }),
    );
    assert forall|i: int| 0 <= i < path.len() implies floor_at(
        grid,
        (#[trigger] path[i]).0,
        path[i].1,
    ) by {
        assert(between(y1, y2, path[i].1));
    }
    assert(walks(grid, path, (x, y1), (x, y2)));
}

/// Inside an open room one can walk from any cell to any other.
pub proof fn lemma_room_is_linked(grid: &Grid, room: Rect, a: (int, int), b: (int, int))
    requires
        room_open(grid, room),
        room.interior_contains(a.0, a.1),
        room.interior_contains(b.0, b.1),
    ensures
        linked(grid, a, b),
{
    assert forall|x: int| between(a.0, b.0, x) implies #[trigger] floor_at(grid, x, a.1) by {
        assert(room.interior_contains(x, a.1));
    }
    lemma_row_links(grid, a.0, b.0, a.1);
    assert forall|y: int| between(a.1, b.1, y) implies #[trigger] floor_at(grid, b.0, y) by {
        assert(room.interior_contains(b.0, y));
    }
    lemma_column_links(grid, a.1, b.1, b.0);
    lemma_linked_onwards(grid, a, (b.0, a.1), b);
}

/// Along an open corridor one can walk from where it starts to every cell
/// of it.
pub proof fn lemma_corridor_is_linked(
    grid: &Grid,
    from: (int, int),
    to: (int, int),
    horizontal_first: bool,
    x: int,
    y: int,
)
    requires
        corridor_open(grid, from, to, horizontal_first),
        on_corridor(from, to, horizontal_first, x, y),
    ensures
        linked(grid, from, (x, y)),
{
    if horizontal_first {
        if on_h_tunnel(from.0, to.0, from.1, x, y) {
            assert forall|i: int| between(from.0, x, i) implies #[trigger] floor_at(
                grid,
                i,
                from.1,
            ) by {
                assert(on_corridor(from, to, horizontal_first, i, from.1));
            }
            lemma_row_links(grid, from.0, x, from.1);
        } else {
            assert forall|i: int| between(from.0, to.0, i) implies #[trigger] floor_at(
                grid,
                i,
                from.1,
            ) by {
                assert(on_corridor(from, to, horizontal_first, i, from.1));
            }
            lemma_row_links(grid, from.0, to.0, from.1);
            assert forall|j: int| between(from.1, y, j) implies #[trigger] floor_at(grid, to.0, j) by {
                assert(on_corridor(from, to, horizontal_first, to.0, j));
            }
            lemma_column_links(grid, from.1, y, to.0);
            lemma_linked_onwards(grid, from, (to.0, from.1), (x, y));
        }
    } else {
        if on_v_tunnel(from.1, to.1, from.0, x, y) {
            assert forall|j: int| between(from.1, y, j) implies #[trigger] floor_at(
                grid,
                from.0,
                j,
            ) by {
                assert(on_corridor(from, to, horizontal_first, from.0, j));
            }
            lemma_column_links(grid, from.1, y, from.0);
        } else {
            assert forall|j: int| between(from.1, to.1, j) implies #[trigger] floor_at(
                grid,
                from.0,
                j,
            ) by {
                assert(on_corridor(from, to, horizontal_first, from.0, j));
            }
            lemma_column_links(grid, from.1, to.1, from.0);
            assert forall|i: int| between(from.0, x, i) implies #[trigger] floor_at(grid, i, to.1) by {
                assert(on_corridor(from, to, horizontal_first, i, to.1));
            }
            lemma_row_links(grid, from.0, x, to.1);
            lemma_linked_onwards(grid, from, (from.0, to.1), (x, y));
        }
    }
}

/// In a dungeon one can walk from the centre of the first room to the
/// centre of every room.
pub proof fn lemma_centers_are_linked(grid: &Grid, plan: Plan, k: int)
    requires
        is_dungeon(grid, plan),
        0 <= k < plan.rooms.len(),
    ensures
        linked(grid, plan.rooms[0].center_spec(), plan.rooms[k].center_spec()),
    decreases k,
{
    lemma_rooms_open_and_joined(grid, plan);
    let here = plan.rooms[k].center_spec();
    assert(room_fits(plan.rooms[k]));
    lemma_center_inside(plan.rooms[k]);
    if k == 0 {
        assert(room_open(grid, plan.rooms[0]));
        assert(plan.rooms[0].interior_contains(here.0, here.1));
        lemma_linked_to_itself(grid, here);
    } else {
        lemma_centers_are_linked(grid, plan, k - 1);
        let there = plan.rooms[k - 1].center_spec();
        assert(corridor_open(grid, there, here, plan.turns[k]));
        assert(on_corridor(there, here, plan.turns[k], here.0, here.1));
        lemma_corridor_is_linked(grid, there, here, plan.turns[k], here.0, here.1);
        lemma_linked_onwards(grid, plan.rooms[0].center_spec(), there, here);
    }
}

/// A dungeon is in one piece: from the centre of the first room, where
/// the player starts, one can walk over floor to every floor cell.
pub proof fn lemma_dungeon_is_connected(grid: &Grid, plan: Plan, x: int, y: int)
    requires
        is_dungeon(grid, plan),
        plan.rooms.len() > 0,
        floor_at(grid, x, y),
    ensures
        linked(grid, plan.rooms[0].center_spec(), (x, y)),
{
    lemma_rooms_open_and_joined(grid, plan);
    let start = plan.rooms[0].center_spec();
    assert(grid.tile(x, y) == Tile::empty());
    assert(plan.dug(x, y));
    if plan.in_some_room(x, y) {
        let k = choose|k: int| 0 <= k < plan.rooms.len() && #[trigger] plan.room_covers(k, x, y);
        let center = plan.rooms[k].center_spec();
        lemma_centers_are_linked(grid, plan, k);
        assert(room_fits(plan.rooms[k]));
        lemma_center_inside(plan.rooms[k]);
        assert(room_open(grid, plan.rooms[k]));
        lemma_room_is_linked(grid, plan.rooms[k], center, (x, y));
        lemma_linked_onwards(grid, start, center, (x, y));
    } else {
        let i = choose|i: int| 0 < i < plan.rooms.len() && #[trigger] plan.corridor_covers(i, x, y);
        let from = plan.rooms[i - 1].center_spec();
        let to = plan.rooms[i].center_spec();
        lemma_centers_are_linked(grid, plan, i - 1);
        assert(corridor_open(grid, from, to, plan.turns[i]));
        lemma_corridor_is_linked(grid, from, to, plan.turns[i], x, y);
        lemma_linked_onwards(grid, start, from, (x, y));
    }
}

} // verus!
