//! Movement on the grid: what blocks a cell, single steps, and steps
//! towards a target.

use vstd::prelude::*;
use crate::grid::Grid;
use crate::object::{views, Object, ObjectView};

verus! {

/// Whether `object` is in the way of anything that wants to enter `(x, y)`.
pub open spec fn blocks_cell(object: ObjectView, x: int, y: int) -> bool {
    object.blocks && object.is_at(x, y)
}

/// Whether some blocking entity stands at `(x, y)`.
pub open spec fn occupied(objects: Seq<ObjectView>, x: int, y: int) -> bool {
    exists|i: int| 0 <= i < objects.len() && blocks_cell(#[trigger] objects[i], x, y)
}

/// Whether `(x, y)` cannot be entered: the terrain is impassable, or a
/// blocking entity stands there.
pub open spec fn blocked(map: &Grid, objects: Seq<ObjectView>, x: int, y: int) -> bool {
    map.blocked_at(x, y) || occupied(objects, x, y)
}

/// The entities after entity `id` tried to move by `(dx, dy)`: it stands
/// on the new cell if that cell can be entered, and nothing changes if not.
pub open spec fn moved_by(map: &Grid, objects: Seq<ObjectView>, id: int, dx: int, dy: int) -> Seq<
    ObjectView,
> {
    let x = objects[id].x + dx;
    let y = objects[id].y + dy;
    if blocked(map, objects, x, y) {
        objects
    } else {
        objects.update(id, objects[id].moved_to(x, y))
    }
}

/// One coordinate of the step towards a target that lies `along` cells away
/// on this axis and `across` cells away on the other: the share of this
/// axis in the unit vector, `along / sqrt(along² + across²)`, rounded to
/// the nearest whole number. That share is at least one half exactly when
/// `4 along² >= along² + across²`.
pub open spec fn unit_step(along: int, across: int) -> int {
    if along > 0 && 4 * along * along >= along * along + across * across {
        1
    } else if along < 0 && 4 * along * along >= along * along + across * across {
        -1
    } else {
        0
    }
}

/// The entities after entity `id` took a step towards `(target_x,
/// target_y)`.
pub open spec fn moved_towards(
    map: &Grid,
    objects: Seq<ObjectView>,
    id: int,
    target_x: int,
    target_y: int,
) -> Seq<ObjectView> {
    let dx = target_x - objects[id].x;
    let dy = target_y - objects[id].y;
    moved_by(map, objects, id, unit_step(dx, dy), unit_step(dy, dx))
}

/// Whether the cell at `(x, y)` cannot be entered.
pub fn is_blocked(x: i32, y: i32, map: &Grid, objects: &[Object]) -> (hit: bool)
    requires
        map.wf(),
        map.in_bounds(x as int, y as int),
    ensures
        hit == blocked(map, views(objects@), x as int, y as int),
{
    if map.get(x, y).blocked {
        return true;
    }
    let mut i: usize = 0;
    while i < objects.len()
        invariant
            i <= objects@.len(),
            forall|k: int| 0 <= k < i ==> !blocks_cell(#[trigger] views(objects@)[k], x as int, y as int),
        decreases objects@.len() - i,
    {
        if objects[i].blocks && objects[i].x == x && objects[i].y == y {
            assert(blocks_cell(views(objects@)[i as int], x as int, y as int));
            return true;
        }
        i += 1;
    }
    false
}

/// Moves entity `id` by `(dx, dy)` if the cell it would come to stand on
/// can be entered; if not, nothing happens.
pub fn move_by(id: usize, dx: i32, dy: i32, map: &Grid, objects: &mut [Object])
    requires
        id < old(objects)@.len(),
        map.wf(),
        map.in_bounds(old(objects)@[id as int].x + dx, old(objects)@[id as int].y + dy),
    ensures
        final(objects)@.len() == old(objects)@.len(),
        views(final(objects)@) == moved_by(map, views(old(objects)@), id as int, dx as int, dy as int),
{
    let (x, y) = objects[id].pos();
    if !is_blocked(x + dx, y + dy, map, objects) {
        objects[id].set_pos(x + dx, y + dy);
        assert(views(objects@) =~= views(old(objects)@).update(
            id as int,
            views(old(objects)@)[id as int].moved_to((x + dx) as int, (y + dy) as int),
        ));
    } else {
        assert(views(objects@) =~= views(old(objects)@));
    }
}

/// One coordinate of the step towards a target.
fn axis_step(along: i64, across: i64) -> (step: i32)
    requires
        -0x1_0000_0000 < along < 0x1_0000_0000,
        -0x1_0000_0000 < across < 0x1_0000_0000,
    ensures
        step == unit_step(along as int, across as int),
{
    let a: i128 = along as i128;
    let c: i128 = across as i128;
    assert(0 <= a * a <= 0x1_0000_0000 * 0x1_0000_0000) by (nonlinear_arith)
        requires
            -0x1_0000_0000 < a < 0x1_0000_0000,
    ;
    assert(0 <= c * c <= 0x1_0000_0000 * 0x1_0000_0000) by (nonlinear_arith)
        requires
            -0x1_0000_0000 < c < 0x1_0000_0000,
    ;
    let aa: i128 = a * a;
    let cc: i128 = c * c;
    assert(4 * along * along == 4 * (along * along)) by (nonlinear_arith);
    let near: bool = 4 * aa >= aa + cc;
    if along > 0 && near {
        1
    } else if along < 0 && near {
        -1
    } else {
        0
    }
}

/// Moves entity `id` one step towards `(target_x, target_y)`, in one of the
/// eight directions of the grid, if the cell in that direction can be
/// entered.
pub fn move_towards(id: usize, target_x: i32, target_y: i32, map: &Grid, objects: &mut [Object])
    requires
        id < old(objects)@.len(),
        map.wf(),
        map.in_bounds(
            old(objects)@[id as int].x + unit_step(
                target_x - old(objects)@[id as int].x,
                target_y - old(objects)@[id as int].y,
            ),
            old(objects)@[id as int].y + unit_step(
                target_y - old(objects)@[id as int].y,
                target_x - old(objects)@[id as int].x,
            ),
        ),
    ensures
        final(objects)@.len() == old(objects)@.len(),
        views(final(objects)@) == moved_towards(
            map,
            views(old(objects)@),
            id as int,
            target_x as int,
            target_y as int,
        ),
{
    let dx: i64 = target_x as i64 - objects[id].x as i64;
    let dy: i64 = target_y as i64 - objects[id].y as i64;
    let step_x = axis_step(dx, dy);
    let step_y = axis_step(dy, dx);
    move_by(id, step_x, step_y, map, objects);
}

/// Two distinct elements of `items`, both for writing.
pub fn mut_two<T>(first_index: usize, second_index: usize, items: &mut [T]) -> (pair: (
    &mut T,
    &mut T,
))
    requires
        first_index != second_index,
        first_index < old(items)@.len(),
        second_index < old(items)@.len(),
    ensures
        *pair.0 == old(items)@[first_index as int],
        *pair.1 == old(items)@[second_index as int],
        final(items)@ == old(items)@.update(first_index as int, *final(pair.0)).update(
            second_index as int,
            *final(pair.1),
        ),
{
    let split_at_index: usize = if first_index < second_index {
        second_index
    } else {
        first_index
    };
    let (first_slice, second_slice) = items.split_at_mut(split_at_index);
    if first_index < second_index {
        (&mut first_slice[first_index], &mut second_slice[0])
    } else {
        (&mut second_slice[0], &mut first_slice[second_index])
    }
}

/// A step goes one cell or none along each axis, and never away from the
/// target.
pub proof fn lemma_unit_step_is_a_direction(along: int, across: int)
    ensures
        -1 <= unit_step(along, across) <= 1,
        along > 0 ==> unit_step(along, across) >= 0,
        along < 0 ==> unit_step(along, across) <= 0,
        along == 0 ==> unit_step(along, across) == 0,
{
}

/// Towards a target that is somewhere else the step is never the null
/// step: along the longer axis it is a whole cell.
pub proof fn lemma_unit_step_moves(dx: int, dy: int)
    requires
        dx != 0 || dy != 0,
    ensures
        unit_step(dx, dy) != 0 || unit_step(dy, dx) != 0,
{
    assert(dx * dx >= dy * dy || dy * dy >= dx * dx);
    assert(dx * dx >= 0 && dy * dy >= 0) by (nonlinear_arith);
    if dx * dx >= dy * dy {
        assert(dx != 0) by (nonlinear_arith)
            requires
                dx * dx >= dy * dy,
                dx != 0 || dy != 0,
        ;
        assert(4 * dx * dx == 4 * (dx * dx)) by (nonlinear_arith);
    } else {
        assert(dy != 0) by (nonlinear_arith)
            requires
                dy * dy >= dx * dx,
                dx != 0 || dy != 0,
        ;
        assert(4 * dy * dy == 4 * (dy * dy)) by (nonlinear_arith);
    }
}

/// A move into a cell that cannot be entered changes nothing.
pub proof fn lemma_blocked_move_is_no_move(
    map: &Grid,
    objects: Seq<ObjectView>,
    id: int,
    dx: int,
    dy: int,
)
    requires
        0 <= id < objects.len(),
        blocked(map, objects, objects[id].x + dx, objects[id].y + dy),
    ensures
        moved_by(map, objects, id, dx, dy) == objects,
{
}

/// A move changes at most the place of the one entity that moves, and
/// takes it nowhere but to the cell it aimed at.
pub proof fn lemma_move_changes_one_place(
    map: &Grid,
    objects: Seq<ObjectView>,
    id: int,
    dx: int,
    dy: int,
)
    requires
        0 <= id < objects.len(),
    ensures
        moved_by(map, objects, id, dx, dy).len() == objects.len(),
        forall|i: int|
            0 <= i < objects.len() && i != id ==> #[trigger] moved_by(map, objects, id, dx, dy)[i]
                == objects[i],
        moved_by(map, objects, id, dx, dy)[id] == objects[id] || moved_by(
            map,
            objects,
            id,
            dx,
            dy,
        )[id] == objects[id].moved_to(objects[id].x + dx, objects[id].y + dy),
{
}

} // verus!
