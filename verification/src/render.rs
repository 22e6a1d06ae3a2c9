//! What the simulation tells whoever draws it: which cells have been
//! seen, in which colour a cell is shown, and which entities are drawn, in
//! which order.

use vstd::prelude::*;
use crate::color::{tile_color, Color};
use crate::fov::FovMap;
use crate::grid::Grid;
use crate::object::{views, Object, ObjectView};
use crate::tile::Tile;

verus! {

impl Tile {
    /// The cell after a frame in which it was, or was not, in the field of
    /// view: once seen, it stays explored.
    pub open spec fn seen(self, visible: bool) -> Tile {
        Tile { explored: self.explored || visible, ..self }
    }
}

/// The colour in which a cell is shown, if it is shown at all: a cell that
/// is neither in the field of view nor explored is not.
pub open spec fn shown_color(tile: Tile, visible: bool) -> Option<Color> {
    if tile.seen(visible).explored {
        Some(tile_color(visible, tile.block_sight))
    } else {
        None
    }
}

/// The colour in which a cell is shown this frame, if it is shown at all.
pub fn cell_color(tile: Tile, visible: bool) -> (color: Option<Color>)
    ensures
        color == shown_color(tile, visible),
{
    if tile.explored || visible {
        Some(tile_color(visible, tile.block_sight))
    } else {
        None
    }
}

/// Marks every cell in the field of view as explored. No cell is ever
/// marked as unexplored again, and nothing else about a cell changes.
pub fn explore(map: &mut Grid, fov: &FovMap)
    requires
        old(map).wf(),
        fov.wf(),
        fov.width() == old(map).width(),
        fov.height() == old(map).height(),
    ensures
        final(map).wf(),
        final(map).same_size(old(map)),
        forall|x: int, y: int| #![trigger final(map).tile(x, y)]
            old(map).in_bounds(x, y) ==> final(map).tile(x, y) == old(map).tile(x, y).seen(
                fov.sees(x, y),
            ),
{
    let width = map.tiles.len();
    let mut x: usize = 0;
    while x < width
        invariant
            x <= width,
            width == map.width(),
            map.wf(),
            fov.wf(),
            map.same_size(old(map)),
            fov.width() == map.width(),
            fov.height() == map.height(),
            forall|i: int, j: int| #![trigger map.tile(i, j)]
                old(map).in_bounds(i, j) ==> map.tile(i, j) == if i < x {
                    old(map).tile(i, j).seen(fov.sees(i, j))
                } else {
                    old(map).tile(i, j)
                },
        decreases width - x,
    {
        let height = map.tiles[x].len();
        let mut y: usize = 0;
        while y < height
            invariant
                x < width,
                y <= height,
                width == map.width(),
                height == map.height(),
                map.wf(),
                fov.wf(),
                map.same_size(old(map)),
                fov.width() == map.width(),
                fov.height() == map.height(),
                forall|i: int, j: int| #![trigger map.tile(i, j)]
                    old(map).in_bounds(i, j) ==> map.tile(i, j) == if i < x || (i == x && j < y) {
                        old(map).tile(i, j).seen(fov.sees(i, j))
                    } else {
                        old(map).tile(i, j)
                    },
            decreases height - y,
        {
            let tile = map.get(x as i32, y as i32);
            if fov.is_in_fov(x as i32, y as i32) {
                map.set(
                    x as i32,
                    y as i32,
                    Tile { blocked: tile.blocked, explored: true, block_sight: tile.block_sight },
                );
            }
            y += 1;
        }
        x += 1;
    }
}

/// The indices below `below` of the entities in the field of view that
/// block, or do not block, as `blocks` says, in the order of the list.
pub open spec fn layer(objects: Seq<ObjectView>, fov: &FovMap, blocks: bool, below: int) -> Seq<int>
    decreases below,
{
    if below <= 0 {
        Seq::empty()
    } else {
        let rest = layer(objects, fov, blocks, below - 1);
        let object = objects[below - 1];
        if fov.sees(object.x, object.y) && object.blocks == blocks {
            rest.push(below - 1)
        } else {
            rest
        }
    }
}

/// The indices of the entities that are drawn, in the order in which they
/// are drawn: those in the field of view, first the ones that do not block,
/// so that what blocks is drawn over what lies on the floor, and within
/// each of the two in the order of the list.
pub open spec fn drawing_order(objects: Seq<ObjectView>, fov: &FovMap) -> Seq<int> {
    layer(objects, fov, false, objects.len() as int) + layer(
        objects,
        fov,
        true,
        objects.len() as int,
    )
}

/// The indices of a list as mathematical integers.
pub open spec fn as_ints(indices: Seq<usize>) -> Seq<int> {
    Seq::new(indices.len(), |i: int| indices[i] as int)
}

/// Appends to `order` the entities of one layer.
fn push_layer(objects: &[Object], fov: &FovMap, blocks: bool, order: &mut Vec<usize>)
    requires
        fov.wf(),
        forall|i: int| 0 <= i < objects@.len() ==> fov.in_bounds((#[trigger] objects@[i]).x as int, objects@[i].y as int),
    ensures
        as_ints(final(order)@) == as_ints(old(order)@) + layer(
            views(objects@),
            fov,
            blocks,
            objects@.len() as int,
        ),
{
    let mut i: usize = 0;
    assert(as_ints(order@) =~= as_ints(old(order)@) + layer(views(objects@), fov, blocks, 0));
    while i < objects.len()
        invariant
            i <= objects@.len(),
            fov.wf(),
            forall|k: int| 0 <= k < objects@.len() ==> fov.in_bounds((#[trigger] objects@[k]).x as int, objects@[k].y as int),
            as_ints(order@) == as_ints(old(order)@) + layer(views(objects@), fov, blocks, i as int),
        decreases objects@.len() - i,
    {
        let ghost before = order@;
        assert(fov.in_bounds(objects@[i as int].x as int, objects@[i as int].y as int));
        if fov.is_in_fov(objects[i].x, objects[i].y) && objects[i].blocks == blocks {
            order.push(i);
            assert(as_ints(order@) =~= as_ints(before).push(i as int));
        }
        assert(as_ints(order@) =~= as_ints(old(order)@) + layer(
            views(objects@),
            fov,
            blocks,
            i as int + 1,
        ));
        i += 1;
    }
}

/// The indices of the entities to draw this frame, in drawing order.
pub fn draw_order(objects: &[Object], fov: &FovMap) -> (order: Vec<usize>)
    requires
        fov.wf(),
        forall|i: int| 0 <= i < objects@.len() ==> fov.in_bounds((#[trigger] objects@[i]).x as int, objects@[i].y as int),
    ensures
        as_ints(order@) == drawing_order(views(objects@), fov),
{
    let mut order: Vec<usize> = Vec::new();
    push_layer(objects, fov, false, &mut order);
    push_layer(objects, fov, true, &mut order);
    assert(as_ints(order@) =~= drawing_order(views(objects@), fov));
    order
}

/// The row for the next message of the log, going from the newest to the
/// oldest and from the bottom row up: a message that is `height` rows high
/// goes above row `y`, and none is shown once the rows have run out.
pub fn next_message_row(y: i32, height: i32) -> (row: Option<i32>)
    requires
        i32::MIN <= y - height <= i32::MAX,
    ensures
        row == if y - height < 0 {
            None
        } else {
            Some((y - height) as i32)
        },
{
    let row: i32 = y - height;
    if row < 0 {
        None
    } else {
        Some(row)
    }
}

/// Every index in a layer is the index of an entity of that layer, and the
/// indices come in rising order.
pub proof fn lemma_layer_is_sorted(objects: Seq<ObjectView>, fov: &FovMap, blocks: bool, below: int)
    requires
        0 <= below <= objects.len(),
    ensures
        forall|k: int|
            0 <= k < layer(objects, fov, blocks, below).len() ==> {
                let i = #[trigger] layer(objects, fov, blocks, below)[k];
                0 <= i < below && fov.sees(objects[i].x, objects[i].y) && objects[i].blocks
                    == blocks
            },
        forall|k: int, l: int|
            0 <= k < l < layer(objects, fov, blocks, below).len() ==> layer(
                objects,
                fov,
                blocks,
                below,
            )[k] < layer(objects, fov, blocks, below)[l],
        forall|i: int|
            0 <= i < below && fov.sees(objects[i].x, objects[i].y) && objects[i].blocks == blocks
                ==> layer(objects, fov, blocks, below).contains(i),
    decreases below,
{
    if below > 0 {
        lemma_layer_is_sorted(objects, fov, blocks, below - 1);
        let rest = layer(objects, fov, blocks, below - 1);
        let all = layer(objects, fov, blocks, below);
        assert forall|i: int|
            0 <= i < below && fov.sees(objects[i].x, objects[i].y) && objects[i].blocks
                == blocks implies all.contains(i) by {
            if i < below - 1 {
                assert(rest.contains(i));
                let k = choose|k: int| 0 <= k < rest.len() && rest[k] == i;
                assert(all[k] == i);
            } else {
                assert(all[all.len() - 1] == i);
            }
        }
    }
}

} // verus!
