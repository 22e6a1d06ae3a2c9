//! The dungeon generator: rooms that do not touch, each joined to the one
//! before it by a corridor.

use vstd::prelude::*;
use crate::carve::{create_corridor, create_room, on_corridor};
use crate::grid::Grid;
use crate::object::{views, Object, ObjectView, PLAYER};
use crate::random::{random_bool, random_in_range};
use crate::rect::Rect;
use crate::movement::{blocked, blocks_cell};
use crate::spawn::{is_fresh_monster, place_objects, populated, MAX_ROOM_MONSTERS};
use crate::tile::Tile;

verus! {

/// Columns of the map.
pub const MAP_WIDTH: i32 = 80;

/// Rows of the map.
pub const MAP_HEIGHT: i32 = 43;

/// The longest side that a room can have.
pub const ROOM_MAX_SIZE: i32 = 10;

/// The shortest side that a room can have.
pub const ROOM_MIN_SIZE: i32 = 6;

/// How many rooms are tried.
pub const MAX_ROOMS: i32 = 17;

/// Whether `(x, y)` is a floor cell of the grid.
pub open spec fn floor_at(grid: &Grid, x: int, y: int) -> bool {
    grid.in_bounds(x, y) && grid.tile(x, y) == Tile::empty()
}

/// Whether `room` has sides of admissible length and lies on the map.
pub open spec fn room_fits(room: Rect) -> bool {
    &&& 0 <= room.x1
    &&& ROOM_MIN_SIZE <= room.x2 - room.x1 <= ROOM_MAX_SIZE
    &&& room.x2 < MAP_WIDTH
    &&& 0 <= room.y1
    &&& ROOM_MIN_SIZE <= room.y2 - room.y1 <= ROOM_MAX_SIZE
    &&& room.y2 < MAP_HEIGHT
}

/// Whether no two of `rooms` share a point, boundaries included.
pub open spec fn rooms_apart(rooms: Seq<Rect>) -> bool {
    forall|i: int, j: int| #![trigger rooms[i], rooms[j]]
        0 <= i < rooms.len() && 0 <= j < rooms.len() && i != j ==> !rooms[i].overlaps(&rooms[j])
}

/// What the generator decided: the rooms in the order in which they were
/// accepted, and for each room but the first, whether the corridor that
/// joins it to the room before it leaves that room horizontally.
pub struct Plan {
    pub rooms: Seq<Rect>,
    pub turns: Seq<bool>,
}

impl Plan {
    /// The plan with no room.
    pub open spec fn empty() -> Plan {
        Plan { rooms: Seq::empty(), turns: Seq::empty() }
    }

    /// The plan with one more room at the end.
    pub open spec fn with(self, room: Rect, horizontal_first: bool) -> Plan {
        Plan { rooms: self.rooms.push(room), turns: self.turns.push(horizontal_first) }
    }

    /// Whether the plan can be carried out: there are not more rooms than
    /// were tried, each fits on the map, and no two touch.
    pub open spec fn wf(self) -> bool {
        &&& self.rooms.len() == self.turns.len()
        &&& self.rooms.len() <= MAX_ROOMS
        &&& forall|i: int| 0 <= i < self.rooms.len() ==> room_fits(#[trigger] self.rooms[i])
        &&& rooms_apart(self.rooms)
    }

    /// Whether `(x, y)` lies inside room `k`.
    pub open spec fn room_covers(self, k: int, x: int, y: int) -> bool {
        self.rooms[k].interior_contains(x, y)
    }

    /// Whether `(x, y)` lies on the corridor that joins room `i` to the
    /// room before it.
    pub open spec fn corridor_covers(self, i: int, x: int, y: int) -> bool {
        on_corridor(
            self.rooms[i - 1].center_spec(),
            self.rooms[i].center_spec(),
            self.turns[i],
            x,
            y,
        )
    }

    /// Whether `(x, y)` lies inside one of the rooms.
    pub open spec fn in_some_room(self, x: int, y: int) -> bool {
        exists|k: int| 0 <= k < self.rooms.len() && #[trigger] self.room_covers(k, x, y)
    }

    /// Whether `(x, y)` lies on one of the corridors.
    pub open spec fn on_some_corridor(self, x: int, y: int) -> bool {
        exists|i: int| 0 < i < self.rooms.len() && #[trigger] self.corridor_covers(i, x, y)
    }

    /// Whether the plan has `(x, y)` carved out.
    pub open spec fn dug(self, x: int, y: int) -> bool {
        self.in_some_room(x, y) || self.on_some_corridor(x, y)
    }
}

/// Whether the grid is a map of the full size on which every cell is plain
/// wall or plain floor, and the outermost cells are all wall.
pub open spec fn is_cave(grid: &Grid) -> bool {
    &&& grid.wf()
    &&& grid.width() == MAP_WIDTH
    &&& grid.height() == MAP_HEIGHT
    &&& forall|x: int, y: int| #![trigger grid.tile(x, y)]
        grid.in_bounds(x, y) ==> grid.tile(x, y) == Tile::wall() || grid.tile(x, y) == Tile::empty()
    &&& forall|x: int, y: int| #![trigger grid.tile(x, y)]
        grid.in_bounds(x, y) && (x == 0 || y == 0 || x == MAP_WIDTH - 1 || y == MAP_HEIGHT - 1)
            ==> grid.tile(x, y) == Tile::wall()
}

/// Whether `grid` is the dungeon that `plan` describes: a cell is floor
/// exactly if it lies inside a room or on a corridor of the plan, and every
/// other cell is wall.
pub open spec fn is_dungeon(grid: &Grid, plan: Plan) -> bool {
    &&& is_cave(grid)
    &&& plan.wf()
    &&& forall|x: int, y: int| #![trigger grid.tile(x, y)]
        grid.in_bounds(x, y) ==> (grid.tile(x, y) == Tile::empty() <==> plan.dug(x, y))
}

/// Whether `after` is what the generator makes of the entities `before`
/// in a dungeon with the plan `plan`: the player stands in the centre of
/// the first room, the others that were there stay as they were, and
/// behind them come the monsters, at most `MAX_ROOM_MONSTERS` for each
/// room, each alive and inside a room, and no two of them on one cell.
pub open spec fn settled(plan: Plan, before: Seq<ObjectView>, after: Seq<ObjectView>) -> bool {
    &&& 0 < before.len() <= after.len()
    &&& after.len() <= before.len() + plan.rooms.len() * MAX_ROOM_MONSTERS
    &&& plan.rooms.len() > 0 ==> after[0] == before[0].moved_to(
        plan.rooms[0].center_spec().0,
        plan.rooms[0].center_spec().1,
    )
    &&& plan.rooms.len() == 0 ==> after[0] == before[0]
    &&& forall|i: int| 0 < i < before.len() ==> #[trigger] after[i] == before[i]
    &&& forall|i: int|
        before.len() <= i < after.len() ==> is_fresh_monster(#[trigger] after[i])
            && plan.in_some_room(after[i].x, after[i].y)
    &&& forall|i: int, j: int| #![trigger after[i], after[j]]
        before.len() <= i < j < after.len() ==> !after[i].is_at(after[j].x, after[j].y)
}

/// Whether `grid` and `after` are a dungeon that the generator can make
/// for the entities `before`, with `plan` as its plan.
pub open spec fn generated(grid: &Grid, plan: Plan, before: Seq<ObjectView>, after: Seq<ObjectView>) -> bool {
    is_dungeon(grid, plan) && plan.rooms.len() >= 1 && settled(plan, before, after)
}

/// Whether every cell inside `room` is floor.
pub open spec fn room_open(grid: &Grid, room: Rect) -> bool {
    forall|x: int, y: int| #[trigger] room.interior_contains(x, y) ==> floor_at(grid, x, y)
}

/// Whether every cell of the corridor from `from` to `to` that starts out
/// as `horizontal_first` says is floor.
pub open spec fn corridor_open(grid: &Grid, from: (int, int), to: (int, int), horizontal_first: bool) -> bool {
    forall|x: int, y: int| #[trigger]
        on_corridor(from, to, horizontal_first, x, y) ==> floor_at(grid, x, y)
}

/// Whether `room` touches one of `rooms`.
pub fn intersects_any(room: &Rect, rooms: &Vec<Rect>) -> (hit: bool)
    ensures
        hit == exists|i: int| 0 <= i < rooms@.len() && room.overlaps(&#[trigger] rooms@[i]),
{
    let mut i: usize = 0;
    while i < rooms.len()
        invariant
            i <= rooms@.len(),
            forall|k: int| 0 <= k < i ==> !room.overlaps(&#[trigger] rooms@[k]),
        decreases rooms@.len() - i,
    {
        if room.intersects_with(&rooms[i]) {
            return true;
        }
        i += 1;
    }
    false
}

/// The centre of a room that fits lies inside the room, and so not on one
/// of the outermost cells of the map.
pub proof fn lemma_center_inside(room: Rect)
    requires
        room_fits(room),
    ensures
        room.interior_contains(room.center_spec().0, room.center_spec().1),
        0 < room.center_spec().0 < MAP_WIDTH - 1,
        0 < room.center_spec().1 < MAP_HEIGHT - 1,
{
}

/// Whatever a plan has carved out lies on the map, and not on one of its
/// outermost cells.
pub proof fn lemma_dug_is_inside(plan: Plan, x: int, y: int)
    requires
        plan.wf(),
        plan.dug(x, y),
    ensures
        0 < x < MAP_WIDTH - 1,
        0 < y < MAP_HEIGHT - 1,
{
    if plan.in_some_room(x, y) {
        let k = choose|k: int| 0 <= k < plan.rooms.len() && #[trigger] plan.room_covers(k, x, y);
        assert(room_fits(plan.rooms[k]));
    } else {
        let i = choose|i: int| 0 < i < plan.rooms.len() && #[trigger] plan.corridor_covers(i, x, y);
        assert(room_fits(plan.rooms[i]));
        assert(room_fits(plan.rooms[i - 1]));
        lemma_center_inside(plan.rooms[i]);
        lemma_center_inside(plan.rooms[i - 1]);
    }
}

/// One more room adds to what is carved out the inside of that room and,
/// if it is not the first, the corridor to the room before it.
pub proof fn lemma_plan_grows(plan: Plan, room: Rect, horizontal_first: bool, x: int, y: int)
    requires
        plan.rooms.len() == plan.turns.len(),
    ensures
        plan.with(room, horizontal_first).dug(x, y) <==> (plan.dug(x, y) || room.interior_contains(
            x,
            y,
        ) || (plan.rooms.len() > 0 && on_corridor(
            plan.rooms[plan.rooms.len() - 1].center_spec(),
            room.center_spec(),
            horizontal_first,
            x,
            y,
        ))),
{
    let more = plan.with(room, horizontal_first);
    let n = plan.rooms.len() as int;
    if more.in_some_room(x, y) {
        let k = choose|k: int| 0 <= k < more.rooms.len() && #[trigger] more.room_covers(k, x, y);
        if k < n {
            assert(plan.room_covers(k, x, y));
        }
    }
    if more.on_some_corridor(x, y) {
        let i = choose|i: int| 0 < i < more.rooms.len() && #[trigger] more.corridor_covers(i, x, y);
        if i < n {
            assert(plan.corridor_covers(i, x, y));
        }
    }
    if plan.in_some_room(x, y) {
        let k = choose|k: int| 0 <= k < plan.rooms.len() && #[trigger] plan.room_covers(k, x, y);
        assert(more.room_covers(k, x, y));
    }
    if plan.on_some_corridor(x, y) {
        let i = choose|i: int| 0 < i < plan.rooms.len() && #[trigger] plan.corridor_covers(i, x, y);
        assert(more.corridor_covers(i, x, y));
    }
    if room.interior_contains(x, y) {
        assert(more.room_covers(n, x, y));
    }
    if n > 0 && on_corridor(
        plan.rooms[n - 1].center_spec(),
        room.center_spec(),
        horizontal_first,
        x,
        y,
    ) {
        assert(more.corridor_covers(n, x, y));
    }
}

/// In a dungeon every cell inside a room is floor, every corridor is floor
/// from the centre of one room to the centre of the next, and no two rooms
/// touch.
pub proof fn lemma_rooms_open_and_joined(grid: &Grid, plan: Plan)
    requires
        is_dungeon(grid, plan),
    ensures
        forall|k: int| 0 <= k < plan.rooms.len() ==> room_open(grid, #[trigger] plan.rooms[k]),
        forall|i: int|
            0 < i < plan.rooms.len() ==> corridor_open(
                grid,
                plan.rooms[i - 1].center_spec(),
                (#[trigger] plan.rooms[i]).center_spec(),
                plan.turns[i],
            ),
        rooms_apart(plan.rooms),
{
    assert forall|k: int| 0 <= k < plan.rooms.len() implies room_open(
        grid,
        #[trigger] plan.rooms[k],
    ) by {
        assert forall|x: int, y: int| #[trigger]
            plan.rooms[k].interior_contains(x, y) implies floor_at(grid, x, y) by {
            assert(plan.room_covers(k, x, y));
            lemma_dug_is_inside(plan, x, y);
            assert(grid.tile(x, y) == Tile::empty());
        }
    }
    assert forall|i: int| 0 < i < plan.rooms.len() implies corridor_open(
        grid,
        plan.rooms[i - 1].center_spec(),
        (#[trigger] plan.rooms[i]).center_spec(),
        plan.turns[i],
    ) by {
        let from = plan.rooms[i - 1].center_spec();
        let to = plan.rooms[i].center_spec();
        assert forall|x: int, y: int| #[trigger]
            on_corridor(from, to, plan.turns[i], x, y) implies floor_at(grid, x, y) by {
            assert(plan.corridor_covers(i, x, y));
            lemma_dug_is_inside(plan, x, y);
            assert(grid.tile(x, y) == Tile::empty());
        }
    }
}

/// Whether accepting `room` after the rooms `rooms` cuts the cell `(x,
/// y)`: it lies inside the room or, if the room is not the first, on the
/// corridor from the centre of the last of `rooms` to the centre of `room`.
pub open spec fn room_cut(rooms: Seq<Rect>, room: Rect, horizontal_first: bool, x: int, y: int) -> bool {
    room.interior_contains(x, y) || (rooms.len() > 0 && on_corridor(
        rooms[rooms.len() - 1].center_spec(),
        room.center_spec(),
        horizontal_first,
        x,
        y,
    ))
}

/// Carving out one more room, and if it is not the first, the corridor to
/// the room before it, makes of the dungeon of a plan the dungeon of the
/// plan with that room.
pub proof fn lemma_room_added(
    before: &Grid,
    after: &Grid,
    plan: Plan,
    room: Rect,
    horizontal_first: bool,
)
    requires
        is_dungeon(before, plan),
        plan.rooms.len() < MAX_ROOMS,
        room_fits(room),
        forall|k: int| 0 <= k < plan.rooms.len() ==> !room.overlaps(&#[trigger] plan.rooms[k]),
        after.wf(),
        after.is_carving_of(
            before,
            |x: int, y: int| room_cut(plan.rooms, room, horizontal_first, x, y),
        ),
    ensures
        is_dungeon(after, plan.with(room, horizontal_first)),
{
    let more = plan.with(room, horizontal_first);
    assert forall|i: int| 0 <= i < more.rooms.len() implies room_fits(#[trigger] more.rooms[i]) by {
        if i < plan.rooms.len() {
            assert(more.rooms[i] == plan.rooms[i]);
        }
    }
    assert forall|i: int, j: int|
        #![trigger more.rooms[i], more.rooms[j]]
        0 <= i < more.rooms.len() && 0 <= j < more.rooms.len() && i != j implies !more.rooms[i].overlaps(
        &more.rooms[j],
    ) by {
        if i < plan.rooms.len() {
            assert(more.rooms[i] == plan.rooms[i]);
        }
        if j < plan.rooms.len() {
            assert(more.rooms[j] == plan.rooms[j]);
        }
    }
    assert forall|x: int, y: int| #![trigger after.tile(x, y)] after.in_bounds(x, y) implies (
    after.tile(x, y) == Tile::empty() <==> more.dug(x, y)) && (after.tile(x, y) == Tile::wall()
        || after.tile(x, y) == Tile::empty()) && ((x == 0 || y == 0 || x == MAP_WIDTH - 1 || y
        == MAP_HEIGHT - 1) ==> after.tile(x, y) == Tile::wall()) by {
        lemma_plan_grows(plan, room, horizontal_first, x, y);
        assert(before.tile(x, y) == Tile::empty() <==> plan.dug(x, y));
        if more.dug(x, y) {
            assert(more.wf());
            lemma_dug_is_inside(more, x, y);
        }
    }
}

/// Monsters that found their cells free on one map find them free on
/// every map that has the same floor and more.
pub proof fn lemma_populated_on_more_floor(
    before: &Grid,
    after: &Grid,
    room: Rect,
    old_crowd: Seq<ObjectView>,
    crowd: Seq<ObjectView>,
)
    requires
        populated(before, room, old_crowd, crowd),
        after.same_size(before),
        forall|x: int, y: int| #[trigger] room.interior_contains(x, y) ==> before.in_bounds(x, y),
        forall|x: int, y: int| #![trigger after.tile(x, y)]
            before.in_bounds(x, y) && !before.tile(x, y).blocked ==> !after.tile(x, y).blocked,
    ensures
        populated(after, room, old_crowd, crowd),
{
    assert forall|i: int| old_crowd.len() <= i < crowd.len() implies !blocked(
        after,
        crowd.subrange(0, i),
        (#[trigger] crowd[i]).x,
        crowd[i].y,
    ) by {
        assert(room.interior_contains(crowd[i].x, crowd[i].y));
        assert(!blocked(before, crowd.subrange(0, i), crowd[i].x, crowd[i].y));
        assert(!after.tile(crowd[i].x, crowd[i].y).blocked);
    }
}

/// Takes one room that chance proposed. A room that touches an earlier one
/// is refused, and nothing changes. Any other room is accepted: its inside
/// is carved out and receives its monsters; then the first room receives
/// the player in its centre, and every later room is joined to the centre
/// of the room before it by a corridor that starts out horizontally if
/// `horizontal_first`, and vertically if not.
pub fn add_room(
    room: Rect,
    horizontal_first: bool,
    map: &mut Grid,
    rooms: &mut Vec<Rect>,
    objects: &mut Vec<Object>,
) -> (accepted: bool)
    requires
        old(objects)@.len() > 0,
        room_fits(room),
        is_cave(old(map)),
        forall|k: int| 0 <= k < old(rooms)@.len() ==> room_fits(#[trigger] old(rooms)@[k]),
    ensures
        accepted == !(exists|k: int|
            0 <= k < old(rooms)@.len() && room.overlaps(&#[trigger] old(rooms)@[k])),
        !accepted ==> *final(map) == *old(map) && final(rooms)@ == old(rooms)@ && views(
            final(objects)@,
        ) == views(old(objects)@),
        accepted ==> final(rooms)@ == old(rooms)@.push(room),
        old(objects)@.len() <= final(objects)@.len() <= old(objects)@.len() + MAX_ROOM_MONSTERS,
        accepted ==> final(map).wf() && final(map).is_carving_of(
            old(map),
            |x: int, y: int| room_cut(old(rooms)@, room, horizontal_first, x, y),
        ),
        accepted ==> exists|crowd: Seq<ObjectView>| #[trigger]
            populated(final(map), room, views(old(objects)@), crowd) && views(final(objects)@)
                == if old(rooms)@.len() == 0 {
                crowd.update(
                    0,
                    crowd[0].moved_to(room.center_spec().0, room.center_spec().1),
                )
            } else {
                crowd
            },
{
    if intersects_any(&room, rooms) {
        return false;
    }
    create_room(room, map);
    let ghost roomy = *map;
    place_objects(room, map, objects);
    let ghost crowd = views(objects@);
    let (new_x, new_y) = room.center();
    proof {
        lemma_center_inside(room);
    }
    if rooms.len() == 0 {
        objects[PLAYER].set_pos(new_x, new_y);
        assert(views(objects@) =~= crowd.update(
            0,
            crowd[0].moved_to(room.center_spec().0, room.center_spec().1),
        ));
    } else {
        let (prev_x, prev_y) = rooms[rooms.len() - 1].center();
        proof {
            lemma_center_inside(rooms@[rooms@.len() - 1]);
        }
        create_corridor((prev_x, prev_y), (new_x, new_y), horizontal_first, map);
    }
    rooms.push(room);
    proof {
        lemma_populated_on_more_floor(&roomy, map, room, views(old(objects)@), crowd);
    }
    true
}

/// The monsters of a room that found their cells free stand on cells of
/// their own: none stands where an earlier monster stands.
pub proof fn lemma_newcomers_stand_alone(
    map: &Grid,
    room: Rect,
    old_crowd: Seq<ObjectView>,
    crowd: Seq<ObjectView>,
    i: int,
    j: int,
)
    requires
        populated(map, room, old_crowd, crowd),
        0 <= i < j < crowd.len(),
        old_crowd.len() <= j,
        crowd[i].blocks,
    ensures
        !crowd[i].is_at(crowd[j].x, crowd[j].y),
{
    let earlier = crowd.subrange(0, j);
    assert(!blocked(map, earlier, crowd[j].x, crowd[j].y));
    assert(earlier[i] == crowd[i]);
    if crowd[i].is_at(crowd[j].x, crowd[j].y) {
        assert(blocks_cell(earlier[i], crowd[j].x, crowd[j].y));
    }
}

/// Builds the dungeon: a map of solid rock out of which up to `MAX_ROOMS`
/// rooms are carved. Chance proposes each room and the turn of its
/// corridor; what becomes of the proposal is `add_room`'s to say.
pub fn make_map(objects: &mut Vec<Object>) -> (map: Grid)
    requires
        old(objects)@.len() > 0,
    ensures
        exists|plan: Plan| #[trigger]
            generated(&map, plan, views(old(objects)@), views(final(objects)@)),
{
    let mut map = Grid::new(MAP_WIDTH as usize, MAP_HEIGHT as usize);
    let mut rooms: Vec<Rect> = Vec::new();
    let ghost mut plan = Plan::empty();
    proof {
        assert forall|x: int, y: int| #![trigger map.tile(x, y)] map.in_bounds(x, y) implies (
        map.tile(x, y) == Tile::empty() <==> plan.dug(x, y)) by {
            assert(map.tile(x, y) == Tile::wall());
        }
    }
    let mut tried: i32 = 0;
    while tried < MAX_ROOMS
        invariant
            0 <= tried <= MAX_ROOMS,
            rooms@.len() <= tried,
            tried > 0 ==> rooms@.len() > 0,
            plan.rooms == rooms@,
            is_dungeon(&map, plan),
            settled(plan, views(old(objects)@), views(objects@)),
        decreases MAX_ROOMS - tried,
    {
        let w = random_in_range(ROOM_MIN_SIZE, ROOM_MAX_SIZE + 1);
        let h = random_in_range(ROOM_MIN_SIZE, ROOM_MAX_SIZE + 1);
        let x = random_in_range(0, MAP_WIDTH - w);
        let y = random_in_range(0, MAP_HEIGHT - h);
        let new_room = Rect::new(x, y, w, h);
        let horizontal_first = random_bool();
        let ghost rock = map;
        let ghost housed = views(objects@);
        let ghost earlier = plan;
        let accepted = add_room(new_room, horizontal_first, &mut map, &mut rooms, objects);
        proof {
            if accepted {
                lemma_room_added(&rock, &map, earlier, new_room, horizontal_first);
                plan = earlier.with(new_room, horizontal_first);
                let before = views(old(objects)@);
                let after = views(objects@);
                let crowd = choose|crowd: Seq<ObjectView>| #[trigger]
                    populated(&map, new_room, housed, crowd) && after == if earlier.rooms.len()
                        == 0 {
                        crowd.update(
                            0,
                            crowd[0].moved_to(
                                new_room.center_spec().0,
                                new_room.center_spec().1,
                            ),
                        )
                    } else {
                        crowd
                    };
                assert(crowd.subrange(0, housed.len() as int) == housed);
                assert forall|i: int| 0 <= i < housed.len() implies crowd[i] == housed[i] by {
                    assert(crowd.subrange(0, housed.len() as int)[i] == crowd[i]);
                }
                assert forall|i: int| 0 < i < after.len() implies after[i] == crowd[i] by {}
                assert forall|i: int| before.len() <= i < after.len() implies is_fresh_monster(
                    #[trigger] after[i],
                ) && plan.in_some_room(after[i].x, after[i].y) by {
                    if i < housed.len() {
                        assert(after[i] == housed[i]);
                        let k = choose|k: int|
                            0 <= k < earlier.rooms.len() && #[trigger] earlier.room_covers(
                                k,
                                housed[i].x,
                                housed[i].y,
                            );
                        assert(plan.room_covers(k, after[i].x, after[i].y));
                    } else {
                        assert(plan.room_covers(plan.rooms.len() - 1, after[i].x, after[i].y));
                    }
                }
                assert forall|i: int, j: int|
                    #![trigger after[i], after[j]]
                    before.len() <= i < j < after.len() implies !after[i].is_at(
                    after[j].x,
                    after[j].y,
                ) by {
                    if j < housed.len() {
                        assert(after[i] == housed[i] && after[j] == housed[j]);
                    } else {
                        assert(is_fresh_monster(after[i]));
                        lemma_newcomers_stand_alone(&map, new_room, housed, crowd, i, j);
                    }
                }
                assert(after.len() <= before.len() + plan.rooms.len() * MAX_ROOM_MONSTERS) by {
                    assert(plan.rooms.len() * MAX_ROOM_MONSTERS == earlier.rooms.len()
                        * MAX_ROOM_MONSTERS + MAX_ROOM_MONSTERS) by (nonlinear_arith)
                        requires
                            plan.rooms.len() == earlier.rooms.len() + 1,
                    ;
                }
            }
        }
        tried += 1;
    }
    assert(generated(&map, plan, views(old(objects)@), views(objects@)));
    map
}

} // verus!
