//! The monsters that live in the rooms of a fresh dungeon.

use vstd::prelude::*;
use vstd::string::*;
use crate::color::Color;
use crate::grid::Grid;
use crate::movement::{blocked, is_blocked};
use crate::object::{views, Ai, DeathCallback, Fighter, Object, ObjectView};
use crate::random::{random_in_range, random_ratio};
use crate::rect::Rect;

verus! {

/// The most monsters that one room gets.
pub const MAX_ROOM_MONSTERS: i32 = 3;

/// Of every `KIND_SHARES` monsters, `COMMON_SHARES` are of the common kind.
pub const COMMON_SHARES: u32 = 4;

/// The number of shares that the two kinds divide between them.
pub const KIND_SHARES: u32 = 5;

/// The two kinds of monster.
#[derive(Clone, Copy, Debug, PartialEq, Eq, Structural)]
pub enum MonsterKind {
    /// The common kind: four in five.
    Bezos,
    /// The tough kind: one in five.
    Trump,
}

impl MonsterKind {
    /// What a monster of this kind fights with.
    pub open spec fn fighter(self) -> Fighter {
        match self {
            MonsterKind::Bezos => Fighter {
                max_hp: 10,
                hp: 10,
                defense: 0,
                power: 3,
                on_death: DeathCallback::Monster,
            },
            MonsterKind::Trump => Fighter {
                max_hp: 16,
                hp: 16,
                defense: 1,
                power: 4,
                on_death: DeathCallback::Monster,
            },
        }
    }

    /// The character that a monster of this kind is drawn as.
    pub open spec fn glyph(self) -> char {
        match self {
            MonsterKind::Bezos => 'b',
            MonsterKind::Trump => 'T',
        }
    }

    /// What a monster of this kind is called.
    pub open spec fn name(self) -> Seq<char> {
        match self {
            MonsterKind::Bezos => "bezos"@,
            MonsterKind::Trump => "trump"@,
        }
    }

    /// A living monster of this kind at `(x, y)`.
    pub open spec fn at(self, x: int, y: int) -> ObjectView {
        ObjectView {
            x,
            y,
            glyph: self.glyph(),
            color: Color::black(),
            name: self.name(),
            blocks: true,
            alive: true,
            fighter: Some(self.fighter()),
            ai: Some(Ai::Basic),
        }
    }

    /// A living monster of this kind at `(x, y)`.
    pub fn spawn(self, x: i32, y: i32) -> (monster: Object)
        ensures
            monster@ == self.at(x as int, y as int),
    {
        match self {
            MonsterKind::Bezos => {
                let mut monster = Object::new(x, y, 'b', "bezos", Color::black(), true);
                monster.fighter = Some(
                    Fighter {
                        max_hp: 10,
                        hp: 10,
                        defense: 0,
                        power: 3,
                        on_death: DeathCallback::Monster,
                    },
                );
                monster.ai = Some(Ai::Basic);
                monster.alive = true;
                monster
            },
            MonsterKind::Trump => {
                let mut monster = Object::new(x, y, 'T', "trump", Color::black(), true);
                monster.fighter = Some(
                    Fighter {
                        max_hp: 16,
                        hp: 16,
                        defense: 1,
                        power: 4,
                        on_death: DeathCallback::Monster,
                    },
                );
                monster.ai = Some(Ai::Basic);
                monster.alive = true;
                monster
            },
        }
    }
}

/// The kind of monster that the weighted coin picks: the common kind if it
/// came up, the tough kind if not.
pub fn kind_for(common: bool) -> (kind: MonsterKind)
    ensures
        kind == if common {
            MonsterKind::Bezos
        } else {
            MonsterKind::Trump
        },
{
    if common {
        MonsterKind::Bezos
    } else {
        MonsterKind::Trump
    }
}

/// Whether `object` is a monster as it is spawned: alive, of one of the two
/// kinds.
pub open spec fn is_fresh_monster(object: ObjectView) -> bool {
    object == MonsterKind::Bezos.at(object.x, object.y) || object == MonsterKind::Trump.at(
        object.x,
        object.y,
    )
}

/// Whether `after` is `before` with the monsters of one room added at the
/// end: at most `MAX_ROOM_MONSTERS` of them, each inside `room`, and each
/// on a cell that was free when it came.
pub open spec fn populated(
    map: &Grid,
    room: Rect,
    before: Seq<ObjectView>,
    after: Seq<ObjectView>,
) -> bool {
    &&& before.len() <= after.len() <= before.len() + MAX_ROOM_MONSTERS
    &&& after.subrange(0, before.len() as int) == before
    &&& forall|i: int|
        before.len() <= i < after.len() ==> {
            &&& is_fresh_monster(#[trigger] after[i])
            &&& room.interior_contains(after[i].x, after[i].y)
            &&& !blocked(map, after.subrange(0, i), after[i].x, after[i].y)
        }
}

/// Puts a monster of kind `kind` at `(x, y)`, unless that cell cannot be
/// entered: then no monster comes, and none is tried elsewhere.
pub fn place_monster(kind: MonsterKind, x: i32, y: i32, map: &Grid, objects: &mut Vec<Object>) -> (placed:
    bool)
    requires
        map.wf(),
        map.in_bounds(x as int, y as int),
    ensures
        placed == !blocked(map, views(old(objects)@), x as int, y as int),
        placed ==> views(final(objects)@) == views(old(objects)@).push(kind.at(x as int, y as int)),
        !placed ==> views(final(objects)@) == views(old(objects)@),
{
    let monster = kind.spawn(x, y);
    if !is_blocked(x, y, map, objects.as_slice()) {
        objects.push(monster);
        assert(views(objects@) =~= views(old(objects)@).push(kind.at(x as int, y as int)));
        true
    } else {
        false
    }
}

/// Populates `room` with up to `MAX_ROOM_MONSTERS` monsters, each at a
/// cell inside the room that chance picks, four in five of the common kind.
pub fn place_objects(room: Rect, map: &Grid, objects: &mut Vec<Object>)
    requires
        map.wf(),
        room.x1 + 1 < room.x2,
        room.y1 + 1 < room.y2,
        forall|x: int, y: int| #[trigger] room.interior_contains(x, y) ==> map.in_bounds(x, y),
    ensures
        populated(map, room, views(old(objects)@), views(final(objects)@)),
{
    let num_monsters = random_in_range(0, MAX_ROOM_MONSTERS + 1);
    let mut count: i32 = 0;
    assert(views(objects@).subrange(0, views(old(objects)@).len() as int) =~= views(old(objects)@));
    while count < num_monsters
        invariant
            0 <= count <= num_monsters <= MAX_ROOM_MONSTERS,
            map.wf(),
            room.x1 + 1 < room.x2,
            room.y1 + 1 < room.y2,
            forall|x: int, y: int| #[trigger] room.interior_contains(x, y) ==> map.in_bounds(x, y),
            views(old(objects)@).len() <= views(objects@).len() <= views(old(objects)@).len() + count,
            views(objects@).subrange(0, views(old(objects)@).len() as int) == views(old(objects)@),
            forall|i: int|
                views(old(objects)@).len() <= i < views(objects@).len() ==> {
                    &&& is_fresh_monster(#[trigger] views(objects@)[i])
                    &&& room.interior_contains(views(objects@)[i].x, views(objects@)[i].y)
                    &&& !blocked(
                        map,
                        views(objects@).subrange(0, i),
                        views(objects@)[i].x,
                        views(objects@)[i].y,
                    )
                },
        decreases num_monsters - count,
    {
        let x = random_in_range(room.x1 + 1, room.x2);
        let y = random_in_range(room.y1 + 1, room.y2);
        let kind = kind_for(random_ratio(COMMON_SHARES, KIND_SHARES));
        assert(room.interior_contains(x as int, y as int));
        let ghost before = views(objects@);
        let placed = place_monster(kind, x, y, map, objects);
        proof {
            let after = views(objects@);
            if placed {
                assert(after.subrange(0, before.len() as int) =~= before);
                assert(after.subrange(0, views(old(objects)@).len() as int) =~= before.subrange(
                    0,
                    views(old(objects)@).len() as int,
                ));
                assert forall|i: int| views(old(objects)@).len() <= i < after.len() implies {
                    &&& is_fresh_monster(#[trigger] after[i])
                    &&& room.interior_contains(after[i].x, after[i].y)
                    &&& !blocked(map, after.subrange(0, i), after[i].x, after[i].y)
                } by {
                    if i < before.len() {
                        assert(after[i] == before[i]);
                        assert(after.subrange(0, i) =~= before.subrange(0, i));
                    } else {
                        assert(after.subrange(0, i) =~= before);
                    }
                }
            }
        }
        count += 1;
    }
}

} // verus!
