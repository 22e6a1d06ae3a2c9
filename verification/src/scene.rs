//! The entities and the log as one mathematical value, and the two things
//! that an entity can do on its turn: strike another, or step aside.

use vstd::prelude::*;
use crate::color::Color;
use crate::game::Game;
use crate::grid::Grid;
use crate::movement::{move_by, moved_by, mut_two};
use crate::object::{views, Object, ObjectView, PLAYER};

verus! {

/// What a turn works on, besides the map: the entities in their order,
/// and the log.
pub struct Scene {
    pub objects: Seq<ObjectView>,
    pub log: Seq<(Seq<char>, Color)>,
}

/// The scene that `game` and `objects` hold.
pub open spec fn scene_of(game: &Game, objects: Seq<Object>) -> Scene {
    Scene { objects: views(objects), log: game.messages@ }
}

/// Whether entity `attacker` can strike entity `target`: they are two
/// entities of the scene, and the numbers stay within what the machine can
/// count.
pub open spec fn can_strike(objects: Seq<ObjectView>, attacker: int, target: int) -> bool {
    &&& 0 <= attacker < objects.len()
    &&& 0 <= target < objects.len()
    &&& attacker != target
    &&& objects[attacker].can_attack(objects[target])
}

/// The scene after entity `attacker` struck entity `target`: the target
/// is hurt, or dead, or unharmed, and the log has one more entry, for the
/// hit or the miss.
pub open spec fn strike(scene: Scene, attacker: int, target: int) -> Scene {
    Scene {
        objects: scene.objects.update(
            target,
            scene.objects[attacker].attacked(scene.objects[target]),
        ),
        log: scene.log.push(scene.objects[attacker].attack_entry(scene.objects[target])),
    }
}

/// Whether `object` can be attacked at `(x, y)`: it stands there and can
/// fight.
pub open spec fn is_target(object: ObjectView, x: int, y: int) -> bool {
    object.fighter is Some && object.is_at(x, y)
}

/// The first of the entities before index `below` that can be attacked at
/// `(x, y)`.
pub open spec fn first_target(objects: Seq<ObjectView>, x: int, y: int, below: int) -> Option<int>
    decreases below,
{
    if below <= 0 {
        None
    } else {
        match first_target(objects, x, y, below - 1) {
            Some(i) => Some(i),
            None => if is_target(objects[below - 1], x, y) {
                Some(below - 1)
            } else {
                None
            },
        }
    }
}

/// The entity that an attack on `(x, y)` hits: the first in the list that
/// stands there and can fight.
pub open spec fn target_at(objects: Seq<ObjectView>, x: int, y: int) -> Option<int> {
    first_target(objects, x, y, objects.len() as int)
}

/// `first_target` finds the least index of an entity that can be attacked,
/// and finds none only if there is none.
pub proof fn lemma_first_target(objects: Seq<ObjectView>, x: int, y: int, below: int)
    requires
        0 <= below <= objects.len(),
    ensures
        match first_target(objects, x, y, below) {
            Some(i) => 0 <= i < below && is_target(objects[i], x, y) && forall|j: int|
                0 <= j < i ==> !is_target(#[trigger] objects[j], x, y),
            None => forall|j: int| 0 <= j < below ==> !is_target(#[trigger] objects[j], x, y),
        },
    decreases below,
{
    if below > 0 {
        lemma_first_target(objects, x, y, below - 1);
    }
}

/// Where the player would come to stand after a move by `(dx, dy)`.
pub open spec fn player_goal(objects: Seq<ObjectView>, dx: int, dy: int) -> (int, int) {
    (objects[0].x + dx, objects[0].y + dy)
}

/// Whether the player can move or attack by `(dx, dy)`: the cell aimed at
/// has coordinates, what stands there to be attacked is not the player,
/// and where nothing stands there the cell is on the map.
pub open spec fn player_can_act(map: &Grid, objects: Seq<ObjectView>, dx: int, dy: int) -> bool {
    let goal = player_goal(objects, dx, dy);
    &&& objects.len() > 0
    &&& map.wf()
    &&& i32::MIN <= goal.0 <= i32::MAX
    &&& i32::MIN <= goal.1 <= i32::MAX
    &&& match target_at(objects, goal.0, goal.1) {
        Some(t) => can_strike(objects, 0, t),
        None => map.in_bounds(goal.0, goal.1),
    }
}

/// The scene after the player moved or attacked by `(dx, dy)`: if an
/// entity that can fight stands on the cell aimed at, the player strikes
/// the first such; if not, the player tries to step there.
pub open spec fn player_acts(map: &Grid, scene: Scene, dx: int, dy: int) -> Scene {
    let goal = player_goal(scene.objects, dx, dy);
    match target_at(scene.objects, goal.0, goal.1) {
        Some(t) => strike(scene, 0, t),
        None => Scene { objects: moved_by(map, scene.objects, 0, dx, dy), log: scene.log },
    }
}

/// Entity `attacker` attacks entity `target`.
pub fn attack_between(attacker: usize, target: usize, game: &mut Game, objects: &mut [Object])
    requires
        can_strike(views(old(objects)@), attacker as int, target as int),
    ensures
        final(objects)@.len() == old(objects)@.len(),
        scene_of(final(game), final(objects)@) == strike(
            scene_of(old(game), old(objects)@),
            attacker as int,
            target as int,
        ),
        final(game).map == old(game).map,
{
    let (striker, struck) = mut_two(attacker, target, objects);
    striker.attack(struck, game);
    assert(views(objects@) =~= strike(
        scene_of(old(game), old(objects)@),
        attacker as int,
        target as int,
    ).objects);
}

/// The entity that an attack on `(x, y)` hits, if there is one.
pub fn find_target(objects: &[Object], x: i32, y: i32) -> (found: Option<usize>)
    ensures
        match found {
            Some(i) => target_at(views(objects@), x as int, y as int) == Some(i as int),
            None => target_at(views(objects@), x as int, y as int) is None,
        },
{
    let mut i: usize = 0;
    while i < objects.len()
        invariant
            i <= objects@.len(),
            first_target(views(objects@), x as int, y as int, i as int) is None,
        decreases objects@.len() - i,
    {
        if objects[i].fighter.is_some() && objects[i].x == x && objects[i].y == y {
            proof {
                assert(is_target(views(objects@)[i as int], x as int, y as int));
                lemma_found_stays_found(views(objects@), x as int, y as int, i as int + 1, objects@.len() as int);
            }
            return Some(i);
        }
        i += 1;
    }
    None
}

/// A target that is found among the first entities is the target among
/// all of them.
pub proof fn lemma_found_stays_found(objects: Seq<ObjectView>, x: int, y: int, below: int, all: int)
    requires
        0 <= below <= all,
        first_target(objects, x, y, below) is Some,
    ensures
        first_target(objects, x, y, all) == first_target(objects, x, y, below),
    decreases all - below,
{
    if below < all {
        lemma_found_stays_found(objects, x, y, below, all - 1);
    }
}

/// The player moves by `(dx, dy)`, or attacks what stands in the way: if
/// an entity that can fight stands on the cell aimed at, the player
/// attacks it; if not, the player steps there, unless the cell is blocked.
pub fn player_move_or_attack(dx: i32, dy: i32, game: &mut Game, objects: &mut [Object])
    requires
        player_can_act(&old(game).map, views(old(objects)@), dx as int, dy as int),
    ensures
        final(objects)@.len() == old(objects)@.len(),
        scene_of(final(game), final(objects)@) == player_acts(
            &old(game).map,
            scene_of(old(game), old(objects)@),
            dx as int,
            dy as int,
        ),
        final(game).map == old(game).map,
{
    let x = objects[PLAYER].x + dx;
    let y = objects[PLAYER].y + dy;
    let target_id = find_target(objects, x, y);
    match target_id {
        Some(target_id) => {
            attack_between(PLAYER, target_id, game, objects);
        },
        None => {
            move_by(PLAYER, dx, dy, &game.map, objects);
        },
    }
}

} // verus!
