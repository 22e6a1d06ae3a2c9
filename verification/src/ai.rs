//! What a monster does on its turn.

use vstd::prelude::*;
use crate::fov::FovMap;
use crate::game::Game;
use crate::grid::Grid;
use crate::movement::{move_towards, moved_towards, unit_step};
use crate::object::{views, Object, ObjectView, PLAYER};
use crate::scene::{attack_between, can_strike, scene_of, strike, Scene};

verus! {

/// Whether the monster is too far from the player to strike: at a distance
/// of two cells or more.
pub open spec fn out_of_reach(monster: ObjectView, player: ObjectView) -> bool {
    monster.distance_squared_to(player) >= 4
}

/// The cell that monster `id` steps to when it closes in on the player.
pub open spec fn pursuit_goal(objects: Seq<ObjectView>, id: int) -> (int, int) {
    let dx = objects[0].x - objects[id].x;
    let dy = objects[0].y - objects[id].y;
    (objects[id].x + unit_step(dx, dy), objects[id].y + unit_step(dy, dx))
}

/// Whether monster `id` can take its turn: the field of view can be asked
/// about the cell it stands on; where it would step, the map has a cell;
/// and where it would strike, it is not the player itself, and the numbers
/// stay within what the machine can count.
pub open spec fn monster_can_act(map: &Grid, fov: &FovMap, objects: Seq<ObjectView>, id: int) -> bool {
    &&& 0 <= id < objects.len()
    &&& map.wf()
    &&& fov.wf()
    &&& fov.in_bounds(objects[id].x, objects[id].y)
    &&& fov.sees(objects[id].x, objects[id].y) ==> if out_of_reach(objects[id], objects[0]) {
        map.in_bounds(pursuit_goal(objects, id).0, pursuit_goal(objects, id).1)
    } else {
        objects[0].alive ==> can_strike(objects, id, 0)
    }
}

/// The scene after monster `id` took its turn. A monster that is out of
/// sight does nothing. One that is in sight closes in on the player while
/// it is two cells or more away, and strikes when it is nearer, as long as
/// the player is alive.
pub open spec fn monster_acts(map: &Grid, fov: &FovMap, scene: Scene, id: int) -> Scene {
    let monster = scene.objects[id];
    let player = scene.objects[0];
    if !fov.sees(monster.x, monster.y) {
        scene
    } else if out_of_reach(monster, player) {
        Scene {
            objects: moved_towards(map, scene.objects, id, player.x, player.y),
            log: scene.log,
        }
    } else if player.alive {
        strike(scene, id, 0)
    } else {
        scene
    }
}

/// Monster `monster_id` takes its turn.
pub fn ai_take_turn(monster_id: usize, fov: &FovMap, game: &mut Game, objects: &mut [Object])
    requires
        monster_can_act(&old(game).map, fov, views(old(objects)@), monster_id as int),
    ensures
        final(objects)@.len() == old(objects)@.len(),
        scene_of(final(game), final(objects)@) == monster_acts(
            &old(game).map,
            fov,
            scene_of(old(game), old(objects)@),
            monster_id as int,
        ),
        final(game).map == old(game).map,
{
    let (monster_x, monster_y) = objects[monster_id].pos();
    if fov.is_in_fov(monster_x, monster_y) {
        if objects[monster_id].distance_squared_to(&objects[PLAYER]) >= 4 {
            let (player_x, player_y) = objects[PLAYER].pos();
            move_towards(monster_id, player_x, player_y, &game.map, objects);
        } else if objects[PLAYER].alive {
            attack_between(monster_id, PLAYER, game, objects);
        }
    }
}

/// A monster that is in sight of the player and two cells or more away
/// moves and does not strike: nothing is logged and nobody is hurt.
pub proof fn lemma_far_monster_moves(map: &Grid, fov: &FovMap, scene: Scene, id: int)
    requires
        0 <= id < scene.objects.len(),
        fov.sees(scene.objects[id].x, scene.objects[id].y),
        scene.objects[id].distance_squared_to(scene.objects[0]) >= 4,
    ensures
        monster_acts(map, fov, scene, id).log == scene.log,
        monster_acts(map, fov, scene, id).objects == moved_towards(
            map,
            scene.objects,
            id,
            scene.objects[0].x,
            scene.objects[0].y,
        ),
{
}

/// A monster that is in sight of the player and less than two cells away
/// strikes the player if the player is alive, and stays where it is: the
/// log grows by the one entry of the attack.
pub proof fn lemma_near_monster_strikes(map: &Grid, fov: &FovMap, scene: Scene, id: int)
    requires
        0 < id < scene.objects.len(),
        fov.sees(scene.objects[id].x, scene.objects[id].y),
        scene.objects[id].distance_squared_to(scene.objects[0]) < 4,
        scene.objects[0].alive,
    ensures
        monster_acts(map, fov, scene, id) == strike(scene, id, 0),
        monster_acts(map, fov, scene, id).objects[id] == scene.objects[id],
        monster_acts(map, fov, scene, id).log == scene.log.push(
            scene.objects[id].attack_entry(scene.objects[0]),
        ),
{
}

/// A monster that is less than two cells away from a dead player holds
/// back: it neither strikes nor moves.
pub proof fn lemma_dead_player_is_left_alone(map: &Grid, fov: &FovMap, scene: Scene, id: int)
    requires
        scene.objects[id].distance_squared_to(scene.objects[0]) < 4,
        !scene.objects[0].alive,
    ensures
        monster_acts(map, fov, scene, id) == scene,
{
}

/// A monster that is out of sight does nothing.
pub proof fn lemma_unseen_monster_rests(map: &Grid, fov: &FovMap, scene: Scene, id: int)
    requires
        !fov.sees(scene.objects[id].x, scene.objects[id].y),
    ensures
        monster_acts(map, fov, scene, id) == scene,
{
}

} // verus!
