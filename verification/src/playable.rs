//! The shape of a game in progress: what a fresh dungeon has, what every
//! turn keeps, and what every turn needs.

use vstd::prelude::*;
use crate::ai::{monster_acts, monster_can_act};
use crate::engine::{
    after_intent, ai_turn, ai_turns, ai_turns_allowed, outcome, play_turn, turn, turn_allowed,
    Intent, PlayerAction,
};
use crate::game::Game;
use crate::color::Color;
use crate::dungeon::{generated, lemma_center_inside, room_fits, Plan};
use crate::fov::FovMap;
use crate::grid::Grid;
use crate::movement::{blocked, lemma_unit_step_is_a_direction, moved_by, unit_step};
use crate::object::{views, DeathCallback, Object, ObjectView};
use crate::spawn::{is_fresh_monster, MonsterKind};
use crate::scene::{
    lemma_first_target, player_acts, player_can_act, scene_of, strike, target_at, Scene,
};

verus! {

/// Whether `(x, y)` is a cell of the map that is not one of the outermost.
pub open spec fn well_inside(map: &Grid, x: int, y: int) -> bool {
    0 < x < map.width() - 1 && 0 < y < map.height() - 1
}

/// Whether the outermost cells of the map are all impassable.
pub open spec fn walled_in(map: &Grid) -> bool {
    forall|x: int, y: int| #![trigger map.tile(x, y)]
        map.in_bounds(x, y) && !well_inside(map, x, y) ==> map.blocked_at(x, y)
}

/// Whether the entity at index `index` is fit for combat: a monster has
/// health left and dies a monster's death, and the player, while alive,
/// has health left.
pub open spec fn fit_to_fight(object: ObjectView, index: int) -> bool {
    match object.fighter {
        Some(f) => {
            &&& index > 0 ==> f.hp > 0 && f.on_death == DeathCallback::Monster
            &&& index == 0 && object.alive ==> f.hp > 0
        },
        None => true,
    }
}

/// Whether the damage of every attack that can pass between the player
/// and `other` can be counted: that of the player on `other` if `other`
/// can fight, and that of `other` on the player if `other` has an AI.
pub open spec fn well_matched(player: ObjectView, other: ObjectView) -> bool {
    &&& other.fighter is Some ==> i32::MIN <= player.damage_to(other) <= i32::MAX
    &&& other.ai is Some ==> i32::MIN <= other.damage_to(player) <= i32::MAX
}

/// Whether entity `i` is in shape for the game to go on: it stands well
/// inside the map, is fit for combat and, while the player is alive, well
/// matched with the player.
pub open spec fn in_shape(map: &Grid, objects: Seq<ObjectView>, i: int) -> bool {
    &&& well_inside(map, objects[i].x, objects[i].y)
    &&& fit_to_fight(objects[i], i)
    &&& i > 0 && objects[0].alive ==> well_matched(objects[0], objects[i])
}

/// Whether the game can go on from here: the map is walled in, the field
/// of view covers it, every entity is in shape, and the first entity, the
/// player, has no AI.
pub open spec fn playable(map: &Grid, fov: &FovMap, objects: Seq<ObjectView>) -> bool {
    &&& map.wf()
    &&& fov.wf()
    &&& fov.width() == map.width()
    &&& fov.height() == map.height()
    &&& walled_in(map)
    &&& objects.len() > 0
    &&& objects[0].ai is None
    &&& forall|i: int| 0 <= i < objects.len() ==> #[trigger] in_shape(map, objects, i)
}

/// Whether the outermost cells of the map are all impassable.
fn is_walled_in(map: &Grid) -> (ok: bool)
    requires
        map.wf(),
    ensures
        ok == walled_in(map),
{
    let (width, height) = map.size();
    let mut x: usize = 0;
    while x < width
        invariant
            x <= width,
            map.wf(),
            width == map.width(),
            height == map.height(),
            forall|i: int, j: int| #![trigger map.tile(i, j)]
                0 <= i < x && 0 <= j < height && !well_inside(map, i, j) ==> map.blocked_at(i, j),
        decreases width - x,
    {
        let mut y: usize = 0;
        while y < height
            invariant
                x < width,
                y <= height,
                map.wf(),
                width == map.width(),
                height == map.height(),
                forall|i: int, j: int| #![trigger map.tile(i, j)]
                    0 <= i < x && 0 <= j < height && !well_inside(map, i, j) ==> map.blocked_at(
                        i,
                        j,
                    ),
                forall|j: int| #![trigger map.tile(x as int, j)]
                    0 <= j < y && !well_inside(map, x as int, j) ==> map.blocked_at(x as int, j),
            decreases height - y,
        {
            let outermost = x == 0 || y == 0 || x == width - 1 || y == height - 1;
            if outermost && !map.get(x as i32, y as i32).blocked {
                assert(!map.tile(x as int, y as int).blocked);
                return false;
            }
            y += 1;
        }
        x += 1;
    }
    true
}

/// The damage of an attack with `power` on `defense`, if it can be counted.
fn damage_fits(power: i32, defense: i32) -> (ok: bool)
    ensures
        ok == (i32::MIN <= power - defense <= i32::MAX),
{
    let damage: i64 = power as i64 - defense as i64;
    -0x8000_0000 <= damage && damage <= 0x7fff_ffff
}

/// Whether the player and `other` are well matched.
fn is_well_matched(player: &Object, other: &Object) -> (ok: bool)
    ensures
        ok == well_matched(player@, other@),
{
    let player_power: i32 = match player.fighter {
        Some(f) => f.power,
        None => 0,
    };
    let player_defense: i32 = match player.fighter {
        Some(f) => f.defense,
        None => 0,
    };
    let other_power: i32 = match other.fighter {
        Some(f) => f.power,
        None => 0,
    };
    let other_defense: i32 = match other.fighter {
        Some(f) => f.defense,
        None => 0,
    };
    (other.fighter.is_none() || damage_fits(player_power, other_defense)) && (other.ai.is_none()
        || damage_fits(other_power, player_defense))
}

/// Whether entity `index` is in shape for the game to go on.
fn is_in_shape(map: &Grid, objects: &[Object], index: usize) -> (ok: bool)
    requires
        map.wf(),
        index < objects@.len(),
    ensures
        ok == in_shape(map, views(objects@), index as int),
{
    let object = &objects[index];
    let (width, height) = map.size();
    if object.x <= 0 || object.y <= 0 {
        return false;
    }
    if object.x as usize + 1 >= width || object.y as usize + 1 >= height {
        return false;
    }
    let healthy = match object.fighter {
        Some(f) => {
            if index == 0 {
                !object.alive || f.hp > 0
            } else {
                f.hp > 0 && matches!(f.on_death, DeathCallback::Monster)
            }
        },
        None => true,
    };
    healthy && (index == 0 || !objects[0].alive || is_well_matched(&objects[0], object))
}

/// Whether the game can go on from here.
pub fn is_playable(map: &Grid, fov: &FovMap, objects: &[Object]) -> (ok: bool)
    ensures
        ok == playable(map, fov, views(objects@)),
{
    if !map.is_wf() || !fov.is_wf() {
        return false;
    }
    let (width, height) = map.size();
    let (fov_width, fov_height) = fov.size();
    if width != fov_width || height != fov_height {
        return false;
    }
    if !is_walled_in(map) {
        return false;
    }
    if objects.len() == 0 {
        return false;
    }
    if objects[0].ai.is_some() {
        return false;
    }
    let mut i: usize = 0;
    while i < objects.len()
        invariant
            i <= objects@.len(),
            map.wf(),
            forall|k: int| 0 <= k < i ==> #[trigger] in_shape(map, views(objects@), k),
        decreases objects@.len() - i,
    {
        if !is_in_shape(map, objects, i) {
            return false;
        }
        i += 1;
    }
    true
}

/// A fresh dungeon is playable, if the entities that were handed to the
/// generator are fit for combat, the player among them has no AI and is
/// well matched with the others and with both kinds of monster, and the
/// others stand well inside the map.
pub proof fn lemma_fresh_dungeon_is_playable(
    map: &Grid,
    fov: &FovMap,
    plan: Plan,
    before: Seq<ObjectView>,
    after: Seq<ObjectView>,
)
    requires
        generated(map, plan, before, after),
        fov.wf(),
        fov.width() == map.width(),
        fov.height() == map.height(),
        before[0].ai is None,
        forall|i: int| 0 <= i < before.len() ==> fit_to_fight(#[trigger] before[i], i),
        forall|i: int| 0 < i < before.len() ==> well_inside(map, (#[trigger] before[i]).x, before[i].y),
        forall|i: int| 0 < i < before.len() ==> well_matched(before[0], #[trigger] before[i]),
        well_matched(before[0], MonsterKind::Bezos.at(0, 0)),
        well_matched(before[0], MonsterKind::Trump.at(0, 0)),
    ensures
        playable(map, fov, after),
{
    lemma_center_inside(plan.rooms[0]);
    assert forall|i: int| 0 <= i < after.len() implies #[trigger] in_shape(map, after, i) by {
        if i == 0 {
            assert(fit_to_fight(before[0], 0));
        } else if i < before.len() {
            assert(after[i] == before[i]);
            assert(fit_to_fight(before[i], i));
            assert(well_matched(before[0], before[i]));
        } else {
            let k = choose|k: int|
                0 <= k < plan.rooms.len() && #[trigger] plan.room_covers(k, after[i].x, after[i].y);
            assert(room_fits(plan.rooms[k]));
            assert(is_fresh_monster(after[i]));
        }
    }
}

/// Whether `(dx, dy)` is a step to one of the eight neighbouring cells.
pub open spec fn is_step(dx: int, dy: int) -> bool {
    -1 <= dx <= 1 && -1 <= dy <= 1 && (dx != 0 || dy != 0)
}

/// In a playable game a monster can always take its turn.
pub proof fn lemma_monster_can_act(map: &Grid, fov: &FovMap, objects: Seq<ObjectView>, id: int)
    requires
        playable(map, fov, objects),
        0 <= id < objects.len(),
        objects[id].ai is Some,
    ensures
        monster_can_act(map, fov, objects, id),
{
    let dx = objects[0].x - objects[id].x;
    let dy = objects[0].y - objects[id].y;
    lemma_unit_step_is_a_direction(dx, dy);
    lemma_unit_step_is_a_direction(dy, dx);
    assert(in_shape(map, objects, id));
    assert(in_shape(map, objects, 0));
}

/// A move leaves a playable game playable: whoever moves comes to stand
/// on a cell that can be entered, and no such cell is one of the outermost.
pub proof fn lemma_move_keeps_playable(
    map: &Grid,
    fov: &FovMap,
    objects: Seq<ObjectView>,
    id: int,
    dx: int,
    dy: int,
)
    requires
        playable(map, fov, objects),
        0 <= id < objects.len(),
        map.in_bounds(objects[id].x + dx, objects[id].y + dy),
    ensures
        playable(map, fov, moved_by(map, objects, id, dx, dy)),
{
    let after = moved_by(map, objects, id, dx, dy);
    let x = objects[id].x + dx;
    let y = objects[id].y + dy;
    assert(in_shape(map, objects, 0));
    assert forall|i: int| 0 <= i < after.len() implies #[trigger] in_shape(map, after, i) by {
        assert(in_shape(map, objects, i));
        if i == id && !blocked(map, objects, x, y) {
            assert(!map.tile(x, y).blocked);
        }
    }
}

/// A strike leaves a playable game playable: a monster that is struck
/// keeps some health or loses the capability to fight with its life, and
/// a player who is struck keeps some health or is dead.
pub proof fn lemma_strike_keeps_playable(
    map: &Grid,
    fov: &FovMap,
    scene: Scene,
    attacker: int,
    target: int,
)
    requires
        playable(map, fov, scene.objects),
        0 <= attacker < scene.objects.len(),
        0 <= target < scene.objects.len(),
        scene.objects[attacker].can_attack(scene.objects[target]),
    ensures
        playable(map, fov, strike(scene, attacker, target).objects),
{
    let after = strike(scene, attacker, target).objects;
    assert(in_shape(map, scene.objects, 0));
    assert(in_shape(map, scene.objects, target));
    assert forall|i: int| 0 <= i < after.len() implies #[trigger] in_shape(map, after, i) by {
        assert(in_shape(map, scene.objects, i));
    }
}

/// The turn of a monster leaves a playable game playable.
pub proof fn lemma_monster_keeps_playable(map: &Grid, fov: &FovMap, scene: Scene, id: int)
    requires
        playable(map, fov, scene.objects),
        0 <= id < scene.objects.len(),
        scene.objects[id].ai is Some,
    ensures
        playable(map, fov, monster_acts(map, fov, scene, id).objects),
        monster_acts(map, fov, scene, id).objects.len() == scene.objects.len(),
{
    lemma_monster_can_act(map, fov, scene.objects, id);
    let dx = scene.objects[0].x - scene.objects[id].x;
    let dy = scene.objects[0].y - scene.objects[id].y;
    lemma_unit_step_is_a_direction(dx, dy);
    lemma_unit_step_is_a_direction(dy, dx);
    assert(in_shape(map, scene.objects, id));
    lemma_move_keeps_playable(
        map,
        fov,
        scene.objects,
        id,
        unit_step(dx, dy),
        unit_step(dy, dx),
    );
    if scene.objects[id].can_attack(scene.objects[0]) {
        lemma_strike_keeps_playable(map, fov, scene, id, 0);
    }
}

/// In a playable game the monsters can always take their turns, and the
/// game is playable when they are done.
pub proof fn lemma_ai_turns_keep_playable(
    map: &Grid,
    fov: &FovMap,
    scene: Scene,
    from: int,
    until: int,
)
    requires
        playable(map, fov, scene.objects),
        0 <= from,
        until <= scene.objects.len(),
    ensures
        ai_turns_allowed(map, fov, scene, from, until),
        playable(map, fov, ai_turns(map, fov, scene, from, until).objects),
        ai_turns(map, fov, scene, from, until).objects.len() == scene.objects.len(),
    decreases until - from,
{
    if from < until {
        if scene.objects[from].ai is Some {
            lemma_monster_can_act(map, fov, scene.objects, from);
            lemma_monster_keeps_playable(map, fov, scene, from);
        }
        lemma_ai_turns_keep_playable(map, fov, ai_turn(map, fov, scene, from), from + 1, until);
    }
}

/// In a playable game a living player can always step to a neighbouring
/// cell or attack what stands there.
pub proof fn lemma_player_can_act(map: &Grid, fov: &FovMap, objects: Seq<ObjectView>, dx: int, dy: int)
    requires
        playable(map, fov, objects),
        objects[0].alive,
        is_step(dx, dy),
    ensures
        player_can_act(map, objects, dx, dy),
{
    let x = objects[0].x + dx;
    let y = objects[0].y + dy;
    assert(in_shape(map, objects, 0));
    lemma_first_target(objects, x, y, objects.len() as int);
    match target_at(objects, x, y) {
        Some(t) => {
            assert(in_shape(map, objects, t));
        },
        None => {},
    }
}

/// The player's move or attack leaves a playable game playable.
pub proof fn lemma_player_keeps_playable(map: &Grid, fov: &FovMap, scene: Scene, dx: int, dy: int)
    requires
        playable(map, fov, scene.objects),
        player_can_act(map, scene.objects, dx, dy),
    ensures
        playable(map, fov, player_acts(map, scene, dx, dy).objects),
        player_acts(map, scene, dx, dy).objects.len() == scene.objects.len(),
{
    let x = scene.objects[0].x + dx;
    let y = scene.objects[0].y + dy;
    lemma_first_target(scene.objects, x, y, scene.objects.len() as int);
    match target_at(scene.objects, x, y) {
        Some(t) => {
            lemma_strike_keeps_playable(map, fov, scene, 0, t);
        },
        None => {
            lemma_move_keeps_playable(map, fov, scene.objects, 0, dx, dy);
        },
    }
}

/// Whether `intent` is one that the engine takes in any playable game: a
/// move must be a step to a neighbouring cell.
pub open spec fn is_plain(intent: Intent) -> bool {
    match intent {
        Intent::Move { dx, dy } => is_step(dx as int, dy as int),
        _ => true,
    }
}

/// A playable game can run a cycle on every plain intent, and is playable
/// after it, with the same entities at the same indices.
pub proof fn lemma_turn_keeps_playable(map: &Grid, fov: &FovMap, scene: Scene, intent: Intent)
    requires
        playable(map, fov, scene.objects),
        is_plain(intent),
    ensures
        turn_allowed(map, fov, scene, intent),
        playable(map, fov, turn(map, fov, scene, intent).objects),
        turn(map, fov, scene, intent).objects.len() == scene.objects.len(),
{
    match intent {
        Intent::Move { dx, dy } => {
            if scene.objects[0].alive {
                lemma_player_can_act(map, fov, scene.objects, dx as int, dy as int);
                lemma_player_keeps_playable(map, fov, scene, dx as int, dy as int);
            }
        },
        _ => {},
    }
    let acted = after_intent(map, scene, intent);
    lemma_ai_turns_keep_playable(map, fov, acted, 0, scene.objects.len() as int);
}

/// One whole cycle, for callers that cannot promise anything: the cycle
/// runs if the game is playable and the intent is plain, and nothing
/// happens if not. After a cycle that ran, the game is playable again.
pub fn try_turn(intent: Intent, fov: &FovMap, game: &mut Game, objects: &mut [Object]) -> (action:
    Option<PlayerAction>)
    ensures
        final(objects)@.len() == old(objects)@.len(),
        action is Some <==> playable(&old(game).map, fov, views(old(objects)@)) && is_plain(intent),
        action is Some ==> {
            &&& action == Some(outcome(intent, old(objects)@[0].alive))
            &&& scene_of(final(game), final(objects)@) == turn(
                &old(game).map,
                fov,
                scene_of(old(game), old(objects)@),
                intent,
            )
            &&& playable(&final(game).map, fov, views(final(objects)@))
        },
        action is None ==> scene_of(final(game), final(objects)@) == scene_of(
            old(game),
            old(objects)@,
        ),
        final(game).map == old(game).map,
{
    let plain = match intent {
        Intent::Move { dx, dy } => -1 <= dx && dx <= 1 && -1 <= dy && dy <= 1 && (dx != 0 || dy
            != 0),
        _ => true,
    };
    if !plain || !is_playable(&game.map, fov, objects) {
        return None;
    }
    proof {
        lemma_turn_keeps_playable(&game.map, fov, scene_of(game, objects@), intent);
    }
    Some(play_turn(intent, fov, game, objects))
}

/// Whether the log `later` is the log `earlier` with entries added at the
/// end.
pub open spec fn extends(later: Seq<(Seq<char>, Color)>, earlier: Seq<(Seq<char>, Color)>) -> bool {
    earlier.len() <= later.len() && later.subrange(0, earlier.len() as int) == earlier
}

/// The turns of the monsters only ever add to the log.
pub proof fn lemma_ai_turns_only_append(
    map: &Grid,
    fov: &FovMap,
    scene: Scene,
    from: int,
    until: int,
)
    ensures
        extends(ai_turns(map, fov, scene, from, until).log, scene.log),
    decreases until - from,
{
    if from < until {
        let next = ai_turn(map, fov, scene, from);
        assert(next.log.subrange(0, scene.log.len() as int) =~= scene.log);
        lemma_ai_turns_only_append(map, fov, next, from + 1, until);
        let last = ai_turns(map, fov, scene, from, until).log;
        assert(last.subrange(0, scene.log.len() as int) =~= last.subrange(
            0,
            next.log.len() as int,
        ).subrange(0, scene.log.len() as int));
    } else {
        assert(scene.log.subrange(0, scene.log.len() as int) =~= scene.log);
    }
}

/// A cycle only ever adds to the log: what was logged stays logged, in
/// its place.
pub proof fn lemma_turn_only_appends(map: &Grid, fov: &FovMap, scene: Scene, intent: Intent)
    ensures
        extends(turn(map, fov, scene, intent).log, scene.log),
{
    let acted = after_intent(map, scene, intent);
    assert(acted.log.subrange(0, scene.log.len() as int) =~= scene.log);
    lemma_ai_turns_only_append(map, fov, acted, 0, scene.objects.len() as int);
    let last = ai_turns(map, fov, acted, 0, scene.objects.len() as int).log;
    assert(last.subrange(0, scene.log.len() as int) =~= last.subrange(
        0,
        acted.log.len() as int,
    ).subrange(0, scene.log.len() as int));
}

/// Walking into a wall takes a turn although nobody moves: when the cell
/// aimed at is impassable terrain and nobody stands there to be attacked,
/// the player's move changes nothing, and the engine still reports a turn.
pub proof fn lemma_walking_into_a_wall_takes_a_turn(map: &Grid, scene: Scene, dx: i32, dy: i32)
    requires
        scene.objects.len() > 0,
        scene.objects[0].alive,
        map.blocked_at(scene.objects[0].x + dx, scene.objects[0].y + dy),
        target_at(scene.objects, scene.objects[0].x + dx, scene.objects[0].y + dy) is None,
    ensures
        after_intent(map, scene, Intent::Move { dx, dy }) == scene,
        outcome(Intent::Move { dx, dy }, scene.objects[0].alive) == PlayerAction::TookTurn,
{
}

/// The monsters act only after an intent that took a turn: after any
/// other, the cycle ends with what the player's intent left.
pub proof fn lemma_no_turn_no_ai(map: &Grid, fov: &FovMap, scene: Scene, intent: Intent)
    requires
        outcome(intent, scene.objects[0].alive) != PlayerAction::TookTurn,
    ensures
        turn(map, fov, scene, intent) == scene,
{
}

/// An entity without an AI is passed over when the monsters act; the
/// player, who has none, never acts in that phase.
pub proof fn lemma_no_ai_no_act(map: &Grid, fov: &FovMap, scene: Scene, id: int)
    requires
        scene.objects[id].ai is None,
    ensures
        ai_turn(map, fov, scene, id) == scene,
{
}

} // verus!
