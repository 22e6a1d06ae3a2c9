//! The turn engine: one intent of the player per cycle, and after it, if
//! it took a turn, the turns of the monsters.

use vstd::prelude::*;
use crate::ai::{ai_take_turn, monster_acts, monster_can_act};
use crate::fov::FovMap;
use crate::game::Game;
use crate::grid::Grid;
use crate::object::{views, Object, ObjectView, PLAYER};
use crate::scene::{player_acts, player_can_act, player_move_or_attack, scene_of, Scene};

verus! {

/// What the player wants to do in this cycle.
#[derive(Clone, Copy, Debug, PartialEq, Eq, Structural)]
pub enum Intent {
    /// Step by `(dx, dy)`, or attack what stands there.
    Move { dx: i32, dy: i32 },
    /// Let the turn pass.
    Wait,
    /// Anything that does not concern the simulation, such as a display
    /// toggle.
    Other,
    /// Leave the game.
    Exit,
}

/// What became of the player's intent.
#[derive(Clone, Copy, Debug, PartialEq, Eq, Structural)]
pub enum PlayerAction {
    TookTurn,
    DidntTakeTurn,
    Exit,
}

/// Where the engine stands between two cycles.
#[derive(Clone, Copy, Debug, PartialEq, Eq, Structural)]
pub enum EngineState {
    /// The next intent is awaited.
    WaitingForInput,
    /// The player has left; no further cycle runs.
    Terminated,
}

/// Where the engine stands after a cycle that ended with `action`: only
/// leaving ends the game.
pub open spec fn state_after(action: PlayerAction) -> EngineState {
    match action {
        PlayerAction::Exit => EngineState::Terminated,
        _ => EngineState::WaitingForInput,
    }
}

/// What the engine reports for `intent`. Leaving is always possible. A
/// move or a wait takes a turn, whether or not anything changes by it, but
/// only while the player is alive. Nothing else takes a turn.
pub open spec fn outcome(intent: Intent, player_alive: bool) -> PlayerAction {
    match intent {
        Intent::Exit => PlayerAction::Exit,
        Intent::Other => PlayerAction::DidntTakeTurn,
        Intent::Move { dx, dy } => if player_alive {
            PlayerAction::TookTurn
        } else {
            PlayerAction::DidntTakeTurn
        },
        Intent::Wait => if player_alive {
            PlayerAction::TookTurn
        } else {
            PlayerAction::DidntTakeTurn
        },
    }
}

/// Whether `intent` can be resolved: a move of a living player must be one
/// that the player can make.
pub open spec fn intent_allowed(map: &Grid, objects: Seq<ObjectView>, intent: Intent) -> bool {
    &&& objects.len() > 0
    &&& match intent {
        Intent::Move { dx, dy } => objects[0].alive ==> player_can_act(
            map,
            objects,
            dx as int,
            dy as int,
        ),
        _ => true,
    }
}

/// The scene after the player's intent is resolved: only a move of a
/// living player changes anything.
pub open spec fn after_intent(map: &Grid, scene: Scene, intent: Intent) -> Scene {
    match intent {
        Intent::Move { dx, dy } => if scene.objects[0].alive {
            player_acts(map, scene, dx as int, dy as int)
        } else {
            scene
        },
        _ => scene,
    }
}

/// The scene after the entities from index `from` up to, but not
/// including, index `until` had their turn, one after the other in the
/// order of the list. An entity acts if it has an AI when its turn comes.
pub open spec fn ai_turns(map: &Grid, fov: &FovMap, scene: Scene, from: int, until: int) -> Scene
    decreases until - from,
{
    if from >= until {
        scene
    } else {
        ai_turns(map, fov, ai_turn(map, fov, scene, from), from + 1, until)
    }
}

/// The scene after the turn of entity `id`: it acts if it has an AI, and
/// is passed over if not.
pub open spec fn ai_turn(map: &Grid, fov: &FovMap, scene: Scene, id: int) -> Scene {
    if scene.objects[id].ai is Some {
        monster_acts(map, fov, scene, id)
    } else {
        scene
    }
}

/// Whether the entities from index `from` up to index `until` can have
/// their turns: each that acts can act when its turn comes.
pub open spec fn ai_turns_allowed(
    map: &Grid,
    fov: &FovMap,
    scene: Scene,
    from: int,
    until: int,
) -> bool
    decreases until - from,
{
    if from >= until {
        true
    } else {
        &&& 0 <= from < scene.objects.len()
        &&& scene.objects[from].ai is Some ==> monster_can_act(map, fov, scene.objects, from)
        &&& ai_turns_allowed(map, fov, ai_turn(map, fov, scene, from), from + 1, until)
    }
}

/// Whether a whole cycle can run on `intent`.
pub open spec fn turn_allowed(map: &Grid, fov: &FovMap, scene: Scene, intent: Intent) -> bool {
    &&& intent_allowed(map, scene.objects, intent)
    &&& runs_ai(scene, intent) ==> ai_turns_allowed(
        map,
        fov,
        after_intent(map, scene, intent),
        0,
        scene.objects.len() as int,
    )
}

/// Whether the monsters get their turns after `intent`: only after an
/// intent that took a turn.
pub open spec fn runs_ai(scene: Scene, intent: Intent) -> bool {
    outcome(intent, scene.objects[0].alive) == PlayerAction::TookTurn
}

/// The scene after a whole cycle: the player's intent is resolved, and if
/// it took a turn, every entity with an AI acts, in the order of the list.
pub open spec fn turn(map: &Grid, fov: &FovMap, scene: Scene, intent: Intent) -> Scene {
    if runs_ai(scene, intent) {
        ai_turns(map, fov, after_intent(map, scene, intent), 0, scene.objects.len() as int)
    } else {
        after_intent(map, scene, intent)
    }
}

/// Resolves the player's intent and reports whether it took a turn.
pub fn handle_intent(intent: Intent, game: &mut Game, objects: &mut [Object]) -> (action:
    PlayerAction)
    requires
        intent_allowed(&old(game).map, views(old(objects)@), intent),
    ensures
        final(objects)@.len() == old(objects)@.len(),
        action == outcome(intent, old(objects)@[0].alive),
        scene_of(final(game), final(objects)@) == after_intent(
            &old(game).map,
            scene_of(old(game), old(objects)@),
            intent,
        ),
        final(game).map == old(game).map,
{
    let player_alive = objects[PLAYER].alive;
    match intent {
        Intent::Exit => PlayerAction::Exit,
        Intent::Other => PlayerAction::DidntTakeTurn,
        Intent::Wait => {
            if player_alive {
                PlayerAction::TookTurn
            } else {
                PlayerAction::DidntTakeTurn
            }
        },
        Intent::Move { dx, dy } => {
            if player_alive {
                player_move_or_attack(dx, dy, game, objects);
                PlayerAction::TookTurn
            } else {
                PlayerAction::DidntTakeTurn
            }
        },
    }
}

/// Every entity that has an AI takes its turn, in the order of the list.
pub fn take_ai_turns(fov: &FovMap, game: &mut Game, objects: &mut [Object])
    requires
        ai_turns_allowed(
            &old(game).map,
            fov,
            scene_of(old(game), old(objects)@),
            0,
            old(objects)@.len() as int,
        ),
    ensures
        final(objects)@.len() == old(objects)@.len(),
        scene_of(final(game), final(objects)@) == ai_turns(
            &old(game).map,
            fov,
            scene_of(old(game), old(objects)@),
            0,
            old(objects)@.len() as int,
        ),
        final(game).map == old(game).map,
{
    let count = objects.len();
    let mut id: usize = 0;
    while id < count
        invariant
            id <= count,
            count == old(objects)@.len(),
            objects@.len() == count,
            game.map == old(game).map,
            ai_turns_allowed(&game.map, fov, scene_of(game, objects@), id as int, count as int),
            ai_turns(&game.map, fov, scene_of(game, objects@), id as int, count as int) == ai_turns(
                &old(game).map,
                fov,
                scene_of(old(game), old(objects)@),
                0,
                count as int,
            ),
        decreases count - id,
    {
        if objects[id].ai.is_some() {
            ai_take_turn(id, fov, game, objects);
            proof {
                lemma_scene_keeps_count(objects@, views(objects@));
            }
        }
        id += 1;
    }
}

/// A list has as many entities as its views.
proof fn lemma_scene_keeps_count(objects: Seq<Object>, seen: Seq<ObjectView>)
    requires
        seen == views(objects),
    ensures
        seen.len() == objects.len(),
{
}

/// One whole cycle: resolves the player's intent, and then, if it took a
/// turn, lets the monsters act.
pub fn play_turn(intent: Intent, fov: &FovMap, game: &mut Game, objects: &mut [Object]) -> (action:
    PlayerAction)
    requires
        turn_allowed(&old(game).map, fov, scene_of(old(game), old(objects)@), intent),
    ensures
        final(objects)@.len() == old(objects)@.len(),
        action == outcome(intent, old(objects)@[0].alive),
        scene_of(final(game), final(objects)@) == turn(
            &old(game).map,
            fov,
            scene_of(old(game), old(objects)@),
            intent,
        ),
        final(game).map == old(game).map,
{
    let action = handle_intent(intent, game, objects);
    match action {
        PlayerAction::TookTurn => {
            proof {
                lemma_scene_keeps_count(objects@, views(objects@));
            }
            if objects[PLAYER].alive {
                take_ai_turns(fov, game, objects);
            }
        },
        _ => {},
    }
    action
}

/// Takes the engine from one state to the next. While it waits for input,
/// one cycle runs on `intent`, and the engine waits again, or has ended if
/// the intent was to leave. Once it has ended, nothing happens any more.
pub fn run_cycle(
    state: EngineState,
    intent: Intent,
    fov: &FovMap,
    game: &mut Game,
    objects: &mut [Object],
) -> (next: EngineState)
    requires
        state == EngineState::WaitingForInput ==> turn_allowed(
            &old(game).map,
            fov,
            scene_of(old(game), old(objects)@),
            intent,
        ),
    ensures
        final(objects)@.len() == old(objects)@.len(),
        next == match state {
            EngineState::WaitingForInput => state_after(outcome(intent, old(objects)@[0].alive)),
            EngineState::Terminated => EngineState::Terminated,
        },
        scene_of(final(game), final(objects)@) == match state {
            EngineState::WaitingForInput => turn(
                &old(game).map,
                fov,
                scene_of(old(game), old(objects)@),
                intent,
            ),
            EngineState::Terminated => scene_of(old(game), old(objects)@),
        },
        final(game).map == old(game).map,
{
    match state {
        EngineState::WaitingForInput => {
            match play_turn(intent, fov, game, objects) {
                PlayerAction::Exit => EngineState::Terminated,
                _ => EngineState::WaitingForInput,
            }
        },
        EngineState::Terminated => EngineState::Terminated,
    }
}

} // verus!
