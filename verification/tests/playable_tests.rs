use roguelike::color::Color;
use roguelike::dungeon::{make_map, MAP_HEIGHT, MAP_WIDTH};
use roguelike::engine::{run_cycle, EngineState, Intent, PlayerAction};
use roguelike::fov::FovMap;
use roguelike::game::Game;
use roguelike::grid::Grid;
use roguelike::messages::Messages;
use roguelike::object::{Ai, DeathCallback, Fighter, Object, PLAYER};
use roguelike::playable::{is_playable, try_turn};
use roguelike::tile::Tile;

fn arena(side: usize) -> Game {
    let mut map = Grid::new(side, side);
    for x in 1..(side as i32 - 1) {
        for y in 1..(side as i32 - 1) {
            map.set(x, y, Tile::empty());
        }
    }
    Game { map, messages: Messages::new() }
}

fn all_seen(width: usize, height: usize) -> FovMap {
    let mut fov = FovMap::new(width, height);
    for x in 0..width as i32 {
        for y in 0..height as i32 {
            fov.set(x, y, true);
        }
    }
    fov
}

fn player(x: i32, y: i32) -> Object {
    let mut player = Object::new(x, y, '@', "player", Color::white(), true);
    player.alive = true;
    player.fighter =
        Some(Fighter { max_hp: 30, hp: 30, defense: 2, power: 5, on_death: DeathCallback::Player });
    player
}

fn orc(x: i32, y: i32) -> Object {
    let mut monster = Object::new(x, y, 'b', "bezos", Color::black(), true);
    monster.alive = true;
    monster.fighter =
        Some(Fighter { max_hp: 10, hp: 10, defense: 0, power: 3, on_death: DeathCallback::Monster });
    monster.ai = Some(Ai::Basic);
    monster
}

#[test]
fn grid_well_formedness_is_checked() {
    assert!(Grid::new(5, 4).is_wf());
    assert!(Grid::new(0, 4).is_wf());
    let ragged = Grid { tiles: vec![vec![Tile::wall(); 3], vec![Tile::wall(); 2]] };
    assert!(!ragged.is_wf());
    assert_eq!(Grid::new(5, 4).size(), (5, 4));
    assert_eq!(Grid::new(0, 4).size(), (0, 0));
}

#[test]
fn fov_well_formedness_is_checked() {
    assert!(FovMap::new(5, 4).is_wf());
    let ragged = FovMap { cells: vec![vec![false; 3], vec![false; 4]] };
    assert!(!ragged.is_wf());
    assert_eq!(FovMap::new(5, 4).size(), (5, 4));
}

#[test]
fn arena_with_player_and_monsters_is_playable() {
    let game = arena(8);
    let objects = vec![player(2, 2), orc(5, 5)];
    assert!(is_playable(&game.map, &all_seen(8, 8), &objects));
}

#[test]
fn game_without_entities_is_not_playable() {
    let game = arena(8);
    assert!(!is_playable(&game.map, &all_seen(8, 8), &[]));
}

#[test]
fn player_with_an_ai_is_not_playable() {
    let game = arena(8);
    let mut first = player(2, 2);
    first.ai = Some(Ai::Basic);
    assert!(!is_playable(&game.map, &all_seen(8, 8), &[first]));
}

#[test]
fn gap_in_the_outer_wall_is_not_playable() {
    for gap in [(0, 3), (7, 3), (3, 0), (3, 7), (0, 0), (7, 7)] {
        let mut game = arena(8);
        game.map.set(gap.0, gap.1, Tile::empty());
        assert!(!is_playable(&game.map, &all_seen(8, 8), &[player(2, 2)]), "gap at {:?}", gap);
    }
}

#[test]
fn entity_on_the_edge_or_off_the_map_is_not_playable() {
    let game = arena(8);
    for place in [(0, 3), (7, 3), (3, 0), (3, 7), (-1, 3), (3, 8), (100, 100)] {
        let objects = vec![player(2, 2), orc(place.0, place.1)];
        assert!(!is_playable(&game.map, &all_seen(8, 8), &objects), "at {:?}", place);
    }
    assert!(!is_playable(&game.map, &all_seen(8, 8), &[player(0, 0)]));
}

#[test]
fn field_of_view_of_another_size_is_not_playable() {
    let game = arena(8);
    assert!(!is_playable(&game.map, &all_seen(8, 7), &[player(2, 2)]));
    assert!(!is_playable(&game.map, &all_seen(9, 8), &[player(2, 2)]));
}

fn with_stats(mut object: Object, power: i32, defense: i32) -> Object {
    let fighter = object.fighter.unwrap();
    object.fighter = Some(Fighter { power, defense, ..fighter });
    object
}

#[test]
fn damage_that_cannot_be_counted_is_not_playable() {
    let game = arena(8);
    let fov = all_seen(8, 8);
    // The player's attack on the monster: power less defense.
    let strong = with_stats(player(2, 2), i32::MAX, 2);
    assert!(is_playable(&game.map, &fov, &[strong, with_stats(orc(4, 4), 3, 0)]));
    let strong = with_stats(player(2, 2), i32::MAX, 2);
    assert!(!is_playable(&game.map, &fov, &[strong, with_stats(orc(4, 4), 3, -1)]));
    let weak = with_stats(player(2, 2), i32::MIN, 2);
    assert!(is_playable(&game.map, &fov, &[weak, with_stats(orc(4, 4), 3, 0)]));
    let weak = with_stats(player(2, 2), i32::MIN, 2);
    assert!(!is_playable(&game.map, &fov, &[weak, with_stats(orc(4, 4), 3, 1)]));
    // The monster's attack on the player.
    let thin = with_stats(player(2, 2), 5, -1);
    assert!(!is_playable(&game.map, &fov, &[thin, with_stats(orc(4, 4), i32::MAX, 0)]));
    let thick = with_stats(player(2, 2), 5, 0);
    assert!(is_playable(&game.map, &fov, &[thick, with_stats(orc(4, 4), i32::MAX, 0)]));
}

#[test]
fn only_attacks_that_can_happen_are_counted() {
    let game = arena(8);
    let fov = all_seen(8, 8);
    // A monster without an AI never attacks.
    let thin = with_stats(player(2, 2), 5, -1);
    let mut tame = with_stats(orc(4, 4), i32::MAX, 0);
    tame.ai = None;
    assert!(is_playable(&game.map, &fov, &[thin, tame]));
    // Remains are never attacked.
    let strong = with_stats(player(2, 2), i32::MAX, 2);
    let remains = Object::new(4, 4, '%', "remains of bezos", Color::black(), false);
    assert!(is_playable(&game.map, &fov, &[strong, remains]));
    // Around a dead player nobody attacks.
    let mut dead = with_stats(player(2, 2), i32::MAX, -1);
    dead.alive = false;
    assert!(is_playable(&game.map, &fov, &[dead, with_stats(orc(4, 4), i32::MAX, -1)]));
}

#[test]
fn largest_damage_is_dealt_without_overflow() {
    let mut game = arena(8);
    let fov = all_seen(8, 8);
    let strong = with_stats(player(2, 2), i32::MAX, 2);
    let mut objects = vec![strong, with_stats(orc(3, 2), 3, 0)];
    let action = try_turn(Intent::Move { dx: 1, dy: 0 }, &fov, &mut game, &mut objects);
    assert_eq!(action, Some(PlayerAction::TookTurn));
    assert_eq!(objects[1].name, "remains of bezos");
    assert_eq!(game.messages.iter()[0].0, "player sues bezos for $2147483647 million in damages.");
    assert!(is_playable(&game.map, &fov, &objects));
}

#[test]
fn monster_without_health_or_with_the_players_death_is_not_playable() {
    let game = arena(8);
    let mut spent = orc(4, 4);
    spent.fighter =
        Some(Fighter { max_hp: 10, hp: 0, defense: 0, power: 3, on_death: DeathCallback::Monster });
    assert!(!is_playable(&game.map, &all_seen(8, 8), &[player(2, 2), spent]));
    let mut second_player = orc(4, 4);
    second_player.fighter =
        Some(Fighter { max_hp: 10, hp: 10, defense: 0, power: 3, on_death: DeathCallback::Player });
    assert!(!is_playable(&game.map, &all_seen(8, 8), &[player(2, 2), second_player]));
    // The player may be out of health: that is a dead player, not a broken game.
    let mut dead = player(2, 2);
    dead.fighter =
        Some(Fighter { max_hp: 30, hp: -4, defense: 2, power: 5, on_death: DeathCallback::Player });
    dead.alive = false;
    assert!(is_playable(&game.map, &all_seen(8, 8), &[dead, orc(4, 4)]));
    // A player who is alive has health left.
    let mut spent = player(2, 2);
    spent.fighter =
        Some(Fighter { max_hp: 30, hp: 0, defense: 2, power: 5, on_death: DeathCallback::Player });
    assert!(!is_playable(&game.map, &all_seen(8, 8), &[spent, orc(4, 4)]));
}

#[test]
fn try_turn_refuses_what_is_no_step() {
    let mut game = arena(8);
    let mut objects = vec![player(2, 2), orc(5, 5)];
    let fov = all_seen(8, 8);
    for (dx, dy) in [(0, 0), (2, 0), (0, -2), (3, 3)] {
        assert_eq!(try_turn(Intent::Move { dx, dy }, &fov, &mut game, &mut objects), None);
    }
    assert_eq!(objects[PLAYER].pos(), (2, 2));
    assert_eq!(objects[1].pos(), (5, 5));
    assert_eq!(game.messages.len(), 0);
}

#[test]
fn try_turn_refuses_a_broken_game() {
    let mut game = arena(8);
    let mut objects = vec![player(2, 2), orc(0, 0)];
    let fov = all_seen(8, 8);
    assert_eq!(try_turn(Intent::Wait, &fov, &mut game, &mut objects), None);
    assert_eq!(try_turn(Intent::Exit, &fov, &mut game, &mut objects), None);
    assert_eq!(objects[1].pos(), (0, 0));
}

#[test]
fn try_turn_runs_a_cycle() {
    let mut game = arena(8);
    let mut objects = vec![player(2, 2), orc(5, 2)];
    let fov = all_seen(8, 8);
    let action = try_turn(Intent::Move { dx: 1, dy: 0 }, &fov, &mut game, &mut objects);
    assert_eq!(action, Some(PlayerAction::TookTurn));
    assert_eq!(objects[PLAYER].pos(), (3, 2));
    // Two cells away: the monster closes in and does not strike yet.
    assert_eq!(objects[1].pos(), (4, 2));
    assert_eq!(game.messages.len(), 0);
    assert!(is_playable(&game.map, &fov, &objects));
    assert_eq!(try_turn(Intent::Exit, &fov, &mut game, &mut objects), Some(PlayerAction::Exit));
    assert_eq!(try_turn(Intent::Other, &fov, &mut game, &mut objects), Some(PlayerAction::DidntTakeTurn));
}

#[test]
fn fresh_dungeon_is_playable_and_stays_so() {
    let steps = [(1, 0), (0, 1), (-1, 0), (0, -1), (1, 1), (-1, -1), (1, -1), (-1, 1)];
    for round in 0..10 {
        let mut objects = vec![player(0, 0)];
        let mut game = Game { map: make_map(&mut objects), messages: Messages::new() };
        let fov = all_seen(MAP_WIDTH as usize, MAP_HEIGHT as usize);
        assert!(is_playable(&game.map, &fov, &objects));
        let count = objects.len();
        for turn in 0..200 {
            let (dx, dy) = steps[(turn * 7 + round * 3 + turn / 5) % steps.len()];
            let action = try_turn(Intent::Move { dx, dy }, &fov, &mut game, &mut objects);
            assert!(action.is_some());
            assert_eq!(objects.len(), count);
            assert_eq!(objects[PLAYER].name, "player");
            let (x, y) = objects[PLAYER].pos();
            assert!(!game.map.get(x, y).blocked);
        }
        assert!(is_playable(&game.map, &fov, &objects));
        for object in &objects[1..] {
            if object.fighter.is_none() {
                assert!(!object.alive && !object.blocks && object.ai.is_none());
                assert!(object.name.starts_with("remains of "));
            }
        }
    }
}

#[test]
fn engine_ends_on_exit_and_stays_ended() {
    let mut game = arena(8);
    let mut objects = vec![player(2, 2), orc(5, 2)];
    let fov = all_seen(8, 8);
    let mut state = EngineState::WaitingForInput;
    state = run_cycle(state, Intent::Move { dx: 0, dy: 1 }, &fov, &mut game, &mut objects);
    assert_eq!(state, EngineState::WaitingForInput);
    assert_eq!(objects[PLAYER].pos(), (2, 3));
    state = run_cycle(state, Intent::Other, &fov, &mut game, &mut objects);
    assert_eq!(state, EngineState::WaitingForInput);
    state = run_cycle(state, Intent::Exit, &fov, &mut game, &mut objects);
    assert_eq!(state, EngineState::Terminated);
    let place = objects[1].pos();
    state = run_cycle(state, Intent::Move { dx: 0, dy: 1 }, &fov, &mut game, &mut objects);
    assert_eq!(state, EngineState::Terminated);
    assert_eq!(objects[PLAYER].pos(), (2, 3));
    assert_eq!(objects[1].pos(), place);
}
