use roguelike::ai::ai_take_turn;
use roguelike::color::Color;
use roguelike::engine::{handle_intent, play_turn, take_ai_turns, Intent, PlayerAction};
use roguelike::fov::FovMap;
use roguelike::game::Game;
use roguelike::grid::Grid;
use roguelike::messages::Messages;
use roguelike::object::{Ai, DeathCallback, Fighter, Object, PLAYER};
use roguelike::scene::{attack_between, find_target, player_move_or_attack};
use roguelike::tile::Tile;

const SIDE: usize = 12;

fn arena() -> Game {
    let mut map = Grid::new(SIDE, SIDE);
    for x in 1..(SIDE as i32 - 1) {
        for y in 1..(SIDE as i32 - 1) {
            map.set(x, y, Tile::empty());
        }
    }
    Game { map, messages: Messages::new() }
}

fn all_seen() -> FovMap {
    let mut fov = FovMap::new(SIDE, SIDE);
    for x in 0..SIDE as i32 {
        for y in 0..SIDE as i32 {
            fov.set(x, y, true);
        }
    }
    fov
}

fn nothing_seen() -> FovMap {
    FovMap::new(SIDE, SIDE)
}

fn player(x: i32, y: i32) -> Object {
    let mut player = Object::new(x, y, '@', "player", Color::white(), true);
    player.alive = true;
    player.fighter =
        Some(Fighter { max_hp: 30, hp: 30, defense: 2, power: 5, on_death: DeathCallback::Player });
    player
}

fn orc(x: i32, y: i32) -> Object {
    let mut monster = Object::new(x, y, 'b', "bezos", Color::black(), true);
    monster.alive = true;
    monster.fighter =
        Some(Fighter { max_hp: 10, hp: 10, defense: 0, power: 3, on_death: DeathCallback::Monster });
    monster.ai = Some(Ai::Basic);
    monster
}

fn troll(x: i32, y: i32) -> Object {
    let mut monster = Object::new(x, y, 'T', "trump", Color::black(), true);
    monster.alive = true;
    monster.fighter =
        Some(Fighter { max_hp: 16, hp: 16, defense: 1, power: 4, on_death: DeathCallback::Monster });
    monster.ai = Some(Ai::Basic);
    monster
}

fn hp(object: &Object) -> i32 {
    object.fighter.unwrap().hp
}

fn texts(game: &Game) -> Vec<String> {
    game.messages.iter().iter().map(|e| e.0.clone()).collect()
}

#[test]
fn find_target_takes_the_first_fighter_on_the_cell() {
    let corpse = Object::new(4, 4, '%', "remains of bezos", Color::dark_red(), false);
    let objects = vec![player(3, 4), corpse, orc(4, 4), troll(4, 4)];
    assert_eq!(find_target(&objects, 4, 4), Some(2));
    assert_eq!(find_target(&objects, 3, 4), Some(0));
    assert_eq!(find_target(&objects, 5, 4), None);
}

#[test]
fn attack_between_hurts_the_target_only() {
    let mut game = arena();
    let mut objects = vec![player(3, 4), orc(4, 4), troll(5, 4)];
    attack_between(2, 0, &mut game, &mut objects);
    assert_eq!(hp(&objects[0]), 28);
    assert_eq!(hp(&objects[1]), 10);
    assert_eq!(hp(&objects[2]), 16);
    assert_eq!(texts(&game), vec!["trump sues player for $2 million in damages.".to_string()]);
}

#[test]
fn player_attacks_what_stands_in_the_way() {
    let mut game = arena();
    let mut objects = vec![player(3, 4), orc(4, 4)];
    player_move_or_attack(1, 0, &mut game, &mut objects);
    assert_eq!(objects[PLAYER].pos(), (3, 4));
    assert_eq!(hp(&objects[1]), 5);
    assert_eq!(texts(&game), vec!["player sues bezos for $5 million in damages.".to_string()]);
}

#[test]
fn player_moves_where_nobody_stands() {
    let mut game = arena();
    let mut objects = vec![player(3, 4), orc(5, 4)];
    player_move_or_attack(1, 0, &mut game, &mut objects);
    assert_eq!(objects[PLAYER].pos(), (4, 4));
    assert_eq!(hp(&objects[1]), 10);
    assert_eq!(game.messages.len(), 0);
}

#[test]
fn player_walks_over_remains() {
    let mut game = arena();
    let mut objects = vec![player(3, 4), orc(4, 4)];
    player_move_or_attack(1, 0, &mut game, &mut objects);
    player_move_or_attack(1, 0, &mut game, &mut objects);
    assert_eq!(objects[1].name, "remains of bezos");
    assert_eq!(objects[PLAYER].pos(), (3, 4));
    player_move_or_attack(1, 0, &mut game, &mut objects);
    assert_eq!(objects[PLAYER].pos(), (4, 4));
    assert_eq!(objects[1].pos(), (4, 4));
    assert_eq!(game.messages.len(), 2);
}

#[test]
fn monster_two_cells_away_moves_and_does_not_attack() {
    let mut game = arena();
    let mut objects = vec![player(3, 4), orc(5, 4)];
    ai_take_turn(1, &all_seen(), &mut game, &mut objects);
    assert_eq!(objects[1].pos(), (4, 4));
    assert_eq!(hp(&objects[0]), 30);
    assert_eq!(game.messages.len(), 0);
}

#[test]
fn monster_next_to_the_player_attacks() {
    let mut game = arena();
    let mut objects = vec![player(3, 4), orc(4, 4)];
    ai_take_turn(1, &all_seen(), &mut game, &mut objects);
    assert_eq!(objects[1].pos(), (4, 4));
    assert_eq!(hp(&objects[0]), 29);
    assert_eq!(texts(&game), vec!["bezos sues player for $1 million in damages.".to_string()]);
}

#[test]
fn monster_diagonally_next_to_the_player_attacks() {
    let mut game = arena();
    let mut objects = vec![player(3, 4), troll(4, 5)];
    ai_take_turn(1, &all_seen(), &mut game, &mut objects);
    assert_eq!(objects[1].pos(), (4, 5));
    assert_eq!(hp(&objects[0]), 28);
}

#[test]
fn monster_a_knights_move_away_moves() {
    let mut game = arena();
    let mut objects = vec![player(3, 4), orc(5, 5)];
    ai_take_turn(1, &all_seen(), &mut game, &mut objects);
    assert_eq!(objects[1].pos(), (4, 5));
    assert_eq!(hp(&objects[0]), 30);
    assert_eq!(game.messages.len(), 0);
}

#[test]
fn monster_out_of_sight_does_nothing() {
    let mut game = arena();
    let mut objects = vec![player(3, 4), orc(4, 4), orc(7, 7)];
    ai_take_turn(1, &nothing_seen(), &mut game, &mut objects);
    ai_take_turn(2, &nothing_seen(), &mut game, &mut objects);
    assert_eq!(objects[1].pos(), (4, 4));
    assert_eq!(objects[2].pos(), (7, 7));
    assert_eq!(hp(&objects[0]), 30);
    assert_eq!(game.messages.len(), 0);
}

#[test]
fn monster_does_not_attack_a_dead_player() {
    let mut game = arena();
    let mut dead = player(3, 4);
    dead.fighter = Some(Fighter { max_hp: 30, hp: 0, defense: 2, power: 5, on_death: DeathCallback::Player });
    dead.alive = false;
    let mut objects = vec![dead, orc(4, 4)];
    ai_take_turn(1, &all_seen(), &mut game, &mut objects);
    assert_eq!(hp(&objects[0]), 0);
    assert_eq!(objects[1].pos(), (4, 4));
    assert_eq!(game.messages.len(), 0);
}

#[test]
fn monster_is_stopped_by_another_monster() {
    let mut game = arena();
    let mut objects = vec![player(3, 4), orc(5, 4), orc(4, 4)];
    ai_take_turn(1, &all_seen(), &mut game, &mut objects);
    assert_eq!(objects[1].pos(), (5, 4));
}

#[test]
fn walking_into_a_wall_takes_a_turn() {
    let mut game = arena();
    let mut objects = vec![player(1, 1), orc(1, 3)];
    let action = play_turn(Intent::Move { dx: -1, dy: 0 }, &all_seen(), &mut game, &mut objects);
    assert_eq!(action, PlayerAction::TookTurn);
    assert_eq!(objects[PLAYER].pos(), (1, 1));
    // The monster had its turn: it closed in.
    assert_eq!(objects[1].pos(), (1, 2));
}

#[test]
fn exit_ends_the_game_without_a_turn() {
    let mut game = arena();
    let mut objects = vec![player(1, 1), orc(1, 2)];
    let action = play_turn(Intent::Exit, &all_seen(), &mut game, &mut objects);
    assert_eq!(action, PlayerAction::Exit);
    assert_eq!(hp(&objects[0]), 30);
    assert_eq!(game.messages.len(), 0);
}

#[test]
fn display_toggle_takes_no_turn() {
    let mut game = arena();
    let mut objects = vec![player(1, 1), orc(1, 2)];
    let action = play_turn(Intent::Other, &all_seen(), &mut game, &mut objects);
    assert_eq!(action, PlayerAction::DidntTakeTurn);
    assert_eq!(hp(&objects[0]), 30);
    assert_eq!(game.messages.len(), 0);
}

#[test]
fn waiting_takes_a_turn() {
    let mut game = arena();
    let mut objects = vec![player(1, 1), orc(1, 2)];
    let action = play_turn(Intent::Wait, &all_seen(), &mut game, &mut objects);
    assert_eq!(action, PlayerAction::TookTurn);
    assert_eq!(objects[PLAYER].pos(), (1, 1));
    assert_eq!(hp(&objects[0]), 29);
}

#[test]
fn dead_player_takes_no_turn() {
    let mut game = arena();
    let mut dead = player(3, 4);
    dead.alive = false;
    let mut objects = vec![dead, orc(6, 4)];
    for intent in [Intent::Move { dx: 1, dy: 0 }, Intent::Wait, Intent::Other] {
        let action = play_turn(intent, &all_seen(), &mut game, &mut objects);
        assert_eq!(action, PlayerAction::DidntTakeTurn);
    }
    assert_eq!(play_turn(Intent::Exit, &all_seen(), &mut game, &mut objects), PlayerAction::Exit);
    assert_eq!(objects[PLAYER].pos(), (3, 4));
    assert_eq!(objects[1].pos(), (6, 4));
}

#[test]
fn handle_intent_does_not_run_the_monsters() {
    let mut game = arena();
    let mut objects = vec![player(3, 4), orc(6, 4)];
    let action = handle_intent(Intent::Move { dx: 0, dy: 1 }, &mut game, &mut objects);
    assert_eq!(action, PlayerAction::TookTurn);
    assert_eq!(objects[PLAYER].pos(), (3, 5));
    assert_eq!(objects[1].pos(), (6, 4));
}

#[test]
fn monsters_act_in_the_order_of_the_list() {
    let mut game = arena();
    // Both monsters want the cell (4, 4); the first in the list gets it.
    let mut objects = vec![player(3, 4), orc(5, 4), troll(5, 3)];
    take_ai_turns(&all_seen(), &mut game, &mut objects);
    assert_eq!(objects[1].pos(), (4, 4));
    assert_eq!(objects[2].pos(), (4, 3));
    let mut game = arena();
    let mut objects = vec![player(3, 4), troll(5, 4), orc(5, 5)];
    take_ai_turns(&all_seen(), &mut game, &mut objects);
    assert_eq!(objects[1].pos(), (4, 4));
    // (4, 5) is diagonal to the player and free.
    assert_eq!(objects[2].pos(), (4, 5));
}

#[test]
fn entities_without_ai_are_passed_over() {
    let mut game = arena();
    let mut bystander = orc(5, 4);
    bystander.ai = None;
    let mut objects = vec![player(3, 4), bystander, orc(3, 6)];
    take_ai_turns(&all_seen(), &mut game, &mut objects);
    assert_eq!(objects[0].pos(), (3, 4));
    assert_eq!(objects[1].pos(), (5, 4));
    assert_eq!(objects[2].pos(), (3, 5));
}

#[test]
fn killed_monster_does_not_act_in_the_same_cycle() {
    let mut game = arena();
    let mut weak = orc(4, 4);
    weak.fighter = Some(Fighter { max_hp: 10, hp: 5, defense: 0, power: 3, on_death: DeathCallback::Monster });
    let mut objects = vec![player(3, 4), weak];
    let action = play_turn(Intent::Move { dx: 1, dy: 0 }, &all_seen(), &mut game, &mut objects);
    assert_eq!(action, PlayerAction::TookTurn);
    assert_eq!(objects[1].name, "remains of bezos");
    assert_eq!(hp(&objects[0]), 30);
    assert_eq!(objects.len(), 2);
    assert_eq!(game.messages.len(), 1);
}

#[test]
fn player_dies_in_the_monsters_phase() {
    let mut game = arena();
    let mut frail = player(3, 4);
    frail.fighter = Some(Fighter { max_hp: 30, hp: 3, defense: 2, power: 5, on_death: DeathCallback::Player });
    let mut objects = vec![frail, troll(4, 4), troll(3, 5), troll(3, 3)];
    let action = play_turn(Intent::Wait, &all_seen(), &mut game, &mut objects);
    assert_eq!(action, PlayerAction::TookTurn);
    // Two hits of 2 each kill; the third monster finds the player dead and holds back.
    assert_eq!(hp(&objects[0]), -1);
    assert!(!objects[0].alive);
    assert_eq!(objects[0].glyph, '%');
    assert_eq!(
        texts(&game),
        vec![
            "trump sues player for $2 million in damages.".to_string(),
            "trump sues player for $2 million in damages.".to_string(),
        ]
    );
    let again = play_turn(Intent::Move { dx: 1, dy: 0 }, &all_seen(), &mut game, &mut objects);
    assert_eq!(again, PlayerAction::DidntTakeTurn);
    assert_eq!(game.messages.len(), 2);
}

#[test]
fn player_marked_dead_is_left_alone_whatever_health_is_left() {
    let mut game = arena();
    let mut marked = player(3, 4);
    marked.alive = false;
    let mut objects = vec![marked, orc(4, 4), troll(3, 5)];
    ai_take_turn(1, &all_seen(), &mut game, &mut objects);
    ai_take_turn(2, &all_seen(), &mut game, &mut objects);
    assert_eq!(hp(&objects[0]), 30);
    assert_eq!(objects[1].pos(), (4, 4));
    assert_eq!(objects[2].pos(), (3, 5));
    assert_eq!(game.messages.len(), 0);
}

#[test]
fn living_player_is_attacked_whatever_health_is_left() {
    let mut game = arena();
    let mut spent = player(3, 4);
    spent.fighter = Some(Fighter { max_hp: 30, hp: 0, defense: 2, power: 5, on_death: DeathCallback::Player });
    let mut objects = vec![spent, orc(4, 4)];
    ai_take_turn(1, &all_seen(), &mut game, &mut objects);
    assert_eq!(hp(&objects[0]), -1);
    assert!(!objects[0].alive);
    assert_eq!(texts(&game), vec!["bezos sues player for $1 million in damages.".to_string()]);
}

#[test]
fn living_player_who_cannot_fight_is_attacked_and_unharmed() {
    let mut game = arena();
    let mut bystander = Object::new(3, 4, '@', "player", Color::white(), true);
    bystander.alive = true;
    let mut objects = vec![bystander, orc(4, 4)];
    ai_take_turn(1, &all_seen(), &mut game, &mut objects);
    assert!(objects[0].alive);
    assert_eq!(objects[0].fighter, None);
    assert_eq!(objects[0].glyph, '@');
    assert_eq!(texts(&game), vec!["bezos sues player for $3 million in damages.".to_string()]);
}
