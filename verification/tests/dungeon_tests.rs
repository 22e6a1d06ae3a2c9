use roguelike::carve::{create_corridor, create_h_tunnel, create_room, create_v_tunnel};
use roguelike::color::Color;
use roguelike::dungeon::{add_room, intersects_any, make_map, MAP_HEIGHT, MAP_WIDTH, MAX_ROOMS};
use roguelike::grid::Grid;
use roguelike::object::{Ai, DeathCallback, Fighter, Object, PLAYER};
use roguelike::rect::Rect;
use roguelike::spawn::{kind_for, place_monster, place_objects, MonsterKind, MAX_ROOM_MONSTERS};
use roguelike::tile::Tile;

fn player() -> Object {
    let mut player = Object::new(0, 0, '@', "player", Color::white(), true);
    player.alive = true;
    player.fighter =
        Some(Fighter { max_hp: 30, hp: 30, defense: 2, power: 5, on_death: DeathCallback::Player });
    player
}

fn floor_cells(grid: &Grid) -> Vec<(i32, i32)> {
    let mut cells = vec![];
    for x in 0..grid.tiles.len() as i32 {
        for y in 0..grid.tiles[x as usize].len() as i32 {
            if !grid.get(x, y).blocked {
                cells.push((x, y));
            }
        }
    }
    cells
}

fn reachable_from(grid: &Grid, start: (i32, i32)) -> Vec<(i32, i32)> {
    let mut seen = vec![start];
    let mut next = 0;
    while next < seen.len() {
        let (x, y) = seen[next];
        next += 1;
        for (dx, dy) in [(1, 0), (-1, 0), (0, 1), (0, -1)] {
            let cell = (x + dx, y + dy);
            if grid.contains(cell.0, cell.1) && !grid.get(cell.0, cell.1).blocked && !seen.contains(&cell) {
                seen.push(cell);
            }
        }
    }
    seen
}

#[test]
fn room_is_carved_inside_its_boundary() {
    let mut grid = Grid::new(12, 12);
    create_room(Rect::new(2, 3, 5, 4), &mut grid);
    for x in 0..12 {
        for y in 0..12 {
            let inside = 2 < x && x < 7 && 3 < y && y < 7;
            let expected = if inside { Tile::empty() } else { Tile::wall() };
            assert_eq!(grid.get(x, y), expected, "at {:?}", (x, y));
        }
    }
}

#[test]
fn room_without_inside_carves_nothing() {
    let mut grid = Grid::new(6, 6);
    create_room(Rect::new(2, 2, 1, 3), &mut grid);
    create_room(Rect::new(2, 2, 3, 0), &mut grid);
    assert!(floor_cells(&grid).is_empty());
}

#[test]
fn horizontal_tunnel_includes_both_ends() {
    for (x1, x2) in [(2, 6), (6, 2)] {
        let mut grid = Grid::new(10, 10);
        create_h_tunnel(x1, x2, 4, &mut grid);
        assert_eq!(floor_cells(&grid), vec![(2, 4), (3, 4), (4, 4), (5, 4), (6, 4)]);
    }
}

#[test]
fn vertical_tunnel_includes_both_ends() {
    for (y1, y2) in [(1, 3), (3, 1)] {
        let mut grid = Grid::new(10, 10);
        create_v_tunnel(y1, y2, 7, &mut grid);
        assert_eq!(floor_cells(&grid), vec![(7, 1), (7, 2), (7, 3)]);
    }
}

#[test]
fn tunnel_of_one_cell() {
    let mut grid = Grid::new(10, 10);
    create_h_tunnel(5, 5, 5, &mut grid);
    assert_eq!(floor_cells(&grid), vec![(5, 5)]);
}

#[test]
fn carving_twice_changes_nothing_more() {
    let mut once = Grid::new(10, 10);
    create_room(Rect::new(1, 1, 5, 5), &mut once);
    create_h_tunnel(2, 8, 3, &mut once);
    let mut twice = Grid::new(10, 10);
    for _ in 0..2 {
        create_room(Rect::new(1, 1, 5, 5), &mut twice);
        create_h_tunnel(2, 8, 3, &mut twice);
    }
    assert_eq!(once.tiles, twice.tiles);
}

#[test]
fn carving_keeps_what_was_explored_elsewhere() {
    let mut grid = Grid::new(6, 6);
    let seen_wall = Tile { blocked: true, explored: true, block_sight: true };
    grid.set(1, 1, seen_wall);
    grid.set(3, 3, seen_wall);
    create_v_tunnel(2, 4, 3, &mut grid);
    assert_eq!(grid.get(1, 1), seen_wall);
    assert_eq!(grid.get(3, 3), Tile::empty());
}

#[test]
fn corridor_turns_at_the_corner_that_the_coin_picks() {
    let mut grid = Grid::new(10, 10);
    create_corridor((2, 2), (5, 4), true, &mut grid);
    assert_eq!(floor_cells(&grid), vec![(2, 2), (3, 2), (4, 2), (5, 2), (5, 3), (5, 4)]);
    let mut grid = Grid::new(10, 10);
    create_corridor((2, 2), (5, 4), false, &mut grid);
    assert_eq!(floor_cells(&grid), vec![(2, 2), (2, 3), (2, 4), (3, 4), (4, 4), (5, 4)]);
}

#[test]
fn intersects_any_finds_a_touching_room() {
    let rooms = vec![Rect::new(0, 0, 5, 5), Rect::new(20, 20, 6, 6)];
    assert!(intersects_any(&Rect::new(5, 5, 5, 5), &rooms));
    assert!(intersects_any(&Rect::new(22, 22, 1, 1), &rooms));
    assert!(!intersects_any(&Rect::new(6, 6, 5, 5), &rooms));
    assert!(!intersects_any(&Rect::new(0, 0, 5, 5), &vec![]));
}

#[test]
fn weighted_coin_picks_the_kind() {
    assert_eq!(kind_for(true), MonsterKind::Bezos);
    assert_eq!(kind_for(false), MonsterKind::Trump);
    assert_eq!(kind_for(true).spawn(2, 3).name, "bezos");
    assert_eq!(kind_for(false).spawn(2, 3).name, "trump");
}

#[test]
fn place_monster_on_a_free_cell() {
    let mut grid = Grid::new(10, 10);
    create_room(Rect::new(1, 1, 6, 6), &mut grid);
    let mut objects = vec![player()];
    assert!(place_monster(MonsterKind::Bezos, 3, 3, &grid, &mut objects));
    assert!(place_monster(MonsterKind::Trump, 4, 3, &grid, &mut objects));
    assert_eq!(objects.len(), 3);
    let orc = &objects[1];
    assert_eq!((orc.pos(), orc.glyph, orc.name.as_str()), ((3, 3), 'b', "bezos"));
    assert_eq!(orc.color, Color::black());
    assert!(orc.blocks && orc.alive);
    assert_eq!(orc.ai, Some(Ai::Basic));
    assert_eq!(
        orc.fighter,
        Some(Fighter { max_hp: 10, hp: 10, defense: 0, power: 3, on_death: DeathCallback::Monster })
    );
    let troll = &objects[2];
    assert_eq!((troll.pos(), troll.glyph, troll.name.as_str()), ((4, 3), 'T', "trump"));
    assert!(troll.blocks && troll.alive);
    assert_eq!(troll.ai, Some(Ai::Basic));
    assert_eq!(
        troll.fighter,
        Some(Fighter { max_hp: 16, hp: 16, defense: 1, power: 4, on_death: DeathCallback::Monster })
    );
}

#[test]
fn place_monster_is_given_up_on_a_taken_cell() {
    let mut grid = Grid::new(10, 10);
    create_room(Rect::new(1, 1, 6, 6), &mut grid);
    let mut objects = vec![player()];
    assert!(place_monster(MonsterKind::Bezos, 3, 3, &grid, &mut objects));
    assert!(!place_monster(MonsterKind::Trump, 3, 3, &grid, &mut objects));
    assert!(!place_monster(MonsterKind::Trump, 1, 1, &grid, &mut objects));
    assert_eq!(objects.len(), 2);
    assert_eq!(objects[1].name, "bezos");
}

#[test]
fn place_objects_keeps_to_the_room() {
    for _ in 0..200 {
        let mut grid = Grid::new(20, 20);
        let room = Rect::new(3, 4, 6, 8);
        create_room(room, &mut grid);
        let mut objects = vec![player()];
        place_objects(room, &grid, &mut objects);
        assert!(objects.len() <= 1 + MAX_ROOM_MONSTERS as usize);
        assert_eq!(objects[0].name, "player");
        for (i, monster) in objects.iter().enumerate().skip(1) {
            let (x, y) = monster.pos();
            assert!(3 < x && x < 9 && 4 < y && y < 12);
            assert!(monster.name == "bezos" || monster.name == "trump");
            assert!(monster.alive && monster.blocks);
            for other in &objects[1..i] {
                assert_ne!(other.pos(), (x, y));
            }
        }
    }
}

#[test]
fn place_objects_draws_every_count_and_both_kinds() {
    let mut counts = [false; 4];
    let mut kinds = [false; 2];
    let mut cells = std::collections::HashSet::new();
    for _ in 0..2000 {
        let mut grid = Grid::new(20, 20);
        let room = Rect::new(3, 4, 6, 8);
        create_room(room, &mut grid);
        let mut objects = vec![player()];
        place_objects(room, &grid, &mut objects);
        counts[objects.len() - 1] = true;
        for monster in &objects[1..] {
            kinds[if monster.name == "bezos" { 0 } else { 1 }] = true;
            cells.insert(monster.pos());
        }
    }
    assert_eq!(counts, [true; 4]);
    assert_eq!(kinds, [true; 2]);
    assert!(cells.len() > 20);
}

#[test]
fn generated_dungeon_is_walled_in_and_plain() {
    for _ in 0..50 {
        let mut objects = vec![player()];
        let grid = make_map(&mut objects);
        assert_eq!(grid.tiles.len(), MAP_WIDTH as usize);
        for x in 0..MAP_WIDTH {
            assert_eq!(grid.tiles[x as usize].len(), MAP_HEIGHT as usize);
            for y in 0..MAP_HEIGHT {
                let tile = grid.get(x, y);
                assert!(tile == Tile::wall() || tile == Tile::empty());
                if x == 0 || y == 0 || x == MAP_WIDTH - 1 || y == MAP_HEIGHT - 1 {
                    assert_eq!(tile, Tile::wall());
                }
            }
        }
    }
}

#[test]
fn generated_dungeon_is_connected() {
    for _ in 0..50 {
        let mut objects = vec![player()];
        let grid = make_map(&mut objects);
        let mut floor = floor_cells(&grid);
        let mut reached = reachable_from(&grid, objects[PLAYER].pos());
        floor.sort();
        reached.sort();
        assert!(floor.len() >= 25);
        assert_eq!(floor, reached);
    }
}

#[test]
fn generated_dungeon_houses_player_and_monsters_on_floor() {
    for _ in 0..50 {
        let mut objects = vec![player()];
        let grid = make_map(&mut objects);
        assert!(objects.len() <= 1 + (MAX_ROOMS * MAX_ROOM_MONSTERS) as usize);
        let (px, py) = objects[PLAYER].pos();
        assert!(!grid.get(px, py).blocked);
        assert_eq!(objects[PLAYER].name, "player");
        assert_eq!(objects[PLAYER].fighter.unwrap().hp, 30);
        assert_eq!(objects[PLAYER].ai, None);
        for monster in &objects[1..] {
            let (x, y) = monster.pos();
            assert!(!grid.get(x, y).blocked);
            assert!(monster.alive && monster.blocks);
            assert_eq!(monster.ai, Some(Ai::Basic));
            assert!(monster.name == "bezos" || monster.name == "trump");
        }
    }
}

#[test]
fn generated_dungeon_has_no_two_monsters_on_one_cell() {
    for _ in 0..100 {
        let mut objects = vec![player()];
        let _grid = make_map(&mut objects);
        for (i, monster) in objects.iter().enumerate().skip(1) {
            for other in &objects[1..i] {
                assert_ne!(other.pos(), monster.pos());
            }
        }
    }
}

#[test]
fn first_room_receives_the_player() {
    let mut map = Grid::new(MAP_WIDTH as usize, MAP_HEIGHT as usize);
    let mut rooms = vec![];
    let mut objects = vec![player()];
    let room = Rect::new(10, 10, 6, 8);
    // The coin plays no part for the first room.
    assert!(add_room(room, true, &mut map, &mut rooms, &mut objects));
    assert_eq!(rooms, vec![room]);
    assert_eq!(objects[PLAYER].pos(), (13, 14));
    assert_eq!(objects[PLAYER].name, "player");
    assert_eq!(objects[PLAYER].fighter.unwrap().hp, 30);
    let mut floor = floor_cells(&map);
    floor.sort();
    let mut inside = vec![];
    for x in 11..16 {
        for y in 11..18 {
            inside.push((x, y));
        }
    }
    assert_eq!(floor, inside);
    assert!(objects.len() <= 1 + MAX_ROOM_MONSTERS as usize);
    for monster in &objects[1..] {
        let (x, y) = monster.pos();
        assert!(10 < x && x < 16 && 10 < y && y < 18);
        assert!(monster.alive && monster.blocks);
    }
}

#[test]
fn touching_room_is_refused_and_changes_nothing() {
    let mut map = Grid::new(MAP_WIDTH as usize, MAP_HEIGHT as usize);
    let mut rooms = vec![];
    let mut objects = vec![player()];
    assert!(add_room(Rect::new(10, 10, 6, 8), false, &mut map, &mut rooms, &mut objects));
    let tiles = map.tiles.clone();
    let places: Vec<(i32, i32)> = objects.iter().map(|o| o.pos()).collect();
    for touching in [Rect::new(16, 18, 6, 6), Rect::new(4, 10, 6, 6), Rect::new(12, 12, 6, 6), Rect::new(10, 10, 6, 8)] {
        assert!(!add_room(touching, true, &mut map, &mut rooms, &mut objects));
        assert_eq!(rooms, vec![Rect::new(10, 10, 6, 8)]);
        assert_eq!(map.tiles, tiles);
        assert_eq!(objects.iter().map(|o| o.pos()).collect::<Vec<_>>(), places);
    }
}

#[test]
fn later_room_is_joined_by_the_corridor_that_the_coin_picks() {
    for horizontal_first in [true, false] {
        let mut map = Grid::new(MAP_WIDTH as usize, MAP_HEIGHT as usize);
        let mut rooms = vec![];
        let mut objects = vec![player()];
        let first = Rect::new(10, 10, 6, 8);
        let second = Rect::new(30, 20, 8, 6);
        assert!(add_room(first, horizontal_first, &mut map, &mut rooms, &mut objects));
        assert!(add_room(second, horizontal_first, &mut map, &mut rooms, &mut objects));
        assert_eq!(rooms, vec![first, second]);
        // The player stays in the first room.
        assert_eq!(objects[PLAYER].pos(), (13, 14));
        // From (13, 14) to (34, 23).
        for x in 0..MAP_WIDTH {
            for y in 0..MAP_HEIGHT {
                let in_first = 10 < x && x < 16 && 10 < y && y < 18;
                let in_second = 30 < x && x < 38 && 20 < y && y < 26;
                let on_corridor = if horizontal_first {
                    (y == 14 && 13 <= x && x <= 34) || (x == 34 && 14 <= y && y <= 23)
                } else {
                    (x == 13 && 14 <= y && y <= 23) || (y == 23 && 13 <= x && x <= 34)
                };
                let expected = if in_first || in_second || on_corridor { Tile::empty() } else { Tile::wall() };
                assert_eq!(map.get(x, y), expected, "at {:?}", (x, y));
            }
        }
        for monster in &objects[1..] {
            let (x, y) = monster.pos();
            let in_first = 10 < x && x < 16 && 10 < y && y < 18;
            let in_second = 30 < x && x < 38 && 20 < y && y < 26;
            assert!(in_first || in_second);
        }
    }
}

#[test]
fn room_next_to_a_corridor_but_apart_from_every_room_is_accepted() {
    let mut map = Grid::new(MAP_WIDTH as usize, MAP_HEIGHT as usize);
    let mut rooms = vec![];
    let mut objects = vec![player()];
    assert!(add_room(Rect::new(2, 2, 6, 6), true, &mut map, &mut rooms, &mut objects));
    assert!(add_room(Rect::new(40, 2, 6, 6), true, &mut map, &mut rooms, &mut objects));
    // The corridor runs along row 5; this room lies across it.
    assert!(add_room(Rect::new(20, 2, 6, 6), false, &mut map, &mut rooms, &mut objects));
    assert_eq!(rooms.len(), 3);
    assert_eq!(map.get(30, 5), Tile::empty());
    assert_eq!(map.get(23, 5), Tile::empty());
    let mut floor = floor_cells(&map);
    let mut reached = reachable_from(&map, objects[PLAYER].pos());
    floor.sort();
    reached.sort();
    assert_eq!(floor, reached);
}

#[test]
fn generated_dungeons_differ() {
    let mut first = vec![player()];
    let grid = make_map(&mut first);
    let mut differs = false;
    for _ in 0..20 {
        let mut objects = vec![player()];
        let other = make_map(&mut objects);
        if other.tiles != grid.tiles {
            differs = true;
        }
    }
    assert!(differs);
}

#[test]
fn generator_leaves_other_entities_alone() {
    let mut bystander = Object::new(7, 9, '&', "npc", Color::blue(), false);
    bystander.alive = true;
    let mut objects = vec![player(), bystander];
    let _grid = make_map(&mut objects);
    assert_eq!(objects[1].pos(), (7, 9));
    assert_eq!(objects[1].name, "npc");
    assert_eq!(objects[1].glyph, '&');
    assert!(!objects[1].blocks);
    for monster in &objects[2..] {
        assert!(monster.name == "bezos" || monster.name == "trump");
    }
}
