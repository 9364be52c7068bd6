use std::collections::HashMap;

use roguelike::game::{make_map, Game};
use roguelike::grid::Grid;
use roguelike::objects::{Character, Object};
use roguelike::rng::seed_rng;
use roguelike::{MAP_HEIGHT, MAP_WIDTH};

/// A plain flood fill from the entry over non-wall tiles, 4-connected:
/// the reference check for the connectivity guarantee.
fn flood_from(map: &Grid, start: (usize, usize)) -> Vec<bool> {
    let mut visited = vec![false; MAP_WIDTH * MAP_HEIGHT];
    let mut stack = vec![start];
    visited[start.0 * MAP_HEIGHT + start.1] = true;
    while let Some((x, y)) = stack.pop() {
        let mut neighbors = Vec::new();
        if x > 0 {
            neighbors.push((x - 1, y));
        }
        if x + 1 < MAP_WIDTH {
            neighbors.push((x + 1, y));
        }
        if y > 0 {
            neighbors.push((x, y - 1));
        }
        if y + 1 < MAP_HEIGHT {
            neighbors.push((x, y + 1));
        }
        for (nx, ny) in neighbors {
            if !visited[nx * MAP_HEIGHT + ny] && !map.get(nx, ny).wall {
                visited[nx * MAP_HEIGHT + ny] = true;
                stack.push((nx, ny));
            }
        }
    }
    visited
}

fn generate(seed: u64, level: u32) -> (Grid, Character, Vec<Character>, HashMap<i32, Object>) {
    let mut rng = seed_rng(seed);
    let mut player = Object::new_player();
    let mut characters: Vec<Character> = Vec::new();
    let mut items: HashMap<i32, Object> = HashMap::new();
    let map = make_map(&mut player.object, &mut characters, &mut items, level, &mut rng);
    (map, player, characters, items)
}

fn check_level_invariants(seed: u64, level: u32) {
    let (map, player, characters, items) = generate(seed, level);
    let px = player.object.x as usize;
    let py = player.object.y as usize;

    // The entry tile is open.
    assert!(map.get(px, py).empty);

    // Connectivity: every open tile is reachable from the entry.
    let visited = flood_from(&map, (px, py));
    for x in 0..MAP_WIDTH {
        for y in 0..MAP_HEIGHT {
            let t = map.get(x, y);
            if t.empty {
                assert!(visited[x * MAP_HEIGHT + y], "unreachable open tile at {} {}", x, y);
            }
            // Tile exclusivity, and the derived blocking flags.
            let categories = t.empty as u32 + t.wall as u32 + t.secret_path as u32;
            assert_eq!(categories, 1);
            assert_eq!(t.blocked, t.wall);
            assert_eq!(t.block_sight, t.wall || t.secret_path);
        }
    }

    // Exactly one exit, and it is reachable.
    let stairs: Vec<&Object> = items.values().filter(|o| o.name == "Stairs").collect();
    assert_eq!(stairs.len(), 1);
    let s = stairs[0];
    assert!(map.get(s.x as usize, s.y as usize).empty);
    assert!(visited[s.x as usize * MAP_HEIGHT + s.y as usize]);

    // No entity sits on a wall, and no two blocking entities share a tile.
    let mut blocked_spots = Vec::new();
    for c in &characters {
        assert!(!map.get(c.object.x as usize, c.object.y as usize).blocked);
        if c.object.blocks {
            let pos = (c.object.x, c.object.y);
            assert!(!blocked_spots.contains(&pos));
            blocked_spots.push(pos);
        }
    }
    for o in items.values() {
        assert!(!map.get(o.x as usize, o.y as usize).blocked);
        assert!(!o.blocks);
    }
}

#[test]
fn room_level_invariants() {
    // Depth 1 always uses the room packer.
    for seed in [1u64, 2, 3, 4, 5] {
        check_level_invariants(seed, 1);
    }
}

#[test]
fn maze_level_invariants() {
    // Depth 9 always uses the maze carver.
    for seed in [11u64, 12, 13] {
        check_level_invariants(seed, 9);
    }
}

#[test]
fn open_level_invariants() {
    // Depths past the maze mix the drunkard's walk, the automata, and the
    // modified room layouts.
    for seed in [21u64, 22, 23] {
        check_level_invariants(seed, 10);
    }
    for seed in [31u64, 32] {
        check_level_invariants(seed, 12);
    }
}

#[test]
fn fixed_seed_reproduces_level() {
    // The same seed gives the same room-based level twice over: same entry,
    // same entity counts, same tiles.
    let (map_a, player_a, chars_a, items_a) = generate(77, 1);
    let (map_b, player_b, chars_b, items_b) = generate(77, 1);

    assert_eq!(player_a.object.x, player_b.object.x);
    assert_eq!(player_a.object.y, player_b.object.y);
    assert_eq!(chars_a.len(), chars_b.len());
    assert_eq!(items_a.len(), items_b.len());
    for x in 0..MAP_WIDTH {
        for y in 0..MAP_HEIGHT {
            assert_eq!(map_a.get(x, y), map_b.get(x, y));
        }
    }

    // And the level it reproduces is connected.
    let visited = flood_from(&map_a, (player_a.object.x as usize, player_a.object.y as usize));
    for x in 0..MAP_WIDTH {
        for y in 0..MAP_HEIGHT {
            if map_a.get(x, y).empty {
                assert!(visited[x * MAP_HEIGHT + y]);
            }
        }
    }
}

#[test]
fn new_game_and_next_level() {
    let mut rng = seed_rng(5);
    let mut player = Object::new_player();
    let mut characters: Vec<Character> = Vec::new();
    let mut items: HashMap<i32, Object> = HashMap::new();
    let mut game = Game::new(&mut characters, &mut items, &mut player.object, &mut rng);
    assert_eq!(game.dungeon_level, 1);
    assert!(game.map.get(player.object.x as usize, player.object.y as usize).empty);

    roguelike::game::next_level(&mut game, &mut player.object, &mut characters, &mut items, &mut rng);
    assert_eq!(game.dungeon_level, 2);
    assert!(game.map.get(player.object.x as usize, player.object.y as usize).empty);
    assert_eq!(game.messages.len(), 2);

    // The exit exists on the new floor too.
    let stairs: Vec<&Object> = items.values().filter(|o| o.name == "Stairs").collect();
    assert_eq!(stairs.len(), 1);
}
