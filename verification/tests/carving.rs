use roguelike::cellular_automata::cellular_automata;
use roguelike::drunk_walk::drunk_walk;
use roguelike::grid::Grid;
use roguelike::maze::maze;
use roguelike::modifiers::{butterfly, random_hole};
use roguelike::objects::Object;
use roguelike::rect::Rect;
use roguelike::rng::seed_rng;
use roguelike::tables::{from_dungeon_level, Transition};
use roguelike::tiles::gen_colors;
use roguelike::tunnels::{create_room, create_secret_h_tunnel};
use roguelike::{MAP_HEIGHT, MAP_WIDTH};

#[test]
fn palette_channels_in_range() {
    let mut rng = seed_rng(9);
    for _ in 0..20 {
        let colors = gen_colors(&mut rng);
        assert!((80..130).contains(&colors.light_wall.r));
        assert!((65..175).contains(&colors.light_ground.g));
        assert!((25..35).contains(&colors.darkness.r));
        assert!((5..15).contains(&colors.darkness.b));
    }
}

#[test]
fn secret_tunnel_converts_only_walls() {
    let mut rng = seed_rng(10);
    let colors = gen_colors(&mut rng);
    let mut map = Grid::new_walls(&colors);
    let room = Rect::new(10, 5, 6, 6);
    create_room(room, &mut map, &colors, &mut rng);

    // A horizontal secret run crossing the room: wall tiles become secret
    // passages, the open room interior is untouched.
    create_secret_h_tunnel(5, 20, 8, &mut map, &colors, &mut rng);
    assert!(map.get(6, 8).secret_path);
    assert!(map.get(20, 8).secret_path);
    assert!(map.get(12, 8).empty);
    // A secret passage blocks sight but not movement.
    assert!(map.get(6, 8).block_sight);
    assert!(!map.get(6, 8).blocked);
}

#[test]
fn cave_ins_open_the_center() {
    let mut rng = seed_rng(11);
    let colors = gen_colors(&mut rng);
    let mut map = Grid::new_walls(&colors);
    butterfly(&mut map, &colors, &mut rng);
    assert!(map.get(MAP_WIDTH / 2, MAP_HEIGHT / 2).empty);

    let mut map2 = Grid::new_walls(&colors);
    random_hole(&mut map2, &colors, &mut rng);
    assert!(map2.get(MAP_WIDTH / 2, MAP_HEIGHT / 2).empty);
}

#[test]
fn drunk_walk_entry_is_first_anchor() {
    let mut rng = seed_rng(12);
    let colors = gen_colors(&mut rng);
    let mut map = Grid::new_walls(&colors);
    let mut points: Vec<(i32, i32)> = Vec::new();
    let mut player = Object::new_player();
    drunk_walk(&mut points, &mut map, &colors, &mut player.object, &mut rng);

    assert!(!points.is_empty());
    assert_eq!((player.object.x, player.object.y), points[0]);
    assert!(map.get(player.object.x as usize, player.object.y as usize).empty);
}

#[test]
fn cellular_automata_leaves_border_walled() {
    let mut rng = seed_rng(13);
    let colors = gen_colors(&mut rng);
    let mut map = Grid::new_walls(&colors);
    let mut player = Object::new_player();
    cellular_automata(&mut map, &colors, &mut player.object, &mut rng);

    for x in 0..MAP_WIDTH {
        assert!(map.get(x, 0).wall);
        assert!(map.get(x, MAP_HEIGHT - 1).wall);
    }
    for y in 0..MAP_HEIGHT {
        assert!(map.get(0, y).wall);
        assert!(map.get(MAP_WIDTH - 1, y).wall);
    }
    assert!(map.get(player.object.x as usize, player.object.y as usize).empty);
}

#[test]
fn maze_opens_odd_nodes() {
    let mut rng = seed_rng(14);
    let colors = gen_colors(&mut rng);
    let mut map = Grid::new_walls(&colors);
    let mut player = Object::new_player();
    maze(&mut map, &colors, &mut player.object, &mut rng);

    // Every odd coordinate pair is a one-tile room.
    for x in (1..MAP_WIDTH - 1).step_by(2) {
        for y in (1..MAP_HEIGHT - 1).step_by(2) {
            assert!(map.get(x, y).empty, "maze node at {} {} not open", x, y);
        }
    }
    assert!(map.get(player.object.x as usize, player.object.y as usize).empty);
}

#[test]
fn item_gating_thresholds() {
    // The fireball scroll's table rises at depth 6 and 8, then drops at 10.
    let mut fireball = Vec::new();
    fireball.push(Transition { level: 6, value: 25 });
    fireball.push(Transition { level: 8, value: 50 });
    fireball.push(Transition { level: 10, value: 10 });
    assert_eq!(from_dungeon_level(&fireball, 5), 0);
    assert_eq!(from_dungeon_level(&fireball, 6), 25);
    assert_eq!(from_dungeon_level(&fireball, 9), 50);
    assert_eq!(from_dungeon_level(&fireball, 11), 10);
}
