use std::collections::HashMap;

use roguelike::bfs::Broadfs;
use roguelike::enemies::{blob, elemental, lizard};
use roguelike::game::{set_map_theme, MapTheme, Messages};
use roguelike::grid::Grid;
use roguelike::objects::{Character, Object};
use roguelike::rect::{point_sorter, room_sorter, Rect};
use roguelike::rng::seed_rng;
use roguelike::spawner::create_stairs;
use roguelike::tiles::{gen_colors, Color, Tile};
use roguelike::traits::{earth_trait, fire_trait, water_trait};
use roguelike::tunnels::{create_h_tunnel, create_room, create_v_tunnel};

#[test]
fn rect_intersection_counts_touching_edges() {
    let a = Rect::new(0, 0, 4, 4);
    let b = Rect::new(4, 0, 4, 4);
    let c = Rect::new(9, 9, 4, 4);
    assert!(a.intersects_with(&b));
    assert!(b.intersects_with(&a));
    assert!(!a.intersects_with(&c));
    assert_eq!(a.center(), (2, 2));
    assert_eq!(Rect::new(2, 3, 5, 7).center(), (4, 6));
}

#[test]
fn room_sorter_orders_by_center() {
    let mut rooms = vec![
        Rect::new(40, 2, 4, 4),
        Rect::new(2, 10, 4, 4),
        Rect::new(20, 0, 6, 6),
    ];
    room_sorter(&mut rooms);
    assert_eq!(rooms.len(), 3);
    assert_eq!(rooms[0].x1, 2);
    assert_eq!(rooms[1].x1, 20);
    assert_eq!(rooms[2].x1, 40);
}

#[test]
fn point_sorter_orders_lexicographically() {
    let mut points = vec![(9, 1), (2, 8), (2, 3), (1, 40)];
    point_sorter(&mut points);
    assert_eq!(points, vec![(1, 40), (2, 3), (2, 8), (9, 1)]);
}

#[test]
fn tile_constructors_set_categories() {
    let mut rng = seed_rng(1);
    let colors = gen_colors(&mut rng);
    let open = Tile::empty(&colors, &mut rng);
    assert!(open.empty && !open.wall && !open.secret_path);
    assert!(!open.blocked && !open.block_sight);
    let wall = Tile::wall(&colors);
    assert!(wall.wall && !wall.empty && !wall.secret_path);
    assert!(wall.blocked && wall.block_sight);
    let secret = Tile::hidden_passage(&colors, &mut rng);
    assert!(secret.secret_path && !secret.empty && !secret.wall);
    assert!(!secret.blocked && secret.block_sight);
}

#[test]
fn carving_opens_tiles() {
    let mut rng = seed_rng(2);
    let colors = gen_colors(&mut rng);
    let mut map = Grid::new_walls(&colors);
    assert!(map.get(10, 10).wall);

    let room = Rect::new(5, 5, 6, 6);
    create_room(room, &mut map, &colors, &mut rng);
    assert!(map.get(6, 6).empty);
    assert!(map.get(10, 10).empty);
    // The margin stays walled.
    assert!(map.get(5, 5).wall);
    assert!(map.get(11, 11).wall);

    create_h_tunnel(20, 30, 8, &mut map, &colors, &mut rng);
    for x in 20..=30 {
        assert!(map.get(x, 8).empty);
    }
    create_v_tunnel(3, 12, 40, &mut map, &colors, &mut rng);
    for y in 3..=12 {
        assert!(map.get(40, y).empty);
    }
}

#[test]
fn occupancy_check() {
    let mut rng = seed_rng(3);
    let colors = gen_colors(&mut rng);
    let mut map = Grid::new_walls(&colors);
    let room = Rect::new(5, 5, 6, 6);
    create_room(room, &mut map, &colors, &mut rng);

    let characters: Vec<Character> = Vec::new();
    // A wall tile is blocked, an open tile is not.
    assert!(Object::is_blocked(2, 2, &map, &characters));
    assert!(!Object::is_blocked(7, 7, &map, &characters));

    // A blocking character occupies its tile; a non-blocking one does not.
    let mut blocker = Object::new_player();
    blocker.object.set_pos(7, 7);
    let with_blocker = vec![blocker];
    assert!(Object::is_blocked(7, 7, &map, &with_blocker));
    assert!(!Object::is_blocked(8, 7, &map, &with_blocker));
}

#[test]
fn stairs_key_reuse() {
    let mut items: HashMap<i32, Object> = HashMap::new();
    items.insert(1, Object::health_pot(3, 3));
    items.insert(2, Object::health_pot(4, 4));
    create_stairs(&mut items, 6, 6);
    // The first unused small key is taken.
    assert!(items.get(&3).is_some());
    assert_eq!(items[&3].name, "Stairs");
    assert_eq!(items[&3].x, 6);

    let mut sparse: HashMap<i32, Object> = HashMap::new();
    sparse.insert(2, Object::health_pot(4, 4));
    create_stairs(&mut sparse, 9, 9);
    assert!(sparse.get(&1).is_some());
    assert_eq!(sparse[&1].name, "Stairs");
}

#[test]
fn map_theme_from_dominant_channel() {
    assert_eq!(set_map_theme(Color { r: 200, g: 50, b: 50 }), MapTheme::Fire);
    assert_eq!(set_map_theme(Color { r: 50, g: 200, b: 50 }), MapTheme::Nature);
    assert_eq!(set_map_theme(Color { r: 50, g: 50, b: 200 }), MapTheme::Water);
    assert_eq!(set_map_theme(Color { r: 200, g: 200, b: 50 }), MapTheme::Light);
    assert_eq!(set_map_theme(Color { r: 200, g: 50, b: 200 }), MapTheme::Death);
    assert_eq!(set_map_theme(Color { r: 50, g: 200, b: 200 }), MapTheme::Crystal);
    assert_eq!(set_map_theme(Color { r: 100, g: 100, b: 100 }), MapTheme::Earth);
}

#[test]
fn trait_tiers() {
    let weak = fire_trait(1);
    assert_eq!(weak.name, "Warm ");
    assert_eq!(weak.exp, 15);
    assert_eq!(weak.power, 2);
    assert_eq!(weak.corpse_type, "embers");
    let strong = fire_trait(3);
    assert_eq!(strong.name, "Blazing ");
    assert_eq!(strong.exp, 150);
    let water = water_trait(2);
    assert_eq!(water.name, "Acquatic ");
    assert_eq!(water.corpse_type, "puddle");
    let earth = earth_trait(3);
    assert_eq!(earth.name, "Mountain ");
    assert_eq!(earth.defense, 7);
}

#[test]
fn base_monsters() {
    let e = elemental(3, 4, 1);
    assert_eq!(e.object.name, "Elemental");
    assert_eq!((e.object.x, e.object.y), (3, 4));
    assert_eq!(e.object.fighter.unwrap().max_hp, 20);
    let l = lizard(0, 0, 3);
    assert_eq!(l.object.fighter.unwrap().power, 12);
    let b = blob(0, 0, 2);
    assert_eq!(b.object.fighter.unwrap().exp, 300);
    assert!(b.object.blocks);
}

#[test]
fn player_heal_caps_at_max() {
    let mut player = Object::new_player();
    if let Some(f) = &mut player.object.fighter {
        f.hp = 50;
    }
    player.object.heal(20);
    assert_eq!(player.object.fighter.unwrap().hp, 70);
    player.object.heal(1000);
    assert_eq!(player.object.fighter.unwrap().hp, 100);
}

#[test]
fn messages_accumulate() {
    let mut messages = Messages::new();
    assert_eq!(messages.len(), 0);
    messages.add("Dive deep.", Color { r: 229, g: 191, b: 0 });
    messages.add("Try not to die.", Color { r: 255, g: 0, b: 0 });
    assert_eq!(messages.len(), 2);
    assert_eq!(messages.messages[0].0, "Dive deep.");
}

#[test]
fn bfs_visits_carved_region() {
    let mut rng = seed_rng(4);
    let colors = gen_colors(&mut rng);
    let mut map = Grid::new_walls(&colors);
    let room = Rect::new(5, 5, 6, 6);
    create_room(room, &mut map, &colors, &mut rng);

    let mut bfs = Broadfs::new();
    bfs.search(&map, (7, 7), None);
    // Every interior tile of the room is visited, the outside is not.
    for x in 6..11u32 {
        for y in 6..11u32 {
            assert!(bfs.get_node(x, y).unwrap().visited);
        }
    }
    assert!(!bfs.get_node(20, 20).unwrap().visited);

    // A goal-directed search can rebuild its path.
    let mut bfs2 = Broadfs::new();
    bfs2.search(&map, (6, 6), Some((9, 9)));
    bfs2.breadcrumb((6, 6), Some((9, 9)));
    let (gx, gy) = bfs2.path[0].get_xy();
    assert_eq!((gx, gy), (9, 9));
}
