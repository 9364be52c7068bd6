//! The level as the rest of the game sees it: the theme drawn from the
//! palette, the message log, the player's action classification, and the
//! top-level `make_map` pipeline that builds one dungeon floor.

use vstd::prelude::*;

use std::collections::HashMap;

use crate::bfs::{reachable, remove_inaccessible_tiles};
use crate::cellular_automata::cellular_automata;
use crate::drunk_walk::drunk_walk;
use crate::grid::{in_bounds, Grid};
use crate::maze::maze;
use crate::modifiers::{caved_in, mine_drunkenly, pillars, rubble};
use crate::objects::{Character, Object};
use crate::rect::{lemma_multiset_elements_carry, point_sorter, room_sorter, Rect};
use crate::rectangles::{packed_room, rectangles};
use crate::rng::rand_range;
use crate::spawner::{
    chars_ok, exactly_one_stairs, is_stairs, items_ok, maze_spawner, no_rooms_spawner,
    rooms_spawner, stairs_on_open,
};
use crate::tables::{
    from_dungeon_level, lemma_table2, lemma_table3, lemma_table4, lemma_table5, lemma_total7,
    sample_weighted, total_weight, Transition,
};
use crate::tiles::{gen_colors, Color};
use crate::tunnels::{create_tunnels, joiner};
use crate::{MAP_HEIGHT, MAP_WIDTH};
use rand::rngs::StdRng;

verus! {

/// The ambient flavor of a level, derived from its ground color; it biases
/// which elemental trait monsters receive.
#[derive(Clone, Copy, Debug, PartialEq, Eq, Structural)]
pub enum MapTheme {
    Fire,
    Nature,
    Water,
    Light,
    Death,
    Crystal,
    Earth,
}

/// What a player's input amounted to.
#[derive(Clone, Copy, Debug, PartialEq, Eq, Structural)]
pub enum PlayerAction {
    TookTurn,
    DidntTakeTurn,
    Exit,
}

/// One channel clearly dominates the other two.
pub open spec fn spec_greater(higher: u8, lower_one: u8, lower_two: u8) -> bool {
    higher > lower_one + 25 && higher > lower_two + 25
}

/// Two channels clearly dominate the remaining one.
pub open spec fn spec_two_greater(higher_one: u8, higher_two: u8, lower: u8) -> bool {
    higher_one > lower + 25 && higher_two > lower + 25
}

/// Whether one channel clearly dominates the other two.
pub fn greater(higher: u8, lower_one: u8, lower_two: u8) -> (r: bool)
    ensures
        r == spec_greater(higher, lower_one, lower_two),
{
    higher as u16 > lower_one as u16 + 25 && higher as u16 > lower_two as u16 + 25
}

/// Whether two channels clearly dominate the remaining one.
pub fn two_greater(higher_one: u8, higher_two: u8, lower: u8) -> (r: bool)
    ensures
        r == spec_two_greater(higher_one, higher_two, lower),
{
    higher_one as u16 > lower as u16 + 25 && higher_two as u16 > lower as u16 + 25
}

/// The theme a ground color maps to: the first dominance pattern that holds,
/// single channels before pairs, earth when nothing dominates.
pub open spec fn spec_map_theme(c: Color) -> MapTheme {
    if spec_greater(c.r, c.g, c.b) {
        MapTheme::Fire
    } else if spec_greater(c.g, c.r, c.b) {
        MapTheme::Nature
    } else if spec_greater(c.b, c.r, c.g) {
        MapTheme::Water
    } else if spec_two_greater(c.r, c.g, c.b) {
        MapTheme::Light
    } else if spec_two_greater(c.r, c.b, c.g) {
        MapTheme::Death
    } else if spec_two_greater(c.g, c.b, c.r) {
        MapTheme::Crystal
    } else {
        MapTheme::Earth
    }
}

/// Derives the level theme from the ground color of the palette.
pub fn set_map_theme(color: Color) -> (t: MapTheme)
    ensures
        t == spec_map_theme(color),
{
    let r = color.r;
    let b = color.b;
    let g = color.g;

    if greater(r, g, b) {
        MapTheme::Fire
    } else if greater(g, r, b) {
        MapTheme::Nature
    } else if greater(b, r, g) {
        MapTheme::Water
    } else if two_greater(r, g, b) {
        MapTheme::Light
    } else if two_greater(r, b, g) {
        MapTheme::Death
    } else if two_greater(g, b, r) {
        MapTheme::Crystal
    } else {
        MapTheme::Earth
    }
}

/// The message log shown under the map: each entry is a line of text and the
/// color it is printed in.
#[derive(Debug)]
pub struct Messages {
    pub messages: Vec<(String, Color)>,
}

impl Messages {
    /// Creates an empty log.
    pub fn new() -> (m: Messages)
        ensures
            m.messages@.len() == 0,
    {
        Messages { messages: Vec::new() }
    }

    /// Appends a message in the given color.
    pub fn add(&mut self, message: &str, color: Color)
        ensures
            final(self).messages@.len() == old(self).messages@.len() + 1,
            final(self).messages@.last().0@ == message@,
            final(self).messages@.last().1 == color,
            forall|k: int|
                0 <= k < old(self).messages@.len() ==> #[trigger] final(self).messages@[k] == old(
                    self,
                ).messages@[k],
    {
        self.messages.push((message.to_owned(), color));
    }

    /// How many messages the log holds.
    pub fn len(&self) -> (n: usize)
        ensures
            n == self.messages@.len(),
    {
        self.messages.len()
    }
}

/// Which family of generator produced the current level; it decides which
/// corridor, modifier, and spawning passes follow.
enum MapType {
    Rectangles,
    DrunkenWalk,
    CellularAutomata,
    Maze,
}

/// Builds one complete dungeon floor: picks a generator by depth-scaled
/// weights, runs it with its modifiers and corridors, prunes unreachable
/// open space, and populates the result. Afterwards the player stands on an
/// open tile, every open tile is reachable from the player, and the item
/// collection holds exactly one exit, on an open (hence reachable) tile.
#[verifier::rlimit(100)]
pub fn make_map(
    player: &mut Object,
    characters: &mut Vec<Character>,
    items: &mut HashMap<i32, Object>,
    level: u32,
    rng: &mut StdRng,
) -> (map: Grid)
    requires
        1 <= level <= 100000000,
    ensures
        map.wf(),
        in_bounds(final(player).x as int, final(player).y as int),
        map.at(final(player).x as int, final(player).y as int).empty,
        forall|x: int, y: int|
            in_bounds(x, y) && (#[trigger] map.at(x, y)).empty ==> reachable(
                map,
                (final(player).x as int, final(player).y as int),
                (x, y),
            ),
        chars_ok(final(characters)@, map),
        items_ok(final(items)@, map),
        exactly_one_stairs(final(items)@),
        stairs_on_open(final(items)@, map),
        forall|k: i32|
            #[trigger] final(items)@.dom().contains(k) && is_stairs(final(items)@[k])
                ==> reachable(
                map,
                (final(player).x as int, final(player).y as int),
                (final(items)@[k].x as int, final(items)@[k].y as int),
            ),
        final(player).name == old(player).name,
        final(player).blocks == old(player).blocks,
        final(player).fighter == old(player).fighter,
        final(player).alive == old(player).alive,
{
    // The level's colors, and the theme they imply.
    let colors = gen_colors(rng);
    let map_theme = set_map_theme(colors.light_ground);

    // Start from solid rock.
    let mut map = Grid::new_walls(&colors);

    let mut rects: Vec<Rect> = Vec::new();
    let mut points: Vec<(i32, i32)> = Vec::new();

    // The generator-selection weights, each a depth-scaled table: plain
    // rooms early, modified rooms deeper, the maze exactly on its floor,
    // and the open layouts beyond it.
    let mut t1: Vec<Transition> = Vec::new();
    t1.push(Transition { level: 1, value: 30 });
    t1.push(Transition { level: 3, value: 10 });
    t1.push(Transition { level: 9, value: 0 });
    let w1 = from_dungeon_level(&t1, level);
    proof {
        lemma_table3(t1@, level);
    }

    let mut t2: Vec<Transition> = Vec::new();
    t2.push(Transition { level: 3, value: 30 });
    t2.push(Transition { level: 5, value: 10 });
    t2.push(Transition { level: 9, value: 0 });
    let w2 = from_dungeon_level(&t2, level);
    proof {
        lemma_table3(t2@, level);
    }

    let mut t3: Vec<Transition> = Vec::new();
    t3.push(Transition { level: 4, value: 30 });
    t3.push(Transition { level: 5, value: 10 });
    t3.push(Transition { level: 7, value: 20 });
    t3.push(Transition { level: 9, value: 0 });
    t3.push(Transition { level: 10, value: 5 });
    let w3 = from_dungeon_level(&t3, level);
    proof {
        lemma_table5(t3@, level);
    }

    let mut t4: Vec<Transition> = Vec::new();
    t4.push(Transition { level: 5, value: 30 });
    t4.push(Transition { level: 7, value: 20 });
    t4.push(Transition { level: 9, value: 0 });
    t4.push(Transition { level: 10, value: 5 });
    let w4 = from_dungeon_level(&t4, level);
    proof {
        lemma_table4(t4@, level);
    }

    let mut t5: Vec<Transition> = Vec::new();
    t5.push(Transition { level: 9, value: 0 });
    t5.push(Transition { level: 10, value: 30 });
    let w5 = from_dungeon_level(&t5, level);
    proof {
        lemma_table2(t5@, level);
    }

    let mut t6: Vec<Transition> = Vec::new();
    t6.push(Transition { level: 9, value: 0 });
    t6.push(Transition { level: 11, value: 15 });
    let w6 = from_dungeon_level(&t6, level);
    proof {
        lemma_table2(t6@, level);
    }

    let mut t7: Vec<Transition> = Vec::new();
    t7.push(Transition { level: 9, value: 50 });
    t7.push(Transition { level: 10, value: 0 });
    let w7 = from_dungeon_level(&t7, level);
    proof {
        lemma_table2(t7@, level);
    }

    let mut map_chances: Vec<u32> = Vec::new();
    map_chances.push(w1);
    map_chances.push(w2);
    map_chances.push(w3);
    map_chances.push(w4);
    map_chances.push(w5);
    map_chances.push(w6);
    map_chances.push(w7);
    proof {
        lemma_total7(map_chances@);
        // At every depth from the first floor on, some generator weight is
        // positive: plain rooms early, the maze on its floor, the open
        // layouts beyond it.
        assert(total_weight(map_chances@) > 0);
        assert(total_weight(map_chances@) <= 200);
    }

    let map_gen = sample_weighted(&map_chances, rng);

    let map_type = if map_gen == 0 {
        // A plain room-based map.
        rectangles(&mut rects, &mut map, &colors, player, rng);
        MapType::Rectangles
    } else if map_gen == 1 {
        // Rooms with a cave-in punched through them.
        rectangles(&mut rects, &mut map, &colors, player, rng);
        caved_in(&mut map, &colors, rng);
        MapType::Rectangles
    } else if map_gen == 2 {
        // Rooms with drunken mining off their centers.
        rectangles(&mut rects, &mut map, &colors, player, rng);
        mine_drunkenly(&rects, &mut map, &colors, rng);
        MapType::Rectangles
    } else if map_gen == 3 {
        // Rooms with both the mining and the cave-in.
        rectangles(&mut rects, &mut map, &colors, player, rng);
        mine_drunkenly(&rects, &mut map, &colors, rng);
        caved_in(&mut map, &colors, rng);
        MapType::Rectangles
    } else if map_gen == 4 {
        // A map carved entirely by the walking drunkard.
        drunk_walk(&mut points, &mut map, &colors, player, rng);
        MapType::DrunkenWalk
    } else if map_gen == 5 {
        // A map following the rules of cellular automata.
        cellular_automata(&mut map, &colors, player, rng);
        MapType::CellularAutomata
    } else {
        maze(&mut map, &colors, player, rng);
        MapType::Maze
    };

    // Corridors, pruning, and spawning, by the shape of what was generated.
    match map_type {
        MapType::Rectangles => {
            if rects.len() >= 2 {
                // Cosmetic modifiers, skipped on the exit room.
                let modifier_roll = rand_range(rng, 1, 4);
                if modifier_roll == 1 {
                    pillars(&rects, &mut map, &colors, rng);
                } else if modifier_roll == 2 {
                    rubble(&rects, &mut map, &colors, rng);
                }

                // Reading order, then corridors between consecutive rooms.
                let ghost pre_sort = rects@;
                room_sorter(&mut rects);
                proof {
                    lemma_multiset_elements_carry(pre_sort, rects@);
                    assert forall|k: int|
                        0 <= k < rects@.len() implies packed_room(#[trigger] rects@[k]) by {
                        assert(pre_sort.contains(rects@[k]));
                        let j = choose|j: int|
                            0 <= j < pre_sort.len() && pre_sort[j] == rects@[k];
                    }
                }
                create_tunnels(&rects, &mut map, &colors, rng);
                proof {
                    // The player's room is still among the sorted rooms, and
                    // the corridor pass carved every room center back open.
                    lemma_multiset_elements_carry(rects@, pre_sort);
                    assert(rects@.contains(pre_sort[0]));
                    let j = choose|j: int| 0 <= j < rects@.len() && rects@[j] == pre_sort[0];
                    assert(map.at(rects@[j].spec_center().0, rects@[j].spec_center().1).empty);
                }
            }
            proof {
                crate::rectangles::lemma_packed_room_center_interior(rects@[0]);
            }
            remove_inaccessible_tiles(&mut map, player, &colors);
            rooms_spawner(&rects, items, &map, characters, level, map_theme, rng);
        },
        MapType::DrunkenWalk => {
            let ghost pre_sort = points@;
            point_sorter(&mut points);
            proof {
                lemma_multiset_elements_carry(pre_sort, points@);
                assert forall|k: int|
                    0 <= k < points@.len() implies in_bounds(
                    (#[trigger] points@[k]).0 as int,
                    points@[k].1 as int,
                ) by {
                    assert(pre_sort.contains(points@[k]));
                    let j = choose|j: int| 0 <= j < pre_sort.len() && pre_sort[j] == points@[k];
                }
            }
            if points.len() >= 2 {
                joiner(&points, &mut map, &colors, rng);
            }
            remove_inaccessible_tiles(&mut map, player, &colors);
            no_rooms_spawner(items, &map, characters, level, map_theme, rng);
        },
        MapType::CellularAutomata => {
            remove_inaccessible_tiles(&mut map, player, &colors);
            no_rooms_spawner(items, &map, characters, level, map_theme, rng);
        },
        MapType::Maze => {
            // The maze carves a connected layout by construction; pruning it
            // anyway costs nothing and gives the same guarantee uniformly.
            remove_inaccessible_tiles(&mut map, player, &colors);
            maze_spawner(items, &map, characters, level, map_theme, rng);
        },
    }

    map
}

/// One running game: the current floor, the message log, and the depth.
pub struct Game {
    pub map: Grid,
    pub messages: Messages,
    pub dungeon_level: u32,
}

impl Game {
    /// Starts a new game on the first floor.
    pub fn new(
        characters: &mut Vec<Character>,
        items: &mut HashMap<i32, Object>,
        player: &mut Object,
        rng: &mut StdRng,
    ) -> (g: Game)
        ensures
            g.map.wf(),
            g.dungeon_level == 1,
            g.messages.messages@.len() == 0,
            in_bounds(final(player).x as int, final(player).y as int),
            g.map.at(final(player).x as int, final(player).y as int).empty,
            forall|x: int, y: int|
                in_bounds(x, y) && (#[trigger] g.map.at(x, y)).empty ==> reachable(
                    g.map,
                    (final(player).x as int, final(player).y as int),
                    (x, y),
                ),
            chars_ok(final(characters)@, g.map),
            items_ok(final(items)@, g.map),
            exactly_one_stairs(final(items)@),
            stairs_on_open(final(items)@, g.map),
    {
        let map = make_map(player, characters, items, 1, rng);
        Game { map, messages: Messages::new(), dungeon_level: 1 }
    }
}

/// Advances the game one floor down: heals the player by half their maximum
/// hit points, logs the transition, and generates the next level.
pub fn next_level(
    game: &mut Game,
    player: &mut Object,
    characters: &mut Vec<Character>,
    items: &mut HashMap<i32, Object>,
    rng: &mut StdRng,
)
    requires
        1 <= old(game).dungeon_level < 100000000,
        match old(player).fighter {
            Some(f) => 0 <= f.max_hp && f.hp + f.max_hp / 2 <= i32::MAX,
            None => true,
        },
    ensures
        final(game).dungeon_level == old(game).dungeon_level + 1,
        final(game).map.wf(),
        in_bounds(final(player).x as int, final(player).y as int),
        final(game).map.at(final(player).x as int, final(player).y as int).empty,
        forall|x: int, y: int|
            in_bounds(x, y) && (#[trigger] final(game).map.at(x, y)).empty ==> reachable(
                final(game).map,
                (final(player).x as int, final(player).y as int),
                (x, y),
            ),
        chars_ok(final(characters)@, final(game).map),
        items_ok(final(items)@, final(game).map),
        exactly_one_stairs(final(items)@),
        stairs_on_open(final(items)@, final(game).map),
        match old(player).fighter {
            Some(f) => final(player).fighter == Some(
                crate::objects::Fighter {
                    hp: (if f.hp + f.max_hp / 2 <= f.max_hp {
                        f.hp + f.max_hp / 2
                    } else {
                        f.max_hp as int
                    }) as i32,
                    ..f
                },
            ),
            None => final(player).fighter == old(player).fighter,
        },
        final(game).messages.messages@.len() == old(game).messages.messages@.len() + 2,
        final(game).messages.messages@[old(game).messages.messages@.len() as int].0@
            == "You take a moment to rest, and recover your strength."@,
        final(game).messages.messages@[old(game).messages.messages@.len() as int + 1].0@
            == "After taking a moment to rest, you dive deeper into the caverns..."@,
{
    // A rest at the landing: half the player's maximum health comes back.
    game.messages.add(
        "You take a moment to rest, and recover your strength.",
        Color { r: 0, g: 255, b: 0 },
    );
    let heal_hp = match &player.fighter {
        Some(f) => f.max_hp / 2,
        None => 0,
    };
    player.heal(heal_hp);

    game.messages.add(
        "After taking a moment to rest, you dive deeper into the caverns...",
        Color { r: 255, g: 0, b: 0 },
    );

    // One floor deeper, on a freshly generated map.
    game.dungeon_level = game.dungeon_level + 1;
    game.map = make_map(player, characters, items, game.dungeon_level, rng);
}

} // verus!
