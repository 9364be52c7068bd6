//! Populating a finished grid with monsters and items: per-room spawning for
//! room-based levels, vertical-band spawning for open levels, and the level
//! exit, placed exactly once.

use vstd::prelude::*;

use std::collections::HashMap;

use crate::entry::{has_interior_open, scan_interior_open};
use crate::game::MapTheme;
use crate::grid::{in_bounds, Grid};
use crate::objects::{blocking_character_at, Character, Item, Object};
use crate::rect::Rect;
use crate::rectangles::{lemma_packed_room_center_interior, packed_room};
use crate::rng::rand_range;
use crate::tables::{from_dungeon_level, lemma_table3, Transition};
use crate::tiles::Color;
use crate::{MAP_HEIGHT, MAP_WIDTH};
use vstd::set_lib::{lemma_int_range, lemma_map_size, lemma_subset_equality, set_int_range};
use vstd::string::StringExecFns;
use rand::rngs::StdRng;

verus! {

broadcast use vstd::std_specs::hash::group_hash_axioms;

/// The level exit.
pub open spec fn is_stairs(o: Object) -> bool {
    o.name@ == "Stairs"@
}

/// Every character stands on a walkable tile inside the map, and no two
/// blocking characters share a tile.
pub open spec fn chars_ok(chars: Seq<Character>, g: Grid) -> bool {
    &&& forall|k: int|
        0 <= k < chars.len() ==> {
            &&& in_bounds((#[trigger] chars[k]).object.x as int, chars[k].object.y as int)
            &&& !g.at(chars[k].object.x as int, chars[k].object.y as int).blocked
        }
    &&& forall|k1: int, k2: int|
        0 <= k1 < k2 < chars.len() && (#[trigger] chars[k1]).object.blocks
            && (#[trigger] chars[k2]).object.blocks ==> !(chars[k1].object.x == chars[k2].object.x
            && chars[k1].object.y == chars[k2].object.y)
}

/// Every item sits on a walkable tile inside the map and blocks nothing.
pub open spec fn items_ok(m: Map<i32, Object>, g: Grid) -> bool {
    forall|k: i32|
        #[trigger] m.dom().contains(k) ==> {
            &&& in_bounds(m[k].x as int, m[k].y as int)
            &&& !g.at(m[k].x as int, m[k].y as int).blocked
            &&& !m[k].blocks
        }
}

/// The item collection holds no exit.
pub open spec fn no_stairs(m: Map<i32, Object>) -> bool {
    forall|k: i32| #[trigger] m.dom().contains(k) ==> !is_stairs(m[k])
}

/// The item collection holds exactly one exit.
pub open spec fn exactly_one_stairs(m: Map<i32, Object>) -> bool {
    exists|k: i32|
        {
            &&& #[trigger] m.dom().contains(k)
            &&& is_stairs(m[k])
            &&& forall|k2: i32| #[trigger] m.dom().contains(k2) && is_stairs(m[k2]) ==> k2 == k
        }
}

/// Every exit in the collection sits on an open tile.
pub open spec fn stairs_on_open(m: Map<i32, Object>, g: Grid) -> bool {
    forall|k: i32|
        #[trigger] m.dom().contains(k) && is_stairs(m[k]) ==> {
            &&& in_bounds(m[k].x as int, m[k].y as int)
            &&& g.at(m[k].x as int, m[k].y as int).empty
        }
}

/// Every key of the item collection is a positive identifier below `c`.
pub open spec fn keys_below(m: Map<i32, Object>, c: i32) -> bool {
    forall|k: i32| #[trigger] m.dom().contains(k) ==> 1 <= k < c
}

/// How many monsters one room (or band) may receive at this depth.
pub open spec fn monsters_cap(level: u32) -> u32 {
    if level >= 6 {
        5
    } else if level >= 4 {
        3
    } else if level >= 1 {
        2
    } else {
        0
    }
}

/// How many items one room may receive at this depth.
pub open spec fn items_per_room_cap(level: u32) -> u32 {
    if level >= 4 {
        2
    } else if level >= 1 {
        1
    } else {
        0
    }
}

/// How many items one band of an open map may receive at this depth.
pub open spec fn items_per_band_cap(level: u32) -> u32 {
    if level >= 10 {
        3
    } else if level >= 4 {
        2
    } else if level >= 1 {
        1
    } else {
        0
    }
}

/// An item kind is only handed out at depths where its table weight is
/// positive: scrolls and stat upgrades appear no earlier than their
/// thresholds, and the exit is never an item kind.
pub open spec fn item_allowed(o: Object, level: u32) -> bool {
    &&& o.item is Some
    &&& o.item != Some(Item::FearScroll)
    &&& o.item == Some(Item::LightningBoltScroll) ==> level >= 4
    &&& o.item == Some(Item::FireballScroll) ==> level >= 6
    &&& o.item == Some(Item::ConfusionScroll) ==> level >= 2
    &&& o.item == Some(Item::HpUp) ==> level >= 5
    &&& o.item == Some(Item::PowUp) ==> level >= 7
    &&& o.item == Some(Item::DefUp) ==> level >= 10
}

/// Every exit in the collection sits at the given coordinate.
pub open spec fn stairs_at(m: Map<i32, Object>, x: int, y: int) -> bool {
    forall|k: i32|
        #[trigger] m.dom().contains(k) && is_stairs(m[k]) ==> m[k].x == x && m[k].y == y
}

/// Every exit in the collection sits strictly inside the map border.
pub open spec fn stairs_interior(m: Map<i32, Object>) -> bool {
    forall|k: i32|
        #[trigger] m.dom().contains(k) && is_stairs(m[k]) ==> 1 <= m[k].x < MAP_WIDTH as int - 1
            && 1 <= m[k].y < MAP_HEIGHT as int - 1
}

/// A finite collection whose keys all lie in `[1, len]` holds every key of
/// that range: the identifiers are dense.
pub proof fn lemma_keys_dense(m: Map<i32, Object>)
    requires
        m.dom().finite(),
        forall|k: i32| #[trigger] m.dom().contains(k) ==> 1 <= k && k as int <= m.len() as int,
        m.len() < 100000000,
    ensures
        forall|k: i32| 1 <= k && k as int <= m.len() as int ==> m.dom().contains(k),
{
    let n = m.len() as int;
    let f = |j: int| j as i32;
    let t_int = set_int_range(1, n + 1);
    lemma_int_range(1, n + 1);
    let t = t_int.map(f);
    assert(vstd::relations::injective_on(f, t_int)) by {
        assert forall|a1: int, a2: int|
            #![trigger f(a1), f(a2)]
            t_int.contains(a1) && t_int.contains(a2) && f(a1) == f(a2) implies a1 == a2 by {}
    }
    lemma_map_size(t_int, t, f);
    assert(m.dom().subset_of(t)) by {
        assert forall|k: i32| #[trigger] m.dom().contains(k) implies t.contains(k) by {
            assert(t_int.contains(k as int) && f(k as int) == k);
        }
    }
    lemma_subset_equality(m.dom(), t);
    assert forall|k: i32| 1 <= k && k as int <= m.len() as int implies m.dom().contains(k) by {
        assert(t_int.contains(k as int) && f(k as int) == k);
        assert(t.contains(k));
    }
}

/// Inserts the exit object into the item collection at the first unused
/// small positive key, so exit identifiers stay small and stable.
pub fn create_stairs(items: &mut HashMap<i32, Object>, x: i32, y: i32)
    requires
        old(items)@.dom().finite(),
        old(items)@.len() < 100000000,
    ensures
        exists|k: i32|
            {
                &&& !old(items)@.dom().contains(k)
                &&& 1 <= k <= old(items)@.len() + 1
                &&& forall|j: i32| 1 <= j < k ==> old(items)@.dom().contains(j)
                &&& final(items)@ =~= old(items)@.insert(k, #[trigger] final(items)@[k])
                &&& is_stairs(final(items)@[k])
                &&& final(items)@[k].x == x
                &&& final(items)@[k].y == y
                &&& !final(items)@[k].blocks
            },
        no_stairs(old(items)@) ==> exactly_one_stairs(final(items)@),
{
    let stairs = Object {
        x,
        y,
        char: '<',
        color: Color { r: 255, g: 255, b: 255 },
        name: String::from_str("Stairs"),
        blocks: false,
        alive: false,
        corpse_type: String::from_str("Stairs"),
        fighter: None,
        ai: None,
        item: None,
        level: 1,
        always_visible: true,
    };

    let total = items.len();
    let mut stairs_id: i32 = 1;
    let mut i: usize = 0;
    let mut found = false;
    while !found && i < total
        invariant
            items@ == old(items)@,
            total == items@.len(),
            total < 100000000,
            items@.dom().finite(),
            1 <= stairs_id,
            stairs_id <= i + 1,
            i <= total,
            forall|j: int| 1 <= j < stairs_id ==> items@.dom().contains(#[trigger] (j as i32)),
            !found ==> stairs_id == i + 1,
            found ==> !items@.dom().contains(stairs_id),
        decreases (if found {
            0int
        } else {
            1int
        }), total - i,
    {
        if items.contains_key(&stairs_id) {
            stairs_id = stairs_id + 1;
        } else {
            found = true;
        }
        i = i + 1;
    }
    proof {
        if !found {
            // Every key from 1 through the map's size is taken, so by
            // counting, the next key is free.
            let n = items@.len() as int;
            assert(stairs_id == n + 1);
            let f = |j: int| j as i32;
            let t_int = set_int_range(1, n + 1);
            lemma_int_range(1, n + 1);
            let t = t_int.map(f);
            assert(vstd::relations::injective_on(f, t_int)) by {
                assert forall|a1: int, a2: int|
                    #![trigger f(a1), f(a2)]
                    t_int.contains(a1) && t_int.contains(a2) && f(a1) == f(a2) implies a1 == a2 by {
                }
            }
            lemma_map_size(t_int, t, f);
            assert(t.subset_of(items@.dom())) by {
                assert forall|k: i32| #[trigger] t.contains(k) implies items@.dom().contains(
                    k,
                ) by {
                    let j = choose|j: int| t_int.contains(j) && f(j) == k;
                    assert(items@.dom().contains((j as i32)));
                }
            }
            lemma_subset_equality(t, items@.dom());
            assert(!t_int.contains(n + 1));
            if items@.dom().contains(stairs_id) {
                assert(t.contains(stairs_id));
                let j = choose|j: int| t_int.contains(j) && f(j) == stairs_id;
                assert(j == n + 1);
                assert(false);
            }
        }
        assert(!items@.dom().contains(stairs_id));
        assert(1 <= stairs_id <= items@.len() + 1);
        assert forall|j: i32| 1 <= j < stairs_id implies items@.dom().contains(j) by {
            assert(((j as int) as i32) == j);
            assert(items@.dom().contains(((j as int) as i32)));
        }
    }
    let ghost pre = items@;
    items.insert(stairs_id, stairs);
    proof {
        reveal_strlit("Stairs");
        assert(is_stairs(items@[stairs_id]));
        assert(items@ =~= pre.insert(stairs_id, items@[stairs_id]));
        if no_stairs(pre) {
            assert forall|k2: i32|
                #[trigger] items@.dom().contains(k2) && is_stairs(items@[k2]) implies k2
                == stairs_id by {
                if k2 != stairs_id {
                    assert(pre.dom().contains(k2));
                }
            }
            assert(items@.dom().contains(stairs_id));
            assert(exactly_one_stairs(items@));
        }
    }
}

/// The weight each item kind gets at a given depth; the healing potion is
/// always available, everything else is gated by depth thresholds.
pub open spec fn heal_chance(level: u32) -> u32 {
    35
}

pub open spec fn lightning_chance(level: u32) -> u32 {
    if level >= 4 {
        25
    } else {
        0
    }
}

pub open spec fn fireball_chance(level: u32) -> u32 {
    if level >= 10 {
        10
    } else if level >= 8 {
        50
    } else if level >= 6 {
        25
    } else {
        0
    }
}

pub open spec fn confusion_chance(level: u32) -> u32 {
    if level >= 12 {
        20
    } else if level >= 2 {
        10
    } else {
        0
    }
}

pub open spec fn hp_up_chance(level: u32) -> u32 {
    if level >= 5 {
        10
    } else {
        0
    }
}

pub open spec fn pow_up_chance(level: u32) -> u32 {
    if level >= 7 {
        10
    } else {
        0
    }
}

pub open spec fn def_up_chance(level: u32) -> u32 {
    if level >= 10 {
        10
    } else {
        0
    }
}

/// Builds the seven item-kind weights for the current depth, in the order
/// healing potion, lightning, fireball, confusion, health up, power up,
/// defense up.
fn item_chances(level: u32) -> (w: Vec<u32>)
    ensures
        w@.len() == 7,
        w@[0] == heal_chance(level),
        w@[1] == lightning_chance(level),
        w@[2] == fireball_chance(level),
        w@[3] == confusion_chance(level),
        w@[4] == hp_up_chance(level),
        w@[5] == pow_up_chance(level),
        w@[6] == def_up_chance(level),
{
    let mut lightning_table: Vec<Transition> = Vec::new();
    lightning_table.push(Transition { level: 4, value: 25 });
    let lightning = from_dungeon_level(&lightning_table, level);
    proof {
        crate::tables::lemma_table1(lightning_table@, level);
    }

    let mut fireball_table: Vec<Transition> = Vec::new();
    fireball_table.push(Transition { level: 6, value: 25 });
    fireball_table.push(Transition { level: 8, value: 50 });
    fireball_table.push(Transition { level: 10, value: 10 });
    let fireball = from_dungeon_level(&fireball_table, level);
    proof {
        lemma_table3(fireball_table@, level);
    }

    let mut confusion_table: Vec<Transition> = Vec::new();
    confusion_table.push(Transition { level: 2, value: 10 });
    confusion_table.push(Transition { level: 12, value: 20 });
    let confusion = from_dungeon_level(&confusion_table, level);
    proof {
        crate::tables::lemma_table2(confusion_table@, level);
    }

    let mut hp_up_table: Vec<Transition> = Vec::new();
    hp_up_table.push(Transition { level: 5, value: 10 });
    let hp_up = from_dungeon_level(&hp_up_table, level);
    proof {
        crate::tables::lemma_table1(hp_up_table@, level);
    }

    let mut pow_up_table: Vec<Transition> = Vec::new();
    pow_up_table.push(Transition { level: 7, value: 10 });
    let pow_up = from_dungeon_level(&pow_up_table, level);
    proof {
        crate::tables::lemma_table1(pow_up_table@, level);
    }

    let mut def_up_table: Vec<Transition> = Vec::new();
    def_up_table.push(Transition { level: 10, value: 10 });
    let def_up = from_dungeon_level(&def_up_table, level);
    proof {
        crate::tables::lemma_table1(def_up_table@, level);
    }

    let mut w: Vec<u32> = Vec::new();
    w.push(35);
    w.push(lightning);
    w.push(fireball);
    w.push(confusion);
    w.push(hp_up);
    w.push(pow_up);
    w.push(def_up);
    w
}

/// Draws one item kind for the depth and builds the item at `(x, y)`. The
/// result never blocks movement and is never an exit.
#[verifier::rlimit(60)]
fn random_item(x: i32, y: i32, level: u32, rng: &mut StdRng) -> (o: Object)
    ensures
        o.x == x && o.y == y,
        !o.blocks,
        !is_stairs(o),
        item_allowed(o, level),
{
    let chances = item_chances(level);
    proof {
        crate::tables::lemma_weight_prefix_monotone(chances@, 1, 7);
        assert(crate::tables::weight_sum_prefix(chances@, 1) == 35) by {
            reveal_with_fuel(crate::tables::weight_sum_prefix, 2);
        }
        lemma_total_weight_bounds_loose(chances@);
    }
    let choice = crate::tables::sample_weighted(&chances, rng);
    let o = if choice == 0 {
        Object::health_pot(x, y)
    } else if choice == 1 {
        Object::lightning_bolt_scroll(x, y)
    } else if choice == 2 {
        Object::fireball_scroll(x, y)
    } else if choice == 3 {
        Object::confusion_scroll(x, y)
    } else if choice == 4 {
        Object::health_up(x, y)
    } else if choice == 5 {
        Object::power_up(x, y)
    } else {
        Object::defense_up(x, y)
    };
    proof {
        reveal_strlit("Stairs");
        reveal_strlit("Health potion");
        reveal_strlit("Scroll of lightning bolt");
        reveal_strlit("Scroll of Fireball");
        reveal_strlit("Scroll of confusion");
        reveal_strlit("Kale");
        reveal_strlit("Creatine Powder");
        reveal_strlit("Quinoa");
        assert("Stairs"@.len() == 6);
        assert("Health potion"@.len() == 13);
        assert("Scroll of lightning bolt"@.len() == 24);
        assert("Scroll of Fireball"@.len() == 18);
        assert("Scroll of confusion"@.len() == 19);
        assert("Kale"@.len() == 4);
        assert("Creatine Powder"@.len() == 15);
        assert("Quinoa"@.len() == 6);
        assert("Health potion"@ != "Stairs"@);
        assert("Scroll of lightning bolt"@ != "Stairs"@);
        assert("Scroll of Fireball"@ != "Stairs"@);
        assert("Scroll of confusion"@ != "Stairs"@);
        assert("Kale"@ != "Stairs"@);
        assert("Creatine Powder"@ != "Stairs"@);
        assert("Quinoa"@ != "Stairs"@) by {
            assert("Quinoa"@[0] != "Stairs"@[0]);
        }
    }
    o
}

proof fn lemma_total_weight_bounds_loose(w: Seq<u32>)
    requires
        forall|i: int| 0 <= i < w.len() ==> #[trigger] w[i] <= 1000,
    ensures
        crate::tables::total_weight(w) <= 1000 * w.len(),
    decreases w.len(),
{
    lemma_prefix_loose(w, w.len() as int);
}

proof fn lemma_prefix_loose(w: Seq<u32>, k: int)
    requires
        0 <= k <= w.len(),
        forall|i: int| 0 <= i < w.len() ==> #[trigger] w[i] <= 1000,
    ensures
        crate::tables::weight_sum_prefix(w, k) <= 1000 * k,
    decreases k,
{
    if k > 0 {
        lemma_prefix_loose(w, k - 1);
    }
}

/// Fills one room with a random number of depth-appropriate items, skipping
/// occupied spots; placed items keep existing item keys untouched, never
/// block, and are never exits.
pub fn room_items(
    room: Rect,
    items: &mut HashMap<i32, Object>,
    map: &Grid,
    characters: &Vec<Character>,
    item_counter: &mut i32,
    level: u32,
    rng: &mut StdRng,
)
    requires
        map.wf(),
        packed_room(room),
        old(items)@.dom().finite(),
        1 <= *old(item_counter) < 0x3fff_ffff,
    ensures
        final(items)@.dom().finite(),
        final(items)@.len() <= old(items)@.len() + items_per_room_cap(level),
        forall|k: i32|
            #[trigger] old(items)@.dom().contains(k)
                ==> final(items)@.dom().contains(k) && final(items)@[k] == old(items)@[k],
        forall|k: i32|
            #[trigger] final(items)@.dom().contains(k) && !old(items)@.dom().contains(k) ==> {
                &&& !is_stairs(final(items)@[k])
                &&& !final(items)@[k].blocks
                &&& item_allowed(final(items)@[k], level)
                &&& room.x1 < final(items)@[k].x < room.x2
                &&& room.y1 < final(items)@[k].y < room.y2
                &&& in_bounds(final(items)@[k].x as int, final(items)@[k].y as int)
                &&& !map.at(final(items)@[k].x as int, final(items)@[k].y as int).blocked
                &&& !blocking_character_at(
                    characters@,
                    final(items)@[k].x as int,
                    final(items)@[k].y as int,
                )
                &&& *old(item_counter) <= k < *final(item_counter)
            },
        *old(item_counter) <= *final(item_counter) <= *old(item_counter) + items_per_room_cap(
            level,
        ),
        keys_below(old(items)@, *old(item_counter)) ==> keys_below(
            final(items)@,
            *final(item_counter),
        ) && final(items)@.len() == old(items)@.len() + (*final(item_counter) - *old(
            item_counter,
        )),
{
    // How many items this depth allows per room.
    let mut max_table: Vec<Transition> = Vec::new();
    max_table.push(Transition { level: 1, value: 1 });
    max_table.push(Transition { level: 4, value: 2 });
    let max_items = from_dungeon_level(&max_table, level);
    proof {
        crate::tables::lemma_table2(max_table@, level);
        assert(max_items == items_per_room_cap(level));
    }

    let num_items = rand_range(rng, 0, max_items + 1);

    let mut placed: u32 = 0;
    while placed < num_items
        invariant
            map.wf(),
            packed_room(room),
            num_items <= items_per_room_cap(level),
            placed <= num_items,
            items@.dom().finite(),
            items@.len() <= old(items)@.len() + placed,
            1 <= *item_counter,
            *item_counter <= *old(item_counter) + placed,
            *old(item_counter) <= *item_counter,
            *old(item_counter) < 0x3fff_ffff,
            forall|k: i32|
                #[trigger] old(items)@.dom().contains(k) ==> items@.dom().contains(k) && items@[k]
                    == old(items)@[k],
            forall|k: i32|
                #[trigger] items@.dom().contains(k) && !old(items)@.dom().contains(k) ==> {
                    &&& !is_stairs(items@[k])
                    &&& !items@[k].blocks
                    &&& item_allowed(items@[k], level)
                    &&& room.x1 < items@[k].x < room.x2
                    &&& room.y1 < items@[k].y < room.y2
                    &&& in_bounds(items@[k].x as int, items@[k].y as int)
                    &&& !map.at(items@[k].x as int, items@[k].y as int).blocked
                    &&& !blocking_character_at(characters@, items@[k].x as int, items@[k].y as int)
                    &&& *old(item_counter) <= k < *item_counter
                },
            keys_below(old(items)@, *old(item_counter)) ==> keys_below(items@, *item_counter)
                && items@.len() == old(items)@.len() + (*item_counter - *old(item_counter)),
        decreases num_items - placed,
    {
        // A random spot inside the room.
        let x = rand_range(rng, (room.x1 + 1) as u32, room.x2 as u32) as i32;
        let y = rand_range(rng, (room.y1 + 1) as u32, room.y2 as u32) as i32;

        if !Object::is_blocked(x, y, map, characters) {
            let item = random_item(x, y, level, rng);
            if !items.contains_key(item_counter) {
                items.insert(*item_counter, item);
            }
            *item_counter = *item_counter + 1;
        }
        placed = placed + 1;
    }
}

/// Fills one room with a random number of depth-scaled monsters, leveled
/// once per depth, skipping occupied spots; every placed monster respects
/// the occupancy rules.
pub fn room_characters(
    room: Rect,
    map: &Grid,
    characters: &mut Vec<Character>,
    level: u32,
    theme: MapTheme,
    rng: &mut StdRng,
)
    requires
        map.wf(),
        packed_room(room),
        1 <= level <= 100000000,
        chars_ok(old(characters)@, *map),
    ensures
        chars_ok(final(characters)@, *map),
        old(characters)@.len() <= final(characters)@.len() <= old(characters)@.len()
            + monsters_cap(level),
        forall|k: int|
            0 <= k < old(characters)@.len()
                ==> #[trigger] final(characters)@[k] == old(characters)@[k],
        forall|k: int|
            old(characters)@.len() <= k < final(characters)@.len() ==> {
                &&& room.x1 < (#[trigger] final(characters)@[k]).object.x < room.x2
                &&& room.y1 < final(characters)@[k].object.y < room.y2
            },
{
    // How many monsters this depth allows per room.
    let mut max_table: Vec<Transition> = Vec::new();
    max_table.push(Transition { level: 1, value: 2 });
    max_table.push(Transition { level: 4, value: 3 });
    max_table.push(Transition { level: 6, value: 5 });
    let max_monsters = from_dungeon_level(&max_table, level);
    proof {
        lemma_table3(max_table@, level);
        assert(max_monsters == monsters_cap(level));
    }

    let num_monsters = rand_range(rng, 0, max_monsters + 1);

    let mut placed: u32 = 0;
    while placed < num_monsters
        invariant
            map.wf(),
            packed_room(room),
            1 <= level <= 100000000,
            num_monsters <= monsters_cap(level),
            placed <= num_monsters,
            chars_ok(characters@, *map),
            old(characters)@.len() <= characters@.len() <= old(characters)@.len() + placed,
            forall|k: int|
                0 <= k < old(characters)@.len() ==> #[trigger] characters@[k] == old(
                    characters,
                )@[k],
            forall|k: int|
                old(characters)@.len() <= k < characters@.len() ==> {
                    &&& room.x1 < (#[trigger] characters@[k]).object.x < room.x2
                    &&& room.y1 < characters@[k].object.y < room.y2
                },
        decreases num_monsters - placed,
    {
        // A random spot inside the room.
        let x = rand_range(rng, (room.x1 + 1) as u32, room.x2 as u32) as i32;
        let y = rand_range(rng, (room.y1 + 1) as u32, room.y2 as u32) as i32;

        if !Object::is_blocked(x, y, map, characters) {
            let mut monster = spawn_leveled_monster(x, y, level, theme, rng);
            characters.push(monster);
        }
        placed = placed + 1;
    }
}

/// Generates a monster for the depth and levels it up once per floor below
/// the first, so deeper floors hold stronger copies of the same monsters.
fn spawn_leveled_monster(x: i32, y: i32, level: u32, theme: MapTheme, rng: &mut StdRng) -> (c:
    Character)
    requires
        1 <= level <= 100000000,
    ensures
        c.object.x == x && c.object.y == y,
        c.object.blocks,
        c.object.alive,
        c.object.fighter is Some,
{
    let mut monster = crate::enemies::generate_monster(x, y, pick_tier(level, rng), level, theme, rng);
    monster.object.alive = true;

    let mut level_up = level - 1;
    while level_up > 0
        invariant
            level <= 100000000,
            level_up <= level - 1,
            monster.object.x == x && monster.object.y == y,
            monster.object.blocks,
            monster.object.alive,
            monster.object.fighter is Some,
            match monster.object.fighter {
                Some(f) => {
                    &&& 0 <= f.exp <= 2000
                    &&& 0 <= f.max_hp <= 2000 + 5 * (level - 1 - level_up)
                    &&& 0 <= f.hp <= 2000 + 5 * (level - 1 - level_up)
                    &&& 0 <= f.defense <= 2000 + (level - 1 - level_up)
                    &&& 0 <= f.power <= 2000 + (level - 1 - level_up)
                },
                None => true,
            },
        decreases level_up,
    {
        match &mut monster.object.fighter {
            Some(f) => {
                crate::enemies::monster_level_up(f, rng);
            },
            None => {},
        }
        level_up = level_up - 1;
    }
    monster
}

/// Draws the monster power bracket for the depth: weak, medium, or powerful,
/// with depth-scaled weights.
fn pick_tier(level: u32, rng: &mut StdRng) -> (tier: i32)
    requires
        level >= 1,
    ensures
        1 <= tier <= 3,
{
    let weights = crate::enemies::monster_strength_weighting(level);
    proof {
        crate::tables::lemma_total3(weights@);
    }
    let choice = crate::tables::sample_weighted(&weights, rng);
    if choice == 0 {
        1
    } else if choice == 1 {
        2
    } else {
        3
    }
}

/// Fills the seven vertical bands of a non-room map with depth-scaled
/// monsters, with a bounded number of placement attempts per band; every
/// placed monster respects the occupancy rules.
pub fn no_room_characters(
    map: &Grid,
    characters: &mut Vec<Character>,
    level: u32,
    theme: MapTheme,
    rng: &mut StdRng,
)
    requires
        map.wf(),
        1 <= level <= 100000000,
        chars_ok(old(characters)@, *map),
    ensures
        chars_ok(final(characters)@, *map),
        old(characters)@.len() <= final(characters)@.len() <= old(characters)@.len() + 7
            * monsters_cap(level),
        forall|k: int|
            0 <= k < old(characters)@.len()
                ==> #[trigger] final(characters)@[k] == old(characters)@[k],
{
    // How many monsters this depth allows per band.
    let mut max_table: Vec<Transition> = Vec::new();
    max_table.push(Transition { level: 1, value: 2 });
    max_table.push(Transition { level: 4, value: 3 });
    max_table.push(Transition { level: 6, value: 5 });
    let max_monsters = from_dungeon_level(&max_table, level);
    proof {
        lemma_table3(max_table@, level);
        assert(max_monsters == monsters_cap(level));
    }

    let map_regions: u32 = 7;
    let mut map_region_start: u32 = 0;

    let mut region: u32 = 0;
    while region < map_regions
        invariant
            map.wf(),
            1 <= level <= 100000000,
            max_monsters == monsters_cap(level),
            map_regions == 7,
            region <= map_regions,
            map_region_start == region * 10,
            chars_ok(characters@, *map),
            old(characters)@.len() <= characters@.len() <= old(characters)@.len() + region
                * monsters_cap(level),
            forall|k: int|
                0 <= k < old(characters)@.len()
                    ==> #[trigger] characters@[k] == old(characters)@[k],
        decreases map_regions - region,
    {
        let num_monsters = rand_range(rng, 0, max_monsters + 1);

        let mut monsters_placed: u32 = 0;
        let mut attempts: u32 = 0;
        let max_tries: u32 = 100;
        let ghost band_entry = characters@.len();

        while monsters_placed < num_monsters && attempts < max_tries
            invariant
                map.wf(),
                1 <= level <= 100000000,
                num_monsters <= monsters_cap(level),
                monsters_placed <= num_monsters,
                map_region_start <= 60,
                attempts <= max_tries,
                max_tries == 100,
                chars_ok(characters@, *map),
                old(characters)@.len() <= band_entry,
                band_entry <= old(characters)@.len() + region * monsters_cap(level),
                characters@.len() <= band_entry + monsters_placed,
                characters@.len() >= old(characters)@.len(),
                forall|k: int|
                    0 <= k < old(characters)@.len()
                        ==> #[trigger] characters@[k] == old(characters)@[k],
            decreases num_monsters - monsters_placed, max_tries - attempts,
        {
            // A random spot inside this band.
            let x = rand_range(rng, map_region_start, map_region_start + 10) as i32;
            let y = rand_range(rng, 1, MAP_HEIGHT as u32 - 1) as i32;

            if x >= MAP_WIDTH as i32 - 1 {
                // The band has run off the map; give up on it.
                attempts = max_tries;
            } else if !Object::is_blocked(x, y, map, characters) {
                let monster = spawn_leveled_monster(x, y, level, theme, rng);
                characters.push(monster);
                monsters_placed = monsters_placed + 1;
            } else {
                attempts = attempts + 1;
            }
        }
        map_region_start = map_region_start + 10;
        region = region + 1;
    }
}

/// Fills the vertical bands of a non-room map with depth-scaled items, a
/// band moving on after too many failed placements; placed items keep
/// existing keys untouched, never block, and are never exits.
pub fn no_room_items(
    items: &mut HashMap<i32, Object>,
    map: &Grid,
    characters: &Vec<Character>,
    item_counter: &mut i32,
    level: u32,
    rng: &mut StdRng,
)
    requires
        map.wf(),
        old(items)@.dom().finite(),
        1 <= *old(item_counter) < 0x3fff_ff00,
    ensures
        final(items)@.dom().finite(),
        final(items)@.len() <= old(items)@.len() + 6 * items_per_band_cap(level),
        forall|k: i32|
            #[trigger] old(items)@.dom().contains(k)
                ==> final(items)@.dom().contains(k) && final(items)@[k] == old(items)@[k],
        forall|k: i32|
            #[trigger] final(items)@.dom().contains(k) && !old(items)@.dom().contains(k) ==> {
                &&& !is_stairs(final(items)@[k])
                &&& !final(items)@[k].blocks
                &&& in_bounds(final(items)@[k].x as int, final(items)@[k].y as int)
                &&& !map.at(final(items)@[k].x as int, final(items)@[k].y as int).blocked
                &&& item_allowed(final(items)@[k], level)
                &&& !blocking_character_at(
                    characters@,
                    final(items)@[k].x as int,
                    final(items)@[k].y as int,
                )
                &&& *old(item_counter) <= k < *final(item_counter)
            },
        *old(item_counter) <= *final(item_counter) <= *old(item_counter) + 6 * items_per_band_cap(
            level,
        ),
        keys_below(old(items)@, *old(item_counter)) ==> keys_below(
            final(items)@,
            *final(item_counter),
        ) && final(items)@.len() == old(items)@.len() + (*final(item_counter) - *old(
            item_counter,
        )),
{
    // How many items this depth allows per band.
    let mut max_table: Vec<Transition> = Vec::new();
    max_table.push(Transition { level: 1, value: 1 });
    max_table.push(Transition { level: 4, value: 2 });
    max_table.push(Transition { level: 10, value: 3 });
    let max_items = from_dungeon_level(&max_table, level);
    proof {
        lemma_table3(max_table@, level);
        assert(max_items == items_per_band_cap(level));
    }
    let num_items = rand_range(rng, 0, max_items + 1);

    let map_regions: u32 = 7;
    let mut map_region_start: u32 = 0;

    let mut region: u32 = 1;
    while region < map_regions
        invariant
            map.wf(),
            num_items <= items_per_band_cap(level),
            map_regions == 7,
            region <= map_regions,
            map_region_start <= region * 100010,
            items@.dom().finite(),
            items@.len() <= old(items)@.len() + (region - 1) * 3,
            level < 4 ==> items@.len() <= old(items)@.len() + (region - 1) * 1,
            level < 10 ==> items@.len() <= old(items)@.len() + (region - 1) * 2,
            level < 1 ==> items@.len() == old(items)@.len() && *item_counter == *old(
                item_counter,
            ),
            1 <= *item_counter,
            *item_counter <= *old(item_counter) + (region - 1) * 3,
            level < 4 ==> *item_counter <= *old(item_counter) + (region - 1) * 1,
            level < 10 ==> *item_counter <= *old(item_counter) + (region - 1) * 2,
            *old(item_counter) <= *item_counter,
            *old(item_counter) < 0x3fff_ff00,
            forall|k: i32|
                #[trigger] old(items)@.dom().contains(k) ==> items@.dom().contains(k) && items@[k]
                    == old(items)@[k],
            forall|k: i32|
                #[trigger] items@.dom().contains(k) && !old(items)@.dom().contains(k) ==> {
                    &&& !is_stairs(items@[k])
                    &&& !items@[k].blocks
                    &&& in_bounds(items@[k].x as int, items@[k].y as int)
                    &&& !map.at(items@[k].x as int, items@[k].y as int).blocked
                    &&& item_allowed(items@[k], level)
                    &&& !blocking_character_at(characters@, items@[k].x as int, items@[k].y as int)
                    &&& *old(item_counter) <= k < *item_counter
                },
            keys_below(old(items)@, *old(item_counter)) ==> keys_below(items@, *item_counter)
                && items@.len() == old(items)@.len() + (*item_counter - *old(item_counter)),
        decreases map_regions - region,
    {
        let mut region_items: u32 = 0;
        let mut attempts: u32 = 0;
        let max_tries: u32 = 25;
        let mut fuel: u32 = 10000;
        let ghost start_entry = map_region_start;

        while region_items < num_items && fuel > 0
            invariant
                map.wf(),
                num_items <= items_per_band_cap(level),
                region_items <= num_items,
                start_entry <= 700070,
                map_region_start <= start_entry + 10 * (10000 - fuel),
                fuel <= 10000,
                attempts <= max_tries,
                max_tries == 25,
                items@.dom().finite(),
                items@.len() <= old(items)@.len() + (region - 1) * 3 + region_items,
                level < 4 ==> items@.len() <= old(items)@.len() + (region - 1) * 1 + region_items,
                level < 10 ==> items@.len() <= old(items)@.len() + (region - 1) * 2
                    + region_items,
                level < 1 ==> items@.len() == old(items)@.len() && *item_counter == *old(
                    item_counter,
                ),
                1 <= *item_counter,
                *item_counter <= *old(item_counter) + (region - 1) * 3 + region_items,
                level < 4 ==> *item_counter <= *old(item_counter) + (region - 1) * 1
                    + region_items,
                level < 10 ==> *item_counter <= *old(item_counter) + (region - 1) * 2
                    + region_items,
                *old(item_counter) <= *item_counter,
                *old(item_counter) < 0x3fff_ff00,
                region < 7,
                forall|k: i32|
                    #[trigger] old(items)@.dom().contains(k) ==> items@.dom().contains(k)
                        && items@[k] == old(items)@[k],
                forall|k: i32|
                    #[trigger] items@.dom().contains(k) && !old(items)@.dom().contains(k) ==> {
                        &&& !is_stairs(items@[k])
                        &&& !items@[k].blocks
                        &&& in_bounds(items@[k].x as int, items@[k].y as int)
                        &&& !map.at(items@[k].x as int, items@[k].y as int).blocked
                        &&& item_allowed(items@[k], level)
                        &&& !blocking_character_at(
                            characters@,
                            items@[k].x as int,
                            items@[k].y as int,
                        )
                        &&& *old(item_counter) <= k < *item_counter
                    },
                keys_below(old(items)@, *old(item_counter)) ==> keys_below(items@, *item_counter)
                    && items@.len() == old(items)@.len() + (*item_counter - *old(item_counter)),
            decreases fuel,
        {
            fuel = fuel - 1;
            // A random spot inside this band.
            let x = rand_range(rng, map_region_start, map_region_start + 10) as i64;
            let y = rand_range(rng, 1, MAP_HEIGHT as u32 - 1) as i32;

            if x >= MAP_WIDTH as i64 {
                // The bands have run off the map; stop placing items.
                fuel = 0;
            } else {
                let x = x as i32;
                if !Object::is_blocked(x, y, map, characters) {
                    let item = random_item(x, y, level, rng);
                    if !items.contains_key(item_counter) {
                        items.insert(*item_counter, item);
                    }
                    *item_counter = *item_counter + 1;
                    region_items = region_items + 1;
                } else {
                    attempts = attempts + 1;
                }
                if attempts >= max_tries {
                    // This band is nearly full; slide one band to the right.
                    map_region_start = map_region_start + 10;
                    attempts = 0;
                }
            }
        }
        map_region_start = map_region_start + 10;
        region = region + 1;
    }
}

/// Populates a room-based level: monsters and items per room, then exactly
/// one exit at the center of the last room, falling back to the first open
/// tile if pruning closed that center.
pub fn rooms_spawner(
    rooms: &Vec<Rect>,
    items: &mut HashMap<i32, Object>,
    map: &Grid,
    characters: &mut Vec<Character>,
    level: u32,
    theme: MapTheme,
    rng: &mut StdRng,
)
    requires
        map.wf(),
        // The packer produces at most 18 rooms; 100 is comfortable headroom
        // that keeps the item-counter arithmetic trivially in range.
        1 <= rooms@.len() <= 100,
        forall|k: int| 0 <= k < rooms@.len() ==> packed_room(#[trigger] rooms@[k]),
        1 <= level <= 100000000,
        has_interior_open(*map),
    ensures
        chars_ok(final(characters)@, *map),
        items_ok(final(items)@, *map),
        exactly_one_stairs(final(items)@),
        stairs_on_open(final(items)@, *map),
        stairs_interior(final(items)@),
        final(characters)@.len() <= rooms@.len() * 5,
        final(items)@.len() <= rooms@.len() * 2 + 1,
        forall|k: int|
            0 <= k < final(characters)@.len() ==> exists|rr: int|
                0 <= rr < rooms@.len() && (#[trigger] rooms@[rr]).x1
                    < (#[trigger] final(characters)@[k]).object.x < rooms@[rr].x2
                    && rooms@[rr].y1 < final(characters)@[k].object.y < rooms@[rr].y2,
        forall|k: i32|
            #[trigger] final(items)@.dom().contains(k) <==> 1 <= k && k as int
                <= final(items)@.len() as int,
        map.at(
            rooms@[rooms@.len() - 1].spec_center().0,
            rooms@[rooms@.len() - 1].spec_center().1,
        ).empty ==> stairs_at(
            final(items)@,
            rooms@[rooms@.len() - 1].spec_center().0,
            rooms@[rooms@.len() - 1].spec_center().1,
        ),
{
    // Any existing entities belong to the previous level.
    characters.clear();
    items.clear();

    let mut item_counter: i32 = 1;

    let mut r: usize = 0;
    while r < rooms.len()
        invariant
            map.wf(),
            1 <= rooms@.len() <= 100,
            forall|k: int| 0 <= k < rooms@.len() ==> packed_room(#[trigger] rooms@[k]),
            1 <= level <= 100000000,
            r <= rooms@.len(),
            chars_ok(characters@, *map),
            characters@.len() <= r * 5,
            forall|k: int|
                0 <= k < characters@.len() ==> exists|rr: int|
                    0 <= rr < rooms@.len() && (#[trigger] rooms@[rr]).x1
                        < (#[trigger] characters@[k]).object.x < rooms@[rr].x2 && rooms@[rr].y1
                        < characters@[k].object.y < rooms@[rr].y2,
            items@.dom().finite(),
            items@.len() <= r * 2,
            1 <= item_counter <= 1 + r * 2,
            keys_below(items@, item_counter),
            items@.len() == item_counter - 1,
            forall|k: i32|
                #[trigger] items@.dom().contains(k) ==> {
                    &&& !is_stairs(items@[k])
                    &&& !items@[k].blocks
                    &&& in_bounds(items@[k].x as int, items@[k].y as int)
                    &&& !map.at(items@[k].x as int, items@[k].y as int).blocked
                },
        decreases rooms@.len() - r,
    {
        let room = rooms[r];
        let ghost chars_entry = characters@.len();
        room_characters(room, map, characters, level, theme, rng);
        proof {
            assert forall|k: int| 0 <= k < characters@.len() implies exists|rr: int|
                0 <= rr < rooms@.len() && (#[trigger] rooms@[rr]).x1 < (#[trigger] characters@[k]).object.x
                    < rooms@[rr].x2 && rooms@[rr].y1 < characters@[k].object.y
                    < rooms@[rr].y2 by {
                if k >= chars_entry {
                    assert(0 <= r < rooms@.len() && rooms@[r as int].x1 < characters@[k].object.x
                        < rooms@[r as int].x2 && rooms@[r as int].y1 < characters@[k].object.y
                        < rooms@[r as int].y2);
                }
            }
        }
        room_items(room, items, map, characters, &mut item_counter, level, rng);
        r = r + 1;
    }

    // The exit goes at the center of the last room; if the pruning pass
    // closed that tile, the first open tile serves instead.
    let last_room = rooms[rooms.len() - 1];
    let (cx, cy) = last_room.center();
    proof {
        lemma_packed_room_center_interior(rooms@[rooms@.len() - 1]);
        Grid::lemma_tiles_wf(*map);
    }
    let ghost pre_stairs = items@;
    if map.get(cx as usize, cy as usize).empty {
        create_stairs(items, cx, cy);
    } else {
        match scan_interior_open(map) {
            Some((sx, sy)) => {
                create_stairs(items, sx, sy);
            },
            None => {
                // Unreachable: some interior tile is known to be open.
                proof {
                    assert(false);
                }
            },
        }
    }
    proof {
        let k0 = choose|k: i32|
            {
                &&& !pre_stairs.dom().contains(k)
                &&& 1 <= k <= pre_stairs.len() + 1
                &&& (forall|j: i32| 1 <= j < k ==> pre_stairs.dom().contains(j))
                &&& items@ =~= pre_stairs.insert(k, #[trigger] items@[k])
                &&& is_stairs(items@[k])
                &&& !items@[k].blocks
            };
        assert(items@.len() == pre_stairs.len() + 1);
        assert forall|k: i32| #[trigger] items@.dom().contains(k) implies 1 <= k && k as int
            <= items@.len() as int by {
            if k != k0 {
                assert(pre_stairs.dom().contains(k));
            }
        }
        lemma_keys_dense(items@);
        assert forall|k: i32|
            #[trigger] items@.dom().contains(k) && is_stairs(items@[k]) implies k == k0 by {
            if k != k0 {
                assert(pre_stairs.dom().contains(k) && items@[k] == pre_stairs[k]);
            }
        }
    }
}

/// Populates an open (non-room) level: band-based monsters and items, then
/// exactly one exit on a random open tile.
pub fn no_rooms_spawner(
    items: &mut HashMap<i32, Object>,
    map: &Grid,
    characters: &mut Vec<Character>,
    level: u32,
    theme: MapTheme,
    rng: &mut StdRng,
)
    requires
        map.wf(),
        1 <= level <= 100000000,
        has_interior_open(*map),
    ensures
        chars_ok(final(characters)@, *map),
        items_ok(final(items)@, *map),
        exactly_one_stairs(final(items)@),
        stairs_on_open(final(items)@, *map),
        stairs_interior(final(items)@),
        final(characters)@.len() <= 7 * monsters_cap(level),
        final(items)@.len() <= 6 * items_per_band_cap(level) + 1,
        forall|k: i32|
            #[trigger] final(items)@.dom().contains(k) <==> 1 <= k && k as int
                <= final(items)@.len() as int,
{
    // Any existing entities belong to the previous level.
    characters.clear();
    items.clear();

    let mut item_counter: i32 = 1;

    no_room_characters(map, characters, level, theme, rng);
    no_room_items(items, map, characters, &mut item_counter, level, rng);
    proof {
        Grid::lemma_tiles_wf(*map);
    }

    // The exit goes on a random open tile: bounded random probing, falling
    // back to the first open tile in reading order.
    let mut stairs_x: i32 = 0;
    let mut stairs_y: i32 = 0;
    let mut found_spot = false;
    let mut attempts: u32 = 0;
    while !found_spot && attempts < 10000
        invariant
            map.wf(),
            has_interior_open(*map),
            found_spot ==> 1 <= stairs_x < MAP_WIDTH as int - 1 && 1 <= stairs_y < MAP_HEIGHT
                as int - 1 && map.at(stairs_x as int, stairs_y as int).empty,
        decreases (if found_spot {
            0int
        } else {
            1int
        }), 10000 - attempts,
    {
        let x = rand_range(rng, 1, MAP_WIDTH as u32 - 1) as i32;
        let y = rand_range(rng, 1, MAP_HEIGHT as u32 - 1) as i32;
        if map.get(x as usize, y as usize).empty {
            stairs_x = x;
            stairs_y = y;
            found_spot = true;
        } else {
            attempts = attempts + 1;
        }
    }
    if !found_spot {
        match scan_interior_open(map) {
            Some((sx, sy)) => {
                stairs_x = sx;
                stairs_y = sy;
            },
            None => {
                // Unreachable: some interior tile is known to be open.
                proof {
                    assert(false);
                }
            },
        }
    }

    let ghost pre_stairs = items@;
    create_stairs(items, stairs_x, stairs_y);
    proof {
        Grid::lemma_tiles_wf(*map);
        let k0 = choose|k: i32|
            {
                &&& !pre_stairs.dom().contains(k)
                &&& 1 <= k <= pre_stairs.len() + 1
                &&& (forall|j: i32| 1 <= j < k ==> pre_stairs.dom().contains(j))
                &&& items@ =~= pre_stairs.insert(k, #[trigger] items@[k])
                &&& is_stairs(items@[k])
                &&& !items@[k].blocks
            };
        assert(items@.len() == pre_stairs.len() + 1);
        assert forall|k: i32| #[trigger] items@.dom().contains(k) implies 1 <= k && k as int
            <= items@.len() as int by {
            if k != k0 {
                assert(pre_stairs.dom().contains(k));
            }
        }
        lemma_keys_dense(items@);
        assert forall|k: i32|
            #[trigger] items@.dom().contains(k) && is_stairs(items@[k]) implies k == k0 by {
            if k != k0 {
                assert(pre_stairs.dom().contains(k) && items@[k] == pre_stairs[k]);
            }
        }
    }
}

/// Populates a maze level. The maze has no rooms, so band-based spawning
/// applies to it just as to the other open layouts.
pub fn maze_spawner(
    items: &mut HashMap<i32, Object>,
    map: &Grid,
    characters: &mut Vec<Character>,
    level: u32,
    theme: MapTheme,
    rng: &mut StdRng,
)
    requires
        map.wf(),
        1 <= level <= 100000000,
        has_interior_open(*map),
    ensures
        chars_ok(final(characters)@, *map),
        items_ok(final(items)@, *map),
        exactly_one_stairs(final(items)@),
        stairs_on_open(final(items)@, *map),
        stairs_interior(final(items)@),
        final(characters)@.len() <= 7 * monsters_cap(level),
        final(items)@.len() <= 6 * items_per_band_cap(level) + 1,
        forall|k: i32|
            #[trigger] final(items)@.dom().contains(k) <==> 1 <= k && k as int
                <= final(items)@.len() as int,
{
    no_rooms_spawner(items, map, characters, level, theme, rng);
}

} // verus!
