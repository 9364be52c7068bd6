//! Monster generation: a base monster drawn from a depth-scaled table of
//! power brackets, combined with an elemental trait drawn from the level's
//! theme table, then leveled up once per dungeon depth.

use vstd::prelude::*;

use crate::game::MapTheme;
use crate::objects::{Character, DeathCallback, Fighter, Object};
use crate::tables::{from_dungeon_level, sample_weighted, Transition};
use crate::tiles::Color;
use crate::traits::{get_trait, tiered};
use vstd::string::StringExecFns;
use rand::rngs::StdRng;

verus! {

/// The weight of the weak power bracket at a given depth.
pub open spec fn weak_monster_chance(level: u32) -> u32 {
    if level >= 7 {
        45
    } else if level >= 5 {
        60
    } else if level >= 1 {
        80
    } else {
        0
    }
}

/// The weight of the medium power bracket at a given depth.
pub open spec fn medium_monster_chance(level: u32) -> u32 {
    if level >= 7 {
        60
    } else if level >= 5 {
        30
    } else if level >= 3 {
        15
    } else {
        0
    }
}

/// The weight of the powerful bracket at a given depth.
pub open spec fn powerful_monster_chance(level: u32) -> u32 {
    if level >= 12 {
        80
    } else if level >= 9 {
        30
    } else if level >= 6 {
        15
    } else {
        0
    }
}

/// Builds the three power-bracket weights for the current depth: weak,
/// medium, powerful, in that order.
pub fn monster_strength_weighting(level: u32) -> (w: Vec<u32>)
    ensures
        w@.len() == 3,
        w@[0] == weak_monster_chance(level),
        w@[1] == medium_monster_chance(level),
        w@[2] == powerful_monster_chance(level),
{
    let mut weak_table: Vec<Transition> = Vec::new();
    weak_table.push(Transition { level: 1, value: 80 });
    weak_table.push(Transition { level: 5, value: 60 });
    weak_table.push(Transition { level: 7, value: 45 });
    let weak = from_dungeon_level(&weak_table, level);
    proof {
        crate::tables::lemma_table3(weak_table@, level);
    }

    let mut medium_table: Vec<Transition> = Vec::new();
    medium_table.push(Transition { level: 3, value: 15 });
    medium_table.push(Transition { level: 5, value: 30 });
    medium_table.push(Transition { level: 7, value: 60 });
    let medium = from_dungeon_level(&medium_table, level);
    proof {
        crate::tables::lemma_table3(medium_table@, level);
    }

    let mut powerful_table: Vec<Transition> = Vec::new();
    powerful_table.push(Transition { level: 6, value: 15 });
    powerful_table.push(Transition { level: 9, value: 30 });
    powerful_table.push(Transition { level: 12, value: 80 });
    let powerful = from_dungeon_level(&powerful_table, level);
    proof {
        crate::tables::lemma_table3(powerful_table@, level);
    }

    let mut w: Vec<u32> = Vec::new();
    w.push(weak);
    w.push(medium);
    w.push(powerful);
    w
}

/// The exact character the elemental constructor builds for a tier.
pub open spec fn is_elemental(c: Character, x: i32, y: i32, tier: i32) -> bool {
    &&& c.object.x == x && c.object.y == y
    &&& c.object.char == 'f'
    &&& c.object.name@ == "Elemental"@
    &&& c.object.color == (Color { r: 255, g: 207, b: 63 })
    &&& c.object.corpse_type@ == " "@
    &&& c.object.blocks
    &&& !c.object.alive
    &&& c.object.ai is Some
    &&& c.object.item is None
    &&& c.object.fighter == Some(
        Fighter {
            exp: tiered(35, 125, 300, tier) as i32,
            max_hp: tiered(20, 25, 35, tier) as i32,
            hp: tiered(20, 25, 35, tier) as i32,
            defense: tiered(0, 0, 4, tier) as i32,
            power: tiered(3, 10, 16, tier) as i32,
            on_death: DeathCallback::Monster,
        },
    )
}

/// The exact character the lizard constructor builds for a tier.
pub open spec fn is_lizard(c: Character, x: i32, y: i32, tier: i32) -> bool {
    &&& c.object.x == x && c.object.y == y
    &&& c.object.char == 'C'
    &&& c.object.name@ == "Lizard"@
    &&& c.object.color == (Color { r: 63, g: 207, b: 255 })
    &&& c.object.corpse_type@ == " "@
    &&& c.object.blocks
    &&& !c.object.alive
    &&& c.object.ai is Some
    &&& c.object.item is None
    &&& c.object.fighter == Some(
        Fighter {
            exp: tiered(60, 100, 250, tier) as i32,
            max_hp: tiered(25, 30, 45, tier) as i32,
            hp: tiered(25, 30, 45, tier) as i32,
            defense: tiered(2, 2, 8, tier) as i32,
            power: tiered(2, 8, 12, tier) as i32,
            on_death: DeathCallback::Monster,
        },
    )
}

/// The exact character the blob constructor builds for a tier.
pub open spec fn is_blob(c: Character, x: i32, y: i32, tier: i32) -> bool {
    &&& c.object.x == x && c.object.y == y
    &&& c.object.char == 'B'
    &&& c.object.name@ == "blob"@
    &&& c.object.color == (Color { r: 191, g: 255, b: 191 })
    &&& c.object.corpse_type@ == " "@
    &&& c.object.blocks
    &&& !c.object.alive
    &&& c.object.ai is Some
    &&& c.object.item is None
    &&& c.object.fighter == Some(
        Fighter {
            exp: tiered(150, 300, 555, tier) as i32,
            max_hp: tiered(30, 45, 65, tier) as i32,
            hp: tiered(30, 45, 65, tier) as i32,
            defense: tiered(5, 10, 15, tier) as i32,
            power: tiered(5, 10, 15, tier) as i32,
            on_death: DeathCallback::Monster,
        },
    )
}

/// A freshly generated monster: a blocking creature with a basic mind and a
/// combat payload whose stats stay in a small band.
pub open spec fn fresh_monster(c: Character, x: i32, y: i32) -> bool {
    &&& c.object.x == x && c.object.y == y
    &&& c.object.blocks
    &&& c.object.ai is Some
    &&& c.object.item is None
    &&& match c.object.fighter {
        Some(f) => {
            &&& 0 <= f.exp <= 1000
            &&& 0 <= f.max_hp <= 1000
            &&& 0 <= f.hp <= 1000
            &&& 0 <= f.defense <= 1000
            &&& 0 <= f.power <= 1000
            &&& f.on_death == DeathCallback::Monster
        },
        None => false,
    }
}

/// The elemental, the weak base monster.
pub fn elemental(x: i32, y: i32, tier: i32) -> (c: Character)
    ensures
        fresh_monster(c, x, y),
        is_elemental(c, x, y, tier),
{
    let mut elemental = Object::new_enemy(
        x,
        y,
        'f',
        Color { r: 255, g: 207, b: 63 },
        "Elemental",
        true,
        " ",
    );
    let fighter = if tier == 1 {
        Fighter { exp: 35, max_hp: 20, hp: 20, defense: 0, power: 3, on_death: DeathCallback::Monster }
    } else if tier == 2 {
        Fighter {
            exp: 125,
            max_hp: 25,
            hp: 25,
            defense: 0,
            power: 10,
            on_death: DeathCallback::Monster,
        }
    } else {
        Fighter {
            exp: 300,
            max_hp: 35,
            hp: 35,
            defense: 4,
            power: 16,
            on_death: DeathCallback::Monster,
        }
    };
    elemental.object.fighter = Some(fighter);
    elemental
}

/// The lizard, the medium base monster.
pub fn lizard(x: i32, y: i32, tier: i32) -> (c: Character)
    ensures
        fresh_monster(c, x, y),
        is_lizard(c, x, y, tier),
{
    let mut lizard = Object::new_enemy(
        x,
        y,
        'C',
        Color { r: 63, g: 207, b: 255 },
        "Lizard",
        true,
        " ",
    );
    let fighter = if tier == 1 {
        Fighter { exp: 60, max_hp: 25, hp: 25, defense: 2, power: 2, on_death: DeathCallback::Monster }
    } else if tier == 2 {
        Fighter {
            exp: 100,
            max_hp: 30,
            hp: 30,
            defense: 2,
            power: 8,
            on_death: DeathCallback::Monster,
        }
    } else {
        Fighter {
            exp: 250,
            max_hp: 45,
            hp: 45,
            defense: 8,
            power: 12,
            on_death: DeathCallback::Monster,
        }
    };
    lizard.object.fighter = Some(fighter);
    lizard
}

/// The blob, the powerful base monster.
pub fn blob(x: i32, y: i32, tier: i32) -> (c: Character)
    ensures
        fresh_monster(c, x, y),
        is_blob(c, x, y, tier),
{
    let mut blob = Object::new_enemy(
        x,
        y,
        'B',
        Color { r: 191, g: 255, b: 191 },
        "blob",
        true,
        " ",
    );
    let fighter = if tier == 1 {
        Fighter {
            exp: 150,
            max_hp: 30,
            hp: 30,
            defense: 5,
            power: 5,
            on_death: DeathCallback::Monster,
        }
    } else if tier == 2 {
        Fighter {
            exp: 300,
            max_hp: 45,
            hp: 45,
            defense: 10,
            power: 10,
            on_death: DeathCallback::Monster,
        }
    } else {
        Fighter {
            exp: 555,
            max_hp: 65,
            hp: 65,
            defense: 15,
            power: 15,
            on_death: DeathCallback::Monster,
        }
    };
    blob.object.fighter = Some(fighter);
    blob
}

/// Selects, generates, and returns a random base monster for the depth.
pub fn get_monster(x: i32, y: i32, level: u32, tier: i32, rng: &mut StdRng) -> (c: Character)
    requires
        level >= 1,
    ensures
        fresh_monster(c, x, y),
        is_elemental(c, x, y, tier) || is_lizard(c, x, y, tier) || is_blob(c, x, y, tier),
{
    let monster_chances = monster_strength_weighting(level);
    proof {
        crate::tables::lemma_total3(monster_chances@);
    }
    let choice = sample_weighted(&monster_chances, rng);
    if choice == 0 {
        elemental(x, y, tier)
    } else if choice == 1 {
        lizard(x, y, tier)
    } else {
        blob(x, y, tier)
    }
}

/// Randomly assigns one attribute bonus as a monster levels up.
pub fn monster_level_up(fighter: &mut Fighter, rng: &mut StdRng)
    requires
        old(fighter).max_hp + 5 <= i32::MAX,
        old(fighter).hp + 5 <= i32::MAX,
        old(fighter).defense + 1 <= i32::MAX,
        old(fighter).power + 1 <= i32::MAX,
    ensures
        old(fighter).max_hp <= final(fighter).max_hp <= old(fighter).max_hp + 5,
        old(fighter).hp <= final(fighter).hp <= old(fighter).hp + 5,
        old(fighter).defense <= final(fighter).defense <= old(fighter).defense + 1,
        old(fighter).power <= final(fighter).power <= old(fighter).power + 1,
        final(fighter).exp == old(fighter).exp,
        final(fighter).on_death == old(fighter).on_death,
{
    let roll = crate::rng::rand_range(rng, 0, 3);
    if roll == 0 {
        fighter.max_hp = fighter.max_hp + 5;
        fighter.hp = fighter.hp + 5;
    } else if roll == 1 {
        fighter.defense = fighter.defense + 1;
    } else {
        fighter.power = fighter.power + 1;
    }
}

/// Creates a new monster for the depth: a random base monster, adjusted by a
/// random theme-biased trait.
pub fn generate_monster(x: i32, y: i32, tier: i32, level: u32, theme: MapTheme, rng: &mut StdRng) -> (c:
    Character)
    requires
        level >= 1,
    ensures
        c.object.x == x && c.object.y == y,
        c.object.blocks,
        c.object.ai is Some,
        c.object.item is None,
        match c.object.fighter {
            Some(f) => {
                &&& 0 <= f.exp <= 2000
                &&& 0 <= f.max_hp <= 2000
                &&& 0 <= f.hp <= 2000
                &&& 0 <= f.defense <= 2000
                &&& 0 <= f.power <= 2000
                &&& (f.exp == tiered(35, 125, 300, tier) + tiered(15, 50, 150, tier) || f.exp
                    == tiered(60, 100, 250, tier) + tiered(15, 50, 150, tier) || f.exp == tiered(
                    150,
                    300,
                    555,
                    tier,
                ) + tiered(15, 50, 150, tier))
            },
            None => false,
        },
        exists|p: Seq<char>|
            c.object.name@ == p + "Elemental"@ || c.object.name@ == p + "Lizard"@
                || c.object.name@ == p + "blob"@,
        c.object.corpse_type@ == " "@ + "embers"@ || c.object.corpse_type@ == " "@ + "mulch"@
            || c.object.corpse_type@ == " "@ + "puddle"@ || c.object.corpse_type@ == " "@
            + "dust"@ || c.object.corpse_type@ == " "@ + "bones"@ || c.object.corpse_type@ == " "@
            + "shards"@ || c.object.corpse_type@ == " "@ + "rubble"@,
{
    // A random trait and a random base monster.
    let enemy_trait = get_trait(theme, tier, rng);
    let mut monster = get_monster(x, y, level, tier, rng);
    let ghost trait_name = enemy_trait.name@;

    // The trait flavors the monster's identity.
    monster.object.name = enemy_trait.name.concat(monster.object.name.as_str());
    monster.object.corpse_type.append(enemy_trait.corpse_type.as_str());
    monster.object.color = enemy_trait.color;

    // And adjusts its combat capabilities.
    match &mut monster.object.fighter {
        Some(f) => {
            f.exp = f.exp + enemy_trait.exp;
            f.max_hp = f.max_hp + enemy_trait.hp;
            f.hp = f.hp + enemy_trait.hp;
            f.defense = f.defense + enemy_trait.defense;
            f.power = f.power + enemy_trait.power;
        },
        None => {},
    }
    proof {
        assert(monster.object.name@ == trait_name + "Elemental"@ || monster.object.name@
            == trait_name + "Lizard"@ || monster.object.name@ == trait_name + "blob"@);
    }

    monster
}

} // verus!
