//! Elemental traits: a flavor bonus applied to a freshly generated monster.
//! Each trait comes in three power tiers, met deeper and deeper in the
//! dungeon, and is drawn by a weighted table biased strongly toward the
//! level's own theme and mildly toward a thematic neighbor.

use vstd::prelude::*;

use crate::game::MapTheme;
use crate::tables::{sample_weighted, total_weight};
use crate::tiles::Color;
use vstd::string::StringExecFns;
use rand::rngs::StdRng;

verus! {

/// A flavor bonus: a name prefix, stat adjustments, a display color, and
/// what the monster's corpse turns into.
#[derive(Debug)]
pub struct Trait {
    pub name: String,
    pub exp: i32,
    pub hp: i32,
    pub defense: i32,
    pub power: i32,
    pub color: Color,
    pub corpse_type: String,
}

impl Trait {
    /// Every stat bonus a trait hands out stays in this band.
    pub open spec fn bounded(self) -> bool {
        &&& 0 <= self.exp <= 150
        &&& 0 <= self.hp <= 7
        &&& 0 <= self.defense <= 7
        &&& 0 <= self.power <= 10
    }
}

/// The stat a tier selects from a weak/medium/strong triple.
pub open spec fn tiered(weak: int, medium: int, strong: int, tier: i32) -> int {
    if tier == 1 {
        weak
    } else if tier == 2 {
        medium
    } else {
        strong
    }
}

/// The exact trait the fire constructor builds for a tier.
pub open spec fn is_fire_trait(t: Trait, tier: i32) -> bool {
    &&& t.name@ == (if tier == 1 { "Warm "@ } else if tier == 2 { "Flaming "@ } else { "Blazing "@ })
    &&& t.exp == tiered(15, 50, 150, tier)
    &&& t.hp == tiered(0, 2, 5, tier)
    &&& t.defense == tiered(0, 2, 3, tier)
    &&& t.power == tiered(2, 3, 7, tier)
    &&& t.color == (Color { r: 255, g: 191, b: 0 })
    &&& t.corpse_type@ == "embers"@
}

/// The exact trait the nature constructor builds for a tier.
pub open spec fn is_nature_trait(t: Trait, tier: i32) -> bool {
    &&& t.name@ == (if tier == 1 { "Mossy "@ } else if tier == 2 { "Verdant "@ } else { "Primal "@ })
    &&& t.exp == tiered(15, 50, 150, tier)
    &&& t.hp == tiered(1, 2, 6, tier)
    &&& t.defense == tiered(1, 2, 4, tier)
    &&& t.power == tiered(1, 3, 5, tier)
    &&& t.color == (Color { r: 63, g: 255, b: 63 })
    &&& t.corpse_type@ == "mulch"@
}

/// The exact trait the water constructor builds for a tier.
pub open spec fn is_water_trait(t: Trait, tier: i32) -> bool {
    &&& t.name@ == (if tier == 1 { "Wet "@ } else if tier == 2 { "Acquatic "@ } else { "Deep "@ })
    &&& t.exp == tiered(15, 50, 150, tier)
    &&& t.hp == tiered(1, 3, 5, tier)
    &&& t.defense == tiered(1, 2, 5, tier)
    &&& t.power == tiered(1, 2, 5, tier)
    &&& t.color == (Color { r: 128, g: 191, b: 255 })
    &&& t.corpse_type@ == "puddle"@
}

/// The exact trait the light constructor builds for a tier.
pub open spec fn is_light_trait(t: Trait, tier: i32) -> bool {
    &&& t.name@ == (if tier == 1 { "Holy "@ } else if tier == 2 { "Angelic "@ } else { "Light "@ })
    &&& t.exp == tiered(15, 50, 150, tier)
    &&& t.hp == tiered(0, 0, 0, tier)
    &&& t.defense == tiered(0, 3, 5, tier)
    &&& t.power == tiered(2, 4, 10, tier)
    &&& t.color == (Color { r: 255, g: 255, b: 63 })
    &&& t.corpse_type@ == "dust"@
}

/// The exact trait the death constructor builds for a tier.
pub open spec fn is_death_trait(t: Trait, tier: i32) -> bool {
    &&& t.name@ == (if tier == 1 { "Necro "@ } else if tier == 2 { "Zombie "@ } else { "Death "@ })
    &&& t.exp == tiered(15, 50, 150, tier)
    &&& t.hp == tiered(1, 3, 7, tier)
    &&& t.defense == tiered(2, 4, 2, tier)
    &&& t.power == tiered(0, 0, 8, tier)
    &&& t.color == (Color { r: 127, g: 0, b: 63 })
    &&& t.corpse_type@ == "bones"@
}

/// The exact trait the crystal constructor builds for a tier.
pub open spec fn is_crystal_trait(t: Trait, tier: i32) -> bool {
    &&& t.name@ == (if tier == 1 { "Crystal "@ } else if tier == 2 { "Quartz "@ } else { "Diamond "@ })
    &&& t.exp == tiered(15, 50, 150, tier)
    &&& t.hp == tiered(1, 3, 7, tier)
    &&& t.defense == tiered(2, 4, 6, tier)
    &&& t.power == tiered(0, 1, 4, tier)
    &&& t.color == (Color { r: 127, g: 255, b: 223 })
    &&& t.corpse_type@ == "shards"@
}

/// The exact trait the earth constructor builds for a tier.
pub open spec fn is_earth_trait(t: Trait, tier: i32) -> bool {
    &&& t.name@ == (if tier == 1 { "Dirt "@ } else if tier == 2 { "Cave "@ } else { "Mountain "@ })
    &&& t.exp == tiered(15, 50, 150, tier)
    &&& t.hp == tiered(0, 2, 5, tier)
    &&& t.defense == tiered(2, 3, 7, tier)
    &&& t.power == tiered(0, 2, 3, tier)
    &&& t.color == (Color { r: 98, g: 74, b: 10 })
    &&& t.corpse_type@ == "rubble"@
}

/// The fire trait: hits harder, burns to embers.
pub fn fire_trait(tier: i32) -> (t: Trait)
    ensures
        t.bounded(),
        is_fire_trait(t, tier),
{
    let color = Color { r: 255, g: 191, b: 0 };
    if tier == 1 {
        Trait {
            name: String::from_str("Warm "),
            exp: 15,
            hp: 0,
            defense: 0,
            power: 2,
            color,
            corpse_type: String::from_str("embers"),
        }
    } else if tier == 2 {
        Trait {
            name: String::from_str("Flaming "),
            exp: 50,
            hp: 2,
            defense: 2,
            power: 3,
            color,
            corpse_type: String::from_str("embers"),
        }
    } else {
        Trait {
            name: String::from_str("Blazing "),
            exp: 150,
            hp: 5,
            defense: 3,
            power: 7,
            color,
            corpse_type: String::from_str("embers"),
        }
    }
}

/// The nature trait: balanced bonuses, rots to mulch.
pub fn nature_trait(tier: i32) -> (t: Trait)
    ensures
        t.bounded(),
        is_nature_trait(t, tier),
{
    let color = Color { r: 63, g: 255, b: 63 };
    if tier == 1 {
        Trait {
            name: String::from_str("Mossy "),
            exp: 15,
            hp: 1,
            defense: 1,
            power: 1,
            color,
            corpse_type: String::from_str("mulch"),
        }
    } else if tier == 2 {
        Trait {
            name: String::from_str("Verdant "),
            exp: 50,
            hp: 2,
            defense: 2,
            power: 3,
            color,
            corpse_type: String::from_str("mulch"),
        }
    } else {
        Trait {
            name: String::from_str("Primal "),
            exp: 150,
            hp: 6,
            defense: 4,
            power: 5,
            color,
            corpse_type: String::from_str("mulch"),
        }
    }
}

/// The water trait: tougher, collapses into a puddle.
pub fn water_trait(tier: i32) -> (t: Trait)
    ensures
        t.bounded(),
        is_water_trait(t, tier),
{
    let color = Color { r: 128, g: 191, b: 255 };
    if tier == 1 {
        Trait {
            name: String::from_str("Wet "),
            exp: 15,
            hp: 1,
            defense: 1,
            power: 1,
            color,
            corpse_type: String::from_str("puddle"),
        }
    } else if tier == 2 {
        Trait {
            name: String::from_str("Acquatic "),
            exp: 50,
            hp: 3,
            defense: 2,
            power: 2,
            color,
            corpse_type: String::from_str("puddle"),
        }
    } else {
        Trait {
            name: String::from_str("Deep "),
            exp: 150,
            hp: 5,
            defense: 5,
            power: 5,
            color,
            corpse_type: String::from_str("puddle"),
        }
    }
}

/// The light trait: fragile but fierce, crumbles to dust.
pub fn light_trait(tier: i32) -> (t: Trait)
    ensures
        t.bounded(),
        is_light_trait(t, tier),
{
    let color = Color { r: 255, g: 255, b: 63 };
    if tier == 1 {
        Trait {
            name: String::from_str("Holy "),
            exp: 15,
            hp: 0,
            defense: 0,
            power: 2,
            color,
            corpse_type: String::from_str("dust"),
        }
    } else if tier == 2 {
        Trait {
            name: String::from_str("Angelic "),
            exp: 50,
            hp: 0,
            defense: 3,
            power: 4,
            color,
            corpse_type: String::from_str("dust"),
        }
    } else {
        Trait {
            name: String::from_str("Light "),
            exp: 150,
            hp: 0,
            defense: 5,
            power: 10,
            color,
            corpse_type: String::from_str("dust"),
        }
    }
}

/// The death trait: durable, leaves bones behind.
pub fn death_trait(tier: i32) -> (t: Trait)
    ensures
        t.bounded(),
        is_death_trait(t, tier),
{
    let color = Color { r: 127, g: 0, b: 63 };
    if tier == 1 {
        Trait {
            name: String::from_str("Necro "),
            exp: 15,
            hp: 1,
            defense: 2,
            power: 0,
            color,
            corpse_type: String::from_str("bones"),
        }
    } else if tier == 2 {
        Trait {
            name: String::from_str("Zombie "),
            exp: 50,
            hp: 3,
            defense: 4,
            power: 0,
            color,
            corpse_type: String::from_str("bones"),
        }
    } else {
        Trait {
            name: String::from_str("Death "),
            exp: 150,
            hp: 7,
            defense: 2,
            power: 8,
            color,
            corpse_type: String::from_str("bones"),
        }
    }
}

/// The crystal trait: armored, shatters into shards.
pub fn crystal_trait(tier: i32) -> (t: Trait)
    ensures
        t.bounded(),
        is_crystal_trait(t, tier),
{
    let color = Color { r: 127, g: 255, b: 223 };
    if tier == 1 {
        Trait {
            name: String::from_str("Crystal "),
            exp: 15,
            hp: 1,
            defense: 2,
            power: 0,
            color,
            corpse_type: String::from_str("shards"),
        }
    } else if tier == 2 {
        Trait {
            name: String::from_str("Quartz "),
            exp: 50,
            hp: 3,
            defense: 4,
            power: 1,
            color,
            corpse_type: String::from_str("shards"),
        }
    } else {
        Trait {
            name: String::from_str("Diamond "),
            exp: 150,
            hp: 7,
            defense: 6,
            power: 4,
            color,
            corpse_type: String::from_str("shards"),
        }
    }
}

/// The earth trait: heavily armored, crumbles to rubble.
pub fn earth_trait(tier: i32) -> (t: Trait)
    ensures
        t.bounded(),
        is_earth_trait(t, tier),
{
    let color = Color { r: 98, g: 74, b: 10 };
    if tier == 1 {
        Trait {
            name: String::from_str("Dirt "),
            exp: 15,
            hp: 0,
            defense: 2,
            power: 0,
            color,
            corpse_type: String::from_str("rubble"),
        }
    } else if tier == 2 {
        Trait {
            name: String::from_str("Cave "),
            exp: 50,
            hp: 2,
            defense: 3,
            power: 2,
            color,
            corpse_type: String::from_str("rubble"),
        }
    } else {
        Trait {
            name: String::from_str("Mountain "),
            exp: 150,
            hp: 5,
            defense: 7,
            power: 3,
            color,
            corpse_type: String::from_str("rubble"),
        }
    }
}

/// The weight a theme's table gives to each trait: the theme's own trait
/// dominates, one thematic neighbor gets a mild boost, and every trait stays
/// possible with weight one.
fn theme_weight(item: MapTheme, own: MapTheme, neighbor: MapTheme, theme: MapTheme) -> (w: u32)
    ensures
        1 <= w <= 140,
        theme == own ==> w == 140,
{
    if theme == own {
        140
    } else if theme == neighbor {
        10
    } else {
        1
    }
}

/// Randomly selects and returns a trait, biased toward the level's theme.
pub fn get_trait(theme: MapTheme, tier: i32, rng: &mut StdRng) -> (t: Trait)
    ensures
        t.bounded(),
        t.exp == tiered(15, 50, 150, tier),
        is_fire_trait(t, tier) || is_nature_trait(t, tier) || is_water_trait(t, tier)
            || is_light_trait(t, tier) || is_death_trait(t, tier) || is_crystal_trait(t, tier)
            || is_earth_trait(t, tier),
{
    let mut trait_chances: Vec<u32> = Vec::new();
    trait_chances.push(theme_weight(MapTheme::Fire, MapTheme::Fire, MapTheme::Water, theme));
    trait_chances.push(theme_weight(MapTheme::Nature, MapTheme::Nature, MapTheme::Crystal, theme));
    trait_chances.push(theme_weight(MapTheme::Water, MapTheme::Water, MapTheme::Nature, theme));
    trait_chances.push(theme_weight(MapTheme::Light, MapTheme::Light, MapTheme::Death, theme));
    trait_chances.push(theme_weight(MapTheme::Death, MapTheme::Death, MapTheme::Light, theme));
    trait_chances.push(theme_weight(MapTheme::Crystal, MapTheme::Crystal, MapTheme::Earth, theme));
    trait_chances.push(theme_weight(MapTheme::Earth, MapTheme::Earth, MapTheme::Fire, theme));
    proof {
        assert(trait_chances@.len() == 7);
        assert forall|i: int| 0 <= i < trait_chances@.len() implies 1 <= #[trigger] trait_chances@[i] <= 1000 by {}
        crate::tables::lemma_total_weight_bounds(trait_chances@, 7);
    }
    let choice = sample_weighted(&trait_chances, rng);
    if choice == 0 {
        fire_trait(tier)
    } else if choice == 1 {
        nature_trait(tier)
    } else if choice == 2 {
        water_trait(tier)
    } else if choice == 3 {
        light_trait(tier)
    } else if choice == 4 {
        death_trait(tier)
    } else if choice == 5 {
        crystal_trait(tier)
    } else {
        earth_trait(tier)
    }
}

} // verus!
