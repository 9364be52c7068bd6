//! Tiles and the per-level color palette.
//!
//! A tile is exactly one of open, wall, or secret passage; its movement and
//! sight blocking flags are derived from that category: open blocks neither,
//! a wall blocks both, and a secret passage blocks sight but not movement.

use vstd::prelude::*;

use crate::rng::rand_range;
use rand::rngs::StdRng;

verus! {

/// An 8-bit-per-channel display color.
#[derive(Clone, Copy, Debug, PartialEq, Eq, Structural)]
pub struct Color {
    pub r: u8,
    pub g: u8,
    pub b: u8,
}

/// The colors a level is drawn with: a wall color and a ground color, a
/// lighter and a darker variant of each, and the modifier subtracted from a
/// tile's lit color to get its unlit color.
#[derive(Clone, Copy, Debug, PartialEq, Eq, Structural)]
pub struct Palette {
    pub light_wall: Color,
    pub wall_variant_one: Color,
    pub wall_variant_two: Color,
    pub light_ground: Color,
    pub ground_variant_one: Color,
    pub ground_variant_two: Color,
    pub darkness: Color,
}

/// Per-channel saturating subtraction of one color from another.
pub open spec fn color_minus(a: Color, b: Color) -> Color {
    Color {
        r: if a.r >= b.r { (a.r - b.r) as u8 } else { 0 },
        g: if a.g >= b.g { (a.g - b.g) as u8 } else { 0 },
        b: if a.b >= b.b { (a.b - b.b) as u8 } else { 0 },
    }
}

/// Per-channel saturating addition of two colors.
pub open spec fn color_plus(a: Color, b: Color) -> Color {
    Color {
        r: if a.r + b.r <= 255 { (a.r + b.r) as u8 } else { 255 },
        g: if a.g + b.g <= 255 { (a.g + b.g) as u8 } else { 255 },
        b: if a.b + b.b <= 255 { (a.b + b.b) as u8 } else { 255 },
    }
}

impl Color {
    /// Darkens this color by the given modifier, clamping each channel at 0.
    pub fn minus(self, other: Color) -> (c: Color)
        ensures
            c == color_minus(self, other),
    {
        Color {
            r: if self.r >= other.r { self.r - other.r } else { 0 },
            g: if self.g >= other.g { self.g - other.g } else { 0 },
            b: if self.b >= other.b { self.b - other.b } else { 0 },
        }
    }

    /// Brightens this color by the given modifier, clamping each channel at 255.
    pub fn plus(self, other: Color) -> (c: Color)
        ensures
            c == color_plus(self, other),
    {
        Color {
            r: if self.r <= 255 - other.r { self.r + other.r } else { 255 },
            g: if self.g <= 255 - other.g { self.g + other.g } else { 255 },
            b: if self.b <= 255 - other.b { self.b + other.b } else { 255 },
        }
    }
}

/// The category a tile belongs to.
#[derive(Clone, Copy, Debug, PartialEq, Eq, Structural)]
pub enum TileType {
    Empty,
    Wall,
    SecretPath,
}

/// One cell of the dungeon grid.
#[derive(Clone, Copy, Debug, PartialEq, Eq, Structural)]
pub struct Tile {
    pub empty: bool,
    pub wall: bool,
    pub secret_path: bool,
    pub blocked: bool,
    pub explored: bool,
    pub block_sight: bool,
    pub color_light: Color,
    pub color_dark: Color,
    pub tiletype: TileType,
}

impl Tile {
    /// Exactly one category holds, and the blocking flags are derived from it:
    /// open blocks neither movement nor sight, a wall blocks both, and a
    /// secret passage blocks sight only.
    pub open spec fn wf(self) -> bool {
        &&& (self.empty || self.wall || self.secret_path)
        &&& !(self.empty && self.wall)
        &&& !(self.empty && self.secret_path)
        &&& !(self.wall && self.secret_path)
        &&& self.blocked == self.wall
        &&& self.block_sight == (self.wall || self.secret_path)
        &&& (self.tiletype == TileType::Empty <==> self.empty)
        &&& (self.tiletype == TileType::Wall <==> self.wall)
        &&& (self.tiletype == TileType::SecretPath <==> self.secret_path)
    }

    /// Creates an open floor tile, drawing its color from the ground colors of
    /// the palette: a high roll keeps the base color, low rolls pick a variant.
    pub fn empty(colors: &Palette, rng: &mut StdRng) -> (t: Tile)
        ensures
            t.wf(),
            t.empty,
            !t.explored,
            t.color_light == colors.light_ground || t.color_light == colors.ground_variant_one
                || t.color_light == colors.ground_variant_two,
            t.color_dark == color_minus(t.color_light, colors.darkness),
    {
        // A higher bound means a lower likelihood of variants showing up.
        let max_chance = rand_range(rng, 4, 15);
        let color_light = match rand_range(rng, 1, max_chance) {
            1 => colors.ground_variant_one,
            2 => colors.ground_variant_two,
            _ => colors.light_ground,
        };
        let color_dark = color_light.minus(colors.darkness);
        Tile {
            empty: true,
            wall: false,
            secret_path: false,
            blocked: false,
            explored: false,
            block_sight: false,
            color_light,
            color_dark,
            tiletype: TileType::Empty,
        }
    }

    /// Creates a wall tile in the palette's wall color.
    pub fn wall(colors: &Palette) -> (t: Tile)
        ensures
            t.wf(),
            t.wall,
            !t.explored,
            t.color_light == colors.light_wall,
            t.color_dark == color_minus(t.color_light, colors.darkness),
    {
        let color_light = colors.light_wall;
        let color_dark = color_light.minus(colors.darkness);
        Tile {
            empty: false,
            wall: true,
            secret_path: false,
            blocked: true,
            explored: false,
            block_sight: true,
            color_light,
            color_dark,
            tiletype: TileType::Wall,
        }
    }

    /// Creates a secret-passage tile: it looks like a wall (one of the wall
    /// color variants) but does not block movement.
    pub fn hidden_passage(colors: &Palette, rng: &mut StdRng) -> (t: Tile)
        ensures
            t.wf(),
            t.secret_path,
            !t.explored,
            t.color_light == colors.wall_variant_one || t.color_light == colors.wall_variant_two,
            t.color_dark == color_minus(t.color_light, colors.darkness),
    {
        let color_light = match rand_range(rng, 1, 3) {
            1 => colors.wall_variant_one,
            _ => colors.wall_variant_two,
        };
        let color_dark = color_light.minus(colors.darkness);
        Tile {
            empty: false,
            wall: false,
            secret_path: true,
            blocked: false,
            explored: false,
            block_sight: true,
            color_light,
            color_dark,
            tiletype: TileType::SecretPath,
        }
    }
}

/// Tile exclusivity: a well-formed tile belongs to exactly one of the three
/// categories, and its blocking flags are exactly the category-derived ones:
/// open floor blocks neither movement nor sight, a wall blocks both, and a
/// secret passage blocks sight but not movement.
pub proof fn lemma_tile_exclusive(t: Tile)
    requires
        t.wf(),
    ensures
        t.empty ==> !t.wall && !t.secret_path && !t.blocked && !t.block_sight,
        t.wall ==> !t.empty && !t.secret_path && t.blocked && t.block_sight,
        t.secret_path ==> !t.empty && !t.wall && !t.blocked && t.block_sight,
        t.empty || t.wall || t.secret_path,
{
}

/// Draws a fresh color palette for a level: random wall and ground base
/// colors, variants offset from them by a random amount, and a darkness
/// modifier that dims red and green more than blue.
pub fn gen_colors(rng: &mut StdRng) -> (colors: Palette)
    ensures
        80 <= colors.light_wall.r < 130 && 80 <= colors.light_wall.g < 130 && 80
            <= colors.light_wall.b < 130,
        65 <= colors.light_ground.r < 175 && 65 <= colors.light_ground.g < 175 && 65
            <= colors.light_ground.b < 175,
        25 <= colors.darkness.r < 35 && 25 <= colors.darkness.g < 35 && 5 <= colors.darkness.b
            < 15,
{
    let light_wall = Color {
        r: rand_range(rng, 80, 130) as u8,
        g: rand_range(rng, 80, 130) as u8,
        b: rand_range(rng, 80, 130) as u8,
    };
    let light_ground = Color {
        r: rand_range(rng, 65, 175) as u8,
        g: rand_range(rng, 65, 175) as u8,
        b: rand_range(rng, 65, 175) as u8,
    };
    // The variant color only nudges the base colors, to provide variation.
    let variant = Color {
        r: rand_range(rng, 0, 30) as u8,
        g: rand_range(rng, 0, 30) as u8,
        b: rand_range(rng, 0, 30) as u8,
    };
    let darkness = Color {
        r: rand_range(rng, 25, 35) as u8,
        g: rand_range(rng, 25, 35) as u8,
        b: rand_range(rng, 5, 15) as u8,
    };
    Palette {
        light_wall,
        wall_variant_one: light_wall.minus(variant),
        wall_variant_two: light_wall.plus(variant),
        light_ground,
        ground_variant_one: light_ground.minus(variant),
        ground_variant_two: light_ground.plus(variant),
        darkness,
    }
}

} // verus!
