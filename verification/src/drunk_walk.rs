//! The drunkard's walk generator: a cursor wanders the interior carving wall
//! tiles open until a target share of the area is open. Whenever a step would
//! leave the carving margin the cursor jumps to a fresh random spot, and each
//! landing spot is recorded as an anchor point for the corridor pass.

use vstd::prelude::*;

use crate::entry::has_interior_open;
use crate::tunnels::opens_preserved;
use crate::grid::{in_bounds, Grid};
use crate::objects::Object;
use crate::rng::rand_range;
use crate::tiles::{Palette, Tile};
use crate::{MAP_HEIGHT, MAP_WIDTH};
use rand::rngs::StdRng;

verus! {

/// How many carved tiles the walk aims for: 35% of the squared interior
/// width (the carve counter also recounts tiles the brush sweeps twice, so
/// the open share of the map comes out lower than this number suggests).
pub const CARVE_TARGET: u32 = 2184;

/// How many steps the cursor may take before the walk settles for what it
/// has carved so far; a bound this size is never hit in practice.
pub const WALK_STEP_BUDGET: u32 = 2000000;

/// Runs the walk over an all-wall grid. At least one anchor point is always
/// recorded, every anchor is strictly inside the map, and the player stands
/// on the walk's first position, which the walk carved open.
pub fn drunk_walk(
    start_points: &mut Vec<(i32, i32)>,
    map: &mut Grid,
    colors: &Palette,
    player: &mut Object,
    rng: &mut StdRng,
)
    requires
        old(map).wf(),
        old(start_points)@.len() == 0,
    ensures
        final(map).wf(),
        final(start_points)@.len() >= 1,
        forall|k: int|
            0 <= k < final(start_points)@.len() ==> {
                &&& 1 <= (#[trigger] final(start_points)@[k]).0 < MAP_WIDTH as int - 1
                &&& 1 <= final(start_points)@[k].1 < MAP_HEIGHT as int - 1
            },
        forall|i: int, j: int|
            in_bounds(i, j) && #[trigger] final(map).at(i, j) != old(map).at(i, j)
                ==> final(map).at(i, j).empty,
        forall|i: int, j: int|
            in_bounds(i, j) && !(1 <= i < MAP_WIDTH as int - 1 && 1 <= j < MAP_HEIGHT as int - 1)
                ==> #[trigger] final(map).at(i, j) == old(map).at(i, j),
        opens_preserved(*old(map), *final(map)),
        has_interior_open(*final(map)),
        final(player).x == final(start_points)@[0].0,
        final(player).y == final(start_points)@[0].1,
        1 <= final(player).x < MAP_WIDTH as int - 1,
        1 <= final(player).y < MAP_HEIGHT as int - 1,
        final(map).at(final(player).x as int, final(player).y as int).empty,
        final(player).name == old(player).name,
        final(player).blocks == old(player).blocks,
        final(player).fighter == old(player).fighter,
        final(player).alive == old(player).alive,
{
    // How many extra tiles are carved around each landing spot.
    let brush = rand_range(rng, 0, 3) as i32;

    // A random starting point, inside the carving margin.
    let mut x = rand_range(rng, 1 + brush as u32, MAP_WIDTH as u32 - 1 - brush as u32) as i32;
    let mut y = rand_range(rng, 1 + brush as u32, MAP_HEIGHT as u32 - 1 - brush as u32) as i32;

    let mut tiles_carved: u32 = 0;

    // The starting point becomes the first anchor, and is carved open.
    start_points.push((x, y));
    let t = Tile::empty(colors, rng);
    map.set(x as usize, y as usize, t);
    let ghost start = (x as int, y as int);

    let mut steps: u32 = 0;
    while tiles_carved < CARVE_TARGET && steps < WALK_STEP_BUDGET
        invariant
            map.wf(),
            0 <= brush <= 2,
            brush + 1 <= x,
            x + brush <= MAP_WIDTH as int - 1,
            x <= MAP_WIDTH as int - 2,
            brush + 1 <= y,
            y + brush <= MAP_HEIGHT as int - 1,
            y <= MAP_HEIGHT as int - 2,
            start_points@.len() >= 1,
            (start_points@[0].0 as int, start_points@[0].1 as int) == start,
            forall|k: int|
                0 <= k < start_points@.len() ==> {
                    &&& 1 <= (#[trigger] start_points@[k]).0 < MAP_WIDTH as int - 1
                    &&& 1 <= start_points@[k].1 < MAP_HEIGHT as int - 1
                },
            forall|i: int, j: int|
                in_bounds(i, j) && #[trigger] map.at(i, j) != old(map).at(i, j) ==> map.at(
                    i,
                    j,
                ).empty,
            forall|i: int, j: int|
                in_bounds(i, j) && !(1 <= i < MAP_WIDTH as int - 1 && 1 <= j < MAP_HEIGHT as int
                    - 1) ==> #[trigger] map.at(i, j) == old(map).at(i, j),
            1 <= start.0 < MAP_WIDTH as int - 1,
            1 <= start.1 < MAP_HEIGHT as int - 1,
            map.at(start.0, start.1).empty,
            *player == *old(player),
        decreases WALK_STEP_BUDGET - steps,
    {
        steps = steps + 1;
        // A random cardinal direction; a blocked step relocates the cursor
        // and records the landing spot as an anchor.
        let four_sided_dice = rand_range(rng, 1, 5);
        match four_sided_dice {
            1 => {
                if (y - 1) > brush {
                    y = y - 1;
                } else {
                    y = rand_range(rng, 1 + brush as u32, MAP_HEIGHT as u32 - 1 - brush as u32)
                        as i32;
                    start_points.push((x, y));
                }
            },
            2 => {
                if (y + 1) < (MAP_HEIGHT as i32 - brush) && (y + 1) < (MAP_HEIGHT as i32 - 1) {
                    y = y + 1;
                } else {
                    y = rand_range(rng, 1 + brush as u32, MAP_HEIGHT as u32 - 1 - brush as u32)
                        as i32;
                    start_points.push((x, y));
                }
            },
            3 => {
                if (x - 1) > brush {
                    x = x - 1;
                } else {
                    x = rand_range(rng, 1 + brush as u32, MAP_WIDTH as u32 - 1 - brush as u32)
                        as i32;
                    start_points.push((x, y));
                }
            },
            _ => {
                if (x + 1) < (MAP_WIDTH as i32 - brush) && (x + 1) < (MAP_WIDTH as i32 - 1) {
                    x = x + 1;
                } else {
                    x = rand_range(rng, 1 + brush as u32, MAP_WIDTH as u32 - 1 - brush as u32)
                        as i32;
                    start_points.push((x, y));
                }
            },
        }

        // A landing on a wall carves it (and the brush square around it).
        if map.get(x as usize, y as usize).wall {
            if brush > 0 {
                let mut bx = x - brush;
                while bx < x + brush
                    invariant
                        map.wf(),
                        0 < brush <= 2,
                        brush + 1 <= x,
                        x + brush <= MAP_WIDTH as int - 1,
                        brush + 1 <= y,
                        y + brush <= MAP_HEIGHT as int - 1,
                        x - brush <= bx <= x + brush,
                        forall|i: int, j: int|
                            in_bounds(i, j) && #[trigger] map.at(i, j) != old(map).at(i, j)
                                ==> map.at(i, j).empty,
                        forall|i: int, j: int|
                            in_bounds(i, j) && !(1 <= i < MAP_WIDTH as int - 1 && 1 <= j
                                < MAP_HEIGHT as int - 1) ==> #[trigger] map.at(i, j) == old(
                                map,
                            ).at(i, j),
                        map.at(start.0, start.1).empty || (bx <= start.0 < x + brush && y - brush
                            <= start.1 < y + brush),
                        1 <= start.0 < MAP_WIDTH as int - 1,
                        1 <= start.1 < MAP_HEIGHT as int - 1,
                        tiles_carved <= CARVE_TARGET + 16,
                    decreases x + brush - bx,
                {
                    let mut by = y - brush;
                    while by < y + brush
                        invariant
                            map.wf(),
                            0 < brush <= 2,
                            brush + 1 <= x,
                            x + brush <= MAP_WIDTH as int - 1,
                            brush + 1 <= y,
                            y + brush <= MAP_HEIGHT as int - 1,
                            x - brush <= bx < x + brush,
                            y - brush <= by <= y + brush,
                            forall|i: int, j: int|
                                in_bounds(i, j) && #[trigger] map.at(i, j) != old(map).at(i, j)
                                    ==> map.at(i, j).empty,
                            forall|i: int, j: int|
                                in_bounds(i, j) && !(1 <= i < MAP_WIDTH as int - 1 && 1 <= j
                                    < MAP_HEIGHT as int - 1) ==> #[trigger] map.at(i, j) == old(
                                    map,
                                ).at(i, j),
                            map.at(start.0, start.1).empty || (bx + 1 <= start.0 < x + brush && y
                                - brush <= start.1 < y + brush) || (start.0 == bx && by <= start.1
                                < y + brush),
                            1 <= start.0 < MAP_WIDTH as int - 1,
                            1 <= start.1 < MAP_HEIGHT as int - 1,
                            tiles_carved <= CARVE_TARGET + 16,
                        decreases y + brush - by,
                    {
                        let t = Tile::empty(colors, rng);
                        map.set(bx as usize, by as usize, t);
                        if tiles_carved < CARVE_TARGET + 1 {
                            tiles_carved = tiles_carved + 1;
                        }
                        by = by + 1;
                    }
                    bx = bx + 1;
                }
            } else {
                let t = Tile::empty(colors, rng);
                map.set(x as usize, y as usize, t);
                if tiles_carved < CARVE_TARGET {
                    tiles_carved = tiles_carved + 2;
                }
            }
        }
    }

    // The walk's first position is the entry point; it was carved open
    // before the first step.
    let (sx, sy) = start_points[0];
    player.set_pos(sx, sy);
}

} // verus!
