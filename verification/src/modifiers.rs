//! Post-processing passes over an already-open grid: drunken mining off each
//! room, large cave-ins from the map center, and cosmetic rubble or pillars.
//! None of these is trusted to keep the level connected on its own;
//! reachability is re-established afterwards by the pruning pass.

use vstd::prelude::*;

use crate::grid::{in_bounds, Grid};
use crate::rect::{spec_intersects, Rect};
use crate::rng::{coin_flip, rand_range};
use crate::tiles::{Palette, Tile};
use crate::tunnels::opens_preserved;
use crate::rectangles::packed_room;
use crate::{MAP_HEIGHT, MAP_WIDTH};
use rand::rngs::StdRng;

verus! {

/// How many steps one miner or cave-in cursor may wander before giving up;
/// never reached in practice.
pub const MODIFIER_STEP_BUDGET: u32 = 1000000;

/// Sends a few miners wandering out of each room's center, each carving a
/// share of a random tile quota; produces organic bulges off rooms. Carving
/// only ever opens tiles.
pub fn mine_drunkenly(rooms: &Vec<Rect>, map: &mut Grid, colors: &Palette, rng: &mut StdRng)
    requires
        old(map).wf(),
        forall|k: int| 0 <= k < rooms@.len() ==> packed_room(#[trigger] rooms@[k]),
    ensures
        final(map).wf(),
        opens_preserved(*old(map), *final(map)),
        forall|i: int, j: int|
            in_bounds(i, j) && #[trigger] final(map).at(i, j) != old(map).at(i, j)
                ==> final(map).at(i, j).empty,
        forall|i: int, j: int|
            in_bounds(i, j) && !(1 <= i < MAP_WIDTH as int - 1 && 1 <= j < MAP_HEIGHT as int - 1)
                ==> #[trigger] final(map).at(i, j) == old(map).at(i, j),
{
    let mut r: usize = 0;
    while r < rooms.len()
        invariant
            map.wf(),
            forall|k: int| 0 <= k < rooms@.len() ==> packed_room(#[trigger] rooms@[k]),
            r <= rooms@.len(),
            opens_preserved(*old(map), *map),
            forall|i: int, j: int|
                in_bounds(i, j) && #[trigger] map.at(i, j) != old(map).at(i, j) ==> map.at(
                    i,
                    j,
                ).empty,
            forall|i: int, j: int|
                in_bounds(i, j) && !(1 <= i < MAP_WIDTH as int - 1 && 1 <= j < MAP_HEIGHT as int
                    - 1) ==> #[trigger] map.at(i, j) == old(map).at(i, j),
        decreases rooms@.len() - r,
    {
        // A random crew size, and a random quota split between the miners.
        let miner_max = rand_range(rng, 1, 5);
        let tiles_to_carve = rand_range(rng, 20, 40);
        let tiles_per_miner = tiles_to_carve / miner_max;

        let mut miner: u32 = 1;
        while miner < miner_max
            invariant
                map.wf(),
                forall|k: int| 0 <= k < rooms@.len() ==> packed_room(#[trigger] rooms@[k]),
                r < rooms@.len(),
                1 <= miner_max < 5,
                opens_preserved(*old(map), *map),
                forall|i: int, j: int|
                    in_bounds(i, j) && #[trigger] map.at(i, j) != old(map).at(i, j) ==> map.at(
                        i,
                        j,
                    ).empty,
                forall|i: int, j: int|
                    in_bounds(i, j) && !(1 <= i < MAP_WIDTH as int - 1 && 1 <= j < MAP_HEIGHT as int
                        - 1) ==> #[trigger] map.at(i, j) == old(map).at(i, j),
            decreases miner_max - miner,
        {
            let (mut x, mut y) = rooms[r].center();
            proof {
                crate::rectangles::lemma_packed_room_center_interior(rooms@[r as int]);
            }
            let mut tiles_carved: u32 = 0;
            let mut fuel: u32 = MODIFIER_STEP_BUDGET;
            while tiles_carved < tiles_per_miner && fuel > 0
                invariant
                    map.wf(),
                    1 <= x < MAP_WIDTH as int - 1,
                    1 <= y < MAP_HEIGHT as int - 1,
                    opens_preserved(*old(map), *map),
                    forall|i: int, j: int|
                        in_bounds(i, j) && #[trigger] map.at(i, j) != old(map).at(i, j) ==> map.at(
                            i,
                            j,
                        ).empty,
                    forall|i: int, j: int|
                        in_bounds(i, j) && !(1 <= i < MAP_WIDTH as int - 1 && 1 <= j < MAP_HEIGHT as int
                            - 1) ==> #[trigger] map.at(i, j) == old(map).at(i, j),
                decreases fuel,
            {
                fuel = fuel - 1;
                if !map.get(x as usize, y as usize).empty {
                    // The miner digs the tile it stands on.
                    let t = Tile::empty(colors, rng);
                    map.set(x as usize, y as usize, t);
                    tiles_carved = tiles_carved + 1;
                } else {
                    // Otherwise it wanders, bouncing off the map margin.
                    let four_sided_dice = rand_range(rng, 1, 5);
                    match four_sided_dice {
                        1 => {
                            y = y + 1;
                            if y >= MAP_HEIGHT as i32 - 1 {
                                y = y - 1;
                            }
                        },
                        2 => {
                            y = y - 1;
                            if y <= 1 {
                                y = y + 1;
                            }
                        },
                        3 => {
                            x = x + 1;
                            if x >= MAP_WIDTH as i32 - 1 {
                                x = x - 1;
                            }
                        },
                        _ => {
                            x = x - 1;
                            if x <= 1 {
                                x = x + 1;
                            }
                        },
                    }
                }
            }
            miner = miner + 1;
        }
        r = r + 1;
    }
}

/// Punches a large open cavern into the map, mirrored or not by a coin flip.
pub fn caved_in(map: &mut Grid, colors: &Palette, rng: &mut StdRng)
    requires
        old(map).wf(),
    ensures
        final(map).wf(),
        opens_preserved(*old(map), *final(map)),
        forall|i: int, j: int|
            MAP_WIDTH as int / 2 - 1 <= i < MAP_WIDTH as int / 2 + 1 && MAP_HEIGHT as int / 2 - 1
                <= j < MAP_HEIGHT as int / 2 + 1 ==> (#[trigger] final(map).at(i, j)).empty,
        forall|i: int, j: int|
            in_bounds(i, j) && #[trigger] final(map).at(i, j) != old(map).at(i, j)
                ==> final(map).at(i, j).empty && 2 <= i < MAP_WIDTH as int - 2 && 2 <= j
                < MAP_HEIGHT as int - 2,
{
    if coin_flip(rng) {
        butterfly(map, colors, rng);
    } else {
        random_hole(map, colors, rng);
    }
}

/// Carves a random blob outward from the map center, mirrored across the
/// vertical axis, with a fixed brush radius. Carving only ever opens tiles.
pub fn butterfly(map: &mut Grid, colors: &Palette, rng: &mut StdRng)
    requires
        old(map).wf(),
    ensures
        final(map).wf(),
        opens_preserved(*old(map), *final(map)),
        forall|i: int, j: int|
            MAP_WIDTH as int / 2 - 2 <= i < MAP_WIDTH as int / 2 + 1 && MAP_HEIGHT as int / 2 - 1
                <= j < MAP_HEIGHT as int / 2 + 1 ==> (#[trigger] final(map).at(i, j)).empty,
        forall|i: int, j: int|
            in_bounds(i, j) && #[trigger] final(map).at(i, j) != old(map).at(i, j)
                ==> final(map).at(i, j).empty && 2 <= i < MAP_WIDTH as int - 3 && 2 <= j
                < MAP_HEIGHT as int - 2,
{
    let brush: i32 = 2;
    let mut left_x: i32 = MAP_WIDTH as i32 / 2;
    let mut left_y: i32 = MAP_HEIGHT as i32 / 2;
    let mut right_x: i32 = MAP_WIDTH as i32 / 2;
    let mut right_y: i32 = MAP_HEIGHT as i32 / 2;
    let mut tiles_to_carve: u32 = 250;

    // The center tile is opened first.
    let t = Tile::empty(colors, rng);
    map.set(left_x as usize, left_y as usize, t);

    let mut fuel: u32 = MODIFIER_STEP_BUDGET;
    while tiles_to_carve > 0 && fuel > 0
        invariant
            map.wf(),
            brush == 2,
            brush + 2 <= left_x <= MAP_WIDTH as int / 2,
            left_x + right_x == 80,
            brush + 2 <= left_y < MAP_HEIGHT as int - (brush + 1),
            right_y == left_y,
            opens_preserved(*old(map), *map),
            fuel <= MODIFIER_STEP_BUDGET,
            fuel == MODIFIER_STEP_BUDGET ==> left_x == MAP_WIDTH as int / 2 && left_y
                == MAP_HEIGHT as int / 2 && tiles_to_carve == 250,
            fuel < MODIFIER_STEP_BUDGET ==> forall|i: int, j: int|
                MAP_WIDTH as int / 2 - 2 <= i < MAP_WIDTH as int / 2 + 1 && MAP_HEIGHT as int / 2
                    - 1 <= j < MAP_HEIGHT as int / 2 + 1 ==> (#[trigger] map.at(i, j)).empty,
            forall|i: int, j: int|
                in_bounds(i, j) && #[trigger] map.at(i, j) != old(map).at(i, j) ==> map.at(
                    i,
                    j,
                ).empty && 2 <= i < MAP_WIDTH as int - 3 && 2 <= j < MAP_HEIGHT as int - 2,
        decreases fuel,
    {
        fuel = fuel - 1;
        // A random direction; a step that would leave the margin is undone,
        // anything else also moves the mirrored cursor.
        let four_sided_dice = rand_range(rng, 1, 5);
        match four_sided_dice {
            1 => {
                left_y = left_y - 1;
                if left_y <= brush + 1 {
                    left_y = left_y + 1;
                } else {
                    right_y = right_y - 1;
                    tiles_to_carve = tiles_to_carve - 1;
                }
            },
            2 => {
                left_y = left_y + 1;
                if left_y >= MAP_HEIGHT as i32 - (brush + 1) {
                    left_y = left_y - 1;
                } else {
                    right_y = right_y + 1;
                    tiles_to_carve = tiles_to_carve - 1;
                }
            },
            3 => {
                left_x = left_x - 1;
                if left_x <= brush + 1 {
                    left_x = left_x + 1;
                } else {
                    right_x = right_x + 1;
                    tiles_to_carve = tiles_to_carve - 1;
                }
            },
            _ => {
                left_x = left_x + 1;
                if left_x >= MAP_WIDTH as i32 / 2 {
                    left_x = left_x - 1;
                } else {
                    right_x = right_x - 1;
                    tiles_to_carve = tiles_to_carve - 1;
                }
            },
        }

        // Carve the brush square around the cursor, and around its mirror.
        carve_square(left_x, left_y, brush, map, colors, rng);
        carve_square(right_x, right_y, brush, map, colors, rng);
    }
}

/// Carves the square `[x - brush, x + brush) x [y - brush, y + brush)` open.
fn carve_square(x: i32, y: i32, brush: i32, map: &mut Grid, colors: &Palette, rng: &mut StdRng)
    requires
        old(map).wf(),
        1 <= brush <= 2,
        brush <= x,
        x + brush <= MAP_WIDTH as int,
        brush <= y,
        y + brush <= MAP_HEIGHT as int,
    ensures
        final(map).wf(),
        opens_preserved(*old(map), *final(map)),
        forall|i: int, j: int|
            x - brush <= i < x + brush && y - brush <= j < y + brush
                ==> (#[trigger] final(map).at(i, j)).empty,
        forall|i: int, j: int|
            in_bounds(i, j) && !(x - brush <= i < x + brush && y - brush <= j < y + brush)
                ==> #[trigger] final(map).at(i, j) == old(map).at(i, j),
{
    let mut bx = x - brush;
    while bx < x + brush
        invariant
            map.wf(),
            1 <= brush <= 2,
            brush <= x,
            x + brush <= MAP_WIDTH as int,
            brush <= y,
            y + brush <= MAP_HEIGHT as int,
            x - brush <= bx <= x + brush,
            opens_preserved(*old(map), *map),
            forall|i: int, j: int|
                x - brush <= i < bx && y - brush <= j < y + brush ==> (#[trigger] map.at(
                    i,
                    j,
                )).empty,
            forall|i: int, j: int|
                in_bounds(i, j) && !(x - brush <= i < bx && y - brush <= j < y + brush)
                    ==> #[trigger] map.at(i, j) == old(map).at(i, j),
        decreases x + brush - bx,
    {
        let mut by = y - brush;
        while by < y + brush
            invariant
                map.wf(),
                1 <= brush <= 2,
                brush <= x,
                x + brush <= MAP_WIDTH as int,
                brush <= y,
                y + brush <= MAP_HEIGHT as int,
                x - brush <= bx < x + brush,
                y - brush <= by <= y + brush,
                opens_preserved(*old(map), *map),
                forall|i: int, j: int|
                    x - brush <= i < bx && y - brush <= j < y + brush ==> (#[trigger] map.at(
                        i,
                        j,
                    )).empty,
                forall|j: int| y - brush <= j < by ==> (#[trigger] map.at(bx as int, j)).empty,
                forall|i: int, j: int|
                    in_bounds(i, j) && !(x - brush <= i < bx && y - brush <= j < y + brush) && !(i
                        == bx as int && y - brush <= j < by) ==> #[trigger] map.at(i, j) == old(
                        map,
                    ).at(i, j),
            decreases y + brush - by,
        {
            let t = Tile::empty(colors, rng);
            map.set(bx as usize, by as usize, t);
            by = by + 1;
        }
        bx = bx + 1;
    }
}

/// Carves a random blob outward from the map center with a fixed brush
/// radius, the cursor snapping back to the center whenever it reaches the
/// margin. Carving only ever opens tiles.
pub fn random_hole(map: &mut Grid, colors: &Palette, rng: &mut StdRng)
    requires
        old(map).wf(),
    ensures
        final(map).wf(),
        opens_preserved(*old(map), *final(map)),
        forall|i: int, j: int|
            MAP_WIDTH as int / 2 - 1 <= i < MAP_WIDTH as int / 2 + 1 && MAP_HEIGHT as int / 2 - 1
                <= j < MAP_HEIGHT as int / 2 + 1 ==> (#[trigger] final(map).at(i, j)).empty,
        forall|i: int, j: int|
            in_bounds(i, j) && #[trigger] final(map).at(i, j) != old(map).at(i, j)
                ==> final(map).at(i, j).empty && 2 <= i < MAP_WIDTH as int - 2 && 2 <= j
                < MAP_HEIGHT as int - 2,
{
    let brush: i32 = 2;
    let mut x: i32 = MAP_WIDTH as i32 / 2;
    let mut y: i32 = MAP_HEIGHT as i32 / 2;
    let mut tiles_to_carve: u32 = 500;

    // The center tile is opened first.
    let t = Tile::empty(colors, rng);
    map.set(x as usize, y as usize, t);

    let mut fuel: u32 = MODIFIER_STEP_BUDGET;
    while tiles_to_carve > 0 && fuel > 0
        invariant
            map.wf(),
            brush == 2,
            brush + 2 <= x < MAP_WIDTH as int - (brush + 1),
            brush + 2 <= y < MAP_HEIGHT as int - (brush + 1),
            opens_preserved(*old(map), *map),
            fuel <= MODIFIER_STEP_BUDGET,
            fuel == MODIFIER_STEP_BUDGET ==> x == MAP_WIDTH as int / 2 && y == MAP_HEIGHT as int
                / 2 && tiles_to_carve == 500,
            fuel < MODIFIER_STEP_BUDGET ==> forall|i: int, j: int|
                MAP_WIDTH as int / 2 - 1 <= i < MAP_WIDTH as int / 2 + 1 && MAP_HEIGHT as int / 2
                    - 1 <= j < MAP_HEIGHT as int / 2 + 1 ==> (#[trigger] map.at(i, j)).empty,
            forall|i: int, j: int|
                in_bounds(i, j) && #[trigger] map.at(i, j) != old(map).at(i, j) ==> map.at(
                    i,
                    j,
                ).empty && 2 <= i < MAP_WIDTH as int - 2 && 2 <= j < MAP_HEIGHT as int - 2,
        decreases fuel,
    {
        fuel = fuel - 1;
        // A random direction; a step that reaches the margin snaps the
        // cursor back to the center.
        let four_sided_dice = rand_range(rng, 1, 5);
        match four_sided_dice {
            1 => {
                y = y - 1;
                if y <= brush + 1 {
                    y = MAP_HEIGHT as i32 / 2;
                } else {
                    tiles_to_carve = tiles_to_carve - 1;
                }
            },
            2 => {
                y = y + 1;
                if y >= MAP_HEIGHT as i32 - (brush + 1) {
                    y = MAP_HEIGHT as i32 / 2;
                } else {
                    tiles_to_carve = tiles_to_carve - 1;
                }
            },
            3 => {
                x = x - 1;
                if x <= brush + 1 {
                    x = MAP_WIDTH as i32 / 2;
                } else {
                    tiles_to_carve = tiles_to_carve - 1;
                }
            },
            _ => {
                x = x + 1;
                if x >= MAP_WIDTH as i32 - (brush + 1) {
                    x = MAP_WIDTH as i32 / 2;
                } else {
                    tiles_to_carve = tiles_to_carve - 1;
                }
            },
        }

        // Carve the brush square around the cursor.
        carve_square(x, y, brush, map, colors, rng);
    }
}

/// A tile strictly inside room `r`.
pub open spec fn inside_room(r: Rect, i: int, j: int) -> bool {
    r.x1 < i < r.x2 && r.y1 < j < r.y2
}

/// Scatters a coin-flip's worth of rubble wall tiles through each room,
/// skipping the last room so the level exit is never obstructed.
pub fn rubble(rooms: &Vec<Rect>, map: &mut Grid, colors: &Palette, rng: &mut StdRng)
    requires
        old(map).wf(),
        rooms@.len() >= 2,
        forall|k: int| 0 <= k < rooms@.len() ==> packed_room(#[trigger] rooms@[k]),
        forall|a: int, b: int|
            0 <= a < b < rooms@.len() ==> !spec_intersects(
                #[trigger] rooms@[a],
                #[trigger] rooms@[b],
            ),
    ensures
        final(map).wf(),
        forall|i: int, j: int|
            in_bounds(i, j) && inside_room(rooms@[rooms@.len() - 1], i, j)
                ==> #[trigger] final(map).at(i, j) == old(map).at(i, j),
        forall|i: int, j: int|
            in_bounds(i, j) && #[trigger] final(map).at(i, j) != old(map).at(i, j) ==> final(map).at(i, j).wall
                && exists|rr: int|
                0 <= rr < rooms@.len() - 1 && (#[trigger] rooms@[rr]).x1 + 2 <= i <= rooms@[rr].x2
                    - 2 && rooms@[rr].y1 + 2 <= j <= rooms@[rr].y2 - 2,
{
    let last = rooms.len() - 1;
    let mut r: usize = 0;
    while r < last
        invariant
            map.wf(),
            rooms@.len() >= 2,
            last == rooms@.len() - 1,
            r <= last,
            forall|k: int| 0 <= k < rooms@.len() ==> packed_room(#[trigger] rooms@[k]),
            forall|a: int, b: int|
                0 <= a < b < rooms@.len() ==> !spec_intersects(
                    #[trigger] rooms@[a],
                    #[trigger] rooms@[b],
                ),
            forall|i: int, j: int|
                in_bounds(i, j) && inside_room(rooms@[rooms@.len() - 1], i, j)
                    ==> #[trigger] map.at(i, j) == old(map).at(i, j),
            forall|i: int, j: int|
                in_bounds(i, j) && #[trigger] map.at(i, j) != old(map).at(i, j) ==> map.at(i, j).wall
                    && exists|rr: int|
                    0 <= rr < rooms@.len() - 1 && (#[trigger] rooms@[rr]).x1 + 2 <= i
                        <= rooms@[rr].x2 - 2 && rooms@[rr].y1 + 2 <= j <= rooms@[rr].y2 - 2,
        decreases last - r,
    {
        let room = rooms[r];
        // Room size decides how much debris may appear.
        let w = room.x2 - room.x1;
        let h = room.y2 - room.y1;
        proof {
            assert(w * h <= 81 * 43) by (nonlinear_arith)
                requires
                    0 <= w <= 81,
                    0 <= h <= 43,
            ;
        }
        let tiles = w * h;
        let possible_debris = tiles / 5;

        let mut d: i32 = 1;
        while d < possible_debris
            invariant
                map.wf(),
                rooms@.len() >= 2,
                r < rooms@.len() - 1,
                room == rooms@[r as int],
                packed_room(room),
                forall|a: int, b: int|
                    0 <= a < b < rooms@.len() ==> !spec_intersects(
                        #[trigger] rooms@[a],
                        #[trigger] rooms@[b],
                    ),
                forall|i: int, j: int|
                    in_bounds(i, j) && inside_room(rooms@[rooms@.len() - 1], i, j)
                        ==> #[trigger] map.at(i, j) == old(map).at(i, j),
                forall|i: int, j: int|
                    in_bounds(i, j) && #[trigger] map.at(i, j) != old(map).at(i, j) ==> map.at(i, j).wall
                        && exists|rr: int|
                        0 <= rr < rooms@.len() - 1 && (#[trigger] rooms@[rr]).x1 + 2 <= i
                            <= rooms@[rr].x2 - 2 && rooms@[rr].y1 + 2 <= j <= rooms@[rr].y2 - 2,
            decreases possible_debris - d,
        {
            // A random tile well inside the room, walled on a coin flip.
            let x = rand_range(rng, (room.x1 + 2) as u32, (room.x2 - 1) as u32) as i32;
            let y = rand_range(rng, (room.y1 + 2) as u32, (room.y2 - 1) as u32) as i32;
            if coin_flip(rng) {
                let t = Tile::wall(colors);
                proof {
                    assert(!spec_intersects(rooms@[r as int], rooms@[rooms@.len() - 1]));
                }
                map.set(x as usize, y as usize, t);
                proof {
                    assert(0 <= r < rooms@.len() - 1 && rooms@[r as int].x1 + 2 <= x as int
                        <= rooms@[r as int].x2 - 2 && rooms@[r as int].y1 + 2 <= y as int
                        <= rooms@[r as int].y2 - 2);
                }
            }
            d = d + 1;
        }
        r = r + 1;
    }
}

/// Walls in the four corner-inset tiles of each room small enough to still
/// allow movement around them, skipping the last room so the level exit is
/// never obstructed.
pub fn pillars(rooms: &Vec<Rect>, map: &mut Grid, colors: &Palette, rng: &mut StdRng)
    requires
        old(map).wf(),
        rooms@.len() >= 2,
        forall|k: int| 0 <= k < rooms@.len() ==> packed_room(#[trigger] rooms@[k]),
        forall|a: int, b: int|
            0 <= a < b < rooms@.len() ==> !spec_intersects(
                #[trigger] rooms@[a],
                #[trigger] rooms@[b],
            ),
    ensures
        final(map).wf(),
        forall|i: int, j: int|
            in_bounds(i, j) && inside_room(rooms@[rooms@.len() - 1], i, j)
                ==> #[trigger] final(map).at(i, j) == old(map).at(i, j),
        forall|i: int, j: int|
            in_bounds(i, j) && #[trigger] final(map).at(i, j) != old(map).at(i, j) ==> final(map).at(i, j).wall
                && exists|rr: int|
                0 <= rr < rooms@.len() - 1 && (#[trigger] rooms@[rr]).x1 + 2 <= i <= rooms@[rr].x2
                    - 2 && rooms@[rr].y1 + 2 <= j <= rooms@[rr].y2 - 2,
{
    let last = rooms.len() - 1;
    let mut r: usize = 0;
    while r < last
        invariant
            map.wf(),
            rooms@.len() >= 2,
            last == rooms@.len() - 1,
            r <= last,
            forall|k: int| 0 <= k < rooms@.len() ==> packed_room(#[trigger] rooms@[k]),
            forall|a: int, b: int|
                0 <= a < b < rooms@.len() ==> !spec_intersects(
                    #[trigger] rooms@[a],
                    #[trigger] rooms@[b],
                ),
            forall|i: int, j: int|
                in_bounds(i, j) && inside_room(rooms@[rooms@.len() - 1], i, j)
                    ==> #[trigger] map.at(i, j) == old(map).at(i, j),
            forall|i: int, j: int|
                in_bounds(i, j) && #[trigger] map.at(i, j) != old(map).at(i, j) ==> map.at(i, j).wall
                    && exists|rr: int|
                    0 <= rr < rooms@.len() - 1 && (#[trigger] rooms@[rr]).x1 + 2 <= i
                        <= rooms@[rr].x2 - 2 && rooms@[rr].y1 + 2 <= j <= rooms@[rr].y2 - 2,
        decreases last - r,
    {
        let room = rooms[r];
        // Only a room small enough keeps its corners passable.
        let w = (room.x2 - 1) - (room.x1 + 1);
        let h = (room.y2 - 1) - (room.y1 + 1);
        proof {
            assert(w * h <= 81 * 43) by (nonlinear_arith)
                requires
                    0 <= w <= 81,
                    0 <= h <= 43,
            ;
        }
        let tiles = w * h;
        let possible_pillars = tiles / 5;

        if possible_pillars < 16 && coin_flip(rng) {
            let t1 = Tile::wall(colors);
            proof {
                assert(!spec_intersects(rooms@[r as int], rooms@[rooms@.len() - 1]));
            }
            map.set((room.x1 + 2) as usize, (room.y1 + 2) as usize, t1);
            let t2 = Tile::wall(colors);
            map.set((room.x2 - 2) as usize, (room.y1 + 2) as usize, t2);
            let t3 = Tile::wall(colors);
            map.set((room.x1 + 2) as usize, (room.y2 - 2) as usize, t3);
            let t4 = Tile::wall(colors);
            map.set((room.x2 - 2) as usize, (room.y2 - 2) as usize, t4);
            proof {
                assert(0 <= r < rooms@.len() - 1 && room == rooms@[r as int]);
            }
        }
        r = r + 1;
    }
}

} // verus!
