//! Choosing the entry tile: the non-room generators finish by standing the
//! player on a random open tile.

use vstd::prelude::*;

use crate::grid::{in_bounds, Grid};
use crate::objects::Object;
use crate::rng::rand_range;
use crate::{MAP_HEIGHT, MAP_WIDTH};
use rand::rngs::StdRng;

verus! {

/// Some interior tile (away from the one-tile border) is open floor.
pub open spec fn has_interior_open(g: Grid) -> bool {
    exists|i: int, j: int|
        1 <= i < MAP_WIDTH as int - 1 && 1 <= j < MAP_HEIGHT as int - 1 && (#[trigger] g.at(
            i,
            j,
        )).empty
}

/// Scans the interior for an open tile, in reading order.
pub fn scan_interior_open(map: &Grid) -> (r: Option<(i32, i32)>)
    requires
        map.wf(),
    ensures
        match r {
            Some(p) => 1 <= p.0 < MAP_WIDTH as int - 1 && 1 <= p.1 < MAP_HEIGHT as int - 1
                && map.at(p.0 as int, p.1 as int).empty,
            None => !has_interior_open(*map),
        },
{
    let mut x: usize = 1;
    while x < MAP_WIDTH - 1
        invariant
            map.wf(),
            1 <= x <= MAP_WIDTH as int - 1,
            forall|i: int, j: int|
                1 <= i < x && 1 <= j < MAP_HEIGHT as int - 1 ==> !(#[trigger] map.at(i, j)).empty,
        decreases MAP_WIDTH as int - 1 - x,
    {
        let mut y: usize = 1;
        while y < MAP_HEIGHT - 1
            invariant
                map.wf(),
                1 <= x < MAP_WIDTH as int - 1,
                1 <= y <= MAP_HEIGHT as int - 1,
                forall|i: int, j: int|
                    1 <= i < x && 1 <= j < MAP_HEIGHT as int - 1 ==> !(#[trigger] map.at(
                        i,
                        j,
                    )).empty,
                forall|j: int| 1 <= j < y ==> !(#[trigger] map.at(x as int, j)).empty,
            decreases MAP_HEIGHT as int - 1 - y,
        {
            if map.get(x, y).empty {
                return Some((x as i32, y as i32));
            }
            y = y + 1;
        }
        x = x + 1;
    }
    None
}

/// Places the player on a random open interior tile: bounded random probing
/// first, falling back to the first open tile in reading order.
pub fn place_player_on_open_tile(map: &Grid, player: &mut Object, rng: &mut StdRng)
    requires
        map.wf(),
        has_interior_open(*map),
    ensures
        1 <= final(player).x < MAP_WIDTH as int - 1,
        1 <= final(player).y < MAP_HEIGHT as int - 1,
        map.at(final(player).x as int, final(player).y as int).empty,
        final(player).name == old(player).name,
        final(player).blocks == old(player).blocks,
        final(player).fighter == old(player).fighter,
        final(player).alive == old(player).alive,
{
    let mut attempts: u32 = 0;
    while attempts < 10000
        invariant
            map.wf(),
            *player == *old(player),
        decreases 10000 - attempts,
    {
        let px = rand_range(rng, 1, MAP_WIDTH as u32 - 1) as i32;
        let py = rand_range(rng, 1, MAP_HEIGHT as u32 - 1) as i32;
        if map.get(px as usize, py as usize).empty {
            player.set_pos(px, py);
            return ;
        }
        attempts = attempts + 1;
    }
    // The random probe came up dry; take the first open tile instead.
    match scan_interior_open(map) {
        Some((px, py)) => {
            player.set_pos(px, py);
        },
        None => {
            // Unreachable: some interior tile is known to be open.
            proof {
                assert(false);
            }
        },
    }
}

} // verus!
