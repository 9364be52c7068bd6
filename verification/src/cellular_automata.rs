//! The cellular automata generator: random seeding of open tiles followed by
//! a fixed number of smoothing passes of the 8-neighbor rule. Each pass is
//! computed against a parallel purge mask, so neighbor counts within one pass
//! never see that pass's own mutations.

use vstd::prelude::*;

use crate::entry::{has_interior_open, place_player_on_open_tile, scan_interior_open};
use crate::grid::{flat_index, in_bounds, lemma_flat_index_bounds, Grid};
use crate::objects::Object;
use crate::rng::rand_range;
use crate::tiles::{Palette, Tile};
use crate::{MAP_HEIGHT, MAP_WIDTH};
use rand::rngs::StdRng;

verus! {

/// A coordinate strictly inside the map's one-tile border.
pub open spec fn interior(i: int, j: int) -> bool {
    1 <= i < MAP_WIDTH as int - 1 && 1 <= j < MAP_HEIGHT as int - 1
}

/// Reads one cell of the purge mask.
fn mask_get(mask: &Vec<bool>, x: usize, y: usize) -> (b: bool)
    requires
        mask@.len() == MAP_WIDTH as int * MAP_HEIGHT as int,
        in_bounds(x as int, y as int),
    ensures
        b == mask@[flat_index(x as int, y as int)],
{
    proof {
        lemma_flat_index_bounds(x as int, y as int);
    }
    mask[x * MAP_HEIGHT + y]
}

/// Writes one cell of the purge mask.
fn mask_set(mask: &mut Vec<bool>, x: usize, y: usize, b: bool)
    requires
        old(mask)@.len() == MAP_WIDTH as int * MAP_HEIGHT as int,
        in_bounds(x as int, y as int),
    ensures
        final(mask)@.len() == old(mask)@.len(),
        final(mask)@ == old(mask)@.update(flat_index(x as int, y as int), b),
{
    proof {
        lemma_flat_index_bounds(x as int, y as int);
    }
    mask.set(x * MAP_HEIGHT + y, b);
}

/// How many of the eight neighbors of an interior tile are walls.
pub open spec fn spec_wall_neighbors(g: Grid, x: int, y: int) -> int {
    (if g.at(x - 1, y).wall {
        1int
    } else {
        0int
    }) + (if g.at(x, y - 1).wall {
        1int
    } else {
        0int
    }) + (if g.at(x - 1, y - 1).wall {
        1int
    } else {
        0int
    }) + (if g.at(x + 1, y - 1).wall {
        1int
    } else {
        0int
    }) + (if g.at(x + 1, y).wall {
        1int
    } else {
        0int
    }) + (if g.at(x, y + 1).wall {
        1int
    } else {
        0int
    }) + (if g.at(x - 1, y + 1).wall {
        1int
    } else {
        0int
    }) + (if g.at(x + 1, y + 1).wall {
        1int
    } else {
        0int
    })
}

/// The smoothing rule turns this tile to wall: no wall neighbor at all, or
/// more than four of them.
pub open spec fn purged(g: Grid, x: int, y: int) -> bool {
    spec_wall_neighbors(g, x, y) == 0 || spec_wall_neighbors(g, x, y) > 4
}

/// Counts how many of the eight neighbors of an interior tile are walls.
fn wall_neighbors(map: &Grid, x: usize, y: usize) -> (n: u32)
    requires
        map.wf(),
        interior(x as int, y as int),
    ensures
        n <= 8,
        n == spec_wall_neighbors(*map, x as int, y as int),
{
    let mut n: u32 = 0;
    if map.get(x - 1, y).wall {
        n = n + 1;
    }
    if map.get(x, y - 1).wall {
        n = n + 1;
    }
    if map.get(x - 1, y - 1).wall {
        n = n + 1;
    }
    if map.get(x + 1, y - 1).wall {
        n = n + 1;
    }
    if map.get(x + 1, y).wall {
        n = n + 1;
    }
    if map.get(x, y + 1).wall {
        n = n + 1;
    }
    if map.get(x - 1, y + 1).wall {
        n = n + 1;
    }
    if map.get(x + 1, y + 1).wall {
        n = n + 1;
    }
    n
}

/// Runs the automata over an all-wall grid: seeding, smoothing passes, and a
/// degenerate-case guard that keeps at least one interior tile open. Only
/// interior tiles are ever touched, and the player ends on an open tile.
pub fn cellular_automata(map: &mut Grid, colors: &Palette, player: &mut Object, rng: &mut StdRng)
    requires
        old(map).wf(),
    ensures
        final(map).wf(),
        forall|i: int, j: int|
            in_bounds(i, j) && !interior(i, j) ==> #[trigger] final(map).at(i, j) == old(map).at(
                i,
                j,
            ),
        has_interior_open(*final(map)),
        1 <= final(player).x < MAP_WIDTH as int - 1,
        1 <= final(player).y < MAP_HEIGHT as int - 1,
        final(map).at(final(player).x as int, final(player).y as int).empty,
        final(player).name == old(player).name,
        final(player).blocks == old(player).blocks,
        final(player).fighter == old(player).fighter,
        final(player).alive == old(player).alive,
{
    // Give each interior tile a chance to start out open.
    let mut x: usize = 1;
    while x < MAP_WIDTH - 1
        invariant
            map.wf(),
            1 <= x <= MAP_WIDTH as int - 1,
            forall|i: int, j: int|
                in_bounds(i, j) && !interior(i, j) ==> #[trigger] map.at(i, j) == old(map).at(i, j),
        decreases MAP_WIDTH as int - 1 - x,
    {
        let mut y: usize = 1;
        while y < MAP_HEIGHT - 1
            invariant
                map.wf(),
                1 <= x < MAP_WIDTH as int - 1,
                1 <= y <= MAP_HEIGHT as int - 1,
                forall|i: int, j: int|
                    in_bounds(i, j) && !interior(i, j) ==> #[trigger] map.at(i, j) == old(map).at(
                        i,
                        j,
                    ),
            decreases MAP_HEIGHT as int - 1 - y,
        {
            if rand_range(rng, 0, 100) >= 55 {
                let t = Tile::empty(colors, rng);
                map.set(x, y, t);
            }
            y = y + 1;
        }
        x = x + 1;
    }

    let cell_cycles: u32 = 7;
    let mut cycle: u32 = 1;
    while cycle < cell_cycles
        invariant
            map.wf(),
            forall|i: int, j: int|
                in_bounds(i, j) && !interior(i, j) ==> #[trigger] map.at(i, j) == old(map).at(i, j),
        decreases cell_cycles - cycle,
    {
        automata_pass(map, colors, rng);
        cycle = cycle + 1;
    }

    // Degenerate-case guard: if the passes walled everything back up, carve
    // the center tile so the level always has an open entry.
    match scan_interior_open(map) {
        Some(_) => {},
        None => {
            let t = Tile::empty(colors, rng);
            map.set(MAP_WIDTH / 2, MAP_HEIGHT / 2, t);
        },
    }

    // Place the player on a random open tile.
    place_player_on_open_tile(map, player, rng);
}

/// One smoothing pass of the 8-neighbor rule, computed against a purge
/// mask snapshot, so neighbor counts within the pass never see the pass's
/// own mutations: an interior tile ends as wall exactly when its wall
/// neighbors at the start of the pass numbered zero or more than four, and
/// as open floor otherwise. The border is untouched.
pub fn automata_pass(map: &mut Grid, colors: &Palette, rng: &mut StdRng)
    requires
        old(map).wf(),
    ensures
        final(map).wf(),
        forall|i: int, j: int|
            interior(i, j) && purged(*old(map), i, j) ==> (#[trigger] final(map).at(i, j)).wall,
        forall|i: int, j: int|
            interior(i, j) && !purged(*old(map), i, j) ==> (#[trigger] final(map).at(i, j)).empty,
        forall|i: int, j: int|
            in_bounds(i, j) && !interior(i, j) ==> #[trigger] final(map).at(i, j) == old(map).at(
                i,
                j,
            ),
{
    // The purge mask: a true cell means the tile turns to wall this pass.
    let mut purge_map: Vec<bool> = Vec::new();
    let mut i: usize = 0;
    while i < MAP_WIDTH * MAP_HEIGHT
        invariant
            purge_map@.len() == i,
            i <= MAP_WIDTH as int * MAP_HEIGHT as int,
            forall|k: int| 0 <= k < i ==> !(#[trigger] purge_map@[k]),
        decreases MAP_WIDTH as int * MAP_HEIGHT as int - i,
    {
        purge_map.push(false);
        i = i + 1;
    }

    // First pass: mark every interior tile the rule turns to wall. The map
    // is only read here, so every count sees the pass's starting grid.
    let mut x: usize = 1;
    while x < MAP_WIDTH - 1
        invariant
            map.wf(),
            *map == *old(map),
            purge_map@.len() == MAP_WIDTH as int * MAP_HEIGHT as int,
            1 <= x <= MAP_WIDTH as int - 1,
            forall|i: int, j: int|
                interior(i, j) && i < x ==> purge_map@[flat_index(i, j)] == purged(*map, i, j),
            forall|i: int, j: int|
                in_bounds(i, j) && !(interior(i, j) && i < x) ==> !purge_map@[flat_index(i, j)],
        decreases MAP_WIDTH as int - 1 - x,
    {
        let mut y: usize = 1;
        while y < MAP_HEIGHT - 1
            invariant
                map.wf(),
                *map == *old(map),
                purge_map@.len() == MAP_WIDTH as int * MAP_HEIGHT as int,
                1 <= x < MAP_WIDTH as int - 1,
                1 <= y <= MAP_HEIGHT as int - 1,
                forall|i: int, j: int|
                    interior(i, j) && (i < x || (i == x && j < y)) ==> purge_map@[flat_index(i, j)]
                        == purged(*map, i, j),
                forall|i: int, j: int|
                    in_bounds(i, j) && !(interior(i, j) && (i < x || (i == x && j < y)))
                        ==> !purge_map@[flat_index(i, j)],
            decreases MAP_HEIGHT as int - 1 - y,
        {
            let ghost pre_mask = purge_map@;
            let wall_count = wall_neighbors(map, x, y);
            if wall_count == 0 || wall_count > 4 {
                mask_set(&mut purge_map, x, y, true);
            }
            proof {
                assert forall|i: int, j: int|
                    in_bounds(i, j) && !(i == x as int && j == y as int)
                        implies purge_map@[flat_index(i, j)] == pre_mask[flat_index(i, j)] by {
                    lemma_flat_index_bounds(i, j);
                    if flat_index(i, j) == flat_index(x as int, y as int) {
                        crate::grid::lemma_flat_index_injective(i, j, x as int, y as int);
                    }
                }
                lemma_flat_index_bounds(x as int, y as int);
            }
            y = y + 1;
        }
        x = x + 1;
    }

    // Second pass: apply the mask.
    let ghost snapshot = *map;
    let mut x: usize = 1;
    while x < MAP_WIDTH - 1
        invariant
            map.wf(),
            snapshot.wf(),
            purge_map@.len() == MAP_WIDTH as int * MAP_HEIGHT as int,
            1 <= x <= MAP_WIDTH as int - 1,
            forall|i: int, j: int|
                interior(i, j) ==> purge_map@[flat_index(i, j)] == purged(snapshot, i, j),
            forall|i: int, j: int|
                interior(i, j) && i < x && purged(snapshot, i, j) ==> (#[trigger] map.at(
                    i,
                    j,
                )).wall,
            forall|i: int, j: int|
                interior(i, j) && i < x && !purged(snapshot, i, j) ==> (#[trigger] map.at(
                    i,
                    j,
                )).empty,
            forall|i: int, j: int|
                in_bounds(i, j) && !(interior(i, j) && i < x) ==> #[trigger] map.at(i, j)
                    == snapshot.at(i, j),
        decreases MAP_WIDTH as int - 1 - x,
    {
        let mut y: usize = 1;
        while y < MAP_HEIGHT - 1
            invariant
                map.wf(),
                snapshot.wf(),
                purge_map@.len() == MAP_WIDTH as int * MAP_HEIGHT as int,
                1 <= x < MAP_WIDTH as int - 1,
                1 <= y <= MAP_HEIGHT as int - 1,
                forall|i: int, j: int|
                    interior(i, j) ==> purge_map@[flat_index(i, j)] == purged(snapshot, i, j),
                forall|i: int, j: int|
                    interior(i, j) && (i < x || (i == x && j < y)) && purged(snapshot, i, j)
                        ==> (#[trigger] map.at(i, j)).wall,
                forall|i: int, j: int|
                    interior(i, j) && (i < x || (i == x && j < y)) && !purged(snapshot, i, j)
                        ==> (#[trigger] map.at(i, j)).empty,
                forall|i: int, j: int|
                    in_bounds(i, j) && !(interior(i, j) && (i < x || (i == x && j < y)))
                        ==> #[trigger] map.at(i, j) == snapshot.at(i, j),
            decreases MAP_HEIGHT as int - 1 - y,
        {
            if mask_get(&purge_map, x, y) {
                let t = Tile::wall(colors);
                map.set(x, y, t);
            } else {
                let t = Tile::empty(colors, rng);
                map.set(x, y, t);
            }
            y = y + 1;
        }
        x = x + 1;
    }
}

/// How many of the four orthogonal neighbors of an interior tile are open.
pub open spec fn spec_open_orth(g: Grid, x: int, y: int) -> int {
    (if g.at(x - 1, y).empty {
        1int
    } else {
        0int
    }) + (if g.at(x + 1, y).empty {
        1int
    } else {
        0int
    }) + (if g.at(x, y - 1).empty {
        1int
    } else {
        0int
    }) + (if g.at(x, y + 1).empty {
        1int
    } else {
        0int
    })
}

/// How many open orthogonal neighbors force a lone wall open.
pub const LONER_THRESHOLD: u32 = 3;

/// Counts the open tiles among the four orthogonal neighbors.
fn open_orth_neighbors(map: &Grid, x: usize, y: usize) -> (n: u32)
    requires
        map.wf(),
        interior(x as int, y as int),
    ensures
        n <= 4,
        n == spec_open_orth(*map, x as int, y as int),
{
    let mut n: u32 = 0;
    if map.get(x - 1, y).empty {
        n = n + 1;
    }
    if map.get(x + 1, y).empty {
        n = n + 1;
    }
    if map.get(x, y - 1).empty {
        n = n + 1;
    }
    if map.get(x, y + 1).empty {
        n = n + 1;
    }
    n
}

/// The loner-purge smoothing filter: one pass over the interior that opens
/// every wall tile with open floor on at least `LONER_THRESHOLD` of its four
/// orthogonal neighbors, removing single-tile wall spikes that make
/// corridors look noisy; everything else is untouched.
pub fn mini_automata(map: &mut Grid, colors: &Palette, rng: &mut StdRng)
    requires
        old(map).wf(),
    ensures
        final(map).wf(),
        forall|i: int, j: int|
            interior(i, j) && old(map).at(i, j).wall && spec_open_orth(*old(map), i, j)
                >= LONER_THRESHOLD ==> (#[trigger] final(map).at(i, j)).empty,
        forall|i: int, j: int|
            in_bounds(i, j) && !(interior(i, j) && old(map).at(i, j).wall && spec_open_orth(
                *old(map),
                i,
                j,
            ) >= LONER_THRESHOLD) ==> #[trigger] final(map).at(i, j) == old(map).at(i, j),
{
    // The purge mask: a true cell means a lone wall comes down.
    let mut purge_map: Vec<bool> = Vec::new();
    let mut i: usize = 0;
    while i < MAP_WIDTH * MAP_HEIGHT
        invariant
            purge_map@.len() == i,
            i <= MAP_WIDTH as int * MAP_HEIGHT as int,
            forall|k: int| 0 <= k < i ==> !(#[trigger] purge_map@[k]),
        decreases MAP_WIDTH as int * MAP_HEIGHT as int - i,
    {
        purge_map.push(false);
        i = i + 1;
    }

    // First pass: mark the lone walls. The map is only read here, so every
    // count sees the unmodified grid.
    let mut x: usize = 1;
    while x < MAP_WIDTH - 1
        invariant
            map.wf(),
            *map == *old(map),
            purge_map@.len() == MAP_WIDTH as int * MAP_HEIGHT as int,
            1 <= x <= MAP_WIDTH as int - 1,
            forall|i: int, j: int|
                interior(i, j) && i < x ==> purge_map@[flat_index(i, j)] == (map.at(i, j).wall
                    && spec_open_orth(*map, i, j) >= LONER_THRESHOLD),
            forall|i: int, j: int|
                in_bounds(i, j) && !(interior(i, j) && i < x) ==> !purge_map@[flat_index(i, j)],
        decreases MAP_WIDTH as int - 1 - x,
    {
        let mut y: usize = 1;
        while y < MAP_HEIGHT - 1
            invariant
                map.wf(),
                *map == *old(map),
                purge_map@.len() == MAP_WIDTH as int * MAP_HEIGHT as int,
                1 <= x < MAP_WIDTH as int - 1,
                1 <= y <= MAP_HEIGHT as int - 1,
                forall|i: int, j: int|
                    interior(i, j) && (i < x || (i == x && j < y)) ==> purge_map@[flat_index(i, j)]
                        == (map.at(i, j).wall && spec_open_orth(*map, i, j) >= LONER_THRESHOLD),
                forall|i: int, j: int|
                    in_bounds(i, j) && !(interior(i, j) && (i < x || (i == x && j < y)))
                        ==> !purge_map@[flat_index(i, j)],
            decreases MAP_HEIGHT as int - 1 - y,
        {
            let ghost pre_mask = purge_map@;
            let is_lone_wall = map.get(x, y).wall && open_orth_neighbors(map, x, y)
                >= LONER_THRESHOLD;
            if is_lone_wall {
                mask_set(&mut purge_map, x, y, true);
            }
            proof {
                assert forall|i: int, j: int|
                    in_bounds(i, j) && !(i == x as int && j == y as int)
                        implies purge_map@[flat_index(i, j)] == pre_mask[flat_index(i, j)] by {
                    lemma_flat_index_bounds(i, j);
                    if flat_index(i, j) == flat_index(x as int, y as int) {
                        crate::grid::lemma_flat_index_injective(i, j, x as int, y as int);
                    }
                }
                lemma_flat_index_bounds(x as int, y as int);
            }
            y = y + 1;
        }
        x = x + 1;
    }

    // Second pass: bring the marked walls down.
    let ghost snapshot = *map;
    let mut x: usize = 1;
    while x < MAP_WIDTH - 1
        invariant
            map.wf(),
            snapshot.wf(),
            purge_map@.len() == MAP_WIDTH as int * MAP_HEIGHT as int,
            1 <= x <= MAP_WIDTH as int - 1,
            forall|i: int, j: int|
                interior(i, j) ==> purge_map@[flat_index(i, j)] == (snapshot.at(i, j).wall
                    && spec_open_orth(snapshot, i, j) >= LONER_THRESHOLD),
            forall|i: int, j: int|
                interior(i, j) && i < x && snapshot.at(i, j).wall && spec_open_orth(snapshot, i, j)
                    >= LONER_THRESHOLD ==> (#[trigger] map.at(i, j)).empty,
            forall|i: int, j: int|
                in_bounds(i, j) && !(interior(i, j) && i < x && snapshot.at(i, j).wall
                    && spec_open_orth(snapshot, i, j) >= LONER_THRESHOLD) ==> #[trigger] map.at(
                    i,
                    j,
                ) == snapshot.at(i, j),
        decreases MAP_WIDTH as int - 1 - x,
    {
        let mut y: usize = 1;
        while y < MAP_HEIGHT - 1
            invariant
                map.wf(),
                snapshot.wf(),
                purge_map@.len() == MAP_WIDTH as int * MAP_HEIGHT as int,
                1 <= x < MAP_WIDTH as int - 1,
                1 <= y <= MAP_HEIGHT as int - 1,
                forall|i: int, j: int|
                    interior(i, j) ==> purge_map@[flat_index(i, j)] == (snapshot.at(i, j).wall
                        && spec_open_orth(snapshot, i, j) >= LONER_THRESHOLD),
                forall|i: int, j: int|
                    interior(i, j) && (i < x || (i == x && j < y)) && snapshot.at(i, j).wall
                        && spec_open_orth(snapshot, i, j) >= LONER_THRESHOLD ==> (#[trigger] map.at(
                        i,
                        j,
                    )).empty,
                forall|i: int, j: int|
                    in_bounds(i, j) && !(interior(i, j) && (i < x || (i == x && j < y))
                        && snapshot.at(i, j).wall && spec_open_orth(snapshot, i, j)
                        >= LONER_THRESHOLD) ==> #[trigger] map.at(i, j) == snapshot.at(i, j),
            decreases MAP_HEIGHT as int - 1 - y,
        {
            if mask_get(&purge_map, x, y) {
                let t = Tile::empty(colors, rng);
                map.set(x, y, t);
            }
            y = y + 1;
        }
        x = x + 1;
    }
}

} // verus!
