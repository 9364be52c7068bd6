//! Carving open regions into the grid: room interiors, L-shaped corridors
//! between anchor points, and the parallel secret passages that sometimes
//! accompany a corridor.

use vstd::prelude::*;

use crate::grid::{in_bounds, Grid};
use crate::rect::Rect;
use crate::rng::coin_flip;
use crate::tiles::{Palette, Tile};
use rand::rngs::StdRng;

verus! {

/// The smaller of two coordinates.
pub open spec fn spec_min(a: int, b: int) -> int {
    if a <= b {
        a
    } else {
        b
    }
}

/// The larger of two coordinates.
pub open spec fn spec_max(a: int, b: int) -> int {
    if a <= b {
        b
    } else {
        a
    }
}

/// Every tile open before is still open after: carving passes only ever add
/// open floor, they never wall an open tile back up.
pub open spec fn opens_preserved(before: Grid, after: Grid) -> bool {
    forall|i: int, j: int|
        in_bounds(i, j) && (#[trigger] before.at(i, j)).empty ==> after.at(i, j).empty
}

/// Carves the interior of a room open, leaving the one-tile margin around it
/// (and everything else on the map) untouched.
pub fn create_room(room: Rect, map: &mut Grid, colors: &Palette, rng: &mut StdRng)
    requires
        old(map).wf(),
        room.wf(),
        in_bounds(room.x2 as int, room.y2 as int),
    ensures
        final(map).wf(),
        forall|i: int, j: int|
            room.x1 < i < room.x2 && room.y1 < j < room.y2 ==> (#[trigger] final(map).at(i, j)).empty,
        forall|i: int, j: int|
            in_bounds(i, j) && !(room.x1 < i < room.x2 && room.y1 < j < room.y2)
                ==> #[trigger] final(map).at(i, j) == old(map).at(i, j),
        opens_preserved(*old(map), *final(map)),
{
    let mut x = room.x1 + 1;
    while x < room.x2
        invariant
            map.wf(),
            room.wf(),
            in_bounds(room.x2 as int, room.y2 as int),
            room.x1 + 1 <= x <= room.x2 || x == room.x1 + 1,
            forall|i: int, j: int|
                room.x1 < i < x && room.y1 < j < room.y2 ==> (#[trigger] map.at(i, j)).empty,
            forall|i: int, j: int|
                in_bounds(i, j) && !(room.x1 < i < x && room.y1 < j < room.y2)
                    ==> #[trigger] map.at(i, j) == old(map).at(i, j),
        decreases room.x2 - x,
    {
        let mut y = room.y1 + 1;
        while y < room.y2
            invariant
                map.wf(),
                room.wf(),
                in_bounds(room.x2 as int, room.y2 as int),
                room.x1 < x < room.x2,
                room.y1 + 1 <= y <= room.y2 || y == room.y1 + 1,
                forall|i: int, j: int|
                    room.x1 < i < x && room.y1 < j < room.y2 ==> (#[trigger] map.at(i, j)).empty,
                forall|j: int| room.y1 < j < y ==> (#[trigger] map.at(x as int, j)).empty,
                forall|i: int, j: int|
                    in_bounds(i, j) && !(room.x1 < i < x && room.y1 < j < room.y2) && !(i == x as int
                        && room.y1 < j < y) ==> #[trigger] map.at(i, j) == old(map).at(i, j),
            decreases room.y2 - y,
        {
            let t = Tile::empty(colors, rng);
            map.set(x as usize, y as usize, t);
            y = y + 1;
        }
        x = x + 1;
    }
}

/// Carves a horizontal corridor of open tiles between two columns.
pub fn create_h_tunnel(x1: i32, x2: i32, y: i32, map: &mut Grid, colors: &Palette, rng: &mut StdRng)
    requires
        old(map).wf(),
        in_bounds(x1 as int, y as int),
        in_bounds(x2 as int, y as int),
    ensures
        final(map).wf(),
        forall|i: int|
            spec_min(x1 as int, x2 as int) <= i <= spec_max(x1 as int, x2 as int)
                ==> (#[trigger] final(map).at(i, y as int)).empty,
        forall|i: int, j: int|
            in_bounds(i, j) && !(spec_min(x1 as int, x2 as int) <= i <= spec_max(
                x1 as int,
                x2 as int,
            ) && j == y as int) ==> #[trigger] final(map).at(i, j) == old(map).at(i, j),
        opens_preserved(*old(map), *final(map)),
{
    let lo = if x1 <= x2 {
        x1
    } else {
        x2
    };
    let hi = if x1 <= x2 {
        x2
    } else {
        x1
    };
    let mut x = lo;
    while x <= hi
        invariant
            map.wf(),
            0 <= lo <= hi,
            in_bounds(hi as int, y as int),
            lo <= x <= hi + 1,
            forall|i: int| lo <= i < x ==> (#[trigger] map.at(i, y as int)).empty,
            forall|i: int, j: int|
                in_bounds(i, j) && !(lo <= i < x && j == y as int)
                    ==> #[trigger] map.at(i, j) == old(map).at(i, j),
        decreases hi + 1 - x,
    {
        let t = Tile::empty(colors, rng);
        map.set(x as usize, y as usize, t);
        x = x + 1;
    }
}

/// Carves a vertical corridor of open tiles between two rows.
pub fn create_v_tunnel(y1: i32, y2: i32, x: i32, map: &mut Grid, colors: &Palette, rng: &mut StdRng)
    requires
        old(map).wf(),
        in_bounds(x as int, y1 as int),
        in_bounds(x as int, y2 as int),
    ensures
        final(map).wf(),
        forall|j: int|
            spec_min(y1 as int, y2 as int) <= j <= spec_max(y1 as int, y2 as int)
                ==> (#[trigger] final(map).at(x as int, j)).empty,
        forall|i: int, j: int|
            in_bounds(i, j) && !(spec_min(y1 as int, y2 as int) <= j <= spec_max(
                y1 as int,
                y2 as int,
            ) && i == x as int) ==> #[trigger] final(map).at(i, j) == old(map).at(i, j),
        opens_preserved(*old(map), *final(map)),
{
    let lo = if y1 <= y2 {
        y1
    } else {
        y2
    };
    let hi = if y1 <= y2 {
        y2
    } else {
        y1
    };
    let mut y = lo;
    while y <= hi
        invariant
            map.wf(),
            0 <= lo <= hi,
            in_bounds(x as int, hi as int),
            lo <= y <= hi + 1,
            forall|j: int| lo <= j < y ==> (#[trigger] map.at(x as int, j)).empty,
            forall|i: int, j: int|
                in_bounds(i, j) && !(lo <= j < y && i == x as int)
                    ==> #[trigger] map.at(i, j) == old(map).at(i, j),
        decreases hi + 1 - y,
    {
        let t = Tile::empty(colors, rng);
        map.set(x as usize, y as usize, t);
        y = y + 1;
    }
}

/// Turns the wall tiles of a horizontal run into secret passages, leaving
/// every non-wall tile (and everything outside the run) unchanged.
pub fn create_secret_h_tunnel(
    x1: i32,
    x2: i32,
    y: i32,
    map: &mut Grid,
    colors: &Palette,
    rng: &mut StdRng,
)
    requires
        old(map).wf(),
        in_bounds(x1 as int, y as int),
        in_bounds(x2 as int, y as int),
    ensures
        final(map).wf(),
        forall|i: int|
            spec_min(x1 as int, x2 as int) <= i <= spec_max(x1 as int, x2 as int) && old(
                map,
            ).wall_at(i, y as int) ==> #[trigger] final(map).at(i, y as int).secret_path,
        forall|i: int, j: int|
            in_bounds(i, j) && !(spec_min(x1 as int, x2 as int) <= i <= spec_max(
                x1 as int,
                x2 as int,
            ) && j == y as int && old(map).wall_at(i, j)) ==> #[trigger] final(map).at(i, j) == old(
                map,
            ).at(i, j),
        opens_preserved(*old(map), *final(map)),
{
    let lo = if x1 <= x2 {
        x1
    } else {
        x2
    };
    let hi = if x1 <= x2 {
        x2
    } else {
        x1
    };
    let mut x = lo;
    while x <= hi
        invariant
            map.wf(),
            0 <= lo <= hi,
            in_bounds(hi as int, y as int),
            lo <= x <= hi + 1,
            forall|i: int|
                lo <= i < x && old(map).wall_at(i, y as int) ==> #[trigger] map.at(
                    i,
                    y as int,
                ).secret_path,
            forall|i: int, j: int|
                in_bounds(i, j) && !(lo <= i < x && j == y as int && old(map).wall_at(i, j))
                    ==> #[trigger] map.at(i, j) == old(map).at(i, j),
        decreases hi + 1 - x,
    {
        if map.get(x as usize, y as usize).wall {
            let t = Tile::hidden_passage(colors, rng);
            map.set(x as usize, y as usize, t);
        }
        x = x + 1;
    }
    proof {
        Grid::lemma_tiles_wf(*old(map));
    }
}

/// Turns the wall tiles of a vertical run into secret passages, leaving
/// every non-wall tile (and everything outside the run) unchanged.
pub fn create_secret_v_tunnel(
    y1: i32,
    y2: i32,
    x: i32,
    map: &mut Grid,
    colors: &Palette,
    rng: &mut StdRng,
)
    requires
        old(map).wf(),
        in_bounds(x as int, y1 as int),
        in_bounds(x as int, y2 as int),
    ensures
        final(map).wf(),
        forall|j: int|
            spec_min(y1 as int, y2 as int) <= j <= spec_max(y1 as int, y2 as int) && old(
                map,
            ).wall_at(x as int, j) ==> #[trigger] final(map).at(x as int, j).secret_path,
        forall|i: int, j: int|
            in_bounds(i, j) && !(spec_min(y1 as int, y2 as int) <= j <= spec_max(
                y1 as int,
                y2 as int,
            ) && i == x as int && old(map).wall_at(i, j)) ==> #[trigger] final(map).at(i, j) == old(
                map,
            ).at(i, j),
        opens_preserved(*old(map), *final(map)),
{
    let lo = if y1 <= y2 {
        y1
    } else {
        y2
    };
    let hi = if y1 <= y2 {
        y2
    } else {
        y1
    };
    let mut y = lo;
    while y <= hi
        invariant
            map.wf(),
            0 <= lo <= hi,
            in_bounds(x as int, hi as int),
            lo <= y <= hi + 1,
            forall|j: int|
                lo <= j < y && old(map).wall_at(x as int, j) ==> #[trigger] map.at(
                    x as int,
                    j,
                ).secret_path,
            forall|i: int, j: int|
                in_bounds(i, j) && !(lo <= j < y && i == x as int && old(map).wall_at(i, j))
                    ==> #[trigger] map.at(i, j) == old(map).at(i, j),
        decreases hi + 1 - y,
    {
        if map.get(x as usize, y as usize).wall {
            let t = Tile::hidden_passage(colors, rng);
            map.set(x as usize, y as usize, t);
        }
        y = y + 1;
    }
    proof {
        Grid::lemma_tiles_wf(*old(map));
    }
}

/// A room that fits on the map with its margin, as the room packer makes them.
pub open spec fn room_in_map(r: Rect) -> bool {
    &&& r.wf()
    &&& in_bounds(r.x2 as int, r.y2 as int)
}

/// Connects consecutive rooms with L-shaped corridors between their centers,
/// the bend direction chosen by a coin flip per pair, sometimes carving a
/// mirrored secret passage beside the corridor.
#[verifier::rlimit(100)]
pub fn create_tunnels(rooms: &Vec<Rect>, map: &mut Grid, colors: &Palette, rng: &mut StdRng)
    requires
        old(map).wf(),
        rooms@.len() >= 2,
        forall|k: int| 0 <= k < rooms@.len() ==> room_in_map(#[trigger] rooms@[k]),
    ensures
        final(map).wf(),
        opens_preserved(*old(map), *final(map)),
        forall|i: int, j: int|
            in_bounds(i, j) && #[trigger] final(map).at(i, j) != old(map).at(i, j)
                ==> final(map).at(i, j).empty || (final(map).at(i, j).secret_path && old(map).at(
                i,
                j,
            ).wall),
        forall|k: int|
            0 <= k < rooms@.len() ==> final(map).at(
                (#[trigger] rooms@[k]).spec_center().0,
                rooms@[k].spec_center().1,
            ).empty,
{
    let mut room_num: usize = 0;
    while room_num < rooms.len() - 1
        invariant
            map.wf(),
            rooms@.len() >= 2,
            forall|k: int| 0 <= k < rooms@.len() ==> room_in_map(#[trigger] rooms@[k]),
            room_num < rooms@.len(),
            opens_preserved(*old(map), *map),
            forall|i: int, j: int|
                in_bounds(i, j) && #[trigger] map.at(i, j) != old(map).at(i, j) ==> map.at(
                    i,
                    j,
                ).empty || (map.at(i, j).secret_path && old(map).at(i, j).wall),
            room_num >= 1 ==> forall|k: int|
                0 <= k <= room_num ==> map.at(
                    (#[trigger] rooms@[k]).spec_center().0,
                    rooms@[k].spec_center().1,
                ).empty,
        decreases rooms@.len() - room_num,
    {
        let ghost pre_iter = *map;
        let (x1, y1) = rooms[room_num].center();
        let (x2, y2) = rooms[room_num + 1].center();

        if coin_flip(rng) {
            // Horizontal tunnel first.
            create_h_tunnel(x1, x2, y1, map, colors, rng);
            let ghost s1 = *map;
            create_v_tunnel(y1, y2, x2, map, colors, rng);
            let ghost s2 = *map;
            if coin_flip(rng) {
                // The mirrored L becomes a secret passage.
                create_secret_v_tunnel(y1, y2, x1, map, colors, rng);
                let ghost s3 = *map;
                create_secret_h_tunnel(x1, x2, y2, map, colors, rng);
                proof {
                    assert forall|i: int, j: int|
                        in_bounds(i, j) && #[trigger] map.at(i, j) != pre_iter.at(i, j)
                            implies map.at(i, j).empty || (map.at(i, j).secret_path
                            && pre_iter.at(i, j).wall) by {
                        if !map.at(i, j).empty {
                            Grid::lemma_tiles_wf(s2);
                            Grid::lemma_tiles_wf(s3);
                            if map.at(i, j) != s3.at(i, j) {
                                assert(map.at(i, j).secret_path && s3.at(i, j).wall);
                                assert(s3.at(i, j) == s2.at(i, j));
                                assert(s2.at(i, j) == s1.at(i, j) && s1.at(i, j) == pre_iter.at(
                                    i,
                                    j,
                                ));
                            } else if s3.at(i, j) != s2.at(i, j) {
                                assert(s3.at(i, j).secret_path && s2.at(i, j).wall);
                                assert(s2.at(i, j) == s1.at(i, j) && s1.at(i, j) == pre_iter.at(
                                    i,
                                    j,
                                ));
                            } else {
                                assert(s2.at(i, j) == map.at(i, j) && !s2.at(i, j).empty);
                                assert(s2.at(i, j) == s1.at(i, j) && s1.at(i, j) == pre_iter.at(
                                    i,
                                    j,
                                ));
                            }
                        }
                    }
                }
            } else {
                proof {
                    assert forall|i: int, j: int|
                        in_bounds(i, j) && #[trigger] map.at(i, j) != pre_iter.at(i, j)
                            implies map.at(i, j).empty || (map.at(i, j).secret_path
                            && pre_iter.at(i, j).wall) by {
                        if !map.at(i, j).empty {
                            assert(map.at(i, j) == s1.at(i, j) && s1.at(i, j) == pre_iter.at(
                                i,
                                j,
                            ));
                        }
                    }
                }
            }
        } else {
            // Vertical tunnel first.
            create_v_tunnel(y1, y2, x1, map, colors, rng);
            let ghost s1 = *map;
            create_h_tunnel(x1, x2, y2, map, colors, rng);
            let ghost s2 = *map;
            if coin_flip(rng) {
                // The mirrored L becomes a secret passage.
                create_secret_h_tunnel(x1, x2, y1, map, colors, rng);
                let ghost s3 = *map;
                create_secret_v_tunnel(y1, y2, x2, map, colors, rng);
                proof {
                    assert forall|i: int, j: int|
                        in_bounds(i, j) && #[trigger] map.at(i, j) != pre_iter.at(i, j)
                            implies map.at(i, j).empty || (map.at(i, j).secret_path
                            && pre_iter.at(i, j).wall) by {
                        if !map.at(i, j).empty {
                            Grid::lemma_tiles_wf(s2);
                            Grid::lemma_tiles_wf(s3);
                            if map.at(i, j) != s3.at(i, j) {
                                assert(map.at(i, j).secret_path && s3.at(i, j).wall);
                                assert(s3.at(i, j) == s2.at(i, j));
                                assert(s2.at(i, j) == s1.at(i, j) && s1.at(i, j) == pre_iter.at(
                                    i,
                                    j,
                                ));
                            } else if s3.at(i, j) != s2.at(i, j) {
                                assert(s3.at(i, j).secret_path && s2.at(i, j).wall);
                                assert(s2.at(i, j) == s1.at(i, j) && s1.at(i, j) == pre_iter.at(
                                    i,
                                    j,
                                ));
                            } else {
                                assert(s2.at(i, j) == map.at(i, j) && !s2.at(i, j).empty);
                                assert(s2.at(i, j) == s1.at(i, j) && s1.at(i, j) == pre_iter.at(
                                    i,
                                    j,
                                ));
                            }
                        }
                    }
                }
            } else {
                proof {
                    assert forall|i: int, j: int|
                        in_bounds(i, j) && #[trigger] map.at(i, j) != pre_iter.at(i, j)
                            implies map.at(i, j).empty || (map.at(i, j).secret_path
                            && pre_iter.at(i, j).wall) by {
                        if !map.at(i, j).empty {
                            assert(map.at(i, j) == s1.at(i, j) && s1.at(i, j) == pre_iter.at(
                                i,
                                j,
                            ));
                        }
                    }
                }
            }
        }
        proof {
            assert forall|i: int, j: int|
                in_bounds(i, j) && #[trigger] map.at(i, j) != old(map).at(i, j) implies map.at(
                i,
                j,
            ).empty || (map.at(i, j).secret_path && old(map).at(i, j).wall) by {
                if map.at(i, j) != pre_iter.at(i, j) && !map.at(i, j).empty {
                    // Turned secret this round, from a tile still walled at
                    // the round's start, so never touched in earlier rounds.
                    Grid::lemma_tiles_wf(pre_iter);
                    assert(map.at(i, j).secret_path && pre_iter.at(i, j).wall);
                    assert(pre_iter.at(i, j) == old(map).at(i, j));
                }
            }
        }
        room_num = room_num + 1;
    }
}

/// Connects consecutive anchor points of a non-room map with L-shaped
/// corridors, the bend direction chosen by a coin flip per pair.
pub fn joiner(points: &Vec<(i32, i32)>, map: &mut Grid, colors: &Palette, rng: &mut StdRng)
    requires
        old(map).wf(),
        points@.len() >= 2,
        forall|k: int|
            0 <= k < points@.len() ==> in_bounds(
                (#[trigger] points@[k]).0 as int,
                points@[k].1 as int,
            ),
    ensures
        final(map).wf(),
        opens_preserved(*old(map), *final(map)),
        forall|i: int, j: int|
            in_bounds(i, j) && #[trigger] final(map).at(i, j) != old(map).at(i, j)
                ==> final(map).at(i, j).empty,
{
    let mut point_num: usize = 0;
    while point_num < points.len() - 1
        invariant
            map.wf(),
            points@.len() >= 2,
            forall|k: int|
                0 <= k < points@.len() ==> in_bounds(
                    (#[trigger] points@[k]).0 as int,
                    points@[k].1 as int,
                ),
            point_num < points@.len(),
            opens_preserved(*old(map), *map),
            forall|i: int, j: int|
                in_bounds(i, j) && #[trigger] map.at(i, j) != old(map).at(i, j) ==> map.at(
                    i,
                    j,
                ).empty,
        decreases points@.len() - point_num,
    {
        let (x1, y1) = points[point_num];
        let (x2, y2) = points[point_num + 1];

        if coin_flip(rng) {
            // Horizontal tunnel first.
            create_h_tunnel(x1, x2, y1, map, colors, rng);
            create_v_tunnel(y1, y2, x2, map, colors, rng);
        } else {
            // Vertical tunnel first.
            create_v_tunnel(y1, y2, x1, map, colors, rng);
            create_h_tunnel(x1, x2, y2, map, colors, rng);
        }
        point_num = point_num + 1;
    }
}

} // verus!
