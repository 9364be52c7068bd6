//! The room packer: rejection-sampling placement of rectangular rooms.
//!
//! A fixed number of trials each draw a random room size and position; a
//! candidate that touches an already-accepted room is rejected, an accepted
//! one is carved open. Accepted rooms never overlap, and the first room's
//! center becomes the level's entry point.

use vstd::prelude::*;

use crate::grid::{in_bounds, Grid};
use crate::objects::Object;
use crate::rect::{spec_intersects, Rect};
use crate::rng::rand_range;
use crate::tiles::Palette;
use crate::tunnels::{create_room, room_in_map};
use rand::rngs::StdRng;

verus! {

/// How many room placements are attempted per level.
pub const MAX_ROOMS: u32 = 18;

/// Smallest allowed room side length.
pub const ROOM_MIN_SIZE: u32 = 4;

/// Largest allowed room side length.
pub const ROOM_MAX_SIZE: u32 = 12;

/// A room as the packer accepts it: on the map with its margin, and at least
/// the minimum size on both sides, so its center lies strictly inside its
/// carved interior.
pub open spec fn packed_room(r: Rect) -> bool {
    &&& room_in_map(r)
    &&& r.x2 - r.x1 >= ROOM_MIN_SIZE as int
    &&& r.y2 - r.y1 >= ROOM_MIN_SIZE as int
}

/// The center of a packed room lies strictly inside its interior.
pub proof fn lemma_packed_room_center_interior(r: Rect)
    requires
        packed_room(r),
    ensures
        r.x1 < r.spec_center().0 < r.x2,
        r.y1 < r.spec_center().1 < r.y2,
{
}

/// No room in `rooms` intersects `r`.
fn intersects_any(rooms: &Vec<Rect>, r: &Rect) -> (b: bool)
    ensures
        b == exists|k: int| 0 <= k < rooms@.len() && spec_intersects(#[trigger] rooms@[k], *r),
{
    let mut k: usize = 0;
    while k < rooms.len()
        invariant
            k <= rooms@.len(),
            forall|m: int| 0 <= m < k ==> !spec_intersects(#[trigger] rooms@[m], *r),
        decreases rooms@.len() - k,
    {
        if rooms[k].intersects_with(r) {
            return true;
        }
        k = k + 1;
    }
    false
}

/// Fills an all-wall grid with up to `MAX_ROOMS` non-overlapping rooms and
/// places the player at the first room's center. The first trial always
/// succeeds, so at least one room is produced; every accepted room keeps its
/// center carved open.
#[verifier::rlimit(100)]
pub fn rectangles(
    rooms: &mut Vec<Rect>,
    map: &mut Grid,
    colors: &Palette,
    player: &mut Object,
    rng: &mut StdRng,
)
    requires
        old(map).wf(),
        old(rooms)@.len() == 0,
    ensures
        final(map).wf(),
        1 <= final(rooms)@.len() <= MAX_ROOMS,
        forall|k: int| 0 <= k < final(rooms)@.len() ==> packed_room(#[trigger] final(rooms)@[k]),
        forall|a: int, b: int|
            0 <= a < b < final(rooms)@.len() ==> !spec_intersects(
                #[trigger] final(rooms)@[a],
                #[trigger] final(rooms)@[b],
            ),
        forall|k: int|
            0 <= k < final(rooms)@.len() ==> final(map).at(
                (#[trigger] final(rooms)@[k]).spec_center().0,
                final(rooms)@[k].spec_center().1,
            ).empty,
        forall|k: int, i: int, j: int|
            0 <= k < final(rooms)@.len() && (#[trigger] final(rooms)@[k]).x1 < i
                < final(rooms)@[k].x2 && final(rooms)@[k].y1 < j < final(rooms)@[k].y2
                ==> (#[trigger] final(map).at(i, j)).empty,
        forall|i: int, j: int|
            in_bounds(i, j) && #[trigger] final(map).at(i, j) != old(map).at(i, j)
                ==> exists|k: int|
                0 <= k < final(rooms)@.len() && (#[trigger] final(rooms)@[k]).x1 < i
                    < final(rooms)@[k].x2 && final(rooms)@[k].y1 < j < final(rooms)@[k].y2,
        final(player).x == final(rooms)@[0].spec_center().0,
        final(player).y == final(rooms)@[0].spec_center().1,
        final(player).name == old(player).name,
        final(player).blocks == old(player).blocks,
        final(player).fighter == old(player).fighter,
        final(player).alive == old(player).alive,
        final(map).at(final(player).x as int, final(player).y as int).empty,
{
    let mut trial: u32 = 0;
    while trial < MAX_ROOMS
        invariant
            map.wf(),
            trial <= MAX_ROOMS,
            rooms@.len() <= trial,
            trial >= 1 ==> rooms@.len() >= 1,
            forall|k: int| 0 <= k < rooms@.len() ==> packed_room(#[trigger] rooms@[k]),
            forall|a: int, b: int|
                0 <= a < b < rooms@.len() ==> !spec_intersects(
                    #[trigger] rooms@[a],
                    #[trigger] rooms@[b],
                ),
            forall|k: int|
                0 <= k < rooms@.len() ==> map.at(
                    (#[trigger] rooms@[k]).spec_center().0,
                    rooms@[k].spec_center().1,
                ).empty,
            forall|k: int, i: int, j: int|
                0 <= k < rooms@.len() && (#[trigger] rooms@[k]).x1 < i < rooms@[k].x2
                    && rooms@[k].y1 < j < rooms@[k].y2 ==> (#[trigger] map.at(i, j)).empty,
            forall|i: int, j: int|
                in_bounds(i, j) && #[trigger] map.at(i, j) != old(map).at(i, j) ==> exists|k: int|
                    0 <= k < rooms@.len() && (#[trigger] rooms@[k]).x1 < i < rooms@[k].x2
                        && rooms@[k].y1 < j < rooms@[k].y2,
            rooms@.len() >= 1 ==> {
                &&& player.x == rooms@[0].spec_center().0
                &&& player.y == rooms@[0].spec_center().1
                &&& player.name == old(player).name
                &&& player.blocks == old(player).blocks
                &&& player.fighter == old(player).fighter
                &&& player.alive == old(player).alive
            },
            rooms@.len() == 0 ==> *player == *old(player),
        decreases MAX_ROOMS - trial,
    {
        // Random width and height.
        let w = rand_range(rng, ROOM_MIN_SIZE, ROOM_MAX_SIZE + 1) as i32;
        let h = rand_range(rng, ROOM_MIN_SIZE, ROOM_MAX_SIZE + 1) as i32;
        // Random position that keeps the whole room inside the map boundary.
        let x = rand_range(rng, 0, crate::MAP_WIDTH as u32 - w as u32) as i32;
        let y = rand_range(rng, 0, crate::MAP_HEIGHT as u32 - h as u32) as i32;

        let new_room = Rect::new(x, y, w, h);

        // Reject the candidate if it touches any accepted room.
        let failed = intersects_any(rooms, &new_room);

        if !failed {
            let ghost pre_carve = *map;
            create_room(new_room, map, colors, rng);
            proof {
                assert forall|k: int|
                    0 <= k < rooms@.len() implies map.at(
                    (#[trigger] rooms@[k]).spec_center().0,
                    rooms@[k].spec_center().1,
                ).empty by {
                    let r = rooms@[k];
                    assert(!spec_intersects(r, new_room));
                    assert(!(new_room.x1 < r.spec_center().0 < new_room.x2 && new_room.y1
                        < r.spec_center().1 < new_room.y2));
                    assert(map.at(r.spec_center().0, r.spec_center().1) == pre_carve.at(
                        r.spec_center().0,
                        r.spec_center().1,
                    ));
                }
                assert forall|k: int, i: int, j: int|
                    0 <= k < rooms@.len() && (#[trigger] rooms@[k]).x1 < i < rooms@[k].x2
                        && rooms@[k].y1 < j < rooms@[k].y2 implies (#[trigger] map.at(
                    i,
                    j,
                )).empty by {
                    assert(!spec_intersects(rooms@[k], new_room));
                    if !(new_room.x1 < i < new_room.x2 && new_room.y1 < j < new_room.y2) {
                        assert(map.at(i, j) == pre_carve.at(i, j));
                    }
                }
            }

            let (new_x, new_y) = new_room.center();

            if rooms.is_empty() {
                // This is the first room, where the player starts.
                player.set_pos(new_x, new_y);
            }
            let ghost pre_rooms = rooms@;
            rooms.push(new_room);
            proof {
                lemma_packed_room_center_interior(new_room);
                assert forall|i: int, j: int|
                    in_bounds(i, j) && #[trigger] map.at(i, j) != old(map).at(i, j) implies exists|
                    k: int,
                |
                    0 <= k < rooms@.len() && (#[trigger] rooms@[k]).x1 < i < rooms@[k].x2
                        && rooms@[k].y1 < j < rooms@[k].y2 by {
                    if pre_carve.at(i, j) != old(map).at(i, j) {
                        let k0 = choose|k: int|
                            0 <= k < pre_rooms.len() && (#[trigger] pre_rooms[k]).x1 < i
                                < pre_rooms[k].x2 && pre_rooms[k].y1 < j < pre_rooms[k].y2;
                        assert(rooms@[k0] == pre_rooms[k0]);
                        assert(0 <= k0 < rooms@.len() && rooms@[k0].x1 < i < rooms@[k0].x2
                            && rooms@[k0].y1 < j < rooms@[k0].y2);
                    } else {
                        let k1 = rooms@.len() - 1;
                        assert(rooms@[k1] == new_room);
                        assert(new_room.x1 < i < new_room.x2 && new_room.y1 < j < new_room.y2);
                    }
                }
            }
        }
        trial = trial + 1;
    }
}

} // verus!
