//! Rooms as rectangles, intersection tests, and the sorting pass that puts
//! rooms (or anchor points) into reading order before corridors are drawn.

use vstd::prelude::*;

verus! {

/// A room: half-open bounds `[x1, x2) x [y1, y2)` whose interior
/// `(x1, x2) x (y1, y2)` is carved open, keeping a one-tile wall margin.
#[derive(Clone, Copy, Debug, PartialEq, Eq, Structural)]
pub struct Rect {
    pub x1: i32,
    pub y1: i32,
    pub x2: i32,
    pub y2: i32,
}

/// Closed-interval overlap of two rooms: touching edges count as
/// intersecting, which biases room packing toward sparser layouts.
pub open spec fn spec_intersects(a: Rect, b: Rect) -> bool {
    a.x1 <= b.x2 && a.x2 >= b.x1 && a.y1 <= b.y2 && a.y2 >= b.y1
}

impl Rect {
    /// Coordinates are non-negative, ordered, and small enough that center
    /// arithmetic cannot overflow.
    pub open spec fn wf(self) -> bool {
        &&& 0 <= self.x1 <= self.x2
        &&& 0 <= self.y1 <= self.y2
        &&& self.x2 <= 0x3fff_ffff
        &&& self.y2 <= 0x3fff_ffff
    }

    /// The midpoint of the room.
    pub open spec fn spec_center(self) -> (int, int) {
        ((self.x1 + self.x2) / 2, (self.y1 + self.y2) / 2)
    }

    /// Builds a room from a top-left corner and a width and height.
    pub fn new(x: i32, y: i32, w: i32, h: i32) -> (r: Rect)
        requires
            0 <= x,
            0 <= y,
            0 <= w,
            0 <= h,
            x + w <= 0x3fff_ffff,
            y + h <= 0x3fff_ffff,
        ensures
            r == (Rect { x1: x, y1: y, x2: (x + w) as i32, y2: (y + h) as i32 }),
            r.wf(),
    {
        Rect { x1: x, y1: y, x2: x + w, y2: y + h }
    }

    /// Returns the center point of the room.
    pub fn center(&self) -> (c: (i32, i32))
        requires
            self.wf(),
        ensures
            c.0 == self.spec_center().0,
            c.1 == self.spec_center().1,
            self.x1 <= c.0 <= self.x2,
            self.y1 <= c.1 <= self.y2,
    {
        ((self.x1 + self.x2) / 2, (self.y1 + self.y2) / 2)
    }

    /// Checks whether this room intersects another, counting shared edges.
    pub fn intersects_with(&self, other: &Rect) -> (r: bool)
        ensures
            r == spec_intersects(*self, *other),
    {
        self.x1 <= other.x2 && self.x2 >= other.x1 && self.y1 <= other.y2 && self.y2 >= other.y1
    }
}

/// Reading order on rooms: by center, x first, then y.
pub open spec fn rect_le(a: Rect, b: Rect) -> bool {
    a.spec_center().0 < b.spec_center().0 || (a.spec_center().0 == b.spec_center().0
        && a.spec_center().1 <= b.spec_center().1)
}

/// The rooms of `s` with indices in `[lo, hi)` are in reading order.
pub open spec fn rects_sorted_between(s: Seq<Rect>, lo: int, hi: int) -> bool {
    forall|a: int, b: int| lo <= a < b < hi ==> rect_le(#[trigger] s[a], #[trigger] s[b])
}

/// Compares two rooms by reading order on their centers.
fn rect_le_exec(a: &Rect, b: &Rect) -> (r: bool)
    requires
        a.wf(),
        b.wf(),
    ensures
        r == rect_le(*a, *b),
{
    let (ax, ay) = a.center();
    let (bx, by) = b.center();
    ax < bx || (ax == bx && ay <= by)
}

/// Sorts rooms into reading order by their centers (insertion sort), keeping
/// exactly the same collection of rooms.
pub fn room_sorter(rooms: &mut Vec<Rect>)
    requires
        forall|k: int| 0 <= k < old(rooms)@.len() ==> (#[trigger] old(rooms)@[k]).wf(),
    ensures
        final(rooms)@.len() == old(rooms)@.len(),
        final(rooms)@.to_multiset() == old(rooms)@.to_multiset(),
        rects_sorted_between(final(rooms)@, 0, final(rooms)@.len() as int),
        forall|k: int| 0 <= k < final(rooms)@.len() ==> (#[trigger] final(rooms)@[k]).wf(),
{
    broadcast use vstd::seq_lib::to_multiset_update;
    broadcast use vstd::multiset::group_multiset_axioms;

    let ghost orig = rooms@;
    let len = rooms.len();
    if len == 0 {
        return;
    }
    let mut i: usize = 1;
    while i < len
        invariant
            1 <= i <= len,
            rooms@.len() == len,
            len == orig.len(),
            rooms@.to_multiset() == orig.to_multiset(),
            rects_sorted_between(rooms@, 0, i as int),
            forall|k: int| 0 <= k < rooms@.len() ==> (#[trigger] rooms@[k]).wf(),
        decreases len - i,
    {
        let mut j: usize = i;
        let mut done = false;
        while !done && j > 0
            invariant
                0 <= j <= i < len,
                rooms@.len() == len,
                len == orig.len(),
                rooms@.to_multiset() == orig.to_multiset(),
                rects_sorted_between(rooms@, 0, j as int),
                rects_sorted_between(rooms@, j as int, i as int + 1),
                forall|a: int, b: int|
                    0 <= a < j && j as int + 1 <= b < i as int + 1
                        ==> rect_le(#[trigger] rooms@[a], #[trigger] rooms@[b]),
                forall|k: int| 0 <= k < rooms@.len() ==> (#[trigger] rooms@[k]).wf(),
                done ==> rects_sorted_between(rooms@, 0, i as int + 1),
            decreases (if done { 0int } else { 1int }), j,
        {
            let prev = rooms[j - 1];
            let cur = rooms[j];
            if rect_le_exec(&prev, &cur) {
                done = true;
                proof {
                    assert forall|a: int, b: int| 0 <= a < b < i as int + 1
                        implies rect_le(#[trigger] rooms@[a], #[trigger] rooms@[b]) by {
                        if a < j as int && b == j as int {
                            assert(rect_le(rooms@[j - 1], rooms@[j as int]));
                        }
                    }
                }
            } else {
                let ghost before = rooms@;
                rooms.set(j - 1, cur);
                rooms.set(j, prev);
                proof {
                    assert(rooms@ == before.update(j - 1, cur).update(j as int, prev));
                    vstd::seq_lib::to_multiset_update(before, j - 1, cur);
                    vstd::seq_lib::to_multiset_update(before.update(j - 1, cur), j as int, prev);
                    before.to_multiset_ensures();
                    assert(before[j - 1] == prev && 0 <= j - 1 < before.len());
                    assert(before.contains(prev));
                    assert(before.to_multiset().count(prev) > 0);
                    assert(rooms@.to_multiset() =~= before.to_multiset());
                }
                j = j - 1;
            }
        }
        i = i + 1;
    }
}

/// Two sequences with the same multiset hold the same elements: anything
/// found in one is found in the other.
pub proof fn lemma_multiset_elements_carry<T>(a: Seq<T>, b: Seq<T>)
    requires
        a.to_multiset() == b.to_multiset(),
    ensures
        forall|k: int| 0 <= k < b.len() ==> a.contains(#[trigger] b[k]),
{
    a.to_multiset_ensures();
    b.to_multiset_ensures();
    assert forall|k: int| 0 <= k < b.len() implies a.contains(#[trigger] b[k]) by {
        assert(b.contains(b[k]));
        assert(b.to_multiset().count(b[k]) > 0);
    }
}

/// Reading order on anchor points: x first, then y.
pub open spec fn point_le(a: (i32, i32), b: (i32, i32)) -> bool {
    a.0 < b.0 || (a.0 == b.0 && a.1 <= b.1)
}

/// The points of `s` with indices in `[lo, hi)` are in reading order.
pub open spec fn points_sorted_between(s: Seq<(i32, i32)>, lo: int, hi: int) -> bool {
    forall|a: int, b: int| lo <= a < b < hi ==> point_le(#[trigger] s[a], #[trigger] s[b])
}

/// Sorts anchor points into reading order (insertion sort), keeping exactly
/// the same collection of points.
pub fn point_sorter(points: &mut Vec<(i32, i32)>)
    ensures
        final(points)@.len() == old(points)@.len(),
        final(points)@.to_multiset() == old(points)@.to_multiset(),
        points_sorted_between(final(points)@, 0, final(points)@.len() as int),
{
    broadcast use vstd::seq_lib::to_multiset_update;
    broadcast use vstd::multiset::group_multiset_axioms;

    let ghost orig = points@;
    let len = points.len();
    if len == 0 {
        return;
    }
    let mut i: usize = 1;
    while i < len
        invariant
            1 <= i <= len,
            points@.len() == len,
            len == orig.len(),
            points@.to_multiset() == orig.to_multiset(),
            points_sorted_between(points@, 0, i as int),
        decreases len - i,
    {
        let mut j: usize = i;
        let mut done = false;
        while !done && j > 0
            invariant
                0 <= j <= i < len,
                points@.len() == len,
                len == orig.len(),
                points@.to_multiset() == orig.to_multiset(),
                points_sorted_between(points@, 0, j as int),
                points_sorted_between(points@, j as int, i as int + 1),
                forall|a: int, b: int|
                    0 <= a < j && j as int + 1 <= b < i as int + 1
                        ==> point_le(#[trigger] points@[a], #[trigger] points@[b]),
                done ==> points_sorted_between(points@, 0, i as int + 1),
            decreases (if done { 0int } else { 1int }), j,
        {
            let prev = points[j - 1];
            let cur = points[j];
            if prev.0 < cur.0 || (prev.0 == cur.0 && prev.1 <= cur.1) {
                done = true;
                proof {
                    assert forall|a: int, b: int| 0 <= a < b < i as int + 1
                        implies point_le(#[trigger] points@[a], #[trigger] points@[b]) by {
                        if a < j as int && b == j as int {
                            assert(point_le(points@[j - 1], points@[j as int]));
                        }
                    }
                }
            } else {
                let ghost before = points@;
                points.set(j - 1, cur);
                points.set(j, prev);
                proof {
                    assert(points@ == before.update(j - 1, cur).update(j as int, prev));
                    vstd::seq_lib::to_multiset_update(before, j - 1, cur);
                    vstd::seq_lib::to_multiset_update(before.update(j - 1, cur), j as int, prev);
                    before.to_multiset_ensures();
                    assert(before[j - 1] == prev && 0 <= j - 1 < before.len());
                    assert(before.contains(prev));
                    assert(before.to_multiset().count(prev) > 0);
                    assert(points@.to_multiset() =~= before.to_multiset());
                }
                j = j - 1;
            }
        }
        i = i + 1;
    }
}

} // verus!
