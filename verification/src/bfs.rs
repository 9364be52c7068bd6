//! Breadth-first search over the grid, and the reachability pruner built on
//! it: after the search from the entry tile, every open tile the search never
//! reached is walled up, so the finished level has a single connected open
//! region containing the entry.
//!
//! The search moves through non-wall tiles using 4-connectivity only:
//! stricter than the 8-neighbor counting used during generation, so
//! diagonal-only "connections" are not treated as traversable.

use vstd::prelude::*;

use crate::grid::{flat_index, in_bounds, lemma_flat_index_bounds, lemma_flat_index_injective, Grid};
use crate::objects::Object;
use crate::tiles::{Palette, Tile};
use crate::{Point, MAP_HEIGHT, MAP_WIDTH};

verus! {

/// Two coordinates are 4-adjacent: one step apart horizontally or vertically.
pub open spec fn adj4(a: (int, int), b: (int, int)) -> bool {
    (a.0 == b.0 && (a.1 == b.1 + 1 || b.1 == a.1 + 1)) || (a.1 == b.1 && (a.0 == b.0 + 1 || b.0
        == a.0 + 1))
}

/// A walk across the grid: non-empty, every vertex on the map and not a
/// wall, and consecutive vertices 4-adjacent.
pub open spec fn path_ok(g: Grid, p: Seq<(int, int)>) -> bool {
    &&& p.len() >= 1
    &&& forall|i: int|
        0 <= i < p.len() ==> in_bounds((#[trigger] p[i]).0, p[i].1) && !g.at(p[i].0, p[i].1).wall
    &&& forall|i: int| 0 <= i < p.len() - 1 ==> adj4(#[trigger] p[i], p[i + 1])
}

/// `t` can be walked to from `s` through non-wall tiles.
pub open spec fn reachable(g: Grid, s: (int, int), t: (int, int)) -> bool {
    exists|p: Seq<(int, int)>| #[trigger] path_ok(g, p) && p.first() == s && p.last() == t
}

/// One search node per grid tile.
#[derive(Clone, Copy, Debug)]
pub struct Node {
    pub x: u32,
    pub y: u32,
    pub visited: bool,
    pub comes_from: (u32, u32),
}

impl Node {
    fn new(x: u32, y: u32) -> (n: Node)
        ensures
            n.x == x,
            n.y == y,
            !n.visited,
            n.comes_from == (x, y),
    {
        Node { x, y, visited: false, comes_from: (x, y) }
    }

    /// Records where the search reached this node from, once.
    fn comes_from(&mut self, previous: Point)
        ensures
            final(self).x == old(self).x,
            final(self).y == old(self).y,
            final(self).visited == old(self).visited,
    {
        if !self.visited {
            let (x, y) = previous;
            self.comes_from = (x, y);
        }
    }

    pub fn get_xy(&self) -> (r: Point)
        ensures
            r.0 == self.x,
            r.1 == self.y,
    {
        (self.x, self.y)
    }

    fn visit(&mut self)
        ensures
            final(self).x == old(self).x,
            final(self).y == old(self).y,
            final(self).visited,
            final(self).comes_from == old(self).comes_from,
    {
        self.visited = true;
    }
}

/// The node for tile `(x, y)` in a node sequence.
pub open spec fn node_at(ns: Seq<Node>, x: int, y: int) -> Node {
    ns[flat_index(x, y)]
}

/// Whether the node sequence marks tile `(x, y)` visited.
pub open spec fn vis(ns: Seq<Node>, x: int, y: int) -> bool {
    node_at(ns, x, y).visited
}

/// One node per tile, each knowing its own coordinates.
pub open spec fn nodes_wf(ns: Seq<Node>) -> bool {
    &&& ns.len() == MAP_WIDTH as int * MAP_HEIGHT as int
    &&& forall|x: int, y: int|
        in_bounds(x, y) ==> (#[trigger] node_at(ns, x, y)).x == x && node_at(ns, x, y).y == y
}

/// A path whose every vertex the node sequence marks visited.
pub open spec fn visited_path_ok(g: Grid, ns: Seq<Node>, p: Seq<(int, int)>) -> bool {
    &&& path_ok(g, p)
    &&& forall|i: int| 0 <= i < p.len() ==> vis(ns, (#[trigger] p[i]).0, p[i].1)
}

/// A visited path leads from `s` to `t`.
pub open spec fn visited_path_to(g: Grid, ns: Seq<Node>, s: (int, int), t: (int, int)) -> bool {
    exists|p: Seq<(int, int)>|
        #[trigger] visited_path_ok(g, ns, p) && p.first() == s && p.last() == t
}

/// A coordinate strictly inside the map border; the search only ever steps
/// onto such tiles.
pub open spec fn interior_coord(c: (int, int)) -> bool {
    1 <= c.0 < MAP_WIDTH as int - 1 && 1 <= c.1 < MAP_HEIGHT as int - 1
}

/// Every walkable interior neighbor of `(x, y)` is visited.
pub open spec fn closed_at(g: Grid, ns: Seq<Node>, x: int, y: int) -> bool {
    forall|nx: int, ny: int|
        #[trigger] adj4((x, y), (nx, ny)) && 1 <= nx < MAP_WIDTH as int - 1 && 1 <= ny
            < MAP_HEIGHT as int - 1 && !g.at(nx, ny).wall ==> vis(ns, nx, ny)
}

/// A node with these coordinates sits on the frontier.
pub open spec fn in_frontier(f: Seq<Node>, x: int, y: int) -> bool {
    exists|k: int| 0 <= k < f.len() && (#[trigger] f[k]).x == x && f[k].y == y
}

/// A non-wall walk from `s` to `t` whose every step past the first stays
/// strictly inside the map border.
pub open spec fn interior_path_to(g: Grid, s: (int, int), t: (int, int)) -> bool {
    exists|p: Seq<(int, int)>|
        #[trigger] path_ok(g, p) && p.first() == s && p.last() == t && (forall|i: int|
            1 <= i < p.len() ==> interior_coord(#[trigger] p[i]))
}

/// Under a neighbor-closed visited set, visiting a walk's first vertex
/// visits its last: the induction behind search completeness.
proof fn lemma_closure_reaches(g: Grid, ns: Seq<Node>, p: Seq<(int, int)>)
    requires
        path_ok(g, p),
        forall|i: int| 1 <= i < p.len() ==> interior_coord(#[trigger] p[i]),
        vis(ns, p.first().0, p.first().1),
        forall|x: int, y: int|
            in_bounds(x, y) && #[trigger] vis(ns, x, y) ==> closed_at(g, ns, x, y),
    ensures
        vis(ns, p.last().0, p.last().1),
    decreases p.len(),
{
    if p.len() > 1 {
        let q = p.drop_last();
        assert(q.len() == p.len() - 1);
        assert forall|i: int| 0 <= i < q.len() implies in_bounds((#[trigger] q[i]).0, q[i].1)
            && !g.at(q[i].0, q[i].1).wall by {
            assert(q[i] == p[i]);
        }
        assert forall|i: int| 0 <= i < q.len() - 1 implies adj4(#[trigger] q[i], q[i + 1]) by {
            assert(q[i] == p[i] && q[i + 1] == p[i + 1]);
        }
        assert forall|i: int| 1 <= i < q.len() implies interior_coord(#[trigger] q[i]) by {
            assert(q[i] == p[i]);
        }
        lemma_closure_reaches(g, ns, q);
        let prev = p[p.len() - 2];
        let last = p.last();
        assert(q.last() == prev && q.first() == p.first());
        assert(vis(ns, prev.0, prev.1));
        assert(adj4(p[p.len() - 2], p[p.len() - 1]));
        assert(adj4((prev.0, prev.1), (last.0, last.1)));
        assert(closed_at(g, ns, prev.0, prev.1));
        assert(interior_coord(last));
        assert(vis(ns, last.0, last.1));
    }
}

/// One expansion step of the search preserves the closure bookkeeping:
/// after visiting `m` and pushing it onto the frontier, every visited node
/// is still on the frontier, closed, or the node currently being expanded.
proof fn lemma_closure_step(
    g: Grid,
    before: Seq<Node>,
    now: Seq<Node>,
    pre_f: Seq<Node>,
    now_f: Seq<Node>,
    cx: int,
    cy: int,
    m: (int, int),
)
    requires
        forall|a: int, b: int| in_bounds(a, b) && #[trigger] vis(before, a, b) ==> vis(now, a, b),
        forall|a: int, b: int|
            in_bounds(a, b) && !(a == m.0 && b == m.1) ==> #[trigger] vis(now, a, b) == vis(
                before,
                a,
                b,
            ),
        vis(now, m.0, m.1),
        in_bounds(m.0, m.1),
        now_f.len() == pre_f.len() + 1,
        forall|kk: int| 0 <= kk < pre_f.len() ==> #[trigger] now_f[kk] == pre_f[kk],
        now_f.last().x as int == m.0 && now_f.last().y as int == m.1,
        forall|x: int, y: int|
            in_bounds(x, y) && #[trigger] vis(before, x, y) ==> in_frontier(pre_f, x, y)
                || closed_at(g, before, x, y) || (x == cx && y == cy),
    ensures
        forall|x: int, y: int|
            in_bounds(x, y) && #[trigger] vis(now, x, y) ==> in_frontier(now_f, x, y) || closed_at(
                g,
                now,
                x,
                y,
            ) || (x == cx && y == cy),
{
    assert forall|x: int, y: int|
        in_bounds(x, y) && #[trigger] vis(now, x, y) implies in_frontier(now_f, x, y) || closed_at(
        g,
        now,
        x,
        y,
    ) || (x == cx && y == cy) by {
        if x == m.0 && y == m.1 {
            assert(now_f.last().x as int == x && now_f.last().y as int == y);
            assert(in_frontier(now_f, x, y));
        } else {
            assert(vis(before, x, y));
            if in_frontier(pre_f, x, y) {
                let kk = choose|kk: int|
                    0 <= kk < pre_f.len() && (#[trigger] pre_f[kk]).x == x && pre_f[kk].y == y;
                assert(now_f[kk] == pre_f[kk]);
                assert(in_frontier(now_f, x, y));
            } else if closed_at(g, before, x, y) {
                assert forall|nx: int, ny: int|
                    #[trigger] adj4((x, y), (nx, ny)) && 1 <= nx < MAP_WIDTH as int - 1 && 1 <= ny
                        < MAP_HEIGHT as int - 1 && !g.at(nx, ny).wall implies vis(now, nx, ny) by {
                    assert(vis(before, nx, ny));
                }
            }
        }
    }
}

/// How many of a node sequence are not yet visited.
pub open spec fn count_unvisited(ns: Seq<Node>) -> int
    decreases ns.len(),
{
    if ns.len() == 0 {
        0
    } else {
        count_unvisited(ns.drop_last()) + if ns.last().visited {
            0int
        } else {
            1int
        }
    }
}

proof fn lemma_count_nonneg(ns: Seq<Node>)
    ensures
        count_unvisited(ns) >= 0,
    decreases ns.len(),
{
    if ns.len() > 0 {
        lemma_count_nonneg(ns.drop_last());
    }
}

proof fn lemma_count_congruent(a: Seq<Node>, b: Seq<Node>)
    requires
        a.len() == b.len(),
        forall|i: int| 0 <= i < a.len() ==> (#[trigger] a[i]).visited == b[i].visited,
    ensures
        count_unvisited(a) == count_unvisited(b),
    decreases a.len(),
{
    if a.len() > 0 {
        lemma_count_congruent(a.drop_last(), b.drop_last());
    }
}

proof fn lemma_count_visit(a: Seq<Node>, b: Seq<Node>, idx: int)
    requires
        a.len() == b.len(),
        0 <= idx < a.len(),
        !a[idx].visited,
        b[idx].visited,
        forall|i: int| 0 <= i < a.len() && i != idx ==> (#[trigger] a[i]).visited == b[i].visited,
    ensures
        count_unvisited(b) == count_unvisited(a) - 1,
    decreases a.len(),
{
    if idx == a.len() - 1 {
        lemma_count_congruent(a.drop_last(), b.drop_last());
    } else {
        lemma_count_visit(a.drop_last(), b.drop_last(), idx);
    }
}

proof fn lemma_path_to_monotone(
    g: Grid,
    ns1: Seq<Node>,
    ns2: Seq<Node>,
    s: (int, int),
    t: (int, int),
)
    requires
        visited_path_to(g, ns1, s, t),
        forall|x: int, y: int| in_bounds(x, y) && #[trigger] vis(ns1, x, y) ==> vis(ns2, x, y),
    ensures
        visited_path_to(g, ns2, s, t),
{
    let p = choose|p: Seq<(int, int)>|
        #[trigger] visited_path_ok(g, ns1, p) && p.first() == s && p.last() == t;
    assert forall|i: int| 0 <= i < p.len() implies vis(ns2, (#[trigger] p[i]).0, p[i].1) by {
        assert(vis(ns1, p[i].0, p[i].1));
        assert(in_bounds(p[i].0, p[i].1));
    }
    assert(visited_path_ok(g, ns2, p));
}

proof fn lemma_path_extend(g: Grid, ns: Seq<Node>, s: (int, int), c: (int, int), m: (int, int))
    requires
        visited_path_to(g, ns, s, c),
        in_bounds(m.0, m.1),
        !g.at(m.0, m.1).wall,
        vis(ns, m.0, m.1),
        adj4(c, m),
    ensures
        visited_path_to(g, ns, s, m),
{
    let p = choose|p: Seq<(int, int)>|
        #[trigger] visited_path_ok(g, ns, p) && p.first() == s && p.last() == c;
    let p2 = p.push(m);
    assert(p2.last() == m);
    assert(p2.first() == s);
    assert forall|i: int| 0 <= i < p2.len() implies in_bounds((#[trigger] p2[i]).0, p2[i].1)
        && !g.at(p2[i].0, p2[i].1).wall && vis(ns, p2[i].0, p2[i].1) by {
        if i < p.len() {
            assert(p2[i] == p[i]);
        } else {
            assert(p2[i] == m);
        }
    }
    assert forall|i: int| 0 <= i < p2.len() - 1 implies adj4(#[trigger] p2[i], p2[i + 1]) by {
        if i < p.len() - 1 {
            assert(p2[i] == p[i] && p2[i + 1] == p[i + 1]);
        } else {
            assert(p2[i] == p.last() && p2[i + 1] == m);
        }
    }
    assert(visited_path_ok(g, ns, p2));
}

/// The search state: one node per tile, the expanding frontier, and the path
/// last reconstructed by `breadcrumb`.
#[derive(Debug)]
pub struct Broadfs {
    pub nodes: Vec<Node>,
    pub frontier: Vec<Node>,
    pub path: Vec<Node>,
}

impl Broadfs {
    /// Creates a fresh search state with an unvisited node per tile.
    pub fn new() -> (b: Broadfs)
        ensures
            nodes_wf(b.nodes@),
            forall|x: int, y: int| in_bounds(x, y) ==> !vis(b.nodes@, x, y),
            forall|x: int, y: int|
                in_bounds(x, y) ==> (#[trigger] node_at(b.nodes@, x, y)).comes_from.0 == x
                    && node_at(b.nodes@, x, y).comes_from.1 == y,
            b.frontier@.len() == 0,
            b.path@.len() == 0,
    {
        let mut nodes: Vec<Node> = Vec::new();
        let mut x: u32 = 0;
        while x < MAP_WIDTH as u32
            invariant
                x <= MAP_WIDTH as u32,
                nodes@.len() == x * MAP_HEIGHT as int,
                forall|a: int, b: int|
                    in_bounds(a, b) && flat_index(a, b) < nodes@.len() ==> {
                        &&& (#[trigger] node_at(nodes@, a, b)).x == a
                        &&& node_at(nodes@, a, b).y == b
                        &&& !node_at(nodes@, a, b).visited
                        &&& node_at(nodes@, a, b).comes_from.0 == a
                        &&& node_at(nodes@, a, b).comes_from.1 == b
                    },
            decreases MAP_WIDTH as int - x,
        {
            let mut y: u32 = 0;
            while y < MAP_HEIGHT as u32
                invariant
                    x < MAP_WIDTH as u32,
                    y <= MAP_HEIGHT as u32,
                    nodes@.len() == x * MAP_HEIGHT as int + y,
                    forall|a: int, b: int|
                        in_bounds(a, b) && flat_index(a, b) < nodes@.len() ==> {
                            &&& (#[trigger] node_at(nodes@, a, b)).x == a
                            &&& node_at(nodes@, a, b).y == b
                            &&& !node_at(nodes@, a, b).visited
                            &&& node_at(nodes@, a, b).comes_from.0 == a
                            &&& node_at(nodes@, a, b).comes_from.1 == b
                        },
                decreases MAP_HEIGHT as int - y,
            {
                let n = Node::new(x, y);
                let ghost prev = nodes@;
                nodes.push(n);
                proof {
                    assert forall|a: int, b: int|
                        in_bounds(a, b) && flat_index(a, b) < nodes@.len() implies {
                        &&& (#[trigger] node_at(nodes@, a, b)).x == a
                        &&& node_at(nodes@, a, b).y == b
                        &&& !node_at(nodes@, a, b).visited
                        &&& node_at(nodes@, a, b).comes_from.0 == a
                        &&& node_at(nodes@, a, b).comes_from.1 == b
                    } by {
                        lemma_flat_index_bounds(a, b);
                        if flat_index(a, b) == x * MAP_HEIGHT as int + y {
                            lemma_flat_index_injective(a, b, x as int, y as int);
                        } else {
                            assert(node_at(nodes@, a, b) == node_at(prev, a, b));
                            assert(node_at(prev, a, b).x == a && node_at(prev, a, b).y == b
                                && !node_at(prev, a, b).visited && node_at(prev, a, b).comes_from.0
                                == a && node_at(prev, a, b).comes_from.1 == b);
                        }
                    }
                }
                y = y + 1;
            }
            x = x + 1;
        }
        let b = Broadfs { nodes, frontier: Vec::new(), path: Vec::new() };
        proof {
            assert forall|x: int, y: int| in_bounds(x, y) implies {
                &&& (#[trigger] node_at(b.nodes@, x, y)).x == x
                &&& node_at(b.nodes@, x, y).y == y
                &&& !vis(b.nodes@, x, y)
                &&& node_at(b.nodes@, x, y).comes_from.0 == x
                &&& node_at(b.nodes@, x, y).comes_from.1 == y
            } by {
                lemma_flat_index_bounds(x, y);
            }
        }
        b
    }

    /// Reads the node for `(x, y)`.
    pub fn get_node(&self, x: u32, y: u32) -> (r: Option<Node>)
        requires
            nodes_wf(self.nodes@),
        ensures
            in_bounds(x as int, y as int) ==> r == Some(node_at(self.nodes@, x as int, y as int)),
            !in_bounds(x as int, y as int) ==> r is None,
    {
        if x < MAP_WIDTH as u32 && y < MAP_HEIGHT as u32 {
            proof {
                lemma_flat_index_bounds(x as int, y as int);
            }
            Some(self.nodes[x as usize * MAP_HEIGHT + y as usize])
        } else {
            None
        }
    }

    /// Marks the node at `node`'s coordinates visited.
    fn visit(&mut self, node: Node)
        requires
            nodes_wf(old(self).nodes@),
            in_bounds(node.x as int, node.y as int),
        ensures
            nodes_wf(final(self).nodes@),
            vis(final(self).nodes@, node.x as int, node.y as int),
            forall|x: int, y: int|
                in_bounds(x, y) && !(x == node.x as int && y == node.y as int)
                    ==> #[trigger] vis(final(self).nodes@, x, y) == vis(old(self).nodes@, x, y),
            forall|x: int, y: int|
                in_bounds(x, y) && #[trigger] vis(old(self).nodes@, x, y)
                    ==> vis(final(self).nodes@, x, y),
            count_unvisited(final(self).nodes@) == count_unvisited(old(self).nodes@) - (
            if vis(old(self).nodes@, node.x as int, node.y as int) {
                0int
            } else {
                1int
            }),
            final(self).frontier == old(self).frontier,
    {
        proof {
            lemma_flat_index_bounds(node.x as int, node.y as int);
        }
        let idx = node.x as usize * MAP_HEIGHT + node.y as usize;
        let mut n = self.nodes[idx];
        n.visit();
        self.nodes.set(idx, n);
        proof {
            let a = old(self).nodes@;
            let b = self.nodes@;
            let target = flat_index(node.x as int, node.y as int);
            assert forall|x: int, y: int|
                in_bounds(x, y) && !(x == node.x as int && y == node.y as int)
                    implies #[trigger] vis(b, x, y) == vis(a, x, y) by {
                lemma_flat_index_bounds(x, y);
                if flat_index(x, y) == target {
                    lemma_flat_index_injective(x, y, node.x as int, node.y as int);
                }
            }
            assert forall|x: int, y: int|
                in_bounds(x, y) implies ((#[trigger] node_at(b, x, y)).x == x && node_at(b, x, y).y
                == y) by {
                lemma_flat_index_bounds(x, y);
                assert(node_at(a, x, y).x == x && node_at(a, x, y).y == y);
                if flat_index(x, y) == target {
                    lemma_flat_index_injective(x, y, node.x as int, node.y as int);
                }
            }
            if a[target].visited {
                lemma_count_congruent(a, b);
            } else {
                lemma_count_visit(a, b, target);
            }
        }
    }

    /// Records which node the search reached `node` from; visited flags and
    /// coordinates are untouched.
    fn from_set(&mut self, node: Node, from: Node)
        requires
            nodes_wf(old(self).nodes@),
            in_bounds(node.x as int, node.y as int),
        ensures
            nodes_wf(final(self).nodes@),
            forall|x: int, y: int|
                in_bounds(x, y)
                    ==> #[trigger] vis(final(self).nodes@, x, y) == vis(old(self).nodes@, x, y),
            count_unvisited(final(self).nodes@) == count_unvisited(old(self).nodes@),
            final(self).frontier == old(self).frontier,
    {
        proof {
            lemma_flat_index_bounds(node.x as int, node.y as int);
        }
        let idx = node.x as usize * MAP_HEIGHT + node.y as usize;
        let mut n = self.nodes[idx];
        n.comes_from(from.get_xy());
        self.nodes.set(idx, n);
        proof {
            let a = old(self).nodes@;
            let b = self.nodes@;
            let target = flat_index(node.x as int, node.y as int);
            assert forall|i: int| 0 <= i < a.len() implies (#[trigger] a[i]).visited
                == b[i].visited by {}
            lemma_count_congruent(a, b);
            assert forall|x: int, y: int|
                in_bounds(x, y) implies #[trigger] vis(b, x, y) == vis(a, x, y) by {
                lemma_flat_index_bounds(x, y);
            }
            assert forall|x: int, y: int|
                in_bounds(x, y) implies ((#[trigger] node_at(b, x, y)).x == x && node_at(b, x, y).y
                == y) by {
                lemma_flat_index_bounds(x, y);
                assert(node_at(a, x, y).x == x && node_at(a, x, y).y == y);
                if flat_index(x, y) == target {
                    lemma_flat_index_injective(x, y, node.x as int, node.y as int);
                }
            }
        }
    }

    /// Visits a node and adds it to the frontier.
    fn expand_frontier(&mut self, node: Node)
        requires
            nodes_wf(old(self).nodes@),
            in_bounds(node.x as int, node.y as int),
        ensures
            nodes_wf(final(self).nodes@),
            vis(final(self).nodes@, node.x as int, node.y as int),
            forall|x: int, y: int|
                in_bounds(x, y) && !(x == node.x as int && y == node.y as int)
                    ==> #[trigger] vis(final(self).nodes@, x, y) == vis(old(self).nodes@, x, y),
            forall|x: int, y: int|
                in_bounds(x, y) && #[trigger] vis(old(self).nodes@, x, y)
                    ==> vis(final(self).nodes@, x, y),
            count_unvisited(final(self).nodes@) == count_unvisited(old(self).nodes@) - (
            if vis(old(self).nodes@, node.x as int, node.y as int) {
                0int
            } else {
                1int
            }),
            final(self).frontier@.len() == old(self).frontier@.len() + 1,
            forall|k: int|
                0 <= k < old(self).frontier@.len() ==> #[trigger] final(self).frontier@[k] == old(
                    self,
                ).frontier@[k],
            final(self).frontier@.last().x == node.x,
            final(self).frontier@.last().y == node.y,
    {
        match self.get_node(node.x, node.y) {
            Some(n) => {
                self.visit(n);
                self.frontier.push(n);
            },
            None => {
                proof {
                    assert(false);
                }
            },
        }
    }

    /// The 4-neighbors of `node` that are on the map away from its border,
    /// not walls, and not yet visited; at most one per direction, all
    /// mutually distinct.
    fn get_neighbors(&self, node: Node, map: &Grid) -> (r: Vec<Point>)
        requires
            nodes_wf(self.nodes@),
            map.wf(),
            in_bounds(node.x as int, node.y as int),
        ensures
            r@.len() <= 4,
            forall|k: int|
                0 <= k < r@.len() ==> {
                    &&& in_bounds((#[trigger] r@[k]).0 as int, r@[k].1 as int)
                    &&& !map.at(r@[k].0 as int, r@[k].1 as int).wall
                    &&& !vis(self.nodes@, r@[k].0 as int, r@[k].1 as int)
                    &&& adj4((node.x as int, node.y as int), (r@[k].0 as int, r@[k].1 as int))
                },
            forall|k1: int, k2: int|
                0 <= k1 < k2 < r@.len() ==> #[trigger] r@[k1] != #[trigger] r@[k2],
            forall|nx: int, ny: int|
                #[trigger] adj4((node.x as int, node.y as int), (nx, ny)) && 1 <= nx < MAP_WIDTH
                    as int - 1 && 1 <= ny < MAP_HEIGHT as int - 1 && !map.at(nx, ny).wall && !vis(
                    self.nodes@,
                    nx,
                    ny,
                ) ==> exists|k: int|
                    0 <= k < r@.len() && (#[trigger] r@[k]).0 == nx && r@[k].1 == ny,
    {
        let (x, y) = (node.x, node.y);
        let mut neighbors: Vec<Point> = Vec::new();
        let mut idx_left: Ghost<int> = Ghost(-1);
        let mut idx_right: Ghost<int> = Ghost(-1);
        let mut idx_up: Ghost<int> = Ghost(-1);
        let mut idx_down: Ghost<int> = Ghost(-1);

        if x >= 1 && (x - 1) > 0 && !map.get(x as usize - 1, y as usize).wall {
            match self.get_node(x - 1, y) {
                Some(neighbor) => {
                    if !neighbor.visited {
                        neighbors.push(neighbor.get_xy());
                        idx_left = Ghost(neighbors@.len() - 1);
                        proof {
                            assert(neighbors@[idx_left@].0 == x - 1 && neighbors@[idx_left@].1
                                == y);
                        }
                    }
                },
                None => {},
            }
        }
        if (x + 1) < (MAP_WIDTH as u32 - 1) && !map.get(x as usize + 1, y as usize).wall {
            match self.get_node(x + 1, y) {
                Some(neighbor) => {
                    if !neighbor.visited {
                        neighbors.push(neighbor.get_xy());
                        idx_right = Ghost(neighbors@.len() - 1);
                        proof {
                            assert(neighbors@[idx_right@].0 == x + 1 && neighbors@[idx_right@].1
                                == y);
                        }
                    }
                },
                None => {},
            }
        }
        if y >= 1 && (y - 1) > 0 && !map.get(x as usize, y as usize - 1).wall {
            match self.get_node(x, y - 1) {
                Some(neighbor) => {
                    if !neighbor.visited {
                        neighbors.push(neighbor.get_xy());
                        idx_up = Ghost(neighbors@.len() - 1);
                        proof {
                            assert(neighbors@[idx_up@].0 == x && neighbors@[idx_up@].1 == y - 1);
                        }
                    }
                },
                None => {},
            }
        }
        if (y + 1) < (MAP_HEIGHT as u32 - 1) && !map.get(x as usize, y as usize + 1).wall {
            match self.get_node(x, y + 1) {
                Some(neighbor) => {
                    if !neighbor.visited {
                        neighbors.push(neighbor.get_xy());
                        idx_down = Ghost(neighbors@.len() - 1);
                        proof {
                            assert(neighbors@[idx_down@].0 == x && neighbors@[idx_down@].1 == y
                                + 1);
                        }
                    }
                },
                None => {},
            }
        }
        proof {
            assert forall|nx: int, ny: int|
                #[trigger] adj4((node.x as int, node.y as int), (nx, ny)) && 1 <= nx < MAP_WIDTH
                    as int - 1 && 1 <= ny < MAP_HEIGHT as int - 1 && !map.at(nx, ny).wall && !vis(
                    self.nodes@,
                    nx,
                    ny,
                ) implies exists|k: int|
                    0 <= k < neighbors@.len() && (#[trigger] neighbors@[k]).0 == nx
                        && neighbors@[k].1 == ny by {
                if nx == x as int - 1 && ny == y as int {
                    assert(0 <= idx_left@ < neighbors@.len() && neighbors@[idx_left@].0 == nx
                        && neighbors@[idx_left@].1 == ny);
                } else if nx == x as int + 1 && ny == y as int {
                    assert(0 <= idx_right@ < neighbors@.len() && neighbors@[idx_right@].0 == nx
                        && neighbors@[idx_right@].1 == ny);
                } else if nx == x as int && ny == y as int - 1 {
                    assert(0 <= idx_up@ < neighbors@.len() && neighbors@[idx_up@].0 == nx
                        && neighbors@[idx_up@].1 == ny);
                } else {
                    assert(nx == x as int && ny == y as int + 1);
                    assert(0 <= idx_down@ < neighbors@.len() && neighbors@[idx_down@].0 == nx
                        && neighbors@[idx_down@].1 == ny);
                }
            }
        }
        neighbors
    }

    /// Breadth-first search from `start` over non-wall tiles. Afterwards a
    /// tile is visited only if a path of visited, non-wall tiles leads to it
    /// from `start`; the search stops early when it pops `goal`.
    #[verifier::rlimit(100)]
    pub fn search(&mut self, map: &Grid, start: Point, goal: Option<Point>)
        requires
            nodes_wf(old(self).nodes@),
            map.wf(),
            in_bounds(start.0 as int, start.1 as int),
            !map.at(start.0 as int, start.1 as int).wall,
            forall|x: int, y: int| in_bounds(x, y) ==> !vis(old(self).nodes@, x, y),
            old(self).frontier@.len() == 0,
        ensures
            nodes_wf(final(self).nodes@),
            vis(final(self).nodes@, start.0 as int, start.1 as int),
            forall|x: int, y: int|
                in_bounds(x, y) && #[trigger] vis(final(self).nodes@, x, y) ==> visited_path_to(
                    *map,
                    final(self).nodes@,
                    (start.0 as int, start.1 as int),
                    (x, y),
                ),
            goal is None ==> forall|p: Seq<(int, int)>|
                #[trigger] path_ok(*map, p) && p.first() == (start.0 as int, start.1 as int) && (
                forall|i: int| 1 <= i < p.len() ==> interior_coord(#[trigger] p[i]))
                    ==> vis(final(self).nodes@, p.last().0, p.last().1),
    {
        let ghost s = (start.0 as int, start.1 as int);
        let start_node = Node::new(start.0, start.1);
        self.visit(start_node);
        self.frontier.push(start_node);
        proof {
            let p0: Seq<(int, int)> = seq![s];
            assert(p0.len() == 1 && p0[0] == s);
            assert(visited_path_ok(*map, self.nodes@, p0));
            assert forall|x: int, y: int|
                in_bounds(x, y) && #[trigger] vis(self.nodes@, x, y) implies visited_path_to(
                *map,
                self.nodes@,
                s,
                (x, y),
            ) by {
                if x == s.0 && y == s.1 {
                    assert(visited_path_ok(*map, self.nodes@, p0) && p0.first() == s && p0.last()
                        == (x, y));
                } else {
                    assert(!vis(old(self).nodes@, x, y));
                }
            }
            lemma_count_nonneg(self.nodes@);
            assert(self.frontier@[0].x == start.0 && self.frontier@[0].y == start.1);
            assert(in_frontier(self.frontier@, s.0, s.1));
        }
        while self.frontier.len() > 0
            invariant
                nodes_wf(self.nodes@),
                map.wf(),
                s == (start.0 as int, start.1 as int),
                in_bounds(s.0, s.1),
                !map.at(s.0, s.1).wall,
                vis(self.nodes@, s.0, s.1),
                forall|k: int|
                    0 <= k < self.frontier@.len() ==> {
                        &&& in_bounds(
                            (#[trigger] self.frontier@[k]).x as int,
                            self.frontier@[k].y as int,
                        )
                        &&& vis(self.nodes@, self.frontier@[k].x as int, self.frontier@[k].y as int)
                    },
                forall|x: int, y: int|
                    in_bounds(x, y) && #[trigger] vis(self.nodes@, x, y) ==> visited_path_to(
                        *map,
                        self.nodes@,
                        s,
                        (x, y),
                    ),
                forall|x: int, y: int|
                    in_bounds(x, y) && #[trigger] vis(self.nodes@, x, y) ==> in_frontier(
                        self.frontier@,
                        x,
                        y,
                    ) || closed_at(*map, self.nodes@, x, y),
                count_unvisited(self.nodes@) >= 0,
            decreases count_unvisited(self.nodes@), self.frontier@.len(),
        {
            let ghost pre_frontier = self.frontier@;
            let current = self.frontier.remove(0);
            match goal {
                Some(g) => {
                    if g.0 == current.x && g.1 == current.y {
                        return ;
                    }
                },
                None => {},
            }
            let neighbors = self.get_neighbors(current, map);
            let ghost pre_nb = self.nodes@;
            let ghost count_entry = count_unvisited(self.nodes@);
            let ghost frontier_entry = self.frontier@.len();
            proof {
                assert forall|x: int, y: int|
                    in_bounds(x, y) && #[trigger] vis(self.nodes@, x, y) implies in_frontier(
                    self.frontier@,
                    x,
                    y,
                ) || closed_at(*map, self.nodes@, x, y) || (x == current.x as int && y
                    == current.y as int) by {
                    if in_frontier(pre_frontier, x, y) && !(x == current.x as int && y
                        == current.y as int) {
                        let kk = choose|kk: int|
                            0 <= kk < pre_frontier.len() && (#[trigger] pre_frontier[kk]).x == x
                                && pre_frontier[kk].y == y;
                        assert(kk >= 1);
                        assert(self.frontier@[kk - 1] == pre_frontier[kk]);
                        assert(in_frontier(self.frontier@, x, y));
                    }
                }
            }
            let mut k: usize = 0;
            while k < neighbors.len()
                invariant
                    nodes_wf(self.nodes@),
                    map.wf(),
                    in_bounds(s.0, s.1),
                    !map.at(s.0, s.1).wall,
                    vis(self.nodes@, s.0, s.1),
                    k <= neighbors@.len(),
                    neighbors@.len() <= 4,
                    in_bounds(current.x as int, current.y as int),
                    vis(self.nodes@, current.x as int, current.y as int),
                    forall|m: int|
                        0 <= m < neighbors@.len() ==> {
                            &&& in_bounds(
                                (#[trigger] neighbors@[m]).0 as int,
                                neighbors@[m].1 as int,
                            )
                            &&& !map.at(neighbors@[m].0 as int, neighbors@[m].1 as int).wall
                            &&& adj4(
                                (current.x as int, current.y as int),
                                (neighbors@[m].0 as int, neighbors@[m].1 as int),
                            )
                        },
                    forall|m1: int, m2: int|
                        0 <= m1 < m2 < neighbors@.len() ==> #[trigger] neighbors@[m1]
                            != #[trigger] neighbors@[m2],
                    forall|m: int|
                        k <= m < neighbors@.len() ==> !vis(
                            self.nodes@,
                            (#[trigger] neighbors@[m]).0 as int,
                            neighbors@[m].1 as int,
                        ),
                    count_unvisited(self.nodes@) == count_entry - k,
                    self.frontier@.len() == frontier_entry + k,
                    forall|m: int|
                        0 <= m < k ==> vis(
                            self.nodes@,
                            (#[trigger] neighbors@[m]).0 as int,
                            neighbors@[m].1 as int,
                        ),
                    forall|a: int, b: int|
                        in_bounds(a, b) && #[trigger] vis(pre_nb, a, b) ==> vis(self.nodes@, a, b),
                    forall|x: int, y: int|
                        in_bounds(x, y) && #[trigger] vis(self.nodes@, x, y) ==> in_frontier(
                            self.frontier@,
                            x,
                            y,
                        ) || closed_at(*map, self.nodes@, x, y) || (x == current.x as int && y
                            == current.y as int),
                    forall|kk: int|
                        0 <= kk < self.frontier@.len() ==> {
                            &&& in_bounds(
                                (#[trigger] self.frontier@[kk]).x as int,
                                self.frontier@[kk].y as int,
                            )
                            &&& vis(
                                self.nodes@,
                                self.frontier@[kk].x as int,
                                self.frontier@[kk].y as int,
                            )
                        },
                    forall|x: int, y: int|
                        in_bounds(x, y) && #[trigger] vis(self.nodes@, x, y) ==> visited_path_to(
                            *map,
                            self.nodes@,
                            s,
                            (x, y),
                        ),
                decreases neighbors@.len() - k,
            {
                let (nx, ny) = neighbors[k];
                let ghost before = self.nodes@;
                let ghost f_entry = self.frontier@;
                match self.get_node(nx, ny) {
                    Some(node) => {
                        self.from_set(node, current);
                        let ghost mid = self.nodes@;
                        self.expand_frontier(node);
                        proof {
                            let m = (nx as int, ny as int);
                            assert(node.x == nx && node.y == ny);
                            assert forall|a: int, b: int|
                                in_bounds(a, b) && #[trigger] vis(before, a, b) implies vis(
                                self.nodes@,
                                a,
                                b,
                            ) by {
                                assert(vis(mid, a, b) == vis(before, a, b));
                            }
                            assert forall|x: int, y: int|
                                in_bounds(x, y) && #[trigger] vis(self.nodes@, x, y)
                                    implies visited_path_to(*map, self.nodes@, s, (x, y)) by {
                                if x == m.0 && y == m.1 {
                                    assert(vis(before, current.x as int, current.y as int));
                                    assert(visited_path_to(
                                        *map,
                                        before,
                                        s,
                                        (current.x as int, current.y as int),
                                    ));
                                    lemma_path_to_monotone(
                                        *map,
                                        before,
                                        self.nodes@,
                                        s,
                                        (current.x as int, current.y as int),
                                    );
                                    lemma_path_extend(
                                        *map,
                                        self.nodes@,
                                        s,
                                        (current.x as int, current.y as int),
                                        m,
                                    );
                                } else {
                                    assert(vis(mid, x, y));
                                    assert(vis(before, x, y));
                                    assert(visited_path_to(*map, before, s, (x, y)));
                                    lemma_path_to_monotone(*map, before, self.nodes@, s, (x, y));
                                }
                            }
                            assert(self.frontier@.drop_last() =~= f_entry);
                            lemma_closure_step(
                                *map,
                                before,
                                self.nodes@,
                                f_entry,
                                self.frontier@,
                                current.x as int,
                                current.y as int,
                                m,
                            );
                        }
                    },
                    None => {
                        proof {
                            assert(false);
                        }
                    },
                }
                k = k + 1;
            }
            proof {
                lemma_count_nonneg(self.nodes@);
                assert forall|x: int, y: int|
                    in_bounds(x, y) && #[trigger] vis(self.nodes@, x, y) implies in_frontier(
                    self.frontier@,
                    x,
                    y,
                ) || closed_at(*map, self.nodes@, x, y) by {
                    if x == current.x as int && y == current.y as int && !in_frontier(
                        self.frontier@,
                        x,
                        y,
                    ) {
                        // The node just popped is closed: every admissible
                        // neighbor was either already visited or returned by
                        // the neighbor scan and visited in this round.
                        assert forall|nx: int, ny: int|
                            #[trigger] adj4((x, y), (nx, ny)) && 1 <= nx < MAP_WIDTH as int - 1
                                && 1 <= ny < MAP_HEIGHT as int - 1 && !map.at(nx, ny).wall
                                implies vis(self.nodes@, nx, ny) by {
                            if !vis(pre_nb, nx, ny) {
                                let km = choose|km: int|
                                    0 <= km < neighbors@.len() && (#[trigger] neighbors@[km]).0
                                        == nx && neighbors@[km].1 == ny;
                                assert(vis(
                                    self.nodes@,
                                    neighbors@[km].0 as int,
                                    neighbors@[km].1 as int,
                                ));
                            }
                        }
                    }
                }
            }
        }
        proof {
            if goal is None {
                assert forall|p: Seq<(int, int)>|
                    #[trigger] path_ok(*map, p) && p.first() == s && (forall|i: int|
                        1 <= i < p.len() ==> interior_coord(#[trigger] p[i])) implies vis(
                    self.nodes@,
                    p.last().0,
                    p.last().1,
                ) by {
                    assert forall|x: int, y: int|
                        in_bounds(x, y) && #[trigger] vis(self.nodes@, x, y) implies closed_at(
                        *map,
                        self.nodes@,
                        x,
                        y,
                    ) by {
                        assert(!in_frontier(self.frontier@, x, y));
                    }
                    lemma_closure_reaches(*map, self.nodes@, p);
                }
            }
        }
    }

    /// Rebuilds the path from `start` to `goal` by following each node's
    /// recorded predecessor, oldest last; used after a goal-directed search.
    pub fn breadcrumb(&mut self, start: Point, goal: Option<Point>)
        requires
            nodes_wf(old(self).nodes@),
            in_bounds(start.0 as int, start.1 as int),
            match goal {
                Some(g) => in_bounds(g.0 as int, g.1 as int),
                None => true,
            },
        ensures
            nodes_wf(final(self).nodes@),
            final(self).nodes == old(self).nodes,
            match goal {
                Some(g) => (g.0 != start.0 || g.1 != start.1) ==> final(self).path@.len() >= 1
                    && final(self).path@[0].x == g.0 && final(self).path@[0].y == g.1,
                None => final(self).path@.len() == 0,
            },
    {
        self.path.clear();
        match goal {
            Some(g) => {
                let goal_node = match self.get_node(g.0, g.1) {
                    Some(n) => n,
                    None => {
                        proof {
                            assert(false);
                        }
                        Node::new(g.0, g.1)
                    },
                };
                let start_node = match self.get_node(start.0, start.1) {
                    Some(n) => n,
                    None => {
                        proof {
                            assert(false);
                        }
                        Node::new(start.0, start.1)
                    },
                };
                let mut current = goal_node;
                // The trail cannot be longer than the node count; a cyclic
                // predecessor chain ends the walk instead of looping.
                let mut fuel: u32 = (MAP_WIDTH * MAP_HEIGHT) as u32;
                while !(current.x == start_node.x && current.y == start_node.y) && fuel > 0
                    invariant
                        nodes_wf(self.nodes@),
                        self.nodes == old(self).nodes,
                        self.path@.len() >= 1 ==> self.path@[0].x == g.0 && self.path@[0].y == g.1,
                        self.path@.len() == 0 ==> current.x == g.0 && current.y == g.1,
                        fuel == (MAP_WIDTH * MAP_HEIGHT) as u32 || self.path@.len() >= 1,
                    decreases fuel,
                {
                    fuel = fuel - 1;
                    self.path.push(current);
                    match self.get_node(current.comes_from.0, current.comes_from.1) {
                        Some(next) => {
                            current = next;
                        },
                        None => {},
                    }
                }
            },
            None => {},
        }
    }
}

/// Walls up every open tile the search from the entry never visited: the one
/// pass that guarantees the whole-level connectivity invariant. Afterwards
/// every open tile is reachable from the entry through non-wall tiles, the
/// entry itself stays open, and non-open tiles are untouched.
pub fn remove_inaccessible_tiles(map: &mut Grid, player: &Object, colors: &Palette)
    requires
        old(map).wf(),
        in_bounds(player.x as int, player.y as int),
        old(map).at(player.x as int, player.y as int).empty,
    ensures
        final(map).wf(),
        final(map).at(player.x as int, player.y as int).empty,
        forall|x: int, y: int|
            in_bounds(x, y) && (#[trigger] final(map).at(x, y)).empty ==> old(map).at(x, y).empty,
        forall|x: int, y: int|
            in_bounds(x, y) && !(#[trigger] old(map).at(x, y)).empty ==> final(map).at(x, y) == old(
                map,
            ).at(x, y),
        forall|x: int, y: int|
            in_bounds(x, y) && #[trigger] final(map).at(x, y) != old(map).at(x, y)
                ==> final(map).at(x, y).wall,
        forall|x: int, y: int|
            in_bounds(x, y) && (#[trigger] final(map).at(x, y)).empty ==> reachable(
                *final(map),
                (player.x as int, player.y as int),
                (x, y),
            ),
        forall|x: int, y: int|
            in_bounds(x, y) && (#[trigger] old(map).at(x, y)).empty && interior_path_to(
                *old(map),
                (player.x as int, player.y as int),
                (x, y),
            ) ==> final(map).at(x, y).empty,
{
    let ghost s = (player.x as int, player.y as int);
    proof {
        Grid::lemma_tiles_wf(*old(map));
    }
    let mut bfs = Broadfs::new();
    let (px, py) = player.pos();
    bfs.search(map, (px as u32, py as u32), None);

    let ghost pre = *map;
    let mut x: usize = 0;
    while x < MAP_WIDTH
        invariant
            map.wf(),
            nodes_wf(bfs.nodes@),
            x <= MAP_WIDTH,
            in_bounds(s.0, s.1),
            vis(bfs.nodes@, s.0, s.1),
            pre.wf(),
            forall|i: int, j: int|
                in_bounds(i, j) && #[trigger] vis(bfs.nodes@, i, j) ==> visited_path_to(
                    pre,
                    bfs.nodes@,
                    s,
                    (i, j),
                ),
            forall|i: int, j: int|
                in_bounds(i, j) && #[trigger] vis(bfs.nodes@, i, j) ==> map.at(i, j) == pre.at(
                    i,
                    j,
                ),
            forall|i: int, j: int|
                in_bounds(i, j) && !(#[trigger] pre.at(i, j)).empty ==> map.at(i, j) == pre.at(
                    i,
                    j,
                ),
            forall|i: int, j: int|
                in_bounds(i, j) && (#[trigger] map.at(i, j)).empty ==> pre.at(i, j).empty,
            forall|i: int, j: int|
                in_bounds(i, j) && #[trigger] map.at(i, j) != pre.at(i, j) ==> map.at(i, j).wall,
            forall|i: int, j: int|
                0 <= i < x && in_bounds(i, j) && (#[trigger] map.at(i, j)).empty ==> vis(
                    bfs.nodes@,
                    i,
                    j,
                ),
        decreases MAP_WIDTH as int - x,
    {
        let mut y: usize = 0;
        while y < MAP_HEIGHT
            invariant
                map.wf(),
                nodes_wf(bfs.nodes@),
                x < MAP_WIDTH,
                y <= MAP_HEIGHT,
                in_bounds(s.0, s.1),
                vis(bfs.nodes@, s.0, s.1),
                pre.wf(),
                forall|i: int, j: int|
                    in_bounds(i, j) && #[trigger] vis(bfs.nodes@, i, j) ==> visited_path_to(
                        pre,
                        bfs.nodes@,
                        s,
                        (i, j),
                    ),
                forall|i: int, j: int|
                    in_bounds(i, j) && #[trigger] vis(bfs.nodes@, i, j) ==> map.at(i, j) == pre.at(
                        i,
                        j,
                    ),
                forall|i: int, j: int|
                    in_bounds(i, j) && !(#[trigger] pre.at(i, j)).empty ==> map.at(i, j) == pre.at(
                        i,
                        j,
                    ),
                forall|i: int, j: int|
                    in_bounds(i, j) && (#[trigger] map.at(i, j)).empty ==> pre.at(i, j).empty,
                forall|i: int, j: int|
                    in_bounds(i, j) && #[trigger] map.at(i, j) != pre.at(i, j) ==> map.at(
                        i,
                        j,
                    ).wall,
                forall|i: int, j: int|
                    0 <= i < x && in_bounds(i, j) && (#[trigger] map.at(i, j)).empty ==> vis(
                        bfs.nodes@,
                        i,
                        j,
                    ),
                forall|j: int|
                    0 <= j < y && (#[trigger] map.at(x as int, j)).empty ==> vis(
                        bfs.nodes@,
                        x as int,
                        j,
                    ),
            decreases MAP_HEIGHT as int - y,
        {
            let node = match bfs.get_node(x as u32, y as u32) {
                Some(n) => n,
                None => {
                    proof {
                        assert(false);
                    }
                    Node::new(x as u32, y as u32)
                },
            };
            if !node.visited && map.get(x, y).empty {
                let t = Tile::wall(colors);
                map.set(x, y, t);
            }
            y = y + 1;
        }
        x = x + 1;
    }

    proof {
        assert forall|x: int, y: int|
            in_bounds(x, y) && (#[trigger] map.at(x, y)).empty implies reachable(
            *map,
            s,
            (x, y),
        ) by {
            assert(vis(bfs.nodes@, x, y));
            assert(visited_path_to(pre, bfs.nodes@, s, (x, y)));
            let p = choose|p: Seq<(int, int)>|
                #[trigger] visited_path_ok(pre, bfs.nodes@, p) && p.first() == s && p.last() == (
                x,
                y,
            );
            assert forall|i: int| 0 <= i < p.len() implies in_bounds((#[trigger] p[i]).0, p[i].1)
                && !map.at(p[i].0, p[i].1).wall by {
                assert(vis(bfs.nodes@, p[i].0, p[i].1));
                assert(map.at(p[i].0, p[i].1) == pre.at(p[i].0, p[i].1));
            }
            assert(path_ok(*map, p));
        }
        assert(pre == *old(map));
        assert forall|x: int, y: int|
            in_bounds(x, y) && (#[trigger] old(map).at(x, y)).empty && interior_path_to(
            *old(map),
            s,
            (x, y),
        ) implies map.at(x, y).empty by {
            let p = choose|p: Seq<(int, int)>|
                #[trigger] path_ok(*old(map), p) && p.first() == s && p.last() == (x, y) && (
                forall|i: int| 1 <= i < p.len() ==> interior_coord(#[trigger] p[i]));
            assert(vis(bfs.nodes@, p.last().0, p.last().1));
            assert(vis(bfs.nodes@, x, y));
            assert(map.at(x, y) == pre.at(x, y));
        }
    }
}

} // verus!
