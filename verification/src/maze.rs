//! The maze carver: a depth-first backtracker over a half-resolution node
//! graph. Every odd coordinate pair is a one-tile room; the walk repeatedly
//! visits an unvisited neighbor two tiles away, knocking out the wall between
//! them, and falls back along its recorded trail when it gets stuck.

use vstd::prelude::*;

use crate::entry::{has_interior_open, place_player_on_open_tile};
use crate::grid::Grid;
use crate::objects::Object;
use crate::rng::rand_range;
use crate::tiles::{Palette, Tile};
use crate::tunnels::{create_h_tunnel, create_v_tunnel};
use crate::{MAP_HEIGHT, MAP_WIDTH};
use rand::rngs::StdRng;

verus! {

/// One node of the maze graph: a one-tile room at an odd coordinate pair.
#[derive(Clone, Copy, Debug)]
struct Point {
    x: u32,
    y: u32,
    visited: bool,
}

impl Point {
    fn new(x: u32, y: u32) -> (p: Point)
        ensures
            p.x == x,
            p.y == y,
            !p.visited,
    {
        Point { x, y, visited: false }
    }

    fn get_xy(&self) -> (r: (u32, u32))
        ensures
            r.0 == self.x,
            r.1 == self.y,
    {
        (self.x, self.y)
    }
}

/// The walk's working state: the node list, the backtracking trail, and the
/// current position.
struct Maze {
    points: Vec<Point>,
    backtrack: Vec<(u32, u32)>,
    position: (u32, u32),
}

/// Every node lies strictly inside the map, clear of the border, and the
/// node list stays small enough to count.
spec fn maze_wf(m: Maze) -> bool {
    &&& m.points@.len() <= 4000
    &&& forall|k: int|
        0 <= k < m.points@.len() ==> {
            &&& 1 <= (#[trigger] m.points@[k]).x < MAP_WIDTH as int - 1
            &&& 1 <= m.points@[k].y < MAP_HEIGHT as int - 1
        }
}

impl Maze {
    fn new() -> (m: Maze)
        ensures
            m.points@.len() == 0,
            m.backtrack@.len() == 0,
            m.position == (1u32, 1u32),
            maze_wf(m),
    {
        Maze { points: Vec::new(), backtrack: Vec::new(), position: (1, 1) }
    }

    fn get_x(&self) -> (r: u32)
        ensures
            r == self.position.0,
    {
        let (x, _) = self.position;
        x
    }

    fn get_y(&self) -> (r: u32)
        ensures
            r == self.position.1,
    {
        let (_, y) = self.position;
        y
    }

    /// Finds the node at `(x, y)`, if there is one.
    fn get_point(&self, x: u32, y: u32) -> (r: Option<Point>)
        ensures
            r is Some ==> r->0.x == x && r->0.y == y && exists|k: int|
                0 <= k < self.points@.len() && #[trigger] self.points@[k] == r->0,
    {
        let mut k: usize = 0;
        while k < self.points.len()
            invariant
                k <= self.points@.len(),
            decreases self.points@.len() - k,
        {
            if self.points[k].x == x && self.points[k].y == y {
                return Some(self.points[k]);
            }
            k = k + 1;
        }
        None
    }

    /// Marks the node with `point`'s coordinates visited and records it on
    /// the backtracking trail. Node coordinates are untouched.
    fn visit(&mut self, point: Point)
        requires
            maze_wf(*old(self)),
        ensures
            maze_wf(*final(self)),
            final(self).points@.len() == old(self).points@.len(),
            final(self).position == old(self).position,
    {
        let mut p_index: usize = 0;
        let mut k: usize = 0;
        while k < self.points.len()
            invariant
                k <= self.points@.len(),
                p_index < self.points@.len() || p_index == 0,
            decreases self.points@.len() - k,
        {
            if self.points[k].x == point.x && self.points[k].y == point.y {
                p_index = k;
            }
            k = k + 1;
        }
        if p_index < self.points.len() {
            let old_point = self.points[p_index];
            let marked = Point { visited: true, ..old_point };
            self.points.set(p_index, marked);
            self.backtrack.push((marked.x, marked.y));
            proof {
                assert forall|k: int| 0 <= k < self.points@.len() implies {
                    &&& 1 <= (#[trigger] self.points@[k]).x < MAP_WIDTH as int - 1
                    &&& 1 <= self.points@[k].y < MAP_HEIGHT as int - 1
                } by {
                    assert(old(self).points@[k].x == self.points@[k].x);
                }
            }
        }
    }

    /// Counts the nodes not yet visited.
    fn count_unvisited(&self) -> (n: usize)
        ensures
            n <= self.points@.len(),
    {
        let mut n: usize = 0;
        let mut k: usize = 0;
        while k < self.points.len()
            invariant
                k <= self.points@.len(),
                n <= k,
            decreases self.points@.len() - k,
        {
            if !self.points[k].visited {
                n = n + 1;
            }
            k = k + 1;
        }
        n
    }

    /// Steps back to the oldest recorded trail position.
    fn backstep(&mut self)
        requires
            maze_wf(*old(self)),
        ensures
            maze_wf(*final(self)),
            final(self).points == old(self).points,
    {
        if self.backtrack.len() > 0 {
            self.position = self.backtrack[0];
            self.backtrack.remove(0);
        }
    }

    /// Moves the current position onto the given node, if it exists.
    fn pos_move(&mut self, point: Point)
        requires
            maze_wf(*old(self)),
        ensures
            maze_wf(*final(self)),
            final(self).points == old(self).points,
    {
        match self.get_point(point.x, point.y) {
            Some(p) => {
                self.position = (p.x, p.y);
            },
            None => {},
        }
    }

    /// The unvisited nodes two tiles away in each cardinal direction.
    fn get_neighbors(&self, point: Point) -> (r: Vec<Point>)
        requires
            maze_wf(*self),
            point.x < MAP_WIDTH as u32,
            point.y < MAP_HEIGHT as u32,
        ensures
            r@.len() <= 4,
            forall|k: int|
                0 <= k < r@.len() ==> {
                    &&& 1 <= (#[trigger] r@[k]).x < MAP_WIDTH as int - 1
                    &&& 1 <= r@[k].y < MAP_HEIGHT as int - 1
                },
    {
        let (x, y) = (point.x, point.y);
        let mut neighbors: Vec<Point> = Vec::new();

        if x >= 2 && (x - 1) > 1 {
            match self.get_point(x - 2, y) {
                Some(neighbor) => {
                    if !neighbor.visited {
                        neighbors.push(neighbor);
                    }
                },
                None => {},
            }
        }
        if x + 1 < MAP_WIDTH as u32 {
            match self.get_point(x + 2, y) {
                Some(neighbor) => {
                    if !neighbor.visited {
                        neighbors.push(neighbor);
                    }
                },
                None => {},
            }
        }
        if y >= 2 && (y - 1) > 1 {
            match self.get_point(x, y - 2) {
                Some(neighbor) => {
                    if !neighbor.visited {
                        neighbors.push(neighbor);
                    }
                },
                None => {},
            }
        }
        if y + 1 < MAP_HEIGHT as u32 {
            match self.get_point(x, y + 2) {
                Some(neighbor) => {
                    if !neighbor.visited {
                        neighbors.push(neighbor);
                    }
                },
                None => {},
            }
        }
        neighbors
    }

    /// Picks an unvisited neighbor uniformly at random, if any exists.
    fn find_next(&self, point: Point, rng: &mut StdRng) -> (r: Option<Point>)
        requires
            maze_wf(*self),
            point.x < MAP_WIDTH as u32,
            point.y < MAP_HEIGHT as u32,
        ensures
            r is Some ==> {
                &&& 1 <= r->0.x < MAP_WIDTH as int - 1
                &&& 1 <= r->0.y < MAP_HEIGHT as int - 1
            },
    {
        let neighbors = self.get_neighbors(point);
        if neighbors.len() == 1 {
            Some(neighbors[0])
        } else if neighbors.len() > 1 {
            let idx = rand_range(rng, 0, neighbors.len() as u32) as usize;
            Some(neighbors[idx])
        } else {
            None
        }
    }

    /// Knocks out the wall between two nodes by carving the straight line of
    /// tiles between them.
    fn break_wall(one: Point, two: Point, map: &mut Grid, colors: &Palette, rng: &mut StdRng)
        requires
            old(map).wf(),
            1 <= one.x < MAP_WIDTH as int - 1,
            1 <= one.y < MAP_HEIGHT as int - 1,
            1 <= two.x < MAP_WIDTH as int - 1,
            1 <= two.y < MAP_HEIGHT as int - 1,
        ensures
            final(map).wf(),
            crate::tunnels::opens_preserved(*old(map), *final(map)),
    {
        let (x1, y1) = one.get_xy();
        let (x2, y2) = two.get_xy();

        if x1 == x2 {
            create_v_tunnel(y1 as i32, y2 as i32, x1 as i32, map, colors, rng);
        } else if y1 == y2 {
            create_h_tunnel(x1 as i32, x2 as i32, y1 as i32, map, colors, rng);
        }
    }
}

/// How many walk steps the maze may take before it settles for what it has
/// carved; never reached in practice.
pub const MAZE_STEP_BUDGET: u32 = 1000000;

/// Carves a maze into an all-wall grid and places the player on an open
/// tile. Every odd coordinate pair starts as a one-tile room, so an open
/// interior tile always exists.
pub fn maze(map: &mut Grid, colors: &Palette, player: &mut Object, rng: &mut StdRng)
    requires
        old(map).wf(),
    ensures
        final(map).wf(),
        forall|i: int, j: int|
            1 <= i < MAP_WIDTH as int - 1 && 1 <= j < MAP_HEIGHT as int - 1 && i % 2 == 1 && j % 2
                == 1 ==> (#[trigger] final(map).at(i, j)).empty,
        has_interior_open(*final(map)),
        1 <= final(player).x < MAP_WIDTH as int - 1,
        1 <= final(player).y < MAP_HEIGHT as int - 1,
        final(map).at(final(player).x as int, final(player).y as int).empty,
        final(player).name == old(player).name,
        final(player).blocks == old(player).blocks,
        final(player).fighter == old(player).fighter,
        final(player).alive == old(player).alive,
{
    let mut maze = Maze::new();

    // Open a one-tile room at every odd coordinate pair.
    let mut x: usize = 0;
    while x < MAP_WIDTH
        invariant
            map.wf(),
            x <= MAP_WIDTH,
            maze_wf(maze),
            maze.points@.len() <= x * MAP_HEIGHT as int,
            x > 1 ==> map.at(1, 1).empty,
            forall|i: int, j: int|
                1 <= i < x && 1 <= j < MAP_HEIGHT as int - 1 && i % 2 == 1 && j % 2 == 1
                    ==> (#[trigger] map.at(i, j)).empty,
        decreases MAP_WIDTH as int - x,
    {
        let mut y: usize = 0;
        while y < MAP_HEIGHT
            invariant
                map.wf(),
                x < MAP_WIDTH,
                y <= MAP_HEIGHT,
                maze_wf(maze),
                maze.points@.len() <= x * MAP_HEIGHT as int + y,
                x > 1 || (x == 1 && y > 1) ==> map.at(1, 1).empty,
                forall|i: int, j: int|
                    1 <= i < x && 1 <= j < MAP_HEIGHT as int - 1 && i % 2 == 1 && j % 2 == 1
                        ==> (#[trigger] map.at(i, j)).empty,
                forall|j: int|
                    1 <= j < y && j % 2 == 1 && x as int % 2 == 1 ==> (#[trigger] map.at(
                        x as int,
                        j,
                    )).empty,
            decreases MAP_HEIGHT as int - y,
        {
            if x % 2 == 1 && y % 2 == 1 {
                let t = Tile::empty(colors, rng);
                map.set(x, y, t);
                maze.points.push(Point::new(x as u32, y as u32));
            }
            y = y + 1;
        }
        x = x + 1;
    }

    // Walk the node graph until every node is visited, carving as we go.
    let mut remaining = maze.count_unvisited();
    let mut fuel: u32 = MAZE_STEP_BUDGET;
    while remaining > 0 && fuel > 0
        invariant
            map.wf(),
            maze_wf(maze),
            map.at(1, 1).empty,
            forall|i: int, j: int|
                1 <= i < MAP_WIDTH as int - 1 && 1 <= j < MAP_HEIGHT as int - 1 && i % 2 == 1 && j
                    % 2 == 1 ==> (#[trigger] map.at(i, j)).empty,
        decreases fuel,
    {
        let ghost pre_map = *map;
        match maze.get_point(maze.get_x(), maze.get_y()) {
            Some(point) => {
                maze.visit(point);
                match maze.find_next(point, rng) {
                    Some(new_point) => {
                        Maze::break_wall(point, new_point, map, colors, rng);
                        maze.pos_move(new_point);
                    },
                    None => {
                        maze.backstep();
                    },
                }
            },
            None => {
                maze.backstep();
            },
        }
        proof {
            assert forall|i: int, j: int|
                1 <= i < MAP_WIDTH as int - 1 && 1 <= j < MAP_HEIGHT as int - 1 && i % 2 == 1 && j
                    % 2 == 1 implies (#[trigger] map.at(i, j)).empty by {
                assert(pre_map.at(i, j).empty);
            }
        }
        remaining = maze.count_unvisited();
        fuel = fuel - 1;
    }

    // Place the player on a random open tile.
    place_player_on_open_tile(map, player, rng);
}

} // verus!
