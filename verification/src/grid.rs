//! The dungeon grid: a fixed 81 x 43 field of tiles, stored flat in
//! column-major order (index `x * MAP_HEIGHT + y`).

use vstd::prelude::*;

use crate::tiles::{Palette, Tile};
use crate::{MAP_HEIGHT, MAP_WIDTH};

verus! {

/// Whether `(x, y)` lies on the grid.
pub open spec fn in_bounds(x: int, y: int) -> bool {
    0 <= x < MAP_WIDTH as int && 0 <= y < MAP_HEIGHT as int
}

/// The flat index of `(x, y)`.
pub open spec fn flat_index(x: int, y: int) -> int {
    x * (MAP_HEIGHT as int) + y
}

pub proof fn lemma_flat_index_bounds(x: int, y: int)
    requires
        in_bounds(x, y),
    ensures
        0 <= flat_index(x, y) < MAP_WIDTH as int * MAP_HEIGHT as int,
{
}

pub proof fn lemma_flat_index_injective(x1: int, y1: int, x2: int, y2: int)
    requires
        in_bounds(x1, y1),
        in_bounds(x2, y2),
        flat_index(x1, y1) == flat_index(x2, y2),
    ensures
        x1 == x2 && y1 == y2,
{
}

/// The level map: a grid of tiles.
pub struct Grid {
    tiles: Vec<Tile>,
}

impl Grid {
    /// The tile at `(x, y)`.
    pub closed spec fn at(self, x: int, y: int) -> Tile {
        self.tiles@[flat_index(x, y)]
    }

    /// The grid holds one well-formed tile for every coordinate.
    pub closed spec fn wf(self) -> bool {
        &&& self.tiles@.len() == MAP_WIDTH as int * MAP_HEIGHT as int
        &&& forall|i: int| 0 <= i < self.tiles@.len() ==> (#[trigger] self.tiles@[i]).wf()
    }

    /// The tile at `(x, y)` is open floor.
    pub open spec fn open_at(self, x: int, y: int) -> bool {
        self.at(x, y).empty
    }

    /// The tile at `(x, y)` is a wall.
    pub open spec fn wall_at(self, x: int, y: int) -> bool {
        self.at(x, y).wall
    }

    /// Every tile of a well-formed grid is itself well-formed.
    pub proof fn lemma_tiles_wf(self)
        requires
            self.wf(),
        ensures
            forall|i: int, j: int| in_bounds(i, j) ==> (#[trigger] self.at(i, j)).wf(),
    {
        assert forall|i: int, j: int| in_bounds(i, j) implies (#[trigger] self.at(i, j)).wf() by {
            lemma_flat_index_bounds(i, j);
        }
    }

    /// Creates a grid filled with wall tiles.
    pub fn new_walls(colors: &Palette) -> (g: Grid)
        ensures
            g.wf(),
            forall|x: int, y: int| in_bounds(x, y) ==> #[trigger] g.at(x, y).wall,
    {
        let wall = Tile::wall(colors);
        let total: usize = MAP_WIDTH * MAP_HEIGHT;
        let mut tiles: Vec<Tile> = Vec::new();
        let mut i: usize = 0;
        while i < total
            invariant
                i <= total,
                total == MAP_WIDTH as int * MAP_HEIGHT as int,
                tiles@.len() == i,
                wall.wf(),
                wall.wall,
                forall|k: int| 0 <= k < i ==> #[trigger] tiles@[k] == wall,
            decreases total - i,
        {
            tiles.push(wall);
            i = i + 1;
        }
        let g = Grid { tiles };
        proof {
            assert forall|x: int, y: int| in_bounds(x, y) implies #[trigger] g.at(x, y).wall by {
                lemma_flat_index_bounds(x, y);
            }
            assert forall|k: int| 0 <= k < g.tiles@.len() implies (#[trigger] g.tiles@[k]).wf() by {
            }
        }
        g
    }

    /// Reads the tile at `(x, y)`.
    pub fn get(&self, x: usize, y: usize) -> (t: Tile)
        requires
            self.wf(),
            in_bounds(x as int, y as int),
        ensures
            t == self.at(x as int, y as int),
    {
        proof {
            lemma_flat_index_bounds(x as int, y as int);
        }
        self.tiles[x * MAP_HEIGHT + y]
    }

    /// Replaces the tile at `(x, y)`, leaving every other tile unchanged.
    pub fn set(&mut self, x: usize, y: usize, t: Tile)
        requires
            old(self).wf(),
            in_bounds(x as int, y as int),
            t.wf(),
        ensures
            final(self).wf(),
            final(self).at(x as int, y as int) == t,
            forall|i: int, j: int|
                in_bounds(i, j) && !(i == x as int && j == y as int)
                    ==> #[trigger] final(self).at(i, j) == old(self).at(i, j),
    {
        proof {
            lemma_flat_index_bounds(x as int, y as int);
        }
        self.tiles.set(x * MAP_HEIGHT + y, t);
        proof {
            assert forall|i: int, j: int|
                in_bounds(i, j) && !(i == x as int && j == y as int)
                    implies #[trigger] self.at(i, j) == old(self).at(i, j) by {
                lemma_flat_index_bounds(i, j);
                if flat_index(i, j) == flat_index(x as int, y as int) {
                    lemma_flat_index_injective(i, j, x as int, y as int);
                }
            }
        }
    }
}

} // verus!
