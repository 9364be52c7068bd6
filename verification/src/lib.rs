pub mod bfs;
pub mod cellular_automata;
pub mod drunk_walk;
pub mod enemies;
pub mod entry;
pub mod game;
pub mod grid;
pub mod maze;
pub mod modifiers;
pub mod objects;
pub mod rect;
pub mod rectangles;
pub mod rng;
pub mod spawner;
pub mod tables;
pub mod traits;
pub mod tunnels;
pub mod tiles;

use vstd::prelude::*;

verus! {

/// Width of the dungeon grid, in tiles.
pub const MAP_WIDTH: usize = 81;

/// Height of the dungeon grid, in tiles.
pub const MAP_HEIGHT: usize = 43;

/// A coordinate pair `(x, y)` on the grid.
pub type Point = (u32, u32);

} // verus!
