//! Room terrain.

use vstd::prelude::*;

verus! {

/// What a square of a room is made of.
#[derive(Clone, Copy, Debug, Hash, PartialEq, Eq, Structural)]
pub enum TerrainType {
    /// Easy to move through.
    Plains,
    /// Hard to move through.
    Swamp,
    /// Impossible to move through.
    Wall,
    /// A wall with swamp underneath it.
    SwampyWall,
}

/// The terrain of a room, row by row: `rows[y][x]`.
#[derive(Debug, Hash, PartialEq, Eq)]
pub struct TerrainGrid {
    pub rows: Vec<Vec<TerrainType>>,
}

} // verus!
