//! A single cell of the dungeon grid.

use vstd::prelude::*;

verus! {

/// One cell of the grid. A cell that blocks movement always blocks sight
/// in this design (a wall is opaque); a floor cell blocks neither but may
/// still be unexplored.
#[derive(Clone, Copy, Debug, PartialEq, Eq, Structural)]
pub struct Tile {
    pub blocked: bool,
    pub block_sight: bool,
    pub explored: bool,
}

impl Tile {
    /// A walkable, transparent, not yet explored floor cell.
    pub fn empty() -> (t: Tile)
        ensures
            t == (Tile { blocked: false, block_sight: false, explored: false }),
    {
        Tile { blocked: false, block_sight: false, explored: false }
    }

    /// An impassable, opaque, not yet explored wall cell.
    pub fn wall() -> (t: Tile)
        ensures
            t == (Tile { blocked: true, block_sight: true, explored: false }),
    {
        Tile { blocked: true, block_sight: true, explored: false }
    }
}

} // verus!
