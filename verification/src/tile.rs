//! Per-cell state of the dungeon grid.

use vstd::prelude::*;

verus! {

/// One cell of the dungeon grid.
#[derive(Clone, Copy, Debug, PartialEq, Eq, Structural)]
pub struct Tile {
    /// No entity can enter the cell.
    pub blocked: bool,
    /// The cell has been seen at least once.
    pub explored: bool,
    /// The cell obstructs the line of sight.
    pub block_sight: bool,
}

impl Tile {
    /// A floor cell, as a value of the model.
    pub open spec fn empty_spec() -> Tile {
        Tile { blocked: false, explored: false, block_sight: false }
    }

    /// A wall cell, as a value of the model.
    pub open spec fn wall_spec() -> Tile {
        Tile { blocked: true, explored: false, block_sight: true }
    }

    /// A floor cell: passable, transparent, not yet seen.
    #[verifier::when_used_as_spec(empty_spec)]
    pub fn empty() -> (tile: Self)
        ensures
            tile == (Tile { blocked: false, explored: false, block_sight: false }),
    {
        Tile { blocked: false, explored: false, block_sight: false }
    }

    /// A wall cell: impassable, opaque, not yet seen.
    #[verifier::when_used_as_spec(wall_spec)]
    pub fn wall() -> (tile: Self)
        ensures
            tile == (Tile { blocked: true, explored: false, block_sight: true }),
    {
        Tile { blocked: true, explored: false, block_sight: true }
    }
}

} // verus!
