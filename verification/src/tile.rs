//! A per-cell attribute snapshot: the derived movement and sight flags
//! together with the cell's visibility history, as rendering collaborators
//! consume them.

use vstd::prelude::*;

verus! {

/// The derived attributes of one cell: whether it blocks movement, whether
/// it has ever been seen, and whether it blocks sight.
#[derive(Clone, Copy, Debug, PartialEq, Eq, Structural)]
pub struct Tile {
    pub blocked: bool,
    pub explored: bool,
    pub block_sight: bool,
}

impl Tile {
    /// An open, never seen, transparent cell.
    pub fn empty() -> (r: Tile)
        ensures
            !r.blocked,
            !r.explored,
            !r.block_sight,
    {
        Tile { blocked: false, explored: false, block_sight: false }
    }

    /// A solid, never seen, opaque cell.
    pub fn wall() -> (r: Tile)
        ensures
            r.blocked,
            !r.explored,
            r.block_sight,
    {
        Tile { blocked: true, explored: false, block_sight: true }
    }
}

} // verus!
