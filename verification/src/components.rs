//! Plain data carried by entities the session driver manages.  The library
//! only reads and returns these values; storage and rendering of entities
//! belong to outside collaborators.

use vstd::prelude::*;

verus! {

/// A grid coordinate an entity stands on.
#[derive(Clone, Copy, Debug, PartialEq, Eq, Structural)]
pub struct Position {
    pub x: i32,
    pub y: i32,
}

} // verus!
