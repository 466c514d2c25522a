//! Positions in the coordinate space of the editor's session.

use vstd::prelude::*;

verus! {

/// A pointer position in session space, in whole units.
#[derive(Clone, Copy, Debug, PartialEq, Eq, Structural)]
pub struct SessionCoords {
    pub x: i32,
    pub y: i32,
}

impl SessionCoords {
    /// Builds a position from its two coordinates.
    pub fn new(x: i32, y: i32) -> (point: SessionCoords)
        ensures
            point == (SessionCoords { x, y }),
    {
        SessionCoords { x, y }
    }
}

} // verus!
