//! The colour value that the palette holds.

use vstd::prelude::*;

verus! {

/// A colour of four channels, eight bits each.
#[derive(Clone, Copy, Debug, PartialEq, Eq, Structural)]
pub struct Rgba8 {
    pub r: u8,
    pub g: u8,
    pub b: u8,
    pub a: u8,
}

impl Rgba8 {
    /// Builds a colour from its four channels.
    pub fn new(r: u8, g: u8, b: u8, a: u8) -> (color: Rgba8)
        ensures
            color == (Rgba8 { r, g, b, a }),
    {
        Rgba8 { r, g, b, a }
    }
}

} // verus!
