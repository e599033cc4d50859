//! The pixel value the renderer produces: one 8-bit value per channel.
//! Writing the binary image stream itself is left to the embedding
//! application; the renderer only fills a buffer of these.

use vstd::prelude::*;

verus! {

/// An 8-bit RGB pixel.
#[derive(Clone, Copy, PartialEq, Eq, Structural, Debug)]
pub struct Color {
    pub r: u8,
    pub g: u8,
    pub b: u8,
}

impl Color {
    pub fn new(r: u8, g: u8, b: u8) -> (c: Color)
        ensures
            c.r == r,
            c.g == g,
            c.b == b,
    {
        Color { r, g, b }
    }
}

} // verus!
