//! Colours with four channels in thousandths.

use vstd::prelude::*;

verus! {

/// Full intensity of a channel.
pub const FULL: u16 = 1000;

/// Red, green, blue and opacity, each from 0 to 1000.
#[derive(Clone, Copy, Debug, PartialEq, Eq, Structural)]
pub struct Color {
    pub r: u16,
    pub g: u16,
    pub b: u16,
    pub a: u16,
}

impl Color {
    /// Every channel is at most full.
    pub open spec fn well_formed(self) -> bool {
        self.r <= FULL && self.g <= FULL && self.b <= FULL && self.a <= FULL
    }

    pub fn new(r: u16, g: u16, b: u16, a: u16) -> (c: Color)
        ensures
            c == (Color { r, g, b, a }),
    {
        Color { r, g, b, a }
    }
}

} // verus!
