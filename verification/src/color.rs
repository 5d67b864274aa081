//! Display colors of cell states.

use vstd::prelude::*;

verus! {

/// A color with red, green, blue and alpha channels.
#[derive(Debug, Clone, Copy, PartialEq, Eq, Structural)]
pub struct Color {
    pub r: u8,
    pub g: u8,
    pub b: u8,
    pub a: u8,
}

/// Opaque white.
pub open spec fn white_spec() -> Color {
    Color { r: 255, g: 255, b: 255, a: 255 }
}

/// Opaque mid gray.
pub open spec fn gray_spec() -> Color {
    Color { r: 128, g: 128, b: 128, a: 255 }
}

/// Opaque red.
pub open spec fn red_spec() -> Color {
    Color { r: 255, g: 0, b: 0, a: 255 }
}

pub fn white() -> (c: Color)
    ensures
        c == white_spec(),
{
    Color { r: 255, g: 255, b: 255, a: 255 }
}

pub fn gray() -> (c: Color)
    ensures
        c == gray_spec(),
{
    Color { r: 128, g: 128, b: 128, a: 255 }
}

pub fn red() -> (c: Color)
    ensures
        c == red_spec(),
{
    Color { r: 255, g: 0, b: 0, a: 255 }
}

} // verus!
