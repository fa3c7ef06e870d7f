//! Small geometry types shared by the display-facing parts of the
//! library.

use vstd::prelude::*;

verus! {

/// An axis-aligned rectangle of screen pixels.
#[derive(Clone, Copy, Debug, PartialEq, Eq, Structural)]
pub struct Rect {
    pub x: u16,
    pub y: u16,
    /// Width in pixels, along the horizontal axis.
    pub width: u16,
    /// Height in pixels, along the vertical axis.
    pub height: u16,
}

/// The pixel size of one character of a font.
#[derive(Clone, Copy, Debug, PartialEq, Eq, Structural)]
pub struct FontSize {
    /// Width of one character in pixels.
    pub width: u16,
    /// Height of one character in pixels.
    pub height: u16,
}

/// A point on the screen, in pixels.
#[derive(Clone, Copy, Debug, PartialEq, Eq, Structural)]
pub struct Point {
    pub x: u16,
    pub y: u16,
}

} // verus!
