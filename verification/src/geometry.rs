//! Plain geometry carried through the protocol.

use vstd::prelude::*;

verus! {

/// A rectangle: an origin and a size, in surface coordinates.
#[derive(Debug, Clone, Copy, PartialEq, Eq, Structural)]
pub struct Rectangle {
    /// Horizontal origin.
    pub x: i32,
    /// Vertical origin.
    pub y: i32,
    /// Width in pixels.
    pub width: i32,
    /// Height in pixels.
    pub height: i32,
}

/// A width and height pair.
#[derive(Debug, Clone, Copy, PartialEq, Eq, Structural)]
pub struct SurfaceSize {
    /// Width in pixels.
    pub width: i32,
    /// Height in pixels.
    pub height: i32,
}

} // verus!
