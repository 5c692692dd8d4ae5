use vstd::prelude::*;

verus! {

/// A position or an offset on the integer grid, in cells. Coordinates are
/// signed: a candidate position may lie left of or above the field.
#[derive(Debug, Clone, Copy, PartialEq, Eq, Structural)]
pub struct Point {
    pub x: i32,
    pub y: i32,
}

/// A position that cannot be negative.
#[derive(Debug, Clone, Copy, PartialEq, Eq, Structural)]
pub struct UPoint {
    pub x: u32,
    pub y: u32,
}

/// The dimensions of a field, in cells.
#[derive(Debug, Clone, Copy, PartialEq, Eq, Structural)]
pub struct Size {
    pub height: usize,
    pub width: usize,
}

/// An axis-aligned rectangle: its top-left corner and its dimensions.
#[derive(Debug, Clone, Copy, PartialEq, Eq, Structural)]
pub struct Rect {
    pub origin: Point,
    pub size: Size,
}

} // verus!
