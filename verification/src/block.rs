use vstd::prelude::*;
use crate::geometry::{Point, Rect, Size};
use crate::graphics::Color;

verus! {

/// A coloured rectangle to draw.
#[derive(Debug, Clone, Copy, PartialEq, Eq, Structural)]
pub struct Block {
    pub rect: Rect,
    pub color: Color,
}

impl Block {
    pub fn new(x: i32, y: i32, height: usize, width: usize, color: Color) -> (b: Block)
        ensures
            b.rect.origin == (Point { x, y }),
            b.rect.size == (Size { height, width }),
            b.color == color,
    {
        Block { rect: Rect { origin: Point { x, y }, size: Size { height, width } }, color }
    }

    pub fn size(&self) -> (s: Size)
        ensures
            s == self.rect.size,
    {
        self.rect.size
    }

    pub fn position(&self) -> (p: Point)
        ensures
            p == self.rect.origin,
    {
        self.rect.origin
    }
}

} // verus!
