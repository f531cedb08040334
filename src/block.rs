use vstd::prelude::*;
use crate::geometry::{Point, Rect, Size};
use crate::graphics::Color;

verus! {

/// A coloured rectangle of grid cells, as handed to a renderer.
#[derive(Debug, Clone, Copy, PartialEq, Eq, Structural)]
pub struct Block {
    pub rect: Rect,
    pub color: Color,
}

impl Block {
    pub fn new(x: i32, y: i32, height: usize, width: usize, color: Color) -> (r: Block)
        ensures
            r.rect.origin == (Point { x, y }),
            r.rect.size == (Size { height, width }),
            r.color == color,
    {
        Block { rect: Rect { origin: Point { x, y }, size: Size { height, width } }, color }
    }

    pub fn size(&self) -> (r: Size)
        ensures
            r == self.rect.size,
    {
        self.rect.size
    }

    pub fn position(&self) -> (r: Point)
        ensures
            r == self.rect.origin,
    {
        self.rect.origin
    }
}

} // verus!
