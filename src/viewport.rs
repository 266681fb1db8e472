use vstd::prelude::*;

use crate::layout::{Rect, Vec2};

verus! {

/// The drawable area, in view pixels.
#[derive(Debug, Clone, Copy, PartialEq, Eq, Structural)]
pub struct Viewport {
    pub size: Vec2,
}

impl Viewport {
    pub fn new() -> (r: Viewport)
        ensures
            r.size == (Vec2 { x: 0, y: 0 }),
    {
        Viewport { size: Vec2 { x: 0, y: 0 } }
    }

    /// The whole viewport as a rectangle from the origin.
    pub fn view_bounds(&self) -> (r: Rect)
        ensures
            r == (Rect { min: Vec2 { x: 0, y: 0 }, max: self.size }),
    {
        Rect { min: Vec2 { x: 0, y: 0 }, max: self.size }
    }

    /// Physical pixels map one to one onto view pixels.
    pub fn physical_to_view(&self, p: Vec2) -> (r: Vec2)
        ensures
            r == p,
    {
        p
    }
}

} // verus!
