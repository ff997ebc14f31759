//! Integer geometry: points, sizes, and coloured pixels.

use vstd::prelude::*;
use crate::color::Rgb;

verus! {

/// A pixel coordinate. It may lie outside any canvas: drawing clips.
#[derive(Clone, Copy, Debug, PartialEq, Eq, Structural)]
pub struct Point {
    pub x: i32,
    pub y: i32,
}

impl Point {
    /// Builds a point from its coordinates.
    pub fn new(x: i32, y: i32) -> (p: Point)
        ensures
            p == (Point { x, y }),
    {
        Point { x, y }
    }
}

/// A width and a height in pixels.
#[derive(Clone, Copy, Debug, PartialEq, Eq, Structural)]
pub struct Size {
    pub width: u32,
    pub height: u32,
}

impl Size {
    /// Builds a size from its extents.
    pub fn new(width: u32, height: u32) -> (s: Size)
        ensures
            s == (Size { width, height }),
    {
        Size { width, height }
    }
}

/// One pixel write: a coordinate and the colour to put there.
#[derive(Clone, Copy, Debug, PartialEq, Eq, Structural)]
pub struct Pixel {
    pub point: Point,
    pub color: Rgb,
}

impl Pixel {
    /// Builds a pixel write.
    pub fn new(point: Point, color: Rgb) -> (p: Pixel)
        ensures
            p == (Pixel { point, color }),
    {
        Pixel { point, color }
    }

    /// Whether this write lands on coordinate `(x, y)`.
    pub open spec fn at(self, x: int, y: int) -> bool {
        self.point.x == x && self.point.y == y
    }
}

} // verus!
