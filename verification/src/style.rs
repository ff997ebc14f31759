//! How a primitive is drawn: stroke and fill.

use vstd::prelude::*;
use crate::color::Rgb;

verus! {

/// The outline of a primitive: a colour and a width in pixels.
#[derive(Clone, Copy, Debug, PartialEq, Eq, Structural)]
pub struct StrokeStyle {
    pub color: Rgb,
    pub width: u32,
}

impl StrokeStyle {
    /// Builds a stroke.
    pub fn new(color: Rgb, width: u32) -> (s: StrokeStyle)
        ensures
            s == (StrokeStyle { color, width }),
    {
        StrokeStyle { color, width }
    }

    /// Whether the stroke paints anything: a stroke of width zero does not.
    pub open spec fn visible(self) -> bool {
        self.width > 0
    }
}

/// The style of a closed shape: an optional fill colour and an optional
/// stroke, centred on the shape's edge.
#[derive(Clone, Copy, Debug, PartialEq, Eq, Structural)]
pub struct ShapeStyle {
    pub fill: Option<Rgb>,
    pub stroke: Option<StrokeStyle>,
}

impl ShapeStyle {
    /// Builds a style from its parts.
    pub fn new(fill: Option<Rgb>, stroke: Option<StrokeStyle>) -> (s: ShapeStyle)
        ensures
            s == (ShapeStyle { fill, stroke }),
    {
        ShapeStyle { fill, stroke }
    }

    /// The stroke's colour, if the style has a stroke.
    pub open spec fn stroke_color(self) -> Option<Rgb> {
        match self.stroke {
            Some(s) => Some(s.color),
            None => None,
        }
    }

    /// The stroke's width; zero where the style has no stroke.
    pub open spec fn stroke_width(self) -> int {
        match self.stroke {
            Some(s) => s.width as int,
            None => 0,
        }
    }
}

} // verus!
