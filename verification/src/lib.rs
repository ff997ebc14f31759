//! Frame synthesis for a raw-video stream: a fixed-size RGB canvas, a
//! rasterizer that plots rectangles and lines onto it with clipping, and the
//! per-tick schedule that turns simulation steps into transmitted frames.

pub mod agent;
pub mod binary32;
pub mod canvas;
pub mod color;
pub mod frame;
pub mod geometry;
pub mod raster;
pub mod stream;
pub mod style;
