use std::convert::Infallible;

use boidcast::canvas::FfmpegDisplay;
use boidcast::color::Rgb;
use boidcast::geometry::{Pixel, Point, Size};
use boidcast::raster::{draw_line, draw_rect_centered};
use boidcast::style::{ShapeStyle, StrokeStyle};
use embedded_graphics::pixelcolor::Rgb888;
use embedded_graphics::prelude::{DrawTarget, OriginDimensions, RgbColor};
use embedded_graphics::primitives::{Line, Primitive, PrimitiveStyle, Rectangle};
use embedded_graphics::Drawable;

struct Target(FfmpegDisplay);

impl OriginDimensions for Target {
    fn size(&self) -> embedded_graphics::geometry::Size {
        embedded_graphics::geometry::Size::new(self.0.width(), self.0.height())
    }
}

impl DrawTarget for Target {
    type Color = Rgb888;
    type Error = Infallible;

    fn draw_iter<I>(&mut self, pixels: I) -> Result<(), Self::Error>
    where
        I: IntoIterator<Item = embedded_graphics::Pixel<Self::Color>>,
    {
        let writes: Vec<Pixel> = pixels
            .into_iter()
            .map(|embedded_graphics::Pixel(at, c)| {
                Pixel::new(Point::new(at.x, at.y), Rgb::new(c.r(), c.g(), c.b()))
            })
            .collect();
        self.0.draw_iter(&writes);
        Ok(())
    }
}

fn outside_style(style: ShapeStyle) -> PrimitiveStyle<Rgb888> {
    let mut out = PrimitiveStyle::new();
    out.fill_color = style.fill.map(|c| Rgb888::new(c.r, c.g, c.b));
    out.stroke_color = style.stroke.map(|s| Rgb888::new(s.color.r, s.color.g, s.color.b));
    out.stroke_width = style.stroke.map_or(0, |s| s.width);
    out
}

#[test]
fn rectangles_match_the_draw_target_rendering() {
    let red = Rgb::new(255, 0, 0);
    let blue = Rgb::new(0, 0, 255);
    let styles = [
        ShapeStyle::new(Some(blue), None),
        ShapeStyle::new(None, Some(StrokeStyle::new(red, 1))),
        ShapeStyle::new(Some(blue), Some(StrokeStyle::new(red, 0))),
        ShapeStyle::new(Some(blue), Some(StrokeStyle::new(red, 1))),
        ShapeStyle::new(Some(blue), Some(StrokeStyle::new(red, 2))),
        ShapeStyle::new(Some(blue), Some(StrokeStyle::new(red, 5))),
        ShapeStyle::new(None, Some(StrokeStyle::new(red, 8))),
    ];
    for style in styles {
        for (w, h) in [(1, 1), (2, 3), (3, 2), (10, 10), (9, 4), (1, 12)] {
            for center in [
                Point::new(12, 11),
                Point::new(0, 0),
                Point::new(23, 21),
                Point::new(-3, 25),
            ] {
                let mut ours = FfmpegDisplay::new(24, 22);
                draw_rect_centered(&mut ours, center, Size::new(w, h), style);
                let mut theirs = Target(FfmpegDisplay::new(24, 22));
                Rectangle::with_center(
                    embedded_graphics::geometry::Point::new(center.x, center.y),
                    embedded_graphics::geometry::Size::new(w, h),
                )
                .into_styled(outside_style(style))
                .draw(&mut theirs)
                .unwrap();
                assert_eq!(
                    ours.raw_bytes(),
                    theirs.0.raw_bytes(),
                    "{style:?} {w}x{h} {center:?}"
                );
            }
        }
    }
}

#[test]
fn lines_match_the_draw_target_rendering() {
    let red = Rgb::new(255, 0, 0);
    let ends = [
        ((2, 2), (17, 2)),
        ((3, 18), (3, 1)),
        ((1, 1), (15, 15)),
        ((16, 2), (2, 16)),
        ((1, 3), (18, 9)),
        ((4, 18), (9, 0)),
        ((-5, 4), (30, 11)),
        ((10, -7), (12, 40)),
    ];
    for width in [1u32, 2, 3, 4, 7] {
        for (from, to) in ends {
            let mut ours = FfmpegDisplay::new(20, 20);
            draw_line(
                &mut ours,
                Point::new(from.0, from.1),
                Point::new(to.0, to.1),
                StrokeStyle::new(red, width),
            );
            let mut theirs = Target(FfmpegDisplay::new(20, 20));
            Line::new(
                embedded_graphics::geometry::Point::new(from.0, from.1),
                embedded_graphics::geometry::Point::new(to.0, to.1),
            )
            .into_styled(PrimitiveStyle::with_stroke(Rgb888::new(255, 0, 0), width))
            .draw(&mut theirs)
            .unwrap();
            assert_eq!(ours.raw_bytes(), theirs.0.raw_bytes(), "{from:?} {to:?} {width}");
            assert!(ours.raw_bytes().iter().any(|b| *b != 0));
        }
    }
}
