//! The rasterizer: rectangles and lines turned into pixel writes, each
//! clipped by the canvas on its own.

use vstd::prelude::*;
use embedded_graphics::geometry::{Point as GridPoint, Size as GridSize};
use embedded_graphics::pixelcolor::{Rgb888, RgbColor};
use embedded_graphics::primitives::{Line, Primitive, PrimitiveStyle, Rectangle};
use embedded_graphics::Pixel as GridPixel;
use crate::canvas::FfmpegDisplay;
use crate::color::Rgb;
use crate::frame::{
    lemma_with_pixel_reads, lemma_with_pixel_wf, lemma_with_writes_pixel, lemma_with_writes_wf,
    Frame,
};
use crate::geometry::{Pixel, Point, Size};
use crate::style::{ShapeStyle, StrokeStyle};

verus! {

/// An axis-aligned block of pixels: the columns `left .. left + width` of
/// the rows `top .. top + height`.
pub struct Area {
    pub left: int,
    pub top: int,
    pub width: int,
    pub height: int,
}

impl Area {
    /// The block of the given size around `(cx, cy)`. With an even extent
    /// the centre lies half a pixel off the grid, and the block reaches one
    /// pixel further right and down than left and up.
    pub open spec fn centered(cx: int, cy: int, width: int, height: int) -> Area {
        Area {
            left: cx - (if width > 0 { (width - 1) / 2 } else { 0 }),
            top: cy - (if height > 0 { (height - 1) / 2 } else { 0 }),
            width,
            height,
        }
    }

    /// Whether `(x, y)` lies in the block.
    pub open spec fn contains(self, x: int, y: int) -> bool {
        self.left <= x < self.left + self.width && self.top <= y < self.top + self.height
    }
}

/// The block that a rectangle's stroke reaches to: a centred stroke of width
/// `w` lies `w / 2` pixels outside the rectangle's edge.
pub open spec fn stroke_area(center: Point, size: Size, stroke_width: int) -> Area {
    let outside = stroke_width / 2;
    Area::centered(
        center.x as int,
        center.y as int,
        size.width + 2 * outside,
        size.height + 2 * outside,
    )
}

/// The block that a rectangle's fill covers: a centred stroke of width `w`
/// takes `(w + 1) / 2` pixels inside the rectangle's edge.
pub open spec fn fill_area(center: Point, size: Size, stroke_width: int) -> Area {
    let inside = (stroke_width + 1) / 2;
    Area::centered(
        center.x as int,
        center.y as int,
        if size.width >= 2 * inside { size.width - 2 * inside } else { 0 },
        if size.height >= 2 * inside { size.height - 2 * inside } else { 0 },
    )
}

/// The colour that a styled rectangle gives to `(x, y)`: the fill colour
/// inside the fill area, the stroke colour in the ring around it, and none
/// outside the stroke area or where the style has no colour for the place.
pub open spec fn rect_paint(
    center: Point,
    size: Size,
    fill: Option<Rgb>,
    stroke: Option<Rgb>,
    stroke_width: int,
    x: int,
    y: int,
) -> Option<Rgb> {
    if !stroke_area(center, size, stroke_width).contains(x, y) {
        None
    } else if fill_area(center, size, stroke_width).contains(x, y) {
        fill
    } else {
        stroke
    }
}

/// Whether a size has no pixels: one of its extents is zero.
pub open spec fn is_empty(size: Size) -> bool {
    size.width == 0 || size.height == 0
}

/// The paint of a rectangle of the given size around `center`, drawn in
/// `style`. A rectangle without pixels paints nothing, whatever its stroke.
pub open spec fn rect_layer(center: Point, size: Size, style: ShapeStyle) -> spec_fn(
    int,
    int,
) -> Option<Rgb> {
    |x: int, y: int|
        if is_empty(size) {
            None
        } else {
            rect_paint(center, size, style.fill, style.stroke_color(), style.stroke_width(), x, y)
        }
}

/// The largest coordinate magnitude and extent that the rasterizer takes.
pub open spec fn coordinate_limit() -> int {
    0x4000_0000
}

/// The rectangles that can be drawn: centre, extents and stroke width are
/// small enough for every corner to be a 32-bit coordinate, and the list of
/// the rectangle's pixels can be held in memory.
pub open spec fn rect_in_range(center: Point, size: Size, stroke_width: int) -> bool {
    &&& -coordinate_limit() <= center.x <= coordinate_limit()
    &&& -coordinate_limit() <= center.y <= coordinate_limit()
    &&& size.width <= coordinate_limit()
    &&& size.height <= coordinate_limit()
    &&& 0 <= stroke_width <= coordinate_limit() / 2
    &&& stroke_area(center, size, stroke_width).width * stroke_area(
        center,
        size,
        stroke_width,
    ).height * 16 <= isize::MAX
}

/// Decides whether a rectangle can be drawn.
pub fn rect_fits(center: Point, size: Size, stroke_width: u32) -> (fits: bool)
    ensures
        fits == rect_in_range(center, size, stroke_width as int),
{
    let limit: i32 = 0x4000_0000;
    if center.x < -limit || center.x > limit || center.y < -limit || center.y > limit {
        return false;
    }
    if size.width > 0x4000_0000 || size.height > 0x4000_0000 || stroke_width > 0x2000_0000 {
        return false;
    }
    let outside: u128 = (stroke_width / 2) as u128;
    let outer_width: u128 = size.width as u128 + 2 * outside;
    let outer_height: u128 = size.height as u128 + 2 * outside;
    assert(outer_width * outer_height <= 0x8000_0000 * 0x8000_0000) by (nonlinear_arith)
        requires
            outer_width <= 0x8000_0000,
            outer_height <= 0x8000_0000,
    ;
    outer_width * outer_height * 16 <= isize::MAX as u128
}

/// Whether `out` lists the pixels of a styled rectangle: each entry carries
/// the colour the rectangle gives to its place, every place that the
/// rectangle colours has an entry, and the entries run row by row from the
/// top, each row from the left.
pub open spec fn renders_rect(
    out: Seq<Pixel>,
    center: Point,
    size: Size,
    fill: Option<Rgb>,
    stroke: Option<Rgb>,
    stroke_width: int,
) -> bool {
    &&& forall|i: int|
        0 <= i < out.len() ==> rect_paint(
            center,
            size,
            fill,
            stroke,
            stroke_width,
            (#[trigger] out[i]).point.x as int,
            out[i].point.y as int,
        ) == Some(out[i].color)
    &&& forall|x: int, y: int|
        (#[trigger] rect_paint(center, size, fill, stroke, stroke_width, x, y)) is Some
            ==> exists|i: int| 0 <= i < out.len() && (#[trigger] out[i]).at(x, y)
    &&& forall|i: int, j: int|
        0 <= i < j < out.len() ==> (#[trigger] out[i]).point.y < (#[trigger] out[j]).point.y || (
        out[i].point.y == out[j].point.y && out[i].point.x < out[j].point.x)
}

/// The pixels of a styled rectangle, from
/// `embedded_graphics::primitives::Rectangle::with_center`, `into_styled` and
/// `Styled::pixels`, with a `PrimitiveStyle` of the given fill colour, stroke
/// colour and stroke width and the default, centred stroke alignment.
///
/// Trusted: the iterator walks the stroke area row by row and yields, for
/// each point that has a colour, the fill colour inside the fill area and the
/// stroke colour elsewhere. The precondition keeps the corner arithmetic of
/// the outside code inside `i32`.
#[verifier::external_body]
fn styled_rectangle_pixels(
    center: Point,
    size: Size,
    fill: Option<Rgb>,
    stroke: Option<Rgb>,
    stroke_width: u32,
) -> (out: Vec<Pixel>)
    requires
        rect_in_range(center, size, stroke_width as int),
    ensures
        renders_rect(out@, center, size, fill, stroke, stroke_width as int),
{
    let mut style = PrimitiveStyle::new();
    style.fill_color = fill.map(|c| Rgb888::new(c.r, c.g, c.b));
    style.stroke_color = stroke.map(|c| Rgb888::new(c.r, c.g, c.b));
    style.stroke_width = stroke_width;
    let middle = GridPoint::new(center.x, center.y);
    let extent = GridSize::new(size.width, size.height);
    Rectangle::with_center(middle, extent)
        .into_styled(style)
        .pixels()
        .map(|GridPixel(p, c)| Pixel {
            point: Point { x: p.x, y: p.y },
            color: Rgb { r: c.r(), g: c.g(), b: c.b() },
        })
        .collect()
}

/// Draws the rectangle of the given size around `center`: the fill colour,
/// if any, on the fill area, and the stroke colour, if any, on the ring of
/// the stroke's width around it, so that the fill never covers the stroke.
/// Pixels outside the canvas are clipped. A rectangle with a zero extent
/// draws nothing.
pub fn draw_rect_centered(
    display: &mut FfmpegDisplay,
    center: Point,
    size: Size,
    style: ShapeStyle,
)
    requires
        !is_empty(size) ==> rect_in_range(center, size, style.stroke_width()),
    ensures
        final(display)@.repaints(old(display)@, rect_layer(center, size, style)),
{
    proof {
        use_type_invariant(&*display);
    }
    if size.width == 0 || size.height == 0 {
        return ;
    }
    let stroke_color: Option<Rgb> = match style.stroke {
        Some(s) => Some(s.color),
        None => None,
    };
    let stroke_width: u32 = match style.stroke {
        Some(s) => s.width,
        None => 0,
    };
    let pixels: Vec<Pixel> = styled_rectangle_pixels(
        center,
        size,
        style.fill,
        stroke_color,
        stroke_width,
    );
    display.draw_iter(&pixels);
    proof {
        let base = old(display)@;
        let paint = |x: int, y: int|
            rect_paint(center, size, style.fill, stroke_color, stroke_width as int, x, y);
        lemma_with_writes_wf(base, pixels@);
        assert forall|x: int, y: int| base.contains(x, y) implies #[trigger] display@.pixel(x, y)
            == match paint(x, y) {
            Some(c) => c,
            None => base.pixel(x, y),
        } by {
            lemma_with_writes_pixel(base, pixels@, paint, x, y);
            if exists|i: int| 0 <= i < pixels@.len() && (#[trigger] pixels@[i]).at(x, y) {
                let i = choose|i: int| 0 <= i < pixels@.len() && (#[trigger] pixels@[i]).at(x, y);
                assert(paint(x, y) == Some(pixels@[i].color));
            }
        }
    }
}

/// With a fill and a stroke of at most one pixel, a rectangle colours
/// exactly the block of its own size around its centre: every place in the
/// block, and none outside it.
pub proof fn lemma_rect_paints_its_block(
    center: Point,
    size: Size,
    style: ShapeStyle,
    x: int,
    y: int,
)
    requires
        style.fill is Some,
        style.stroke_width() <= 1,
    ensures
        rect_layer(center, size, style)(x, y) is Some <==> Area::centered(
            center.x as int,
            center.y as int,
            size.width as int,
            size.height as int,
        ).contains(x, y),
{
}

/// A square of side ten around `center` reaches from four pixels before
/// the centre to five pixels after it, on both axes.
pub proof fn lemma_square_of_ten(center: Point, x: int, y: int)
    ensures
        Area::centered(center.x as int, center.y as int, 10, 10).contains(x, y) <==> (center.x
            - 4 <= x <= center.x + 5 && center.y - 4 <= y <= center.y + 5),
{
}

/// Drawing a rectangle with a fill and a stroke of at most one pixel sets
/// exactly the pixels of the rectangle's block that lie on the canvas:
/// each of them shows the style's colour for its place, and every pixel
/// outside the block is as it was.
pub proof fn lemma_rect_sets_exactly_its_block(
    before: Frame,
    after: Frame,
    center: Point,
    size: Size,
    style: ShapeStyle,
)
    requires
        after.repaints(before, rect_layer(center, size, style)),
        style.fill is Some,
        style.stroke_width() <= 1,
    ensures
        forall|x: int, y: int|
            before.contains(x, y) ==> #[trigger] after.pixel(x, y) == if Area::centered(
                center.x as int,
                center.y as int,
                size.width as int,
                size.height as int,
            ).contains(x, y) {
                if fill_area(center, size, style.stroke_width()).contains(x, y) {
                    style.fill->0
                } else {
                    style.stroke_color()->0
                }
            } else {
                before.pixel(x, y)
            },
{
    assert forall|x: int, y: int| before.contains(x, y) implies #[trigger] after.pixel(x, y)
        == if Area::centered(
        center.x as int,
        center.y as int,
        size.width as int,
        size.height as int,
    ).contains(x, y) {
        if fill_area(center, size, style.stroke_width()).contains(x, y) {
            style.fill->0
        } else {
            style.stroke_color()->0
        }
    } else {
        before.pixel(x, y)
    } by {
        lemma_rect_paints_its_block(center, size, style, x, y);
        assert(after.pixel(x, y) == match rect_layer(center, size, style)(x, y) {
            Some(c) => c,
            None => before.pixel(x, y),
        });
    }
}

/// The points that a line of the given stroke width covers, from `(x0, y0)`
/// to `(x1, y1)`, in the order in which they are plotted. The walk is that
/// of `embedded_graphics`, an integer line walk thickened by parallel
/// lines on alternating sides; it is named here, not restated.
pub uninterp spec fn line_stroke_points(x0: int, y0: int, x1: int, y1: int, width: int) -> Seq<
    (int, int),
>;

/// The lines that can be drawn: both ends within the coordinate limit, and
/// short and thin enough for the line walk's error terms, which grow with
/// the square of width times length, to stay inside `i32`.
pub open spec fn line_in_range(start: Point, end: Point, width: int) -> bool {
    let dx = end.x - start.x;
    let dy = end.y - start.y;
    let reach = if dx == 0 && dy == 0 {
        1
    } else {
        dx * dx + dy * dy
    };
    &&& -coordinate_limit() <= start.x <= coordinate_limit()
    &&& -coordinate_limit() <= start.y <= coordinate_limit()
    &&& -coordinate_limit() <= end.x <= coordinate_limit()
    &&& -coordinate_limit() <= end.y <= coordinate_limit()
    &&& 0 <= width
    &&& 4 * (width + 1) * (width + 1) * reach <= i32::MAX
}

/// Decides whether a line can be drawn with a stroke of the given width.
pub fn line_fits(start: Point, end: Point, width: u32) -> (fits: bool)
    ensures
        fits == line_in_range(start, end, width as int),
{
    let limit: i32 = 0x4000_0000;
    if start.x < -limit || start.x > limit || start.y < -limit || start.y > limit {
        return false;
    }
    if end.x < -limit || end.x > limit || end.y < -limit || end.y > limit {
        return false;
    }
    let dx: i128 = end.x as i128 - start.x as i128;
    let dy: i128 = end.y as i128 - start.y as i128;
    assert(0 <= dx * dx <= 0x8000_0000 * 0x8000_0000) by (nonlinear_arith)
        requires
            -0x8000_0000 <= dx <= 0x8000_0000,
    ;
    assert(0 <= dy * dy <= 0x8000_0000 * 0x8000_0000) by (nonlinear_arith)
        requires
            -0x8000_0000 <= dy <= 0x8000_0000,
    ;
    let reach: i128 = if dx == 0 && dy == 0 {
        1
    } else {
        dx * dx + dy * dy
    };
    assert(reach >= 1) by (nonlinear_arith)
        requires
            reach == if dx == 0 && dy == 0 {
                1
            } else {
                dx * dx + dy * dy
            },
    ;
    if width > 23170 {
        assert(4 * (width + 1) * (width + 1) * reach > i32::MAX) by (nonlinear_arith)
            requires
                width > 23170,
                reach >= 1,
        ;
        return false;
    }
    let grown: i128 = width as i128 + 1;
    assert(0 <= 4 * grown * grown <= 4 * 23171 * 23171) by (nonlinear_arith)
        requires
            1 <= grown <= 23171,
    ;
    let weight: i128 = 4 * grown * grown;
    assert(0 <= weight * reach <= 0x8000_0000_0000_0000_0000_0000) by (nonlinear_arith)
        requires
            0 <= weight <= 0x1_0000_0000,
            1 <= reach <= 0x8000_0000_0000_0000,
    ;
    assert(weight * reach == 4 * (width + 1) * (width + 1) * reach) by (nonlinear_arith)
        requires
            weight == 4 * grown * grown,
            grown == width + 1,
    ;
    weight * reach <= i32::MAX as i128
}

/// The colour that a stroked line gives to `(x, y)`: the stroke's colour on
/// the points of the line walk, none elsewhere. A line of length zero is
/// its one point, whatever the stroke's width, and a stroke of width zero
/// colours nothing.
pub open spec fn line_paint(
    start: Point,
    end: Point,
    stroke: StrokeStyle,
    x: int,
    y: int,
) -> Option<Rgb> {
    if !stroke.visible() {
        None
    } else if start == end {
        if x == start.x && y == start.y {
            Some(stroke.color)
        } else {
            None
        }
    } else if line_stroke_points(
        start.x as int,
        start.y as int,
        end.x as int,
        end.y as int,
        stroke.width as int,
    ).contains((x, y)) {
        Some(stroke.color)
    } else {
        None
    }
}

/// The paint of the segment from `start` to `end`, drawn with `stroke`.
pub open spec fn line_layer(start: Point, end: Point, stroke: StrokeStyle) -> spec_fn(
    int,
    int,
) -> Option<Rgb> {
    |x: int, y: int| line_paint(start, end, stroke, x, y)
}

/// The pixels of a stroked line, from `embedded_graphics::primitives::Line::new`,
/// `into_styled` with `PrimitiveStyle::with_stroke`, and `Styled::pixels`.
///
/// Trusted: the coordinates that come out are the line walk of the outside
/// crate for these arguments, which `line_stroke_points` names, and each
/// carries the stroke colour. The precondition keeps the walk's arithmetic
/// inside `i32`.
#[verifier::external_body]
fn styled_line_pixels(start: Point, end: Point, color: Rgb, width: u32) -> (out: Vec<Pixel>)
    requires
        width > 0,
        line_in_range(start, end, width as int),
    ensures
        out@.map_values(|p: Pixel| (p.point.x as int, p.point.y as int)) == line_stroke_points(
            start.x as int,
            start.y as int,
            end.x as int,
            end.y as int,
            width as int,
        ),
        forall|i: int| 0 <= i < out@.len() ==> (#[trigger] out@[i]).color == color,
{
    let style = PrimitiveStyle::with_stroke(Rgb888::new(color.r, color.g, color.b), width);
    Line::new(GridPoint::new(start.x, start.y), GridPoint::new(end.x, end.y))
        .into_styled(style)
        .pixels()
        .map(|GridPixel(p, c)| Pixel {
            point: Point { x: p.x, y: p.y },
            color: Rgb { r: c.r(), g: c.g(), b: c.b() },
        })
        .collect()
}

/// Draws the segment from `start` to `end` with the given stroke. Both ends
/// may lie outside the canvas: every point of the line is clipped on its
/// own. A segment of length zero draws the single pixel at its point; a
/// stroke of width zero draws nothing.
pub fn draw_line(display: &mut FfmpegDisplay, start: Point, end: Point, stroke: StrokeStyle)
    requires
        stroke.visible() && start != end ==> line_in_range(start, end, stroke.width as int),
    ensures
        final(display)@.repaints(old(display)@, line_layer(start, end, stroke)),
{
    proof {
        use_type_invariant(&*display);
    }
    if stroke.width == 0 {
        return ;
    }
    if start.x == end.x && start.y == end.y {
        display.set_pixel(start.x, start.y, stroke.color);
        proof {
            let base = old(display)@;
            lemma_with_pixel_wf(base, start.x as int, start.y as int, stroke.color);
            assert forall|x: int, y: int| base.contains(x, y) implies #[trigger] display@.pixel(
                x,
                y,
            ) == match line_layer(start, end, stroke)(x, y) {
                Some(c) => c,
                None => base.pixel(x, y),
            } by {
                lemma_with_pixel_reads(base, start.x as int, start.y as int, stroke.color, x, y);
            }
        }
        return ;
    }
    let pixels: Vec<Pixel> = styled_line_pixels(start, end, stroke.color, stroke.width);
    display.draw_iter(&pixels);
    proof {
        let base = old(display)@;
        let paint = |x: int, y: int| line_paint(start, end, stroke, x, y);
        let walk = line_stroke_points(
            start.x as int,
            start.y as int,
            end.x as int,
            end.y as int,
            stroke.width as int,
        );
        let places = pixels@.map_values(|p: Pixel| (p.point.x as int, p.point.y as int));
        lemma_with_writes_wf(base, pixels@);
        assert forall|i: int| 0 <= i < pixels@.len() implies paint(
            (#[trigger] pixels@[i]).point.x as int,
            pixels@[i].point.y as int,
        ) == Some(pixels@[i].color) by {
            assert(places[i] == (pixels@[i].point.x as int, pixels@[i].point.y as int));
            assert(walk.contains(places[i]));
        }
        assert forall|x: int, y: int| base.contains(x, y) implies #[trigger] display@.pixel(x, y)
            == match paint(x, y) {
            Some(c) => c,
            None => base.pixel(x, y),
        } by {
            lemma_with_writes_pixel(base, pixels@, paint, x, y);
            if walk.contains((x, y)) {
                let i = choose|i: int| 0 <= i < walk.len() && walk[i] == (x, y);
                assert(places[i] == (x, y));
                assert(pixels@[i].at(x, y));
            }
        }
    }
}

} // verus!
