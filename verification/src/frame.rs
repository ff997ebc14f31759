//! The mathematical model of a canvas, and what holds of it.

use vstd::prelude::*;
use vstd::arithmetic::div_mod::{lemma_fundamental_div_mod, lemma_mod_bound};
use crate::color::Rgb;
use crate::geometry::Pixel;

verus! {

/// The mathematical content of a canvas: its dimensions and its bytes.
pub struct Frame {
    pub width: nat,
    pub height: nat,
    pub bytes: Seq<u8>,
}

impl Frame {
    /// A frame is well formed when it holds three bytes for each pixel.
    pub open spec fn wf(self) -> bool {
        self.bytes.len() == self.width * self.height * 3
    }

    /// Whether `(x, y)` names a pixel of the frame.
    pub open spec fn contains(self, x: int, y: int) -> bool {
        0 <= x < self.width && 0 <= y < self.height
    }

    /// The index of the red byte of pixel `(x, y)`.
    pub open spec fn offset(self, x: int, y: int) -> int {
        (y * self.width + x) * 3
    }

    /// The colour of pixel `(x, y)`.
    pub open spec fn pixel(self, x: int, y: int) -> Rgb {
        let i = self.offset(x, y);
        Rgb { r: self.bytes[i], g: self.bytes[i + 1], b: self.bytes[i + 2] }
    }

    /// The frame of the given size in which every pixel has colour `c`.
    pub open spec fn solid(width: nat, height: nat, c: Rgb) -> Frame {
        Frame {
            width,
            height,
            bytes: Seq::new(width * height * 3, |i: int| c.channel(i % 3)),
        }
    }

    /// The black frame of the given size: what a new canvas holds.
    pub open spec fn blank(width: nat, height: nat) -> Frame {
        Frame::solid(width, height, Rgb::black())
    }

    /// The frame after every pixel is overwritten with `c`.
    pub open spec fn cleared(self, c: Rgb) -> Frame {
        Frame::solid(self.width, self.height, c)
    }

    /// The frame after pixel `(x, y)` is set to `c`: unchanged when the
    /// coordinate is outside the frame.
    pub open spec fn with_pixel(self, x: int, y: int, c: Rgb) -> Frame {
        if self.contains(x, y) {
            let i = self.offset(x, y);
            Frame { bytes: self.bytes.update(i, c.r).update(i + 1, c.g).update(i + 2, c.b), ..self }
        } else {
            self
        }
    }

    /// Whether this frame is `base` repainted: of the same size, well
    /// formed, with every pixel showing the colour that `paint` gives for it
    /// and, where `paint` gives none, the colour it has in `base`.
    pub open spec fn repaints(self, base: Frame, paint: spec_fn(int, int) -> Option<Rgb>) -> bool {
        &&& self.wf()
        &&& self.width == base.width
        &&& self.height == base.height
        &&& forall|x: int, y: int|
            base.contains(x, y) ==> #[trigger] self.pixel(x, y) == match paint(x, y) {
                Some(c) => c,
                None => base.pixel(x, y),
            }
    }

    /// The frame after the writes of `writes` are applied in order, each
    /// clipped on its own. A later write to a coordinate wins.
    pub open spec fn with_writes(self, writes: Seq<Pixel>) -> Frame
        decreases writes.len(),
    {
        if writes.len() == 0 {
            self
        } else {
            let last = writes.last();
            self.with_writes(writes.drop_last()).with_pixel(
                last.point.x as int,
                last.point.y as int,
                last.color,
            )
        }
    }
}

/// In a well-formed frame the three bytes of every pixel lie inside the
/// buffer.
pub proof fn lemma_offset_in_bounds(f: Frame, x: int, y: int)
    requires
        f.wf(),
        f.contains(x, y),
    ensures
        0 <= f.offset(x, y),
        f.offset(x, y) + 3 <= f.bytes.len(),
{
    assert(y * f.width + x + 1 <= f.height * f.width) by (nonlinear_arith)
        requires
            0 <= x < f.width,
            0 <= y < f.height,
    ;
    assert(0 <= y * f.width) by (nonlinear_arith)
        requires
            0 <= y,
    ;
    assert(f.width * f.height * 3 == (f.height * f.width) * 3) by (nonlinear_arith);
}

/// Two different pixels of a frame start at offsets that are at least three
/// bytes apart.
proof fn lemma_offsets_apart(f: Frame, x: int, y: int, x2: int, y2: int)
    requires
        f.contains(x, y),
        f.contains(x2, y2),
        x != x2 || y != y2,
    ensures
        f.offset(x, y) + 3 <= f.offset(x2, y2) || f.offset(x2, y2) + 3 <= f.offset(x, y),
{
    let w = f.width as int;
    if y < y2 {
        assert(y * w + x < y2 * w + x2) by (nonlinear_arith)
            requires
                0 <= x < w,
                0 <= x2 < w,
                y < y2,
        ;
    } else if y2 < y {
        assert(y2 * w + x2 < y * w + x) by (nonlinear_arith)
            requires
                0 <= x < w,
                0 <= x2 < w,
                y2 < y,
        ;
    }
}

/// Setting a pixel keeps the frame's size and well-formedness; a read then
/// finds the new colour at that pixel and the old colour at every other.
pub proof fn lemma_with_pixel_reads(f: Frame, x: int, y: int, c: Rgb, x2: int, y2: int)
    requires
        f.wf(),
        f.contains(x2, y2),
    ensures
        f.with_pixel(x, y, c).wf(),
        f.with_pixel(x, y, c).width == f.width,
        f.with_pixel(x, y, c).height == f.height,
        f.with_pixel(x, y, c).pixel(x2, y2) == if x == x2 && y == y2 {
            c
        } else {
            f.pixel(x2, y2)
        },
{
    lemma_offset_in_bounds(f, x2, y2);
    if f.contains(x, y) {
        lemma_offset_in_bounds(f, x, y);
        if x != x2 || y != y2 {
            lemma_offsets_apart(f, x, y, x2, y2);
        }
    }
}

/// Setting a pixel keeps the frame's size and well-formedness.
pub proof fn lemma_with_pixel_wf(f: Frame, x: int, y: int, c: Rgb)
    requires
        f.wf(),
    ensures
        f.with_pixel(x, y, c).wf(),
        f.with_pixel(x, y, c).width == f.width,
        f.with_pixel(x, y, c).height == f.height,
{
    if f.contains(x, y) {
        lemma_offset_in_bounds(f, x, y);
    }
}

/// A write outside the frame is clipped: the frame stays as it was.
pub proof fn lemma_set_pixel_outside(f: Frame, x: int, y: int, c: Rgb)
    requires
        !(0 <= x < f.width && 0 <= y < f.height),
    ensures
        f.with_pixel(x, y, c) == f,
{
}

/// After a write inside the frame, the three bytes that start at
/// `(y * width + x) * 3` are the colour's red, green and blue channel.
pub proof fn lemma_set_pixel_bytes(f: Frame, x: int, y: int, c: Rgb)
    requires
        f.wf(),
        0 <= x < f.width,
        0 <= y < f.height,
    ensures
        f.with_pixel(x, y, c).bytes.subrange((y * f.width + x) * 3, (y * f.width + x) * 3 + 3)
            == seq![c.r, c.g, c.b],
        f.with_pixel(x, y, c).pixel(x, y) == c,
{
    lemma_offset_in_bounds(f, x, y);
    let i = (y * f.width + x) * 3;
    assert(f.with_pixel(x, y, c).bytes.subrange(i, i + 3) =~= seq![c.r, c.g, c.b]);
}

/// A solid frame is well formed and every pixel of it has its colour.
pub proof fn lemma_solid_pixel(width: nat, height: nat, c: Rgb, x: int, y: int)
    requires
        0 <= x < width,
        0 <= y < height,
    ensures
        Frame::solid(width, height, c).wf(),
        Frame::solid(width, height, c).pixel(x, y) == c,
{
    let f = Frame::solid(width, height, c);
    lemma_offset_in_bounds(f, x, y);
    let i = f.offset(x, y);
    assert(i % 3 == 0 && (i + 1) % 3 == 1 && (i + 2) % 3 == 2) by (nonlinear_arith)
        requires
            i == (y * width + x) * 3,
    ;
}

/// Clearing makes every pixel equal to the colour given.
pub proof fn lemma_clear_fills(f: Frame, c: Rgb, x: int, y: int)
    requires
        f.contains(x, y),
    ensures
        f.cleared(c).pixel(x, y) == c,
{
    lemma_solid_pixel(f.width, f.height, c, x, y);
}

/// Clearing to black, setting any pixel, and clearing to black again gives
/// the frame of a freshly made canvas of the same size.
pub proof fn lemma_clear_round_trip(f: Frame, x: int, y: int, c: Rgb)
    ensures
        f.cleared(Rgb::black()).with_pixel(x, y, c).cleared(Rgb::black()) == Frame::blank(
            f.width,
            f.height,
        ),
{
}

/// Applying writes keeps the frame's size and well-formedness.
pub proof fn lemma_with_writes_wf(f: Frame, writes: Seq<Pixel>)
    requires
        f.wf(),
    ensures
        f.with_writes(writes).wf(),
        f.with_writes(writes).width == f.width,
        f.with_writes(writes).height == f.height,
    decreases writes.len(),
{
    if writes.len() > 0 {
        let last = writes.last();
        lemma_with_writes_wf(f, writes.drop_last());
        lemma_with_pixel_wf(
            f.with_writes(writes.drop_last()),
            last.point.x as int,
            last.point.y as int,
            last.color,
        );
    }
}

/// Where every write carries the colour that `paint` gives for its
/// coordinate, the order of the writes does not matter: a pixel that some
/// write lands on shows the colour `paint` gives for it, and every other
/// pixel keeps its colour.
pub proof fn lemma_with_writes_pixel(
    f: Frame,
    writes: Seq<Pixel>,
    paint: spec_fn(int, int) -> Option<Rgb>,
    x: int,
    y: int,
)
    requires
        f.wf(),
        f.contains(x, y),
        forall|i: int|
            0 <= i < writes.len() ==> paint(
                (#[trigger] writes[i]).point.x as int,
                writes[i].point.y as int,
            ) == Some(writes[i].color),
    ensures
        f.with_writes(writes).pixel(x, y) == if exists|i: int|
            0 <= i < writes.len() && (#[trigger] writes[i]).at(x, y) {
            paint(x, y)->0
        } else {
            f.pixel(x, y)
        },
    decreases writes.len(),
{
    if writes.len() > 0 {
        let last = writes.last();
        let front = writes.drop_last();
        lemma_with_writes_wf(f, front);
        lemma_with_writes_pixel(f, front, paint, x, y);
        lemma_with_pixel_reads(
            f.with_writes(front),
            last.point.x as int,
            last.point.y as int,
            last.color,
            x,
            y,
        );
        if last.at(x, y) {
            assert(writes[writes.len() - 1].at(x, y));
        } else if exists|i: int| 0 <= i < writes.len() && (#[trigger] writes[i]).at(x, y) {
            let i = choose|i: int| 0 <= i < writes.len() && (#[trigger] writes[i]).at(x, y);
            assert(front[i].at(x, y));
        } else {
            assert forall|i: int| 0 <= i < front.len() implies !(#[trigger] front[i]).at(x, y) by {
                assert(writes[i] == front[i]);
            }
        }
    }
}

/// The paint of two layers: the upper layer's colour where it has one, the
/// lower layer's elsewhere.
pub open spec fn over(
    upper: spec_fn(int, int) -> Option<Rgb>,
    lower: spec_fn(int, int) -> Option<Rgb>,
) -> spec_fn(int, int) -> Option<Rgb> {
    |x: int, y: int|
        match upper(x, y) {
            Some(c) => Some(c),
            None => lower(x, y),
        }
}

/// The paint that colours nothing.
pub open spec fn no_paint() -> spec_fn(int, int) -> Option<Rgb> {
    |x: int, y: int| None
}

/// Repainting twice is repainting once with the second paint laid over the
/// first.
pub proof fn lemma_repaints_compose(
    base: Frame,
    mid: Frame,
    top: Frame,
    first: spec_fn(int, int) -> Option<Rgb>,
    second: spec_fn(int, int) -> Option<Rgb>,
)
    requires
        mid.repaints(base, first),
        top.repaints(mid, second),
    ensures
        top.repaints(base, over(second, first)),
{
    let paint = over(second, first);
    assert forall|x: int, y: int| base.contains(x, y) implies #[trigger] top.pixel(x, y)
        == match paint(x, y) {
        Some(c) => c,
        None => base.pixel(x, y),
    } by {
        assert(mid.contains(x, y));
        assert(mid.pixel(x, y) == match first(x, y) {
            Some(c) => c,
            None => base.pixel(x, y),
        });
    }
}

/// A frame is no more than its pixels: two well-formed frames of one size
/// that show the same colour at every pixel are the same frame.
pub proof fn lemma_same_pixels_same_frame(a: Frame, b: Frame)
    requires
        a.wf(),
        b.wf(),
        a.width == b.width,
        a.height == b.height,
        forall|x: int, y: int| a.contains(x, y) ==> #[trigger] a.pixel(x, y) == b.pixel(x, y),
    ensures
        a == b,
{
    let w = a.width as int;
    let h = a.height as int;
    assert forall|i: int| 0 <= i < a.bytes.len() implies a.bytes[i] == b.bytes[i] by {
        let p = i / 3;
        let k = i % 3;
        assert(w > 0 && h > 0 && p < w * h) by (nonlinear_arith)
            requires
                0 <= i < w * h * 3,
                p == i / 3,
                w >= 0,
                h >= 0,
        ;
        let y = p / w;
        let x = p % w;
        lemma_fundamental_div_mod(p, w);
        lemma_mod_bound(p, w);
        assert(0 <= y < h) by (nonlinear_arith)
            requires
                p == w * y + x,
                0 <= x < w,
                0 <= p < w * h,
        ;
        assert(a.offset(x, y) == p * 3) by (nonlinear_arith)
            requires
                p == w * y + x,
                a.offset(x, y) == (y * w + x) * 3,
        ;
        assert(a.contains(x, y));
        assert(a.pixel(x, y) == b.pixel(x, y));
        assert(b.offset(x, y) == a.offset(x, y));
    }
    assert(a.bytes =~= b.bytes);
}

/// A repainting has one result only.
pub proof fn lemma_repaints_unique(
    base: Frame,
    a: Frame,
    b: Frame,
    paint: spec_fn(int, int) -> Option<Rgb>,
)
    requires
        a.repaints(base, paint),
        b.repaints(base, paint),
    ensures
        a == b,
{
    assert forall|x: int, y: int| a.contains(x, y) implies #[trigger] a.pixel(x, y) == b.pixel(
        x,
        y,
    ) by {
        assert(base.contains(x, y));
        assert(b.pixel(x, y) == match paint(x, y) {
            Some(c) => c,
            None => base.pixel(x, y),
        });
    }
    lemma_same_pixels_same_frame(a, b);
}

/// Drawing and clearing never change a frame's length: it stays at three
/// bytes for each pixel of the canvas.
pub proof fn lemma_length_is_fixed(f: Frame, writes: Seq<Pixel>, c: Rgb)
    requires
        f.wf(),
    ensures
        f.with_writes(writes).bytes.len() == f.width * f.height * 3,
        f.cleared(c).bytes.len() == f.width * f.height * 3,
        f.bytes.len() == f.width * f.height * 3,
{
    lemma_with_writes_wf(f, writes);
}

} // verus!
