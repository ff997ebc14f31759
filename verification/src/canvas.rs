//! The pixel canvas: a row-major, RGB-interleaved byte buffer of fixed size.

use vstd::prelude::*;
use crate::color::Rgb;
use crate::frame::{lemma_offset_in_bounds, Frame};
use crate::geometry::{Pixel, Size};

verus! {

/// A canvas whose frames are bound for a raw-video encoder.
pub struct FfmpegDisplay {
    width: u32,
    height: u32,
    framebuffer: Vec<u8>,
}

impl View for FfmpegDisplay {
    type V = Frame;

    closed spec fn view(&self) -> Frame {
        Frame {
            width: self.width as nat,
            height: self.height as nat,
            bytes: self.framebuffer@,
        }
    }
}

impl FfmpegDisplay {
    /// Every canvas holds exactly three bytes for each of its pixels.
    #[verifier::type_invariant]
    pub open spec fn well_formed(&self) -> bool {
        self@.wf()
    }

    /// Makes a black canvas of `width` by `height` pixels.
    pub fn new(width: u32, height: u32) -> (display: FfmpegDisplay)
        requires
            width * height * 3 <= usize::MAX,
        ensures
            display@ == Frame::blank(width as nat, height as nat),
    {
        assert(width * height <= width * height * 3) by (nonlinear_arith);
        let pixels: usize = (width as usize) * (height as usize);
        let n: usize = pixels * 3;
        let framebuffer: Vec<u8> = vec![0u8; n];
        let display = FfmpegDisplay { width, height, framebuffer };
        assert(display@.bytes =~= Frame::solid(width as nat, height as nat, Rgb::black()).bytes);
        display
    }

    /// Sets pixel `(x, y)` to `color`. A coordinate outside the canvas is
    /// clipped: the call then changes nothing.
    pub fn set_pixel(&mut self, x: i32, y: i32, color: Rgb)
        ensures
            final(self)@ == old(self)@.with_pixel(x as int, y as int, color),
    {
        proof {
            use_type_invariant(&*self);
        }
        if x < 0 || y < 0 {
            return ;
        }
        if x as u32 >= self.width || y as u32 >= self.height {
            return ;
        }
        proof {
            lemma_offset_in_bounds(self@, x as int, y as int);
            assert(0 <= y * self.width) by (nonlinear_arith)
                requires
                    0 <= y,
                    0 <= self.width,
            ;
            assert(self.framebuffer.len() == self.framebuffer@.len());
        }
        let row: usize = (y as usize) * (self.width as usize);
        let index: usize = (row + x as usize) * 3;
        self.framebuffer[index] = color.r;
        self.framebuffer[index + 1] = color.g;
        self.framebuffer[index + 2] = color.b;
    }

    /// Applies the writes of `pixels` in order, clipping each to the canvas.
    pub fn draw_iter(&mut self, pixels: &Vec<Pixel>)
        ensures
            final(self)@ == old(self)@.with_writes(pixels@),
    {
        let n: usize = pixels.len();
        let mut i: usize = 0;
        while i < n
            invariant
                n == pixels@.len(),
                i <= n,
                self@ == old(self)@.with_writes(pixels@.take(i as int)),
            decreases n - i,
        {
            let p: Pixel = pixels[i];
            self.set_pixel(p.point.x, p.point.y, p.color);
            proof {
                assert(pixels@.take(i + 1).drop_last() =~= pixels@.take(i as int));
            }
            i += 1;
        }
        assert(pixels@.take(n as int) =~= pixels@);
    }

    /// The canvas's extent in pixels. Its origin is the top left corner.
    pub fn size(&self) -> (size: Size)
        ensures
            size.width == self@.width,
            size.height == self@.height,
    {
        Size { width: self.width, height: self.height }
    }

    /// The number of pixels in a row.
    pub fn width(&self) -> (w: u32)
        ensures
            w == self@.width,
    {
        self.width
    }

    /// The number of rows.
    pub fn height(&self) -> (h: u32)
        ensures
            h == self@.height,
    {
        self.height
    }

    /// The colour of pixel `(x, y)`, or `None` when the coordinate is outside
    /// the canvas.
    pub fn pixel_at(&self, x: i32, y: i32) -> (found: Option<Rgb>)
        ensures
            found == if self@.contains(x as int, y as int) {
                Some(self@.pixel(x as int, y as int))
            } else {
                None
            },
    {
        proof {
            use_type_invariant(self);
        }
        if x < 0 || y < 0 {
            return None;
        }
        if x as u32 >= self.width || y as u32 >= self.height {
            return None;
        }
        proof {
            lemma_offset_in_bounds(self@, x as int, y as int);
            assert(0 <= y * self.width) by (nonlinear_arith)
                requires
                    0 <= y,
                    0 <= self.width,
            ;
            assert(self.framebuffer.len() == self.framebuffer@.len());
        }
        let row: usize = (y as usize) * (self.width as usize);
        let index: usize = (row + x as usize) * 3;
        Some(
            Rgb {
                r: self.framebuffer[index],
                g: self.framebuffer[index + 1],
                b: self.framebuffer[index + 2],
            },
        )
    }

    /// Overwrites every pixel with `color`.
    pub fn clear(&mut self, color: Rgb)
        ensures
            final(self)@ == old(self)@.cleared(color),
    {
        proof {
            use_type_invariant(&*self);
        }
        let colors: [u8; 3] = [color.r, color.g, color.b];
        let len: usize = self.framebuffer.len();
        let mut idx: usize = 0;
        let mut i: usize = 0;
        while i < len
            invariant
                len == self.framebuffer@.len(),
                self.width == old(self).width,
                self.height == old(self).height,
                self@.wf(),
                i <= len,
                idx < 3,
                idx == i % 3,
                colors@ == seq![color.r, color.g, color.b],
                forall|j: int| 0 <= j < i ==> self.framebuffer@[j] == color.channel(j % 3),
            decreases len - i,
        {
            self.framebuffer[i] = colors[idx];
            idx += 1;
            if idx == 3 {
                idx = 0;
            }
            i += 1;
        }
        assert(self@.bytes =~= Frame::solid(old(self)@.width, old(self)@.height, color).bytes);
    }

    /// The whole buffer, row by row from the top, each pixel as its red,
    /// green and blue byte.
    pub fn raw_bytes(&self) -> (bytes: &[u8])
        ensures
            bytes@ == self@.bytes,
            bytes@.len() == self@.width * self@.height * 3,
    {
        proof {
            use_type_invariant(self);
        }
        self.framebuffer.as_slice()
    }

    /// Hands the current frame to `sink` and resets the canvas to black:
    /// the sink grows by exactly the frame's bytes, in buffer order, three
    /// for each pixel of the canvas.
    pub fn write(&mut self, sink: &mut Vec<u8>)
        ensures
            final(sink)@ == old(sink)@ + old(self)@.bytes,
            final(sink)@.len() == old(sink)@.len() + old(self)@.width * old(self)@.height * 3,
            final(self)@ == old(self)@.cleared(Rgb::black()),
    {
        proof {
            use_type_invariant(&*self);
        }
        sink.extend_from_slice(self.framebuffer.as_slice());
        assert(sink@ =~= old(sink)@ + old(self)@.bytes);
        self.clear(Rgb::black());
    }
}

} // verus!
