//! The framebuffer: a fixed-size grid of colors with a background color.
//! Every pixel write is bounds-checked; a write outside the grid is a
//! silent no-op, never an error, since partially off-screen geometry is
//! expected during rasterization.

use vstd::prelude::*;
use vstd::pervasive::VecAdditionalExecFns;
use crate::shaders::Color;
use crate::fixed::lemma_mul_bound;

verus! {

/// The off-screen pixel grid, row major, plus the background color used
/// by `clear`.
pub struct Framebuffer {
    pub width: usize,
    pub height: usize,
    pub background: Color,
    pub data: Vec<Color>,
}

impl Framebuffer {
    /// Well-formed: the grid holds exactly `width * height` pixels and
    /// both dimensions are small enough that indices cannot overflow.
    pub open spec fn wf(self) -> bool {
        &&& self.data@.len() == self.width * self.height
        &&& self.width <= 0x8000
        &&& self.height <= 0x8000
    }

    /// `(x, y)` lies on the grid.
    pub open spec fn in_bounds(self, x: int, y: int) -> bool {
        0 <= x < self.width && 0 <= y < self.height
    }

    /// The row-major index of `(x, y)`.
    pub open spec fn pixel_index(self, x: int, y: int) -> int {
        y * self.width + x
    }

    /// Allocates a `width` by `height` grid with every pixel black and a
    /// black background.
    pub fn new(width: usize, height: usize) -> (fb: Framebuffer)
        requires
            width <= 0x8000,
            height <= 0x8000,
        ensures
            fb.wf(),
            fb.width == width,
            fb.height == height,
            fb.background == (Color { r: 0, g: 0, b: 0 }),
            forall|i: int| 0 <= i < fb.data@.len() ==> fb.data@[i] == (Color { r: 0, g: 0, b: 0 }),
    {
        proof {
            lemma_mul_bound(width as int, height as int, 0x8000, 0x8000);
        }
        let n: usize = width * height;
        let black = Color { r: 0, g: 0, b: 0 };
        let mut data: Vec<Color> = Vec::new();
        while data.len() < n
            invariant
                data@.len() <= n,
                forall|i: int| 0 <= i < data@.len() ==> data@[i] == black,
            decreases n - data@.len(),
        {
            data.push(black);
        }
        Framebuffer { width, height, background: black, data }
    }

    /// Sets the color that `clear` paints with; the grid is untouched.
    pub fn set_background_color(&mut self, color: Color)
        ensures
            final(self).background == color,
            final(self).width == old(self).width,
            final(self).height == old(self).height,
            final(self).data == old(self).data,
    {
        self.background = color;
    }

    /// Resets every pixel to the background color.
    pub fn clear(&mut self)
        requires
            old(self).wf(),
        ensures
            final(self).wf(),
            final(self).width == old(self).width,
            final(self).height == old(self).height,
            final(self).background == old(self).background,
            final(self).data@.len() == old(self).data@.len(),
            forall|i: int| 0 <= i < final(self).data@.len() ==> final(self).data@[i] == old(
                self,
            ).background,
    {
        let bg = self.background;
        let n = self.data.len();
        let mut i: usize = 0;
        while i < n
            invariant
                i <= n,
                n == self.data@.len(),
                self.width == old(self).width,
                self.height == old(self).height,
                self.background == old(self).background,
                self.data@.len() == old(self).data@.len(),
                bg == old(self).background,
                forall|j: int| 0 <= j < i ==> self.data@[j] == bg,
            decreases n - i,
        {
            self.data.set(i, bg);
            i = i + 1;
        }
    }

    /// Writes `color` at `(x, y)` when the pixel is on the grid; a write
    /// off the grid changes nothing and never fails.
    pub fn point(&mut self, x: i64, y: i64, color: Color)
        requires
            old(self).wf(),
        ensures
            final(self).wf(),
            final(self).width == old(self).width,
            final(self).height == old(self).height,
            final(self).background == old(self).background,
            old(self).in_bounds(x as int, y as int) ==> final(self).data@ == old(
                self,
            ).data@.update(old(self).pixel_index(x as int, y as int), color),
            !old(self).in_bounds(x as int, y as int) ==> final(self).data@ == old(self).data@,
    {
        if x >= 0 && y >= 0 && x < self.width as i64 && y < self.height as i64 {
            proof {
                lemma_mul_bound(y as int, self.width as int, 0x8000, 0x8000);
                assert((y as int) * (self.width as int) + (x as int) < (self.width as int) * (
                self.height as int)) by (nonlinear_arith)
                    requires
                        0 <= y as int,
                        (y as int) < (self.height as int),
                        0 <= x as int,
                        (x as int) < (self.width as int),
                ;
            }
            let idx: usize = (y as usize) * self.width + (x as usize);
            self.data.set(idx, color);
        }
    }

    /// The color at `(x, y)`, which must be on the grid.
    pub fn get_pixel(&self, x: i64, y: i64) -> (c: Color)
        requires
            self.wf(),
            self.in_bounds(x as int, y as int),
        ensures
            c == self.data@[self.pixel_index(x as int, y as int)],
    {
        proof {
            lemma_mul_bound(y as int, self.width as int, 0x8000, 0x8000);
            assert((y as int) * (self.width as int) + (x as int) < (self.width as int) * (
            self.height as int)) by (nonlinear_arith)
                requires
                    0 <= y as int,
                    (y as int) < (self.height as int),
                    0 <= x as int,
                    (x as int) < (self.width as int),
            ;
        }
        let idx: usize = (y as usize) * self.width + (x as usize);
        self.data[idx]
    }

    /// The grid's width in pixels.
    pub fn width(&self) -> (w: usize)
        ensures
            w == self.width,
    {
        self.width
    }

    /// The grid's height in pixels.
    pub fn height(&self) -> (h: usize)
        ensures
            h == self.height,
    {
        self.height
    }
}

} // verus!
