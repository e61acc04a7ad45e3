//! Two-dimensional pixel buffers: the oversampled working buffer and the
//! final image are both values of this type.

use vstd::prelude::*;
use crate::colour::Rgb;

verus! {

/// A rectangular grid of RGB pixels, stored row-major.
pub struct PixelBuffer {
    width: usize,
    height: usize,
    data: Vec<Rgb>,
}

impl PixelBuffer {
    /// Width of the grid in pixels.
    pub closed spec fn spec_width(&self) -> int {
        self.width as int
    }

    /// Height of the grid in pixels.
    pub closed spec fn spec_height(&self) -> int {
        self.height as int
    }

    /// The pixels in row-major order.
    pub closed spec fn pixels(&self) -> Seq<Rgb> {
        self.data@
    }

    /// A buffer is well formed when it holds exactly one pixel per grid
    /// cell (which also bounds the pixel count by the address space).
    pub open spec fn wf(&self) -> bool {
        &&& self.pixels().len() == self.spec_width() * self.spec_height()
        &&& self.spec_width() * self.spec_height() <= usize::MAX
        &&& 0 <= self.spec_width() <= usize::MAX
        &&& 0 <= self.spec_height() <= usize::MAX
    }

    /// The pixel at column `x` of row `y`.
    pub open spec fn at(&self, x: int, y: int) -> Rgb
        recommends
            0 <= x < self.spec_width(),
            0 <= y < self.spec_height(),
    {
        self.pixels()[y * self.spec_width() + x]
    }

    /// Whether `(x, y)` is a grid coordinate of this buffer.
    pub open spec fn in_bounds(&self, x: int, y: int) -> bool {
        0 <= x < self.spec_width() && 0 <= y < self.spec_height()
    }

    /// Creates a buffer of the given dimensions with every pixel set to
    /// `fill`.
    pub fn new(width: usize, height: usize, fill: Rgb) -> (buf: PixelBuffer)
        requires
            width * height <= usize::MAX,
        ensures
            buf.wf(),
            buf.spec_width() == width,
            buf.spec_height() == height,
            forall|x: int, y: int| buf.in_bounds(x, y) ==> buf.at(x, y) == fill,
    {
        let total: usize = width * height;
        let mut data: Vec<Rgb> = Vec::new();
        let mut i: usize = 0;
        while i < total
            invariant
                i <= total,
                data@.len() == i,
                forall|k: int| 0 <= k < i ==> data@[k] == fill,
            decreases total - i,
        {
            data.push(fill);
            i = i + 1;
        }
        let buf = PixelBuffer { width, height, data };
        proof {
            assert forall|x: int, y: int| buf.in_bounds(x, y) implies buf.at(x, y) == fill by {
                assert(0 <= y * buf.spec_width() + x < buf.spec_width() * buf.spec_height())
                    by (nonlinear_arith)
                    requires
                        0 <= x < buf.spec_width(),
                        0 <= y < buf.spec_height(),
                ;
            }
        }
        buf
    }

    /// Width accessor.
    pub fn width(&self) -> (w: usize)
        ensures
            w == self.spec_width(),
    {
        self.width
    }

    /// Height accessor.
    pub fn height(&self) -> (h: usize)
        ensures
            h == self.spec_height(),
    {
        self.height
    }

    /// Reads the pixel at `(x, y)`.
    pub fn get(&self, x: usize, y: usize) -> (c: Rgb)
        requires
            self.wf(),
            self.in_bounds(x as int, y as int),
        ensures
            c == self.at(x as int, y as int),
    {
        proof {
            assert(0 <= y * self.spec_width() + x < self.spec_width() * self.spec_height())
                by (nonlinear_arith)
                requires
                    0 <= (x as int) < self.spec_width(),
                    0 <= (y as int) < self.spec_height(),
            ;
        }
        self.data[y * self.width + x]
    }

    /// Writes the pixel at `(x, y)`, leaving every other pixel and the
    /// dimensions unchanged.
    pub fn set(&mut self, x: usize, y: usize, c: Rgb)
        requires
            old(self).wf(),
            old(self).in_bounds(x as int, y as int),
        ensures
            final(self).wf(),
            final(self).spec_width() == old(self).spec_width(),
            final(self).spec_height() == old(self).spec_height(),
            final(self).at(x as int, y as int) == c,
            forall|i: int, j: int|
                old(self).in_bounds(i, j) && !(i == x && j == y) ==> final(self).at(i, j) == old(
                    self,
                ).at(i, j),
    {
        proof {
            assert(0 <= y * self.spec_width() + x < self.spec_width() * self.spec_height())
                by (nonlinear_arith)
                requires
                    0 <= (x as int) < self.spec_width(),
                    0 <= (y as int) < self.spec_height(),
            ;
        }
        let idx: usize = y * self.width + x;
        self.data.set(idx, c);
        proof {
            assert forall|i: int, j: int|
                old(self).in_bounds(i, j) && !(i == x as int && j == y as int) implies self.at(
                i,
                j,
            ) == old(self).at(i, j) by {
                assert(0 <= j * self.spec_width() + i < self.spec_width() * self.spec_height())
                    by (nonlinear_arith)
                    requires
                        0 <= i < self.spec_width(),
                        0 <= j < self.spec_height(),
                ;
                assert(j * self.spec_width() + i != y as int * self.spec_width() + x as int)
                    by (nonlinear_arith)
                    requires
                        0 <= i < self.spec_width(),
                        0 <= (x as int) < self.spec_width(),
                        !(i == x as int && j == y as int),
                ;
            }
        }
    }
}

/// Two well-formed buffers with the same dimensions and the same pixel at
/// every coordinate hold identical pixel data.
pub proof fn lemma_buffer_pixels_equal(a: PixelBuffer, b: PixelBuffer)
    requires
        a.wf(),
        b.wf(),
        a.spec_width() == b.spec_width(),
        a.spec_height() == b.spec_height(),
        forall|x: int, y: int| a.in_bounds(x, y) ==> a.at(x, y) == b.at(x, y),
    ensures
        a.pixels() == b.pixels(),
{
    let w = a.spec_width();
    let h = a.spec_height();
    assert forall|k: int| 0 <= k < a.pixels().len() implies a.pixels()[k] == b.pixels()[k] by {
        assert(w > 0) by (nonlinear_arith)
            requires
                0 <= k < w * h,
                w >= 0,
        ;
        let x = k % w;
        let y = k / w;
        vstd::arithmetic::div_mod::lemma_fundamental_div_mod(k, w);
        vstd::arithmetic::div_mod::lemma_mod_bound(k, w);
        assert(0 <= y < h) by (nonlinear_arith)
            requires
                0 <= k < w * h,
                w > 0,
                y == k / w,
        ;
        assert(a.at(x, y) == b.at(x, y));
        assert(y * w + x == k) by (nonlinear_arith)
            requires
                k == w * (k / w) + k % w,
                x == k % w,
                y == k / w,
        ;
    }
    assert(a.pixels() =~= b.pixels());
}

} // verus!
