//! The resampler: box-filters an oversampled buffer down to the output
//! resolution by the truncating integer average of each sample block.

use vstd::prelude::*;
use crate::buffer::PixelBuffer;
use crate::colour::Rgb;

verus! {

/// Per-channel sum of the `n` pixels of row `y` starting at column `x0`.
pub open spec fn row_sum(buf: PixelBuffer, x0: int, y: int, n: int) -> (int, int, int)
    decreases n,
{
    if n <= 0 {
        (0, 0, 0)
    } else {
        let s = row_sum(buf, x0, y, n - 1);
        let c = buf.at(x0 + n - 1, y);
        (s.0 + c.r as int, s.1 + c.g as int, s.2 + c.b as int)
    }
}

/// Per-channel sum of the `w × rows` block of pixels whose top-left corner
/// is `(x0, y0)`.
pub open spec fn block_sum(buf: PixelBuffer, x0: int, y0: int, w: int, rows: int) -> (int, int, int)
    decreases rows,
{
    if rows <= 0 {
        (0, 0, 0)
    } else {
        let s = block_sum(buf, x0, y0, w, rows - 1);
        let r = row_sum(buf, x0, y0 + rows - 1, w);
        (s.0 + r.0, s.1 + r.1, s.2 + r.2)
    }
}

/// The output pixel at `(x, y)`: the per-channel integer-truncated average
/// of the `factor × factor` block of oversampled pixels at
/// `(factor * x, factor * y)`.
pub open spec fn block_average_spec(buf: PixelBuffer, factor: int, x: int, y: int) -> Rgb {
    let s = block_sum(buf, x * factor, y * factor, factor, factor);
    let n = factor * factor;
    Rgb { r: (s.0 / n) as u8, g: (s.1 / n) as u8, b: (s.2 / n) as u8 }
}

/// A row sum of `n` 8-bit channels lies in `[0, 255 * n]`.
pub proof fn lemma_row_sum_bounds(buf: PixelBuffer, x0: int, y: int, n: int)
    requires
        n >= 0,
    ensures
        0 <= row_sum(buf, x0, y, n).0 <= 255 * n,
        0 <= row_sum(buf, x0, y, n).1 <= 255 * n,
        0 <= row_sum(buf, x0, y, n).2 <= 255 * n,
    decreases n,
{
    if n > 0 {
        lemma_row_sum_bounds(buf, x0, y, n - 1);
    }
}

/// A block sum of `w × rows` 8-bit channels lies in `[0, 255 * w * rows]`.
pub proof fn lemma_block_sum_bounds(buf: PixelBuffer, x0: int, y0: int, w: int, rows: int)
    requires
        w >= 0,
        rows >= 0,
    ensures
        0 <= block_sum(buf, x0, y0, w, rows).0 <= 255 * (w * rows),
        0 <= block_sum(buf, x0, y0, w, rows).1 <= 255 * (w * rows),
        0 <= block_sum(buf, x0, y0, w, rows).2 <= 255 * (w * rows),
    decreases rows,
{
    if rows > 0 {
        lemma_block_sum_bounds(buf, x0, y0, w, rows - 1);
        lemma_row_sum_bounds(buf, x0, y0 + rows - 1, w);
        assert(255 * (w * (rows - 1)) + 255 * w == 255 * (w * rows)) by (nonlinear_arith);
    } else {
        assert(255 * (w * rows) == 0) by (nonlinear_arith)
            requires
                rows == 0,
        ;
    }
}

/// A block average of 8-bit channels is again an 8-bit channel value.
pub proof fn lemma_block_average_bounds(buf: PixelBuffer, factor: int, x: int, y: int)
    requires
        factor >= 1,
    ensures
        0 <= block_sum(buf, x * factor, y * factor, factor, factor).0 / (factor * factor) <= 255,
        0 <= block_sum(buf, x * factor, y * factor, factor, factor).1 / (factor * factor) <= 255,
        0 <= block_sum(buf, x * factor, y * factor, factor, factor).2 / (factor * factor) <= 255,
{
    lemma_block_sum_bounds(buf, x * factor, y * factor, factor, factor);
    let s = block_sum(buf, x * factor, y * factor, factor, factor);
    let n = factor * factor;
    assert(n >= 1) by (nonlinear_arith)
        requires
            factor >= 1,
            n == factor * factor,
    ;
    assert(0 <= s.0 / n <= 255) by (nonlinear_arith)
        requires
            n >= 1,
            0 <= s.0 <= 255 * n,
    ;
    assert(0 <= s.1 / n <= 255) by (nonlinear_arith)
        requires
            n >= 1,
            0 <= s.1 <= 255 * n,
    ;
    assert(0 <= s.2 / n <= 255) by (nonlinear_arith)
        requires
            n >= 1,
            0 <= s.2 <= 255 * n,
    ;
}

/// Box-filters `buf` down by `factor` in each axis: output pixel `(x, y)`
/// is the truncating per-channel average of the `factor × factor` block at
/// `(factor * x, factor * y)`. A factor of 1 copies the buffer through.
pub fn downsample(buf: &PixelBuffer, factor: usize, out_width: usize, out_height: usize) -> (out:
    PixelBuffer)
    requires
        buf.wf(),
        1 <= factor <= 0xFFFF,
        buf.spec_width() == out_width * factor,
        buf.spec_height() == out_height * factor,
        out_width * out_height <= usize::MAX,
    ensures
        out.wf(),
        out.spec_width() == out_width,
        out.spec_height() == out_height,
        forall|x: int, y: int|
            out.in_bounds(x, y) ==> out.at(x, y) == block_average_spec(*buf, factor as int, x, y),
{
    let mut out = PixelBuffer::new(out_width, out_height, Rgb { r: 0, g: 0, b: 0 });
    let mut y: usize = 0;
    while y < out_height
        invariant
            y <= out_height,
            buf.wf(),
            1 <= factor <= 0xFFFF,
            buf.spec_width() == out_width * factor,
            buf.spec_height() == out_height * factor,
            out_width * out_height <= usize::MAX,
            out.wf(),
            out.spec_width() == out_width,
            out.spec_height() == out_height,
            forall|i: int, j: int|
                0 <= i < out_width && 0 <= j < y ==> out.at(i, j) == block_average_spec(
                    *buf,
                    factor as int,
                    i,
                    j,
                ),
        decreases out_height - y,
    {
        let mut x: usize = 0;
        while x < out_width
            invariant
                x <= out_width,
                y < out_height,
                buf.wf(),
                1 <= factor <= 0xFFFF,
                buf.spec_width() == out_width * factor,
                buf.spec_height() == out_height * factor,
                out_width * out_height <= usize::MAX,
                out.wf(),
                out.spec_width() == out_width,
                out.spec_height() == out_height,
                forall|i: int, j: int|
                    0 <= i < out_width && 0 <= j < y ==> out.at(i, j) == block_average_spec(
                        *buf,
                        factor as int,
                        i,
                        j,
                    ),
                forall|i: int|
                    0 <= i < x ==> out.at(i, y as int) == block_average_spec(
                        *buf,
                        factor as int,
                        i,
                        y as int,
                    ),
            decreases out_width - x,
        {
            proof {
                assert((x as int) * (factor as int) + (factor as int) <= (out_width as int) * (
                factor as int)) by (nonlinear_arith)
                    requires
                        0 <= (x as int) < (out_width as int),
                        1 <= (factor as int),
                ;
                assert((y as int) * (factor as int) + (factor as int) <= (out_height as int) * (
                factor as int)) by (nonlinear_arith)
                    requires
                        0 <= (y as int) < (out_height as int),
                        1 <= (factor as int),
                ;
            }
            let x0: usize = x * factor;
            let y0: usize = y * factor;
            let mut sr: u64 = 0;
            let mut sg: u64 = 0;
            let mut sb: u64 = 0;
            let mut sy: usize = 0;
            while sy < factor
                invariant
                    sy <= factor,
                    buf.wf(),
                    1 <= factor <= 0xFFFF,
                    x0 == (x as int) * (factor as int),
                    y0 == (y as int) * (factor as int),
                    x0 + factor <= buf.spec_width(),
                    y0 + factor <= buf.spec_height(),
                    sr == block_sum(*buf, x0 as int, y0 as int, factor as int, sy as int).0,
                    sg == block_sum(*buf, x0 as int, y0 as int, factor as int, sy as int).1,
                    sb == block_sum(*buf, x0 as int, y0 as int, factor as int, sy as int).2,
                    sr <= 255 * (factor as int) * (sy as int),
                    sg <= 255 * (factor as int) * (sy as int),
                    sb <= 255 * (factor as int) * (sy as int),
                decreases factor - sy,
            {
                let mut sx: usize = 0;
                while sx < factor
                    invariant
                        sx <= factor,
                        sy < factor,
                        buf.wf(),
                        1 <= factor <= 0xFFFF,
                        x0 + factor <= buf.spec_width(),
                        y0 + factor <= buf.spec_height(),
                        sr == block_sum(*buf, x0 as int, y0 as int, factor as int, sy as int).0
                            + row_sum(*buf, x0 as int, y0 as int + sy as int, sx as int).0,
                        sg == block_sum(*buf, x0 as int, y0 as int, factor as int, sy as int).1
                            + row_sum(*buf, x0 as int, y0 as int + sy as int, sx as int).1,
                        sb == block_sum(*buf, x0 as int, y0 as int, factor as int, sy as int).2
                            + row_sum(*buf, x0 as int, y0 as int + sy as int, sx as int).2,
                        sr <= 255 * (factor as int) * (sy as int) + 255 * (sx as int),
                        sg <= 255 * (factor as int) * (sy as int) + 255 * (sx as int),
                        sb <= 255 * (factor as int) * (sy as int) + 255 * (sx as int),
                    decreases factor - sx,
                {
                    proof {
                        assert(255 * (factor as int) * (sy as int) + 255 * (sx as int) + 255 <= 255
                            * 0x10000 * 0x10000) by (nonlinear_arith)
                            requires
                                0 <= (sy as int) < (factor as int),
                                0 <= (sx as int) < (factor as int),
                                factor <= 0xFFFF,
                        ;
                    }
                    let px = buf.get(x0 + sx, y0 + sy);
                    sr = sr + px.r as u64;
                    sg = sg + px.g as u64;
                    sb = sb + px.b as u64;
                    sx = sx + 1;
                }
                proof {
                    assert(255 * (factor as int) * (sy as int) + 255 * (factor as int) == 255 * (
                    factor as int) * (sy as int + 1)) by (nonlinear_arith);
                }
                sy = sy + 1;
            }
            proof {
                lemma_block_average_bounds(*buf, factor as int, x as int, y as int);
                assert(1 <= (factor as int) * (factor as int) <= 0xFFFF * 0xFFFF)
                    by (nonlinear_arith)
                    requires
                        1 <= (factor as int) <= 0xFFFF,
                ;
            }
            let n: u64 = (factor as u64) * (factor as u64);
            let c = Rgb { r: (sr / n) as u8, g: (sg / n) as u8, b: (sb / n) as u8 };
            out.set(x, y, c);
            x = x + 1;
        }
        y = y + 1;
    }
    out
}

/// With a unit factor each block is a single pixel and its average is that
/// pixel: the resampler is the identity.
pub proof fn lemma_block_average_identity(buf: PixelBuffer, x: int, y: int)
    ensures
        block_average_spec(buf, 1, x, y) == buf.at(x, y),
{
    let c = buf.at(x, y);
    assert(row_sum(buf, x, y, 0) == (0int, 0int, 0int));
    assert(row_sum(buf, x, y, 1) == (c.r as int, c.g as int, c.b as int));
    assert(block_sum(buf, x, y, 1, 0) == (0int, 0int, 0int));
    assert(block_sum(buf, x, y, 1, 1) == (c.r as int, c.g as int, c.b as int));
    assert(block_average_spec(buf, 1, x, y) == Rgb {
        r: ((c.r as int) / 1int) as u8,
        g: ((c.g as int) / 1int) as u8,
        b: ((c.b as int) / 1int) as u8,
    });
}

/// With a unit supersampling factor the final image equals the
/// oversampled buffer pixel for pixel: any output meeting the resampler's
/// contract at factor 1 is elementwise equal to its input.
pub proof fn lemma_downsample_identity(buf: PixelBuffer, out: PixelBuffer)
    requires
        out.spec_width() == buf.spec_width(),
        out.spec_height() == buf.spec_height(),
        forall|x: int, y: int|
            out.in_bounds(x, y) ==> out.at(x, y) == block_average_spec(buf, 1, x, y),
    ensures
        forall|x: int, y: int| out.in_bounds(x, y) ==> out.at(x, y) == buf.at(x, y),
{
    assert forall|x: int, y: int| out.in_bounds(x, y) implies out.at(x, y) == buf.at(x, y) by {
        lemma_block_average_identity(buf, x, y);
    }
}

} // verus!
