//! The field renderer: turns a grid of per-pixel escape data into a fully
//! populated colour buffer.
//!
//! The numeric evaluation of the escape field may be spread over any
//! number of workers (one per column, per pixel, or anything else): the
//! colour of every cell is a function of that cell's escape datum and the
//! colour configuration alone, so the populated buffer is independent of
//! any evaluation or scheduling order.

use vstd::prelude::*;
use crate::buffer::PixelBuffer;
use crate::colour::{black, ColourConfig, Rgb};
use crate::escape::EscapeResult;
use crate::params::RenderParams;
use crate::resample::{block_sum, downsample, row_sum};

verus! {

/// The colour a pixel is drawn with: solid black for a point inside the
/// set, the palette colour of its continuous escape index otherwise.
pub open spec fn pixel_colour_spec(e: EscapeResult, cfg: ColourConfig) -> Rgb {
    match e {
        EscapeResult::Inside => black(),
        EscapeResult::Outside(index) => cfg.colour_of_index_spec(index as int),
    }
}

/// Maps one escape datum to its colour.
pub fn pixel_colour(e: EscapeResult, cfg: &ColourConfig) -> (c: Rgb)
    requires
        cfg.wf(),
    ensures
        c == pixel_colour_spec(e, *cfg),
{
    match e {
        EscapeResult::Inside => Rgb { r: 0, g: 0, b: 0 },
        EscapeResult::Outside(index) => cfg.colour_of_index(index),
    }
}

/// Populates a `width × height` colour buffer from a row-major escape
/// field: cell `(x, y)` receives the colour of field entry `y * width + x`.
pub fn render_field(field: &Vec<EscapeResult>, width: usize, height: usize, cfg: &ColourConfig) -> (buf:
    PixelBuffer)
    requires
        cfg.wf(),
        width * height <= usize::MAX,
        field@.len() == width * height,
    ensures
        buf.wf(),
        buf.spec_width() == width,
        buf.spec_height() == height,
        forall|x: int, y: int|
            buf.in_bounds(x, y) ==> buf.at(x, y) == pixel_colour_spec(
                field@[y * width + x],
                *cfg,
            ),
{
    let mut buf = PixelBuffer::new(width, height, Rgb { r: 0, g: 0, b: 0 });
    let mut y: usize = 0;
    while y < height
        invariant
            y <= height,
            cfg.wf(),
            width * height <= usize::MAX,
            field@.len() == width * height,
            buf.wf(),
            buf.spec_width() == width,
            buf.spec_height() == height,
            forall|i: int, j: int|
                0 <= i < width && 0 <= j < y ==> buf.at(i, j) == pixel_colour_spec(
                    field@[j * width + i],
                    *cfg,
                ),
        decreases height - y,
    {
        let mut x: usize = 0;
        while x < width
            invariant
                x <= width,
                y < height,
                cfg.wf(),
                width * height <= usize::MAX,
                field@.len() == width * height,
                buf.wf(),
                buf.spec_width() == width,
                buf.spec_height() == height,
                forall|i: int, j: int|
                    0 <= i < width && 0 <= j < y ==> buf.at(i, j) == pixel_colour_spec(
                        field@[j * width + i],
                        *cfg,
                    ),
                forall|i: int|
                    0 <= i < x ==> buf.at(i, y as int) == pixel_colour_spec(
                        field@[y as int * width + i],
                        *cfg,
                    ),
            decreases width - x,
        {
            proof {
                assert(0 <= (y as int) * (width as int) + (x as int) < (width as int) * (
                height as int)) by (nonlinear_arith)
                    requires
                        0 <= (x as int) < (width as int),
                        0 <= (y as int) < (height as int),
                ;
            }
            let idx: usize = y * width + x;
            let c = pixel_colour(field[idx], cfg);
            buf.set(x, y, c);
            x = x + 1;
        }
        y = y + 1;
    }
    buf
}

/// The colour of cell `(x, y)` of the oversampled grid, read straight
/// from a row-major escape field of width `ow`.
pub open spec fn field_colour(field: Seq<EscapeResult>, ow: int, cfg: ColourConfig, x: int, y: int) -> Rgb {
    pixel_colour_spec(field[y * ow + x], cfg)
}

/// Per-channel sum of `n` field colours along row `y` starting at `x0`.
pub open spec fn field_row_sum(
    field: Seq<EscapeResult>,
    ow: int,
    cfg: ColourConfig,
    x0: int,
    y: int,
    n: int,
) -> (int, int, int)
    decreases n,
{
    if n <= 0 {
        (0, 0, 0)
    } else {
        let s = field_row_sum(field, ow, cfg, x0, y, n - 1);
        let c = field_colour(field, ow, cfg, x0 + n - 1, y);
        (s.0 + c.r as int, s.1 + c.g as int, s.2 + c.b as int)
    }
}

/// Per-channel sum of the `w × rows` block of field colours whose
/// top-left corner is `(x0, y0)`.
pub open spec fn field_block_sum(
    field: Seq<EscapeResult>,
    ow: int,
    cfg: ColourConfig,
    x0: int,
    y0: int,
    w: int,
    rows: int,
) -> (int, int, int)
    decreases rows,
{
    if rows <= 0 {
        (0, 0, 0)
    } else {
        let s = field_block_sum(field, ow, cfg, x0, y0, w, rows - 1);
        let r = field_row_sum(field, ow, cfg, x0, y0 + rows - 1, w);
        (s.0 + r.0, s.1 + r.1, s.2 + r.2)
    }
}

/// The colour of final-image pixel `(x, y)`: the truncating per-channel
/// average of the `factor × factor` block of field colours at
/// `(factor * x, factor * y)`. This is the complete functional
/// specification of the pipeline from escape field to finished image.
pub open spec fn final_colour_spec(
    field: Seq<EscapeResult>,
    ow: int,
    cfg: ColourConfig,
    factor: int,
    x: int,
    y: int,
) -> Rgb {
    let s = field_block_sum(field, ow, cfg, x * factor, y * factor, factor, factor);
    let n = factor * factor;
    Rgb { r: (s.0 / n) as u8, g: (s.1 / n) as u8, b: (s.2 / n) as u8 }
}

/// A buffer whose cells hold the field colours has the row sums of the
/// field.
proof fn lemma_row_sum_matches(
    over: PixelBuffer,
    field: Seq<EscapeResult>,
    cfg: ColourConfig,
    x0: int,
    y: int,
    n: int,
)
    requires
        forall|i: int, j: int|
            over.in_bounds(i, j) ==> over.at(i, j) == field_colour(
                field,
                over.spec_width(),
                cfg,
                i,
                j,
            ),
        0 <= x0,
        n >= 0,
        x0 + n <= over.spec_width(),
        0 <= y < over.spec_height(),
    ensures
        row_sum(over, x0, y, n) == field_row_sum(field, over.spec_width(), cfg, x0, y, n),
    decreases n,
{
    if n > 0 {
        lemma_row_sum_matches(over, field, cfg, x0, y, n - 1);
    }
}

/// A buffer whose cells hold the field colours has the block sums of the
/// field.
proof fn lemma_block_sum_matches(
    over: PixelBuffer,
    field: Seq<EscapeResult>,
    cfg: ColourConfig,
    x0: int,
    y0: int,
    w: int,
    rows: int,
)
    requires
        forall|i: int, j: int|
            over.in_bounds(i, j) ==> over.at(i, j) == field_colour(
                field,
                over.spec_width(),
                cfg,
                i,
                j,
            ),
        0 <= x0,
        0 <= y0,
        w >= 0,
        rows >= 0,
        x0 + w <= over.spec_width(),
        y0 + rows <= over.spec_height(),
    ensures
        block_sum(over, x0, y0, w, rows) == field_block_sum(
            field,
            over.spec_width(),
            cfg,
            x0,
            y0,
            w,
            rows,
        ),
    decreases rows,
{
    if rows > 0 {
        lemma_block_sum_matches(over, field, cfg, x0, y0, w, rows - 1);
        lemma_row_sum_matches(over, field, cfg, x0, y0 + rows - 1, w);
    }
}

/// Renders the final image from a row-major escape field of the
/// oversampled grid: the field is coloured through the palette and
/// box-filtered down by the supersampling factor. Every output pixel is
/// pinned to `final_colour_spec`.
pub fn render_image(field: &Vec<EscapeResult>, params: &RenderParams, cfg: &ColourConfig) -> (img:
    PixelBuffer)
    requires
        params.valid(),
        cfg.wf(),
        params.supersample <= 0xFFFF,
        field@.len() == (params.width as int * params.supersample as int) * (params.height as int
            * params.supersample as int),
        (params.width as int * params.supersample as int) * (params.height as int
            * params.supersample as int) <= usize::MAX,
    ensures
        img.wf(),
        img.spec_width() == params.width,
        img.spec_height() == params.height,
        forall|x: int, y: int|
            img.in_bounds(x, y) ==> img.at(x, y) == final_colour_spec(
                field@,
                params.width as int * params.supersample as int,
                *cfg,
                params.supersample as int,
                x,
                y,
            ),
{
    proof {
        assert((params.width as int) * (params.height as int) <= (params.width as int
            * params.supersample as int) * (params.height as int * params.supersample as int))
            by (nonlinear_arith)
            requires
                params.width >= 1,
                params.height >= 1,
                params.supersample >= 1,
        ;
        assert((params.width as int) <= (params.width as int) * (params.supersample as int)
            <= usize::MAX && (params.height as int) <= (params.height as int) * (
        params.supersample as int) <= usize::MAX) by (nonlinear_arith)
            requires
                params.width >= 1,
                params.height >= 1,
                params.supersample >= 1,
                (params.width as int * params.supersample as int) * (params.height as int
                    * params.supersample as int) <= usize::MAX,
        ;
    }
    let ow: usize = (params.width as usize) * (params.supersample as usize);
    let oh: usize = (params.height as usize) * (params.supersample as usize);
    let over = render_field(field, ow, oh, cfg);
    let img = downsample(&over, params.supersample as usize, params.width as usize, params.height as usize);
    proof {
        let ss = params.supersample as int;
        assert forall|x: int, y: int| img.in_bounds(x, y) implies img.at(x, y) == final_colour_spec(
            field@,
            ow as int,
            *cfg,
            ss,
            x,
            y,
        ) by {
            assert(0 <= x * ss && x * ss + ss <= over.spec_width() && 0 <= y * ss && y * ss + ss
                <= over.spec_height()) by (nonlinear_arith)
                requires
                    0 <= x < params.width as int,
                    0 <= y < params.height as int,
                    ss >= 1,
                    over.spec_width() == params.width as int * ss,
                    over.spec_height() == params.height as int * ss,
            ;
            lemma_block_sum_matches(over, field@, *cfg, x * ss, y * ss, ss, ss);
        }
    }
    img
}

/// Determinism: a finished image is a function of the escape field, the
/// colour configuration, and the dimensions alone. Any two images meeting
/// the pipeline's contract for the same inputs hold identical pixel data,
/// however the field evaluation was scheduled over workers.
pub proof fn lemma_render_deterministic(
    a: PixelBuffer,
    b: PixelBuffer,
    field: Seq<EscapeResult>,
    ow: int,
    cfg: ColourConfig,
    factor: int,
    width: int,
    height: int,
)
    requires
        a.wf(),
        b.wf(),
        a.spec_width() == width,
        b.spec_width() == width,
        a.spec_height() == height,
        b.spec_height() == height,
        forall|x: int, y: int|
            a.in_bounds(x, y) ==> a.at(x, y) == final_colour_spec(field, ow, cfg, factor, x, y),
        forall|x: int, y: int|
            b.in_bounds(x, y) ==> b.at(x, y) == final_colour_spec(field, ow, cfg, factor, x, y),
    ensures
        a.pixels() == b.pixels(),
{
    crate::buffer::lemma_buffer_pixels_equal(a, b);
}

} // verus!
