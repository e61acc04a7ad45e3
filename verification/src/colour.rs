//! Colours, palettes, and the mapping from continuous escape indices to
//! interpolated palette colours.

use vstd::prelude::*;

verus! {

/// An RGB colour with 8 bits per channel.
#[derive(Clone, Copy, PartialEq, Eq, Structural, Debug)]
pub struct Rgb {
    pub r: u8,
    pub g: u8,
    pub b: u8,
}

/// Solid black, the colour of points inside the set.
pub open spec fn black() -> Rgb {
    Rgb { r: 0, g: 0, b: 0 }
}

/// Linear interpolation of one 8-bit channel: `a * (1 - t) + b * t`,
/// truncated toward zero, where `t` is the fraction `f / 2^32`.
pub open spec fn lerp_channel_spec(a: int, b: int, f: int) -> int {
    (a * (crate::FRAC_ONE as int - f) + b * f) / (crate::FRAC_ONE as int)
}

/// The interpolated channel stays within the 8-bit range.
pub proof fn lemma_lerp_channel_bounds(a: int, b: int, f: int)
    requires
        0 <= a <= 255,
        0 <= b <= 255,
        0 <= f < crate::FRAC_ONE,
    ensures
        0 <= lerp_channel_spec(a, b, f) <= 255,
{
    let one = crate::FRAC_ONE as int;
    assert(a * (one - f) + b * f <= 255 * one) by (nonlinear_arith)
        requires
            0 <= a <= 255,
            0 <= b <= 255,
            0 <= f < one,
    ;
    assert(0 <= a * (one - f) + b * f) by (nonlinear_arith)
        requires
            0 <= a,
            0 <= b,
            0 <= f < one,
    ;
    assert((a * (one - f) + b * f) / one <= 255) by (nonlinear_arith)
        requires
            0 < one,
            0 <= a * (one - f) + b * f <= 255 * one,
    ;
}

/// Interpolation with a zero fraction returns the first endpoint exactly.
pub proof fn lemma_lerp_channel_at_zero(a: int, b: int)
    requires
        0 <= a <= 255,
        0 <= b <= 255,
    ensures
        lerp_channel_spec(a, b, 0) == a,
{
    let one = crate::FRAC_ONE as int;
    assert(a * (one - 0) + b * 0 == a * one);
    assert(a * one / one == a) by (nonlinear_arith)
        requires
            0 < one,
    ;
}

/// Linear interpolation of one colour channel in Q32.32 fixed point.
pub fn lerp_channel(a: u8, b: u8, f: u64) -> (r: u8)
    requires
        f < crate::FRAC_ONE,
    ensures
        r as int == lerp_channel_spec(a as int, b as int, f as int),
{
    let inv: u64 = crate::FRAC_ONE - f;
    proof {
        lemma_lerp_channel_bounds(a as int, b as int, f as int);
        assert((a as int) * (inv as int) + (b as int) * (f as int) <= 255 * (crate::FRAC_ONE as int))
            by (nonlinear_arith)
            requires
                a <= 255,
                b <= 255,
                inv == crate::FRAC_ONE - f,
                0 <= f < crate::FRAC_ONE,
        ;
    }
    let num: u64 = (a as u64) * inv + (b as u64) * f;
    (num / crate::FRAC_ONE) as u8
}

/// Linear interpolation of a whole colour, channel by channel.
pub open spec fn lerp_rgb_spec(a: Rgb, b: Rgb, f: int) -> Rgb {
    Rgb {
        r: lerp_channel_spec(a.r as int, b.r as int, f) as u8,
        g: lerp_channel_spec(a.g as int, b.g as int, f) as u8,
        b: lerp_channel_spec(a.b as int, b.b as int, f) as u8,
    }
}

/// Linear interpolation between two colours in Q32.32 fixed point.
pub fn lerp_rgb(a: Rgb, b: Rgb, f: u64) -> (c: Rgb)
    requires
        f < crate::FRAC_ONE,
    ensures
        c == lerp_rgb_spec(a, b, f as int),
{
    proof {
        lemma_lerp_channel_bounds(a.r as int, b.r as int, f as int);
        lemma_lerp_channel_bounds(a.g as int, b.g as int, f as int);
        lemma_lerp_channel_bounds(a.b as int, b.b as int, f as int);
    }
    Rgb {
        r: lerp_channel(a.r, b.r, f),
        g: lerp_channel(a.g, b.g, f),
        b: lerp_channel(a.b, b.b, f),
    }
}

/// An ordered, non-empty sequence of anchor colours.
#[derive(Debug)]
pub struct Palette {
    pub anchors: Vec<Rgb>,
}

/// The colour of a cyclic palette at position `whole + f / 2^32`, with the
/// whole part wrapped around the anchor count: the anchor below the
/// position, blended toward the next anchor (cyclically) by the fractional
/// part. At an exact anchor position the lower anchor is returned
/// unblended.
pub open spec fn palette_colour_spec(anchors: Seq<Rgb>, whole: int, f: int) -> Rgb
    recommends
        anchors.len() >= 1,
        0 <= whole,
        0 <= f < crate::FRAC_ONE,
{
    let l = anchors.len() as int;
    let i = whole % l;
    let j = if f == 0 {
        i
    } else {
        (i + 1) % l
    };
    lerp_rgb_spec(anchors[i], anchors[j], f)
}

impl Palette {
    /// A palette is well formed when it has at least one anchor.
    pub open spec fn wf(&self) -> bool {
        self.anchors@.len() >= 1
    }

    /// Builds a palette from its anchors; an empty anchor list is a
    /// configuration error, reported rather than rendered.
    pub fn new(anchors: Vec<Rgb>) -> (r: Result<Palette, crate::params::ConfigError>)
        ensures
            anchors@.len() >= 1 ==> (r is Ok && r->Ok_0.wf() && r->Ok_0.anchors@ == anchors@),
            anchors@.len() == 0 ==> (r is Err && r->Err_0 == crate::params::ConfigError::EmptyPalette),
    {
        if anchors.len() == 0 {
            Err(crate::params::ConfigError::EmptyPalette)
        } else {
            Ok(Palette { anchors })
        }
    }

    /// Number of anchors.
    pub fn len(&self) -> (n: usize)
        ensures
            n == self.anchors@.len(),
    {
        self.anchors.len()
    }

    /// The colour at cyclic position `whole + frac / 2^32`.
    pub fn colour_at(&self, whole: u64, frac: u64) -> (c: Rgb)
        requires
            self.wf(),
            frac < crate::FRAC_ONE,
        ensures
            c == palette_colour_spec(self.anchors@, whole as int, frac as int),
    {
        let l = self.anchors.len();
        let i = (whole % (l as u64)) as usize;
        let j = if frac == 0 {
            i
        } else {
            (i + 1) % l
        };
        lerp_rgb(self.anchors[i], self.anchors[j], frac)
    }
}

/// At an exact anchor position (zero fractional part) the palette returns
/// the corresponding anchor with no interpolation error; in particular
/// position zero returns the first anchor exactly.
pub proof fn lemma_palette_anchor_exact(anchors: Seq<Rgb>, whole: int)
    requires
        anchors.len() >= 1,
        0 <= whole,
    ensures
        palette_colour_spec(anchors, whole, 0) == anchors[whole % anchors.len() as int],
        palette_colour_spec(anchors, 0, 0) == anchors[0],
{
    let l = anchors.len() as int;
    let a = anchors[whole % l];
    lemma_lerp_channel_at_zero(a.r as int, a.r as int);
    lemma_lerp_channel_at_zero(a.g as int, a.g as int);
    lemma_lerp_channel_at_zero(a.b as int, a.b as int);
    assert(palette_colour_spec(anchors, whole, 0) == a);
    let a0 = anchors[0];
    lemma_lerp_channel_at_zero(a0.r as int, a0.r as int);
    lemma_lerp_channel_at_zero(a0.g as int, a0.g as int);
    lemma_lerp_channel_at_zero(a0.b as int, a0.b as int);
    assert(0int % l == 0);
    assert(palette_colour_spec(anchors, 0, 0) == a0);
}

/// The full colour configuration of a render: the cyclic palette and the
/// rational scale factor applied to escape indices before the palette
/// lookup (a smaller scale stretches the colour bands).
pub struct ColourConfig {
    /// The anchor colours the palette cycles through.
    pub palette: Palette,
    /// Numerator of the index scale factor.
    pub scale_num: u32,
    /// Denominator of the index scale factor.
    pub scale_den: u32,
}

/// The palette position of a continuous escape index: the index (Q32.32)
/// multiplied by the scale `num / den`, truncated, still in Q32.32.
pub open spec fn scaled_position_spec(index: int, num: int, den: int) -> int
    recommends
        0 < den,
        num <= den,
{
    index * num / den
}

impl ColourConfig {
    /// A colour configuration is well formed when the palette is and the
    /// scale is a rational in `(0, 1]`.
    pub open spec fn wf(&self) -> bool {
        &&& self.palette.wf()
        &&& 1 <= self.scale_num
        &&& self.scale_num <= self.scale_den
    }

    /// The colour of a continuous escape index: the index is scaled, and
    /// the palette is read at the resulting cyclic position.
    pub open spec fn colour_of_index_spec(&self, index: int) -> Rgb {
        let t = scaled_position_spec(index, self.scale_num as int, self.scale_den as int);
        palette_colour_spec(self.palette.anchors@, t / crate::FRAC_ONE as int, t % crate::FRAC_ONE as int)
    }

    /// Maps a continuous escape index (Q32.32) to its palette colour.
    pub fn colour_of_index(&self, index: u64) -> (c: Rgb)
        requires
            self.wf(),
        ensures
            c == self.colour_of_index_spec(index as int),
    {
        proof {
            assert((index as int) * (self.scale_num as int) <= (u64::MAX as int) * (self.scale_den as int))
                by (nonlinear_arith)
                requires
                    index <= u64::MAX,
                    1 <= self.scale_num <= self.scale_den,
            ;
            assert((index as int) * (self.scale_num as int) / (self.scale_den as int) <= u64::MAX as int)
                by (nonlinear_arith)
                requires
                    0 < self.scale_den,
                    (index as int) * (self.scale_num as int) <= (u64::MAX as int) * (self.scale_den as int),
            ;
            assert(0 <= (index as int) * (self.scale_num as int)) by (nonlinear_arith)
                requires
                    0 <= index,
                    0 <= self.scale_num,
            ;
        }
        let t: u64 = ((index as u128) * (self.scale_num as u128) / (self.scale_den as u128)) as u64;
        let whole: u64 = t / crate::FRAC_ONE;
        let frac: u64 = t % crate::FRAC_ONE;
        self.palette.colour_at(whole, frac)
    }
}

} // verus!
