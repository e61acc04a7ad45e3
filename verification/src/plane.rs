//! The integer half of the pixel-to-plane mapping.
//!
//! A pixel `(x, y)` of a `W × H` grid maps to the complex point
//! `((x - W/2) * scale + target.re, (y - H/2) * scale + target.im)` with
//! `scale = 4 / min(W, H) / zoom`. The scale multiplication and the
//! translation are double-precision work of the numeric evaluator; the
//! centring subtraction and the choice of the smaller grid dimension are
//! exact integer arithmetic and are verified here. The subtraction is
//! performed on signed values so a pixel left of (or above) the grid
//! centre yields a negative offset rather than an underflow.

use vstd::prelude::*;

verus! {

/// The signed offset of grid coordinate `coord` from the centre of an
/// axis of extent `extent` (the extent halved with truncation).
pub open spec fn centred_offset_spec(coord: int, extent: int) -> int {
    coord - extent / 2
}

/// Signed centring offset of a pixel coordinate, exact for every 32-bit
/// coordinate and extent.
pub fn centred_offset(coord: u32, extent: u32) -> (r: i64)
    ensures
        r == centred_offset_spec(coord as int, extent as int),
{
    (coord as i64) - (extent as i64) / 2
}

/// The smaller of the two grid dimensions, the one the scale is derived
/// from.
pub fn min_dimension(width: u32, height: u32) -> (m: u32)
    ensures
        m == if width <= height {
            width as int
        } else {
            height as int
        },
{
    if width <= height {
        width
    } else {
        height
    }
}

/// The centre pixel `(W/2, H/2)` of the grid has zero centring offset on
/// both axes, so whatever the zoom, it maps to the target point itself.
pub proof fn lemma_centre_pixel_offset(width: int, height: int)
    ensures
        centred_offset_spec(width / 2, width) == 0,
        centred_offset_spec(height / 2, height) == 0,
{
}

} // verus!
