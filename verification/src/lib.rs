//! Escape-time fractal rendering core.
//!
//! The library computes the colour field of an escape-time fractal from
//! per-pixel escape data: classifying each pixel as inside or outside the
//! set, mapping continuous escape indices through a cyclic palette, filling
//! an oversampled pixel buffer, and box-filtering it down to the final
//! image. Continuous quantities (escape indices, palette positions) are
//! carried in unsigned 32.32 fixed point.

use vstd::prelude::*;

pub mod buffer;
pub mod colour;
pub mod escape;
pub mod params;
pub mod plane;
pub mod render;
pub mod resample;

verus! {

/// The fixed-point unit: continuous escape indices and palette positions
/// are interpreted as multiples of 1 / 2^32.
pub const FRAC_ONE: u64 = 0x1_0000_0000;

} // verus!
