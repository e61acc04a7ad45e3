//! Render parameters, their validation, and the documented defaults.

use vstd::prelude::*;

verus! {

/// A rejected configuration. Configuration errors are detected before any
/// rendering begins; they are never discovered mid-computation.
#[derive(Clone, Copy, PartialEq, Eq, Structural, Debug)]
pub enum ConfigError {
    /// The output width is zero.
    ZeroWidth,
    /// The output height is zero.
    ZeroHeight,
    /// The supersampling factor is zero (it must be at least 1).
    ZeroSupersample,
    /// The iteration budget is zero (it must be positive).
    ZeroIterations,
    /// The palette has no anchors.
    EmptyPalette,
}

/// The discrete parameters of a render: output resolution, supersampling
/// factor, and iteration budget. The continuous parameters of the plane
/// mapping (target centre, zoom, Julia seed) are double-precision inputs of
/// the numeric evaluator and live with it, outside the verified core; this
/// type carries everything the field and image pipeline reads.
#[derive(Clone, Copy, PartialEq, Eq, Structural, Debug)]
pub struct RenderParams {
    /// Output image width in pixels.
    pub width: u32,
    /// Output image height in pixels.
    pub height: u32,
    /// Supersampling factor: the field is computed on a grid finer by this
    /// factor in each axis, then averaged back down.
    pub supersample: u32,
    /// Maximum number of iterations of the quadratic map per point.
    pub max_iterations: u64,
}

impl RenderParams {
    /// A parameter set is valid when the resolution is nonzero, the
    /// supersampling factor is at least 1, and the iteration budget is
    /// positive.
    pub open spec fn valid(&self) -> bool {
        &&& self.width >= 1
        &&& self.height >= 1
        &&& self.supersample >= 1
        &&& self.max_iterations >= 1
    }

    /// Validates a parameter set, reporting the first violated condition in
    /// the order width, height, supersampling, iterations.
    pub fn new(width: u32, height: u32, supersample: u32, max_iterations: u64) -> (r: Result<
        RenderParams,
        ConfigError,
    >)
        ensures
            r is Ok <==> (width >= 1 && height >= 1 && supersample >= 1 && max_iterations >= 1),
            r is Ok ==> r->Ok_0 == (RenderParams { width, height, supersample, max_iterations }),
            width == 0 ==> r == Result::<RenderParams, ConfigError>::Err(ConfigError::ZeroWidth),
            width >= 1 && height == 0 ==> r == Result::<RenderParams, ConfigError>::Err(
                ConfigError::ZeroHeight,
            ),
            width >= 1 && height >= 1 && supersample == 0 ==> r == Result::<
                RenderParams,
                ConfigError,
            >::Err(ConfigError::ZeroSupersample),
            width >= 1 && height >= 1 && supersample >= 1 && max_iterations == 0 ==> r == Result::<
                RenderParams,
                ConfigError,
            >::Err(ConfigError::ZeroIterations),
    {
        if width == 0 {
            Err(ConfigError::ZeroWidth)
        } else if height == 0 {
            Err(ConfigError::ZeroHeight)
        } else if supersample == 0 {
            Err(ConfigError::ZeroSupersample)
        } else if max_iterations == 0 {
            Err(ConfigError::ZeroIterations)
        } else {
            Ok(RenderParams { width, height, supersample, max_iterations })
        }
    }

    /// Width of the oversampled grid, `width * supersample`.
    pub fn oversampled_width(&self) -> (w: u64)
        ensures
            w == self.width as int * self.supersample as int,
    {
        proof {
            assert((self.width as int) * (self.supersample as int) <= u64::MAX as int)
                by (nonlinear_arith)
                requires
                    self.width <= u32::MAX,
                    self.supersample <= u32::MAX,
            ;
        }
        (self.width as u64) * (self.supersample as u64)
    }

    /// Height of the oversampled grid, `height * supersample`.
    pub fn oversampled_height(&self) -> (h: u64)
        ensures
            h == self.height as int * self.supersample as int,
    {
        proof {
            assert((self.height as int) * (self.supersample as int) <= u64::MAX as int)
                by (nonlinear_arith)
                requires
                    self.height <= u32::MAX,
                    self.supersample <= u32::MAX,
            ;
        }
        (self.height as u64) * (self.supersample as u64)
    }
}

/// The iteration budget to use when none was supplied (or none could be
/// read): a supplied value is kept, an absent one defaults to 100.
pub fn iterations_or_default(supplied: Option<u64>) -> (n: u64)
    ensures
        n == match supplied {
            Option::Some(v) => v,
            Option::None => 100u64,
        },
{
    match supplied {
        Some(v) => v,
        None => 100,
    }
}

/// The supersampling factor to use when none was supplied (or none could
/// be read): a supplied value is kept, an absent one defaults to 1.
pub fn supersample_or_default(supplied: Option<u32>) -> (n: u32)
    ensures
        n == match supplied {
            Option::Some(v) => v,
            Option::None => 1u32,
        },
{
    match supplied {
        Some(v) => v,
        None => 1,
    }
}

} // verus!
