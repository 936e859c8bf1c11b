//! What is done to a mesh between its construction and its export.

use crate::fixed::{ceil_div, ceil_div_u32};
use vstd::prelude::*;

pub mod surface;

verus! {

/// How much of a mesh a simplification keeps.
#[derive(Clone, Copy, Debug, PartialEq, Eq, Structural)]
pub struct CompressionParams {
    /// Hundredths of the index count to keep: `0..=100`, where `100` asks
    /// for no reduction.
    pub compression_factor: u32,
}

impl Default for CompressionParams {
    fn default() -> (params: CompressionParams)
        ensures
            params == (CompressionParams { compression_factor: 50 }),
    {
        CompressionParams { compression_factor: 50 }
    }
}

/// The smoothing filter.
#[derive(Clone, Copy, Debug, PartialEq, Eq, Structural)]
pub struct FilterParams {
    /// Reach of the filter, in hundredths of a metre.
    pub radius: u32,
    /// Strength of the filter, in hundredths.
    pub sigma: u32,
    /// Number of passes.
    pub passes: usize,
}

impl Default for FilterParams {
    fn default() -> (params: FilterParams)
        ensures
            params == (FilterParams { radius: 100, sigma: 50, passes: 2 }),
    {
        FilterParams { radius: 100, sigma: 50, passes: 2 }
    }
}

impl FilterParams {
    /// Reach of the filter in pixels of size `resolution`: the radius
    /// divided by the resolution, rounded up.
    pub fn radius_in_px(&self, resolution: u32) -> (r: usize)
        requires
            resolution > 0,
        ensures
            r == ceil_div(self.radius as int, resolution as int),
    {
        ceil_div_u32(self.radius, resolution) as usize
    }
}

} // verus!
