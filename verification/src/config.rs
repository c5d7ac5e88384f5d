//! The sample configuration: everything the sampling pass needs to know.

use vstd::prelude::*;

verus! {

/// Configuration of one sampling pass over a rectangular window of the
/// complex plane.
///
/// The window parameters (`real_offset_bits`, `complex_offset_bits`,
/// `zoom_bits`, `threshold_bits`) are IEEE-754 double-precision bit patterns.
/// The verified core never interprets them arithmetically; it carries them to
/// the caller-supplied floating-point evaluator, which decodes them.
#[derive(Clone, Copy, Debug)]
pub struct SampleConfig {
    /// Width of the output grid, in pixels.
    pub x_res: u32,
    /// Height of the output grid, in pixels.
    pub y_res: u32,
    /// Bit pattern of the view-center offset along the real axis.
    pub real_offset_bits: u64,
    /// Bit pattern of the view-center offset along the imaginary axis.
    pub complex_offset_bits: u64,
    /// Bit pattern of the zoom factor (pixels per unit distance; > 0 for
    /// meaningful output, not validated here).
    pub zoom_bits: u64,
    /// Bit pattern of the divergence threshold (> 0, not validated here).
    pub threshold_bits: u64,
    /// Iterations before an orbit is assumed bounded.
    pub max_iterations: u32,
    /// Requested sub-samples per pixel; truncated to the nearest lower
    /// perfect square by the supersampler.
    pub samples: u32,
    /// Whether escape values are smoothed to fractional iteration counts.
    pub smooth: bool,
    /// Size of the worker pool that partitions the grid.
    pub workers: usize,
}

} // verus!
