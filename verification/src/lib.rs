//! Escape-time sampling core for rendering the Mandelbrot set.
//!
//! The library holds the verified sampling logic: integer square root of the
//! supersampling count, enumeration of sub-sample cells, aggregation of
//! diverged sub-samples, the escape-iteration bookkeeping, and the grid
//! orchestration with its progress accounting. Floating-point evaluation of
//! the orbit itself is handed in by the caller as an opaque per-pixel
//! function; escape values travel through the grid as IEEE-754 bit patterns.

pub mod config;
pub mod progress;
pub mod sample;
