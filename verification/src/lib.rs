//! Raster image synthesis with verified per-pixel arithmetic.
//!
//! The library produces fully populated RGB rasters: a fractal-gradient
//! image built from an escape-time iteration over a fixed-point model of
//! the complex plane, and a solid-color image. Every pixel of the output
//! is pinned down exactly by the contracts.

pub mod escape;
pub mod fixed;
pub mod raster;
pub mod synth;
