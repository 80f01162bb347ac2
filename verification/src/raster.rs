//! The raster data model: pixels, the output grid, and the error type.

use vstd::prelude::*;
use vstd::arithmetic::mul::lemma_mul_inequality;

verus! {

/// One RGB color sample; each channel is an independent 8-bit value.
#[derive(Clone, Copy, Debug, PartialEq, Eq, Structural)]
pub struct Pixel {
    pub red: u8,
    pub green: u8,
    pub blue: u8,
}

/// Failure of a synthesizer: the requested dimensions are unusable.
#[derive(Clone, Copy, Debug, PartialEq, Eq, Structural)]
pub enum SynthError {
    /// A requested dimension is zero: no raster can be built from it.
    InvalidDimensions,
}

/// A fully populated 2D grid of pixels in row-major order: the pixel of
/// column `x` and row `y` sits at index `y * width + x`.
#[derive(Debug, PartialEq, Eq)]
pub struct Raster {
    pub width: u32,
    pub height: u32,
    pub pixels: Vec<Pixel>,
}

impl Raster {
    /// The grid holds exactly one pixel per coordinate pair.
    pub open spec fn well_formed(&self) -> bool {
        self.pixels@.len() == self.width as int * self.height as int
    }

    /// Row-major position of the pixel of column `x` and row `y`.
    pub open spec fn spec_pixel_index(&self, x: int, y: int) -> int {
        y * self.width as int + x
    }

    /// Reads the pixel of column `x` and row `y`.
    pub fn pixel_at(&self, x: u32, y: u32) -> (p: Pixel)
        requires
            self.well_formed(),
            x < self.width,
            y < self.height,
        ensures
            p == self.pixels@[self.spec_pixel_index(x as int, y as int)],
    {
        let n: usize = self.pixels.len();
        proof {
            lemma_mul_inequality(y as int + 1, self.height as int, self.width as int);
            assert((y as int + 1) * self.width as int == y as int * self.width as int
                + self.width as int) by (nonlinear_arith);
            assert(self.height as int * self.width as int == self.width as int
                * self.height as int) by (nonlinear_arith);
            assert(y as int * self.width as int >= 0) by (nonlinear_arith)
                requires
                    y as int >= 0,
                    self.width as int >= 0,
            ;
            assert((y as int) * (self.width as int) + (x as int) < (n as int));
        }
        let idx: usize = (y as usize) * (self.width as usize) + (x as usize);
        self.pixels[idx]
    }
}

} // verus!
