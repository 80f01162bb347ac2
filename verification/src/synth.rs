//! The image synthesizers.
//!
//! `synthesize_fractal` builds the fractal-gradient raster: red and blue
//! encode the pixel's column and row, green the escape-time count of the
//! pixel's sample point on the complex plane. `synthesize_solid` builds a
//! raster of one uniform color. Both reject zero dimensions with
//! `SynthError::InvalidDimensions` and otherwise pin every pixel of the
//! output exactly.

use vstd::prelude::*;
use vstd::arithmetic::mul::{lemma_mul_inequality, lemma_mul_nonnegative, lemma_mul_upper_bound};
use vstd::arithmetic::div_mod::{
    lemma_div_is_ordered_by_denominator, lemma_div_pos_is_pos,
    lemma_fundamental_div_mod_converse_div, lemma_fundamental_div_mod_converse_mod,
};
use crate::escape::{escape_count, escape_green, COORD_BOUND, MAX_COUNT};
use crate::raster::{Pixel, Raster, SynthError};

verus! {

/// Fixed-point width of the sampled span of the complex plane: 3.0.
pub const SPAN_FX: i64 = 3_000_000;

/// Fixed-point offset that centers the sampled span: 1.5.
pub const HALF_SPAN_FX: i64 = 1_500_000;

/// Fixed-point distance between neighboring sample points along an axis
/// of `d` pixels: the span 3.0 divided by `d`, truncated.
pub open spec fn axis_scale(d: int) -> int {
    (SPAN_FX as int) / d
}

/// Complex-plane coordinate of pixel index `i` along an axis of `d`
/// pixels: `i` scale steps from the lower edge -1.5 of the span.
pub open spec fn sample_fx(i: int, d: int) -> int {
    i * axis_scale(d) - HALF_SPAN_FX
}

/// Position-gradient channel of pixel index `i`: the integer part of
/// `0.3 * i`, wrapped into the 8-bit range.
pub open spec fn gradient_of(i: int) -> int {
    ((3 * i) / 10) % 256
}

/// Green channel of the pixel of column `x` and row `y` in a raster of
/// the given dimensions: the escape-time count of its sample point. The
/// row picks the real part and the column the imaginary part: a deliberate
/// axis swap, part of the image's look.
pub open spec fn green_of(x: int, y: int, width: int, height: int) -> nat {
    escape_count(sample_fx(y, width), sample_fx(x, height), MAX_COUNT as nat)
}

/// The one color the fractal synthesizer may give the pixel of column
/// `x` and row `y` in a raster of the given dimensions.
pub open spec fn fractal_pixel_spec(x: int, y: int, width: int, height: int) -> Pixel {
    Pixel {
        red: gradient_of(x) as u8,
        green: green_of(x, y, width, height) as u8,
        blue: gradient_of(y) as u8,
    }
}

/// The sequence is exactly the fractal raster of the given dimensions,
/// row-major: one pixel per cell, each the one its coordinates demand.
pub open spec fn is_fractal_raster(pixels: Seq<Pixel>, width: int, height: int) -> bool {
    &&& pixels.len() == width * height
    &&& forall|i: int|
        0 <= i < pixels.len() ==> pixels[i] == fractal_pixel_spec(
            i % width,
            i / width,
            width,
            height,
        )
}

/// The sequence is a raster of the given dimensions filled with one color.
pub open spec fn is_solid_raster(pixels: Seq<Pixel>, width: int, height: int, color: Pixel) -> bool {
    &&& pixels.len() == width * height
    &&& forall|i: int| 0 <= i < pixels.len() ==> pixels[i] == color
}

/// Scale step between neighboring sample points along an axis of `d`
/// pixels.
pub fn axis_scale_step(d: u32) -> (s: i64)
    requires
        d >= 1,
    ensures
        s == axis_scale(d as int),
        0 <= s <= SPAN_FX,
{
    proof {
        lemma_div_pos_is_pos(SPAN_FX as int, d as int);
        lemma_div_is_ordered_by_denominator(SPAN_FX as int, 1, d as int);
    }
    let s: u64 = 3_000_000u64 / (d as u64);
    s as i64
}

/// Complex-plane coordinate of pixel index `i` along an axis of `d`
/// pixels.
pub fn sample_coord(i: u32, d: u32) -> (r: i64)
    requires
        d >= 1,
    ensures
        r == sample_fx(i as int, d as int),
        -COORD_BOUND <= r <= COORD_BOUND,
{
    let s: i64 = axis_scale_step(d);
    proof {
        lemma_mul_nonnegative(i as int, s as int);
        lemma_mul_upper_bound(i as int, 4_294_967_295, s as int, SPAN_FX as int);
    }
    let p: i64 = (i as i64) * s;
    p - HALF_SPAN_FX
}

/// Position-gradient channel of pixel index `i`: red for a column, blue
/// for a row.
pub fn gradient_channel(i: u32) -> (c: u8)
    ensures
        c as int == gradient_of(i as int),
{
    let t: u64 = 3u64 * (i as u64);
    ((t / 10) % 256) as u8
}

/// Computes the one pixel of column `x` and row `y` in a fractal raster
/// of the given dimensions. Each pixel depends only on its coordinates
/// and the dimensions, so cells may be filled in any order.
pub fn fractal_pixel(x: u32, y: u32, width: u32, height: u32) -> (p: Pixel)
    requires
        width >= 1,
        height >= 1,
    ensures
        p == fractal_pixel_spec(x as int, y as int, width as int, height as int),
{
    let red: u8 = gradient_channel(x);
    let blue: u8 = gradient_channel(y);
    let re: i64 = sample_coord(y, width);
    let im: i64 = sample_coord(x, height);
    let green: u8 = escape_green(re, im);
    proof {
        crate::escape::lemma_escape_count_bounded(re as int, im as int, MAX_COUNT as nat);
    }
    Pixel { red, green, blue }
}

/// Builds the fractal-gradient raster of the requested dimensions, or
/// fails with `InvalidDimensions` before touching any pixel when either
/// dimension is zero.
pub fn synthesize_fractal(width: u32, height: u32) -> (out: Result<Raster, SynthError>)
    requires
        (width as int) * (height as int) <= (usize::MAX as int),
    ensures
        out is Ok <==> width >= 1 && height >= 1,
        match out {
            Ok(r) => r.width == width && r.height == height && r.well_formed()
                && is_fractal_raster(r.pixels@, width as int, height as int),
            Err(e) => e == SynthError::InvalidDimensions,
        },
{
    if width == 0 || height == 0 {
        return Err(SynthError::InvalidDimensions);
    }
    let mut pixels: Vec<Pixel> = Vec::new();
    let mut y: u32 = 0;
    while y < height
        invariant
            width >= 1,
            height >= 1,
            y <= height,
            pixels@.len() == (y as int) * (width as int),
            forall|i: int|
                0 <= i < pixels@.len() ==> pixels@[i] == fractal_pixel_spec(
                    i % (width as int),
                    i / (width as int),
                    width as int,
                    height as int,
                ),
        decreases height - y,
    {
        let mut x: u32 = 0;
        while x < width
            invariant
                width >= 1,
                height >= 1,
                y < height,
                x <= width,
                pixels@.len() == (y as int) * (width as int) + (x as int),
                forall|i: int|
                    0 <= i < pixels@.len() ==> pixels@[i] == fractal_pixel_spec(
                        i % (width as int),
                        i / (width as int),
                        width as int,
                        height as int,
                    ),
            decreases width - x,
        {
            let p: Pixel = fractal_pixel(x, y, width, height);
            proof {
                lemma_fundamental_div_mod_converse_div(
                    (y as int) * (width as int) + (x as int),
                    width as int,
                    y as int,
                    x as int,
                );
                lemma_fundamental_div_mod_converse_mod(
                    (y as int) * (width as int) + (x as int),
                    width as int,
                    y as int,
                    x as int,
                );
            }
            pixels.push(p);
            x = x + 1;
        }
        proof {
            assert(((y as int) + 1) * (width as int) == (y as int) * (width as int) + (
            width as int)) by (nonlinear_arith);
        }
        y = y + 1;
    }
    proof {
        assert((height as int) * (width as int) == (width as int) * (height as int))
            by (nonlinear_arith);
    }
    Ok(Raster { width, height, pixels })
}

/// Builds a raster of the requested dimensions filled with one color, or
/// fails with `InvalidDimensions` when either dimension is zero.
pub fn synthesize_solid(width: u32, height: u32, color: Pixel) -> (out: Result<Raster, SynthError>)
    requires
        (width as int) * (height as int) <= (usize::MAX as int),
    ensures
        out is Ok <==> width >= 1 && height >= 1,
        match out {
            Ok(r) => r.width == width && r.height == height && r.well_formed()
                && is_solid_raster(r.pixels@, width as int, height as int, color),
            Err(e) => e == SynthError::InvalidDimensions,
        },
{
    if width == 0 || height == 0 {
        return Err(SynthError::InvalidDimensions);
    }
    proof {
        lemma_mul_nonnegative(width as int, height as int);
    }
    let total: usize = (width as usize) * (height as usize);
    let mut pixels: Vec<Pixel> = Vec::new();
    let mut i: usize = 0;
    while i < total
        invariant
            total as int == (width as int) * (height as int),
            i <= total,
            pixels@.len() == i as int,
            forall|j: int| 0 <= j < pixels@.len() ==> pixels@[j] == color,
        decreases total - i,
    {
        pixels.push(color);
        i = i + 1;
    }
    Ok(Raster { width, height, pixels })
}

/// Every channel value the fractal specification can produce lies in the
/// 8-bit range: the gradient channels by their wrap, the green channel
/// because the escape count never exceeds its fuel of 255.
pub proof fn lemma_channels_in_range(x: int, y: int, width: int, height: int)
    ensures
        0 <= gradient_of(x) < 256,
        0 <= gradient_of(y) < 256,
        0 <= green_of(x, y, width, height) <= 255,
{
    crate::escape::lemma_escape_count_bounded(
        sample_fx(y, width),
        sample_fx(x, height),
        MAX_COUNT as nat,
    );
}

/// Locates a coordinate pair in the row-major fractal raster: the pixel
/// of column `x` and row `y` stands at index `y * width + x` and is the
/// one its coordinates demand.
pub proof fn lemma_fractal_raster_pixel(
    pixels: Seq<Pixel>,
    width: int,
    height: int,
    x: int,
    y: int,
)
    requires
        is_fractal_raster(pixels, width, height),
        0 <= x < width,
        0 <= y < height,
    ensures
        pixels[y * width + x] == fractal_pixel_spec(x, y, width, height),
{
    let i: int = y * width + x;
    lemma_mul_inequality(y + 1, height, width);
    assert((y + 1) * width == y * width + width) by (nonlinear_arith);
    assert(height * width == width * height) by (nonlinear_arith);
    lemma_mul_nonnegative(y, width);
    assert(0 <= i < pixels.len());
    lemma_fundamental_div_mod_converse_div(i, width, y, x);
    lemma_fundamental_div_mod_converse_mod(i, width, y, x);
}

/// The fractal raster of given dimensions is unique: any two sequences
/// that both satisfy `is_fractal_raster` are equal, so repeated synthesis
/// and any order of filling the cells give identical output.
pub proof fn lemma_fractal_raster_unique(
    p1: Seq<Pixel>,
    p2: Seq<Pixel>,
    width: int,
    height: int,
)
    requires
        is_fractal_raster(p1, width, height),
        is_fractal_raster(p2, width, height),
    ensures
        p1 == p2,
{
    assert forall|i: int| 0 <= i < p1.len() implies p1[i] == p2[i] by {
        assert(p2[i] == fractal_pixel_spec(i % width, i / width, width, height));
    }
    assert(p1 =~= p2);
}

} // verus!
