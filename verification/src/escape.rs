//! The escape-time iteration.
//!
//! A sample point `z0` of the complex plane is iterated through
//! `z := z * z + c` with the fixed constant `c = (-0.4, 0.6)`, counting
//! steps until the squared magnitude of `z` exceeds `2.0 * 2.0` or the
//! count reaches 255. The count is the green channel of the pixel. All
//! arithmetic is the fixed-point model of `crate::fixed`.

use vstd::prelude::*;
use crate::fixed::{fx_product, fixed_product};

verus! {

/// Real part of the iteration constant `c`, fixed-point for -0.4.
pub const C_RE_FX: i64 = -400_000;

/// Imaginary part of the iteration constant `c`, fixed-point for 0.6.
pub const C_IM_FX: i64 = 600_000;

/// Squared escape radius: fixed-point for `2.0 * 2.0`, at double scale
/// since it is compared against raw squared magnitudes.
pub const ESCAPE_SQ: i64 = 4_000_000_000_000;

/// Largest coordinate magnitude the executable iteration accepts; sample
/// points for any `u32` raster stay far inside it.
pub const COORD_BOUND: i64 = 100_000_000_000_000_000;

/// Greatest value the escape counter can reach, the green channel's cap.
pub const MAX_COUNT: u8 = 255;

/// Squared magnitude of the complex value `(re, im)` at double scale.
pub open spec fn sq_mag(re: int, im: int) -> int {
    re * re + im * im
}

/// The point has left the disc of radius 2.0 about the origin.
pub open spec fn has_escaped(re: int, im: int) -> bool {
    sq_mag(re, im) > ESCAPE_SQ
}

/// Real part of `z * z + c`.
pub open spec fn next_re(re: int, im: int) -> int {
    fx_product(re, re) - fx_product(im, im) + C_RE_FX
}

/// Imaginary part of `z * z + c`.
pub open spec fn next_im(re: int, im: int) -> int {
    2 * fx_product(re, im) + C_IM_FX
}

/// Number of iteration steps taken from `(re, im)` before escape, capped
/// at `fuel`: zero if the point has already escaped, otherwise one more
/// than the count of its successor.
pub open spec fn escape_count(re: int, im: int, fuel: nat) -> nat
    decreases fuel,
{
    if fuel == 0 || has_escaped(re, im) {
        0
    } else {
        1 + escape_count(next_re(re, im), next_im(re, im), (fuel - 1) as nat)
    }
}

/// The escape count never exceeds the fuel it is given; with fuel 255 the
/// count always fits the green channel.
pub proof fn lemma_escape_count_bounded(re: int, im: int, fuel: nat)
    ensures
        escape_count(re, im, fuel) <= fuel,
    decreases fuel,
{
    if fuel != 0 && !has_escaped(re, im) {
        lemma_escape_count_bounded(next_re(re, im), next_im(re, im), (fuel - 1) as nat);
    }
}

/// A coordinate outside the square of half-width 2.0 yields a squared
/// magnitude beyond the escape threshold.
proof fn lemma_outside_box_escaped(re: int, im: int)
    by (nonlinear_arith)
    requires
        re > 2_000_000 || re < -2_000_000 || im > 2_000_000 || im < -2_000_000,
    ensures
        re * re + im * im > 4_000_000_000_000,
{
}

/// Inside the escape disc both coordinates are at most 2.0 in magnitude.
proof fn lemma_inside_disc_bounded(re: int, im: int)
    by (nonlinear_arith)
    requires
        re * re + im * im <= 4_000_000_000_000,
    ensures
        -2_000_000 <= re <= 2_000_000,
        -2_000_000 <= im <= 2_000_000,
{
}

/// Decides escape for a coordinate pair of any admissible magnitude: a
/// range test settles far-out points, an exact squared-magnitude
/// comparison the rest.
pub fn check_escaped(re: i64, im: i64) -> (b: bool)
    requires
        -COORD_BOUND <= re <= COORD_BOUND,
        -COORD_BOUND <= im <= COORD_BOUND,
    ensures
        b == has_escaped(re as int, im as int),
{
    if re > 2_000_000 || re < -2_000_000 || im > 2_000_000 || im < -2_000_000 {
        proof {
            lemma_outside_box_escaped(re as int, im as int);
        }
        true
    } else {
        proof {
            assert((re as int) * (re as int) <= 4_000_000_000_000 && (im as int) * (im as int)
                <= 4_000_000_000_000 && (re as int) * (re as int) >= 0 && (im as int) * (im as int)
                >= 0) by (nonlinear_arith)
                requires
                    -2_000_000 <= re as int <= 2_000_000,
                    -2_000_000 <= im as int <= 2_000_000,
            ;
        }
        let rr: i64 = re * re;
        let ii: i64 = im * im;
        rr + ii > ESCAPE_SQ
    }
}

/// Runs the escape-time iteration from `(re0, im0)` and returns the step
/// count, the green channel of the corresponding pixel.
pub fn escape_green(re0: i64, im0: i64) -> (g: u8)
    requires
        -COORD_BOUND <= re0 <= COORD_BOUND,
        -COORD_BOUND <= im0 <= COORD_BOUND,
    ensures
        g as nat == escape_count(re0 as int, im0 as int, MAX_COUNT as nat),
{
    let mut re: i64 = re0;
    let mut im: i64 = im0;
    let mut g: u8 = 0;
    while g < MAX_COUNT
        invariant_except_break
            g <= MAX_COUNT,
            -COORD_BOUND <= re <= COORD_BOUND,
            -COORD_BOUND <= im <= COORD_BOUND,
            escape_count(re0 as int, im0 as int, MAX_COUNT as nat) == g + escape_count(
                re as int,
                im as int,
                (MAX_COUNT - g) as nat,
            ),
        ensures
            g as nat == escape_count(re0 as int, im0 as int, MAX_COUNT as nat),
        decreases MAX_COUNT - g,
    {
        if check_escaped(re, im) {
            proof {
                assert(escape_count(re as int, im as int, (MAX_COUNT - g) as nat) == 0);
            }
            break;
        }
        proof {
            lemma_inside_disc_bounded(re as int, im as int);
        }
        let rr: i64 = fixed_product(re, re);
        let ii: i64 = fixed_product(im, im);
        let ri: i64 = fixed_product(re, im);
        let stepped_re: i64 = rr - ii + C_RE_FX;
        let stepped_im: i64 = 2 * ri + C_IM_FX;
        proof {
            assert(stepped_re == next_re(re as int, im as int));
            assert(stepped_im == next_im(re as int, im as int));
            assert(escape_count(re as int, im as int, (MAX_COUNT - g) as nat) == 1
                + escape_count(stepped_re as int, stepped_im as int, (MAX_COUNT - g - 1) as nat));
        }
        re = stepped_re;
        im = stepped_im;
        g = g + 1;
    }
    g
}

} // verus!
