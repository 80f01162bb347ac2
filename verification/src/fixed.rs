//! Fixed-point arithmetic for the escape-time iteration.
//!
//! Every real quantity of the complex-plane computation is held as an
//! integer count of units of `1 / SCALE_ONE`. Products of two fixed-point
//! values are rescaled with a truncating (round-toward-zero) division, so
//! the whole computation is exact integer arithmetic and fully
//! deterministic.

use vstd::prelude::*;

verus! {

/// Number of fixed-point units that represent the real value 1.0.
pub const SCALE_ONE: i64 = 1_000_000;

/// Largest magnitude accepted by `fixed_product`: raw products stay well
/// inside the `i64` range for operands up to ten units.
pub const FX_BOUND: i64 = 10_000_000;

/// Truncating division of a raw double-scale product by `SCALE_ONE`:
/// it rounds toward zero for either sign.
pub open spec fn scale_down(p: int) -> int {
    if p >= 0 {
        p / (SCALE_ONE as int)
    } else {
        -((-p) / (SCALE_ONE as int))
    }
}

/// Fixed-point product: the mathematical product rescaled back to
/// single-scale units, truncated toward zero.
pub open spec fn fx_product(a: int, b: int) -> int {
    scale_down(a * b)
}

/// Fixed-point product of two values of at most ten units' magnitude.
pub fn fixed_product(a: i64, b: i64) -> (r: i64)
    requires
        -FX_BOUND <= a <= FX_BOUND,
        -FX_BOUND <= b <= FX_BOUND,
    ensures
        r == fx_product(a as int, b as int),
        -100_000_000 <= r <= 100_000_000,
{
    proof {
        assert(-100_000_000_000_000 <= (a as int) * (b as int) <= 100_000_000_000_000)
            by (nonlinear_arith)
            requires
                -10_000_000 <= a as int <= 10_000_000,
                -10_000_000 <= b as int <= 10_000_000,
        ;
    }
    let p: i64 = a * b;
    if p >= 0 {
        let q: u64 = (p as u64) / 1_000_000u64;
        q as i64
    } else {
        let n: i64 = -p;
        let q: u64 = (n as u64) / 1_000_000u64;
        -(q as i64)
    }
}

} // verus!
