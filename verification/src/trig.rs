//! Fixed-point sine and cosine over angles measured in tenths of a
//! degree, via a rational polynomial approximation on the half turn.
//! Results are scaled by `SCALE` and proved to stay within one unit.

use vstd::prelude::*;
use crate::config::{ANGLE_FULL, ANGLE_HALF, SCALE};

verus! {

/// Rational approximation of `SCALE * sin` on the first half turn
/// (`d` in tenths of a degree, `0 <= d <= 1800`).
pub open spec fn sin_poly(d: int) -> int {
    let p = d * (ANGLE_HALF as int - d);
    (4000 * p) / (4050000 - p)
}

/// Fixed-point sine of an angle in `[0, ANGLE_FULL)`.
pub open spec fn spec_sin(d: int) -> int {
    if d <= ANGLE_HALF as int {
        sin_poly(d)
    } else {
        -sin_poly(d - ANGLE_HALF as int)
    }
}

/// Fixed-point cosine of an angle in `[0, ANGLE_FULL)`.
pub open spec fn spec_cos(d: int) -> int {
    spec_sin((d + 900) % (ANGLE_FULL as int))
}

/// On the half turn the approximation stays within `[0, SCALE]`.
pub proof fn lemma_sin_poly_bounds(d: int)
    requires
        0 <= d <= ANGLE_HALF,
    ensures
        0 <= sin_poly(d) <= SCALE,
{
    let p = d * (ANGLE_HALF as int - d);
    assert(0 <= p <= 810000) by (nonlinear_arith)
        requires
            0 <= d <= 1800,
            p == d * (1800 - d),
    ;
    assert(0 <= (4000 * p) / (4050000 - p) <= 1000) by (nonlinear_arith)
        requires
            0 <= p <= 810000,
    ;
}

/// The sine of any angle stays within `[-SCALE, SCALE]`.
pub proof fn lemma_sin_bounds(d: int)
    requires
        0 <= d < ANGLE_FULL,
    ensures
        -SCALE <= spec_sin(d) <= SCALE,
{
    if d <= ANGLE_HALF as int {
        lemma_sin_poly_bounds(d);
    } else {
        lemma_sin_poly_bounds(d - ANGLE_HALF as int);
    }
}

/// Fixed-point sine, executable form.
pub fn sin_fp(d: i64) -> (r: i64)
    requires
        0 <= d < ANGLE_FULL,
    ensures
        r == spec_sin(d as int),
        -SCALE <= r <= SCALE,
{
    proof {
        lemma_sin_bounds(d as int);
    }
    if d <= ANGLE_HALF {
        proof {
            lemma_sin_poly_bounds(d as int);
            assert(0 <= d * (ANGLE_HALF as int - d) <= 810000) by (nonlinear_arith)
                requires
                    0 <= d <= 1800,
            ;
        }
        let p: i64 = d * (ANGLE_HALF - d);
        (4000 * p) / (4050000 - p)
    } else {
        let e: i64 = d - ANGLE_HALF;
        proof {
            lemma_sin_poly_bounds(e as int);
            assert(0 <= e * (ANGLE_HALF as int - e) <= 810000) by (nonlinear_arith)
                requires
                    0 <= e <= 1800,
            ;
        }
        let p: i64 = e * (ANGLE_HALF - e);
        -((4000 * p) / (4050000 - p))
    }
}

/// Fixed-point cosine, executable form.
pub fn cos_fp(d: i64) -> (r: i64)
    requires
        0 <= d < ANGLE_FULL,
    ensures
        r == spec_cos(d as int),
        -SCALE <= r <= SCALE,
{
    let shifted: i64 = (d + 900) % ANGLE_FULL;
    proof {
        vstd::arithmetic::div_mod::lemma_mod_bound((d + 900) as int, ANGLE_FULL as int);
    }
    sin_fp(shifted)
}

} // verus!
