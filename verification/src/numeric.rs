//! Clamped fixed-point arithmetic and toroidal position helpers.
//!
//! Every stat and hit-point value of the simulation lives in
//! `[-VAL_BOUND, VAL_BOUND]` (stats in `[0, VAL_BOUND]`); the arithmetic
//! here clamps to those ranges, so no tick can overflow an `i64`.

use vstd::prelude::*;
use crate::config::{CELLS, HALF_SCALE, MAP_SIZE, SCALE, SIZE_FP, VAL_BOUND};

verus! {

/// Clamp an unbounded value into `[-VAL_BOUND, VAL_BOUND]`.
pub open spec fn clamp_val(v: int) -> i64 {
    if v > VAL_BOUND as int {
        VAL_BOUND
    } else if v < -(VAL_BOUND as int) {
        (-(VAL_BOUND as int)) as i64
    } else {
        v as i64
    }
}

/// Clamp an unbounded value into the stat range `[0, VAL_BOUND]`.
pub open spec fn clamp_stat(v: int) -> i64 {
    if v > VAL_BOUND as int {
        VAL_BOUND
    } else if v < 0 {
        0
    } else {
        v as i64
    }
}

/// Truncating (round-toward-zero) division by the fixed-point scale.
pub open spec fn div_scale(p: int) -> int {
    if p >= 0 {
        p / (SCALE as int)
    } else {
        -((-p) / (SCALE as int))
    }
}

/// Position on the toroidal axis: the representative of `p` in
/// `[0, SIZE_FP)`.
pub open spec fn wrap_fp(p: int) -> i64 {
    (p % (SIZE_FP as int)) as i64
}

/// Reward scaling: `stat * r / SCALE * damp / SCALE`, the fixed-point
/// form of `stat * random_fraction * damping`.
pub open spec fn spec_scaled(stat: int, r: int, damp: int) -> int {
    ((stat * r) / (SCALE as int) * damp) / (SCALE as int)
}

/// Column of the cell a fixed-point x coordinate rounds to.
pub open spec fn cell_axis(x: int) -> int {
    ((x + HALF_SCALE) / (SCALE as int)) % (MAP_SIZE as int)
}

/// Row-major index of the cell position `(x, y)` rounds to.
pub open spec fn cell_of(x: int, y: int) -> int {
    cell_axis(y) * (MAP_SIZE as int) + cell_axis(x)
}

/// Clamped addition on hit-point values.
pub fn cadd_val(a: i64, b: i64) -> (r: i64)
    requires
        -VAL_BOUND <= a <= VAL_BOUND,
        -VAL_BOUND <= b <= VAL_BOUND,
    ensures
        r == clamp_val(a + b),
{
    let s: i64 = a + b;
    if s > VAL_BOUND {
        VAL_BOUND
    } else if s < -VAL_BOUND {
        -VAL_BOUND
    } else {
        s
    }
}

/// Clamped subtraction on hit-point values.
pub fn csub_val(a: i64, b: i64) -> (r: i64)
    requires
        -VAL_BOUND <= a <= VAL_BOUND,
        -VAL_BOUND <= b <= VAL_BOUND,
    ensures
        r == clamp_val(a - b),
{
    let s: i64 = a - b;
    if s > VAL_BOUND {
        VAL_BOUND
    } else if s < -VAL_BOUND {
        -VAL_BOUND
    } else {
        s
    }
}

/// Clamped addition on stat values (stats never leave `[0, VAL_BOUND]`).
pub fn cadd_stat(a: i64, b: i64) -> (r: i64)
    requires
        0 <= a <= VAL_BOUND,
        0 <= b <= VAL_BOUND,
    ensures
        r == clamp_stat(a + b),
{
    let s: i64 = a + b;
    if s > VAL_BOUND {
        VAL_BOUND
    } else {
        s
    }
}

/// The scaled reward stays within `[0, stat]`: scaling by two fractions
/// below one never grows a stat.
pub proof fn lemma_scaled_bounds(stat: int, r: int, damp: int)
    requires
        0 <= stat <= VAL_BOUND,
        0 <= r < SCALE,
        0 <= damp <= SCALE,
    ensures
        0 <= spec_scaled(stat, r, damp) <= stat,
{
    let sc = SCALE as int;
    let q1 = (stat * r) / sc;
    assert(0 <= stat * r <= stat * sc) by (nonlinear_arith)
        requires
            0 <= stat,
            0 <= r < sc,
    ;
    assert(0 <= q1 <= stat) by (nonlinear_arith)
        requires
            q1 == (stat * r) / sc,
            0 <= stat * r <= stat * sc,
            sc == 1000,
    ;
    assert(0 <= q1 * damp <= stat * sc) by (nonlinear_arith)
        requires
            0 <= q1 <= stat,
            0 <= damp <= sc,
    ;
    assert(0 <= (q1 * damp) / sc <= stat) by (nonlinear_arith)
        requires
            0 <= q1 * damp <= stat * sc,
            sc == 1000,
    ;
}

/// Fixed-point reward scaling, executable form.
pub fn scaled(stat: i64, r: i64, damp: i64) -> (res: i64)
    requires
        0 <= stat <= VAL_BOUND,
        0 <= r < SCALE,
        0 <= damp <= SCALE,
    ensures
        res == spec_scaled(stat as int, r as int, damp as int),
        0 <= res <= stat,
{
    proof {
        lemma_scaled_bounds(stat as int, r as int, damp as int);
        let sc = SCALE as int;
        assert(0 <= stat * r <= stat * sc) by (nonlinear_arith)
            requires
                0 <= stat,
                0 <= r < sc,
        ;
        assert(stat * sc <= VAL_BOUND * 1000) by (nonlinear_arith)
            requires
                0 <= stat <= VAL_BOUND,
                sc == 1000,
        ;
        let q1 = (stat * r) / sc;
        assert(0 <= q1 <= stat) by (nonlinear_arith)
            requires
                q1 == (stat * r) / sc,
                0 <= stat * r <= stat * sc,
                sc == 1000,
                0 <= stat,
        ;
        assert(0 <= q1 * damp <= stat * sc) by (nonlinear_arith)
            requires
                0 <= q1 <= stat,
                0 <= damp <= sc,
        ;
    }
    let p1: i64 = stat * r;
    let q1: i64 = p1 / SCALE;
    let p2: i64 = q1 * damp;
    p2 / SCALE
}

/// Truncating division by `SCALE`, executable form.
pub fn div_scale_exec(p: i64) -> (r: i64)
    requires
        -1_000_000_000_000_000 <= p <= 1_000_000_000_000_000,
    ensures
        r == div_scale(p as int),
        -VAL_BOUND <= r <= VAL_BOUND,
{
    proof {
        let sc = SCALE as int;
        if p >= 0 {
            assert(0 <= (p as int) / sc <= VAL_BOUND as int) by (nonlinear_arith)
                requires
                    0 <= p <= 1_000_000_000_000_000,
                    sc == 1000,
            ;
        } else {
            assert(0 <= (-(p as int)) / sc <= VAL_BOUND as int) by (nonlinear_arith)
                requires
                    0 < -(p as int) <= 1_000_000_000_000_000,
                    sc == 1000,
            ;
        }
    }
    if p >= 0 {
        p / SCALE
    } else {
        -((-p) / SCALE)
    }
}

/// Advance a wrapped coordinate by a bounded displacement; the result is
/// again in `[0, SIZE_FP)`.
pub fn wrap_add(x: i64, d: i64) -> (r: i64)
    requires
        0 <= x < SIZE_FP,
        -VAL_BOUND <= d <= VAL_BOUND,
    ensures
        r == wrap_fp(x + d),
        0 <= r < SIZE_FP,
{
    proof {
        vstd::arithmetic::div_mod::lemma_mod_multiples_vanish(
            50_000_000,
            x + d,
            SIZE_FP as int,
        );
        vstd::arithmetic::div_mod::lemma_mod_bound(x + d, SIZE_FP as int);
    }
    let t: i64 = x + d + VAL_BOUND;
    t % SIZE_FP
}

/// A wrapped position rounds to a cell of the map.
pub proof fn lemma_cell_of_range(x: int, y: int)
    requires
        0 <= x < SIZE_FP,
        0 <= y < SIZE_FP,
    ensures
        0 <= cell_of(x, y) < CELLS,
        0 <= cell_axis(x) < MAP_SIZE,
        0 <= cell_axis(y) < MAP_SIZE,
{
    let sc = SCALE as int;
    let m = MAP_SIZE as int;
    assert(0 <= (x + HALF_SCALE) / sc) by (nonlinear_arith)
        requires
            0 <= x,
            sc == 1000,
            HALF_SCALE == 500,
    ;
    assert(0 <= (y + HALF_SCALE) / sc) by (nonlinear_arith)
        requires
            0 <= y,
            sc == 1000,
            HALF_SCALE == 500,
    ;
    vstd::arithmetic::div_mod::lemma_mod_bound((x + HALF_SCALE) / sc, m);
    vstd::arithmetic::div_mod::lemma_mod_bound((y + HALF_SCALE) / sc, m);
}

/// Row-major cell index of a wrapped position, executable form.
pub fn cell_index(x: i64, y: i64) -> (r: usize)
    requires
        0 <= x < SIZE_FP,
        0 <= y < SIZE_FP,
    ensures
        r == cell_of(x as int, y as int),
        r < CELLS,
{
    proof {
        lemma_cell_of_range(x as int, y as int);
    }
    let col: i64 = ((x + HALF_SCALE) / SCALE) % (MAP_SIZE as i64);
    let row: i64 = ((y + HALF_SCALE) / SCALE) % (MAP_SIZE as i64);
    (row * (MAP_SIZE as i64) + col) as usize
}

} // verus!
