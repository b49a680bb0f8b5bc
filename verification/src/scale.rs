//! Placing a value of a closed interval on a scale of whole cells.
//!
//! A value `v` of `[lo, hi]` lies at the fraction `(v - lo) / (hi - lo)` of
//! the interval. On a scale of `cells` steps that is the exact position
//! `(v - lo) * cells / (hi - lo)`, which is rounded to the nearest whole
//! step, a tie going to the higher one. The linear part is computed by the
//! `map-range` crate at twice the resolution, so that the integer quotient
//! it returns still tells which half of a step the exact position is in.

use map_range::MapRange;
use vstd::arithmetic::div_mod::{
    lemma_div_is_ordered, lemma_fundamental_div_mod, lemma_fundamental_div_mod_converse,
};
use vstd::prelude::*;

verus! {

/// The quotient of Rust's `/` on signed integers: the exact quotient rounded
/// toward zero.
pub open spec fn trunc_div(a: int, b: int) -> int
    recommends
        b != 0,
{
    if b > 0 {
        if a >= 0 {
            a / b
        } else {
            -((-a) / b)
        }
    } else {
        if a >= 0 {
            -(a / (-b))
        } else {
            (-a) / (-b)
        }
    }
}

/// The value that takes, between `to_start` and `to_end`, the place that `v`
/// has between `from_start` and `from_end`, in integer arithmetic.
pub open spec fn linear_map(
    v: int,
    from_start: int,
    from_end: int,
    to_start: int,
    to_end: int,
) -> int {
    to_start + trunc_div((v - from_start) * (to_end - to_start), from_end - from_start)
}

/// Whether `n` is a value of `i128`.
pub open spec fn fits_i128(n: int) -> bool {
    i128::MIN <= n <= i128::MAX
}

/// Whether every step of `linear_map` stays within `i128` and divides by a
/// number other than zero.
pub open spec fn linear_map_in_range(
    v: int,
    from_start: int,
    from_end: int,
    to_start: int,
    to_end: int,
) -> bool {
    &&& from_end - from_start != 0
    &&& fits_i128(v - from_start)
    &&& fits_i128(to_end - to_start)
    &&& fits_i128(from_end - from_start)
    &&& fits_i128((v - from_start) * (to_end - to_start))
    &&& fits_i128(trunc_div((v - from_start) * (to_end - to_start), from_end - from_start))
    &&& fits_i128(linear_map(v, from_start, from_end, to_start, to_end))
}

/// `n / d` rounded to the nearest integer, a tie going upward. Meant for
/// `n >= 0` and `d > 0`.
pub open spec fn nearest(n: int, d: int) -> int
    recommends
        d > 0,
{
    (2 * n + d) / (2 * d)
}

/// Whether `k` is the integer nearest to `n / d`, the upper one of two that
/// are equally near: `k - 1/2 <= n / d < k + 1/2`, cleared of fractions.
pub open spec fn is_nearest(k: int, n: int, d: int) -> bool
    recommends
        d > 0,
{
    2 * k * d - d <= 2 * n < 2 * k * d + d
}

/// The step of a scale of `cells` steps nearest to where `v` lies in
/// `[lo, hi]`, counted from `lo`.
pub open spec fn steps_from_low(v: int, lo: int, hi: int, cells: int) -> int {
    nearest((v - lo) * cells, hi - lo)
}

/// The step of a scale of `cells` steps nearest to where `v` lies in
/// `[lo, hi]`, counted from `hi` downward.
pub open spec fn steps_from_high(v: int, lo: int, hi: int, cells: int) -> int {
    nearest((hi - v) * cells, hi - lo)
}

/// Calls `MapRange::map_range` of the `map-range` crate on `i128`, with the
/// ranges `from_start..from_end` and `to_start..to_end`. The crate computes
/// `to.start + (self - from.start) * (to.end - to.start) / (from.end - from.start)`
/// with the operators of `i128`; the contract restates that formula, for
/// arguments on which no step overflows or divides by zero.
#[verifier::external_body]
fn map_range_i128(v: i128, from_start: i128, from_end: i128, to_start: i128, to_end: i128) -> (r:
    i128)
    requires
        linear_map_in_range(
            v as int,
            from_start as int,
            from_end as int,
            to_start as int,
            to_end as int,
        ),
    ensures
        r == linear_map(
            v as int,
            from_start as int,
            from_end as int,
            to_start as int,
            to_end as int,
        ),
{
    v.map_range(from_start..from_end, to_start..to_end)
}

/// Rounding to the nearest integer can be read off the floor of the doubled
/// quotient: add one and halve.
pub proof fn lemma_nearest_from_doubled(n: int, d: int)
    requires
        n >= 0,
        d > 0,
    ensures
        ((2 * n) / d + 1) / 2 == nearest(n, d),
        (2 * n) / d >= 0,
{
    let q = (2 * n) / d;
    let r = (2 * n) % d;
    lemma_fundamental_div_mod(2 * n, d);
    assert(2 * n == d * q + r);
    assert(0 <= r < d);
    assert(q >= 0) by (nonlinear_arith)
        requires
            2 * n == d * q + r,
            0 <= r < d,
            n >= 0,
            d > 0,
    ;
    let m = (q + 1) / 2;
    if q % 2 == 0 {
        assert(q == 2 * m);
        assert(2 * n + d == m * (2 * d) + (r + d)) by (nonlinear_arith)
            requires
                2 * n == d * q + r,
                q == 2 * m,
        ;
        lemma_fundamental_div_mod_converse(2 * n + d, 2 * d, m, r + d);
    } else {
        assert(q + 1 == 2 * m);
        assert(2 * n + d == m * (2 * d) + r) by (nonlinear_arith)
            requires
                2 * n == d * q + r,
                q + 1 == 2 * m,
        ;
        lemma_fundamental_div_mod_converse(2 * n + d, 2 * d, m, r);
    }
}

/// `nearest(n, d)` is an integer nearest to the exact quotient: it differs
/// from `n / d` by at most one half, and by exactly one half only from below.
pub proof fn lemma_nearest_is_nearest(n: int, d: int)
    requires
        d > 0,
    ensures
        is_nearest(nearest(n, d), n, d),
{
    let k = nearest(n, d);
    let s = (2 * n + d) % (2 * d);
    lemma_fundamental_div_mod(2 * n + d, 2 * d);
    assert(2 * n + d == (2 * d) * k + s);
    assert(0 <= s < 2 * d);
    assert(2 * k * d == (2 * d) * k) by (nonlinear_arith);
}

/// A quotient between zero and `cells` rounds to a step between zero and
/// `cells`.
pub proof fn lemma_nearest_bounds(n: int, d: int, cells: int)
    requires
        d > 0,
        cells >= 0,
        0 <= n <= cells * d,
    ensures
        0 <= nearest(n, d) <= cells,
{
    lemma_div_is_ordered(d, 2 * n + d, 2 * d);
    assert(d / (2 * d) == 0) by {
        lemma_fundamental_div_mod_converse(d, 2 * d, 0, d);
    }
    lemma_div_is_ordered(2 * n + d, 2 * (cells * d) + d, 2 * d);
    assert(2 * (cells * d) + d == cells * (2 * d) + d) by (nonlinear_arith);
    lemma_fundamental_div_mod_converse(2 * (cells * d) + d, 2 * d, cells, d);
}

/// The step nearest to `v` on a scale of `cells` steps laid over `[lo, hi]`,
/// counted from `lo`: `(v - lo) * cells / (hi - lo)`, rounded to the nearest
/// integer with a tie going upward.
pub fn scale_from_low(v: i64, lo: i64, hi: i64, cells: u16) -> (step: u16)
    requires
        lo < hi,
        lo <= v <= hi,
    ensures
        step == steps_from_low(v as int, lo as int, hi as int, cells as int),
        is_nearest(step as int, (v - lo) * cells, hi - lo),
        step <= cells,
{
    let doubled_cells: i128 = 2 * (cells as i128);
    let ghost n = (v - lo) * cells;
    let ghost d = hi - lo;
    proof {
        assert((v - lo) * (doubled_cells - 0) == 2 * n) by (nonlinear_arith)
            requires
                doubled_cells == 2 * cells,
                n == (v - lo) * cells,
        ;
        assert(0 <= n <= cells * d) by (nonlinear_arith)
            requires
                n == (v - lo) * cells,
                0 <= v - lo <= d,
                cells >= 0,
        ;
        assert(cells * d <= 0xffff * 0x1_0000_0000_0000_0000) by (nonlinear_arith)
            requires
                0 <= cells <= 0xffff,
                0 < d <= 0x1_0000_0000_0000_0000,
        ;
        lemma_nearest_from_doubled(n, d);
        lemma_nearest_is_nearest(n, d);
        lemma_nearest_bounds(n, d, cells as int);
        lemma_div_is_ordered(2 * n, 2 * (cells * d), d);
        assert(2 * (cells * d) == d * (2 * cells)) by (nonlinear_arith);
        lemma_fundamental_div_mod_converse(2 * (cells * d), d, 2 * cells, 0);
    }
    let doubled: i128 = map_range_i128(v as i128, lo as i128, hi as i128, 0, doubled_cells);
    let step: i128 = (doubled + 1) / 2;
    step as u16
}

/// The step nearest to `v` on a scale of `cells` steps laid over `[lo, hi]`,
/// counted from `hi` downward: `(hi - v) * cells / (hi - lo)`, rounded to the
/// nearest integer with a tie going upward.
pub fn scale_from_high(v: i64, lo: i64, hi: i64, cells: u16) -> (step: u16)
    requires
        lo < hi,
        lo <= v <= hi,
    ensures
        step == steps_from_high(v as int, lo as int, hi as int, cells as int),
        is_nearest(step as int, (hi - v) * cells, hi - lo),
        step <= cells,
{
    let doubled_cells: i128 = 2 * (cells as i128);
    let ghost n = (hi - v) * cells;
    let ghost d = hi - lo;
    proof {
        assert((v - hi) * (doubled_cells - 0) == -(2 * n)) by (nonlinear_arith)
            requires
                doubled_cells == 2 * cells,
                n == (hi - v) * cells,
        ;
        assert(0 <= n <= cells * d) by (nonlinear_arith)
            requires
                n == (hi - v) * cells,
                0 <= hi - v <= d,
                cells >= 0,
        ;
        assert(cells * d <= 0xffff * 0x1_0000_0000_0000_0000) by (nonlinear_arith)
            requires
                0 <= cells <= 0xffff,
                0 < d <= 0x1_0000_0000_0000_0000,
        ;
        lemma_nearest_from_doubled(n, d);
        lemma_nearest_is_nearest(n, d);
        lemma_nearest_bounds(n, d, cells as int);
        lemma_div_is_ordered(2 * n, 2 * (cells * d), d);
        assert(2 * (cells * d) == d * (2 * cells)) by (nonlinear_arith);
        lemma_fundamental_div_mod_converse(2 * (cells * d), d, 2 * cells, 0);
    }
    let doubled: i128 = map_range_i128(v as i128, hi as i128, lo as i128, 0, doubled_cells);
    let step: i128 = (doubled + 1) / 2;
    step as u16
}


/// Rounding does not depend on a factor common to both parts of a quotient.
pub proof fn lemma_nearest_cancels(n: int, d: int, k: int)
    requires
        d > 0,
        k > 0,
    ensures
        nearest(k * n, k * d) == nearest(n, d),
{
    let q = nearest(n, d);
    let r = (2 * n + d) % (2 * d);
    lemma_fundamental_div_mod(2 * n + d, 2 * d);
    assert(2 * (k * n) + k * d == q * (2 * (k * d)) + k * r) by (nonlinear_arith)
        requires
            2 * n + d == (2 * d) * q + r,
    ;
    assert(0 <= k * r < 2 * (k * d)) by (nonlinear_arith)
        requires
            0 <= r < 2 * d,
            k > 0,
    ;
    assert(k * d > 0) by (nonlinear_arith)
        requires
            k > 0,
            d > 0,
    ;
    lemma_fundamental_div_mod_converse(2 * (k * n) + k * d, 2 * (k * d), q, k * r);
}

/// The step of a value does not depend on the unit in which the value and
/// the interval are measured: with all three multiplied by the same positive
/// factor, the step is the same.
pub proof fn lemma_steps_are_unit_free(v: int, lo: int, hi: int, cells: int, k: int)
    requires
        lo < hi,
        k > 0,
    ensures
        steps_from_low(k * v, k * lo, k * hi, cells) == steps_from_low(v, lo, hi, cells),
        steps_from_high(k * v, k * lo, k * hi, cells) == steps_from_high(v, lo, hi, cells),
{
    assert((k * v - k * lo) * cells == k * ((v - lo) * cells)) by (nonlinear_arith);
    assert((k * hi - k * v) * cells == k * ((hi - v) * cells)) by (nonlinear_arith);
    assert(k * hi - k * lo == k * (hi - lo)) by (nonlinear_arith);
    lemma_nearest_cancels((v - lo) * cells, hi - lo, k);
    lemma_nearest_cancels((hi - v) * cells, hi - lo, k);
}

/// The ends of the interval lie on the ends of the scale.
pub proof fn lemma_steps_at_the_ends(lo: int, hi: int, cells: int)
    requires
        lo < hi,
        cells >= 0,
    ensures
        steps_from_low(lo, lo, hi, cells) == 0,
        steps_from_low(hi, lo, hi, cells) == cells,
        steps_from_high(hi, lo, hi, cells) == 0,
        steps_from_high(lo, lo, hi, cells) == cells,
{
    let d = hi - lo;
    assert(0 * cells == 0);
    lemma_fundamental_div_mod_converse(d, 2 * d, 0, d);
    assert(2 * (d * cells) + d == cells * (2 * d) + d) by (nonlinear_arith);
    lemma_fundamental_div_mod_converse(2 * (d * cells) + d, 2 * d, cells, d);
}

/// Rounding keeps the order of quotients with the same denominator.
pub proof fn lemma_nearest_is_monotonic(n1: int, n2: int, d: int)
    requires
        d > 0,
        n1 <= n2,
    ensures
        nearest(n1, d) <= nearest(n2, d),
{
    lemma_div_is_ordered(2 * n1 + d, 2 * n2 + d, 2 * d);
}

/// A greater value never lies on an earlier step counted from the low end,
/// nor on a later step counted from the high end.
pub proof fn lemma_steps_keep_the_order(v1: int, v2: int, lo: int, hi: int, cells: int)
    requires
        lo < hi,
        cells >= 0,
        v1 <= v2,
    ensures
        steps_from_low(v1, lo, hi, cells) <= steps_from_low(v2, lo, hi, cells),
        steps_from_high(v1, lo, hi, cells) >= steps_from_high(v2, lo, hi, cells),
{
    assert((v1 - lo) * cells <= (v2 - lo) * cells) by (nonlinear_arith)
        requires
            v1 <= v2,
            cells >= 0,
    ;
    assert((hi - v2) * cells <= (hi - v1) * cells) by (nonlinear_arith)
        requires
            v1 <= v2,
            cells >= 0,
    ;
    lemma_nearest_is_monotonic((v1 - lo) * cells, (v2 - lo) * cells, hi - lo);
    lemma_nearest_is_monotonic((hi - v2) * cells, (hi - v1) * cells, hi - lo);
}

/// Whether the exact position `n / d` lies less than a quarter above a whole
/// number or at most a quarter below the next one. Only then does it round
/// the same way at twice the resolution.
pub open spec fn rounds_alike_when_doubled(n: int, d: int) -> bool
    recommends
        d > 0,
{
    4 * (n % d) < d || 4 * (n % d) >= 3 * d
}

/// A scale of twice as many steps places a value on twice the step, or next
/// to it. It is exactly twice the step where the exact position is within a
/// quarter of a whole step, as it is wherever the exact position is whole.
pub proof fn lemma_doubled_scale_doubles_steps(v: int, lo: int, hi: int, cells: int)
    requires
        lo < hi,
    ensures
        rounds_alike_when_doubled((v - lo) * cells, hi - lo) <==> steps_from_low(
            v,
            lo,
            hi,
            2 * cells,
        ) == 2 * steps_from_low(v, lo, hi, cells),
        -1 <= steps_from_low(v, lo, hi, 2 * cells) - 2 * steps_from_low(v, lo, hi, cells) <= 1,
        ((v - lo) * cells) % (hi - lo) == 0 ==> steps_from_low(v, lo, hi, 2 * cells) == 2
            * steps_from_low(v, lo, hi, cells),
{
    let n = (v - lo) * cells;
    let d = hi - lo;
    let q = n / d;
    let r = n % d;
    lemma_fundamental_div_mod(n, d);
    assert((v - lo) * (2 * cells) == 2 * n) by (nonlinear_arith)
        requires
            n == (v - lo) * cells,
    ;
    // The step on the scale as it is.
    let up: int = if 2 * r >= d {
        1
    } else {
        0
    };
    assert(2 * n + d == (q + up) * (2 * d) + (2 * r + d - up * (2 * d))) by (nonlinear_arith)
        requires
            n == d * q + r,
    ;
    lemma_fundamental_div_mod_converse(2 * n + d, 2 * d, q + up, 2 * r + d - up * (2 * d));
    assert(nearest(n, d) == q + up);
    // The step on the doubled scale.
    let up2: int = if 4 * r >= 3 * d {
        2
    } else if 4 * r >= d {
        1
    } else {
        0
    };
    assert(2 * (2 * n) + d == (2 * q + up2) * (2 * d) + (4 * r + d - up2 * (2 * d)))
        by (nonlinear_arith)
        requires
            n == d * q + r,
    ;
    lemma_fundamental_div_mod_converse(
        2 * (2 * n) + d,
        2 * d,
        2 * q + up2,
        4 * r + d - up2 * (2 * d),
    );
    assert(nearest(2 * n, d) == 2 * q + up2);
}

} // verus!
