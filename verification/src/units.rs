//! Sub-unit coordinate arithmetic.
//!
//! A coordinate is an `i64` number of sub-units; `scale` sub-units make one
//! cell. Rounding a coordinate to its nearest cell and truncating it toward
//! zero mirror rounding of real-valued cell coordinates: `round_cell` rounds
//! half away from zero, `trunc_cell` drops the fractional part.
use vstd::prelude::*;

verus! {

/// Largest admitted `scale` (sub-units per cell).
pub const SCALE_LIMIT: i64 = 0x10_0000;

/// Largest admitted per-tick move distance, in sub-units.
pub const STEP_LIMIT: i64 = 0x100_0000;

/// Largest admitted cell index magnitude; coordinates stay within
/// `scale * CELL_LIMIT` sub-units.
pub const CELL_LIMIT: i64 = 0x1_0000_0000;

/// Magnitude below which rounding and truncating arithmetic cannot overflow;
/// comfortably above `SCALE_LIMIT * CELL_LIMIT` plus any one step.
pub const COORD_OP_LIMIT: i64 = 0x100_0000_0000_0000;

/// A coordinate on which every kernel operation (one step either way, then
/// rounding or truncating) stays below the overflow threshold.
pub open spec fn coord_op_ok(c: int) -> bool {
    -(COORD_OP_LIMIT - STEP_LIMIT) <= c <= COORD_OP_LIMIT - STEP_LIMIT
}

/// Snapping a coordinate to its nearest whole cell moves it by less than one
/// cell.
pub proof fn lemma_round_cell_near(c: int, scale: int)
    requires
        scale >= 1,
    ensures
        c - scale < spec_round_cell(c, scale) * scale < c + scale,
{
    if c >= 0 {
        let q = (2 * c + scale) / (2 * scale);
        assert(2 * scale * q <= 2 * c + scale < 2 * scale * (q + 1)) by (nonlinear_arith)
            requires scale >= 1, q == (2 * c + scale) / (2 * scale), c >= 0;
        assert(c - scale < q * scale < c + scale) by (nonlinear_arith)
            requires scale >= 1, 2 * scale * q <= 2 * c + scale < 2 * scale * (q + 1);
    } else {
        let q = (2 * (-c) + scale) / (2 * scale);
        assert(2 * scale * q <= 2 * (-c) + scale < 2 * scale * (q + 1)) by (nonlinear_arith)
            requires scale >= 1, q == (2 * (-c) + scale) / (2 * scale), c < 0;
        assert(c - scale < (-q) * scale < c + scale) by (nonlinear_arith)
            requires scale >= 1, 2 * scale * q <= 2 * (-c) + scale < 2 * scale * (q + 1);
        assert((-q) * scale == -(q * scale)) by (nonlinear_arith);
    }
}

/// Nearest cell of a sub-unit coordinate, halves away from zero.
pub open spec fn spec_round_cell(c: int, scale: int) -> int
    recommends
        scale >= 1,
{
    if c >= 0 {
        (2 * c + scale) / (2 * scale)
    } else {
        -((2 * (-c) + scale) / (2 * scale))
    }
}

/// Cell part of a sub-unit coordinate, truncated toward zero.
pub open spec fn spec_trunc_cell(c: int, scale: int) -> int
    recommends
        scale >= 1,
{
    if c >= 0 {
        c / scale
    } else {
        -((-c) / scale)
    }
}

/// `ceil(a / b)` for non-negative `a` and positive `b`.
pub open spec fn spec_ceil_div(a: int, b: int) -> int
    recommends
        a >= 0,
        b >= 1,
{
    (a + b - 1) / b
}

/// Rounding a coordinate of at most `scale * bound` sub-units yields a cell
/// of at most `bound`.
pub proof fn lemma_round_cell_bound(c: int, scale: int, bound: int)
    requires
        scale >= 1,
        bound >= 0,
        -(scale * bound) <= c <= scale * bound,
    ensures
        -bound <= spec_round_cell(c, scale) <= bound,
{
    if c >= 0 {
        assert(2 * c + scale <= 2 * scale * bound + scale) by (nonlinear_arith)
            requires c <= scale * bound;
        assert((2 * c + scale) / (2 * scale) <= bound) by (nonlinear_arith)
            requires scale >= 1, bound >= 0, 0 <= 2 * c + scale <= 2 * scale * bound + scale;
        assert((2 * c + scale) / (2 * scale) >= 0) by (nonlinear_arith)
            requires scale >= 1, c >= 0;
    } else {
        assert(2 * (-c) + scale <= 2 * scale * bound + scale) by (nonlinear_arith)
            requires -c <= scale * bound;
        assert((2 * (-c) + scale) / (2 * scale) <= bound) by (nonlinear_arith)
            requires scale >= 1, bound >= 0, 0 <= 2 * (-c) + scale <= 2 * scale * bound + scale;
        assert((2 * (-c) + scale) / (2 * scale) >= 0) by (nonlinear_arith)
            requires scale >= 1, c < 0;
    }
}

/// Nearest cell of `c`, computed on machine integers.
pub fn round_cell(c: i64, scale: i64) -> (r: i64)
    requires
        1 <= scale <= STEP_LIMIT,
        -COORD_OP_LIMIT <= c <= COORD_OP_LIMIT,
    ensures
        r == spec_round_cell(c as int, scale as int),
{
    if c >= 0 {
        let n: u64 = 2 * (c as u64) + (scale as u64);
        let q: u64 = n / (2 * (scale as u64));
        q as i64
    } else {
        let n: u64 = 2 * ((-c) as u64) + (scale as u64);
        let q: u64 = n / (2 * (scale as u64));
        -(q as i64)
    }
}

/// Cell part of `c` truncated toward zero, computed on machine integers.
pub fn trunc_cell(c: i64, scale: i64) -> (r: i64)
    requires
        1 <= scale <= STEP_LIMIT,
        -COORD_OP_LIMIT <= c <= COORD_OP_LIMIT,
    ensures
        r == spec_trunc_cell(c as int, scale as int),
{
    if c >= 0 {
        let q: u64 = (c as u64) / (scale as u64);
        q as i64
    } else {
        let q: u64 = ((-c) as u64) / (scale as u64);
        -(q as i64)
    }
}

/// A quotient of positive operands with the divisor no larger than the
/// dividend lies between 1 and the dividend.
pub proof fn lemma_div_bounds(x: int, d: int)
    requires
        1 <= d <= x,
    ensures
        1 <= x / d <= x,
{
    assert(1 <= x / d <= x) by (nonlinear_arith)
        requires 1 <= d <= x;
}

/// The ceiling of `a / b` lies between 1 and `a` for positive operands.
pub proof fn lemma_ceil_div_le(a: int, b: int)
    requires
        a >= 1,
        b >= 1,
    ensures
        1 <= spec_ceil_div(a, b) <= a,
{
    assert(1 <= (a + b - 1) / b <= a) by (nonlinear_arith)
        requires a >= 1, b >= 1;
}

/// `ceil(a / b)` on machine integers.
pub fn ceil_div(a: u64, b: u64) -> (r: u64)
    requires
        b >= 1,
        a + b <= u64::MAX,
    ensures
        r == spec_ceil_div(a as int, b as int),
{
    (a + b - 1) / b
}

} // verus!
