//! Saturating and truncating 64-bit signed arithmetic, as Rust defines it.
use vstd::prelude::*;

verus! {

/// Clamp a mathematical integer into the `i64` range.
pub open spec fn sat_i64(x: int) -> i64 {
    if x > i64::MAX {
        i64::MAX
    } else if x < i64::MIN {
        i64::MIN
    } else {
        x as i64
    }
}

/// `i64::saturating_add`.
pub fn sat_add(a: i64, b: i64) -> (r: i64)
    ensures
        r == sat_i64(a + b),
{
    let w = (a as i128) + (b as i128);
    if w > (i64::MAX as i128) {
        i64::MAX
    } else if w < (i64::MIN as i128) {
        i64::MIN
    } else {
        w as i64
    }
}

/// `i64::saturating_sub`.
pub fn sat_sub(a: i64, b: i64) -> (r: i64)
    ensures
        r == sat_i64(a - b),
{
    let w = (a as i128) - (b as i128);
    if w > (i64::MAX as i128) {
        i64::MAX
    } else if w < (i64::MIN as i128) {
        i64::MIN
    } else {
        w as i64
    }
}

/// `i64::saturating_mul` by a non-negative factor below 2^32.
pub fn sat_mul_small(a: i64, k: i64) -> (r: i64)
    requires
        0 <= k < 0x1_0000_0000,
    ensures
        r == sat_i64(a * k),
{
    assert(-0x8000_0000_0000_0000 * 0x1_0000_0000 <= a * k <= 0x7fff_ffff_ffff_ffff * 0x1_0000_0000)
        by (nonlinear_arith)
        requires
            -0x8000_0000_0000_0000 <= a <= 0x7fff_ffff_ffff_ffff,
            0 <= k < 0x1_0000_0000,
    ;
    let w = (a as i128) * (k as i128);
    if w > (i64::MAX as i128) {
        i64::MAX
    } else if w < (i64::MIN as i128) {
        i64::MIN
    } else {
        w as i64
    }
}

/// Rust's `/` on signed integers: the quotient truncated toward zero.
pub open spec fn trunc_div(x: int, d: nat) -> int
    recommends
        d > 0,
{
    if x >= 0 {
        x / (d as int)
    } else {
        -((-x) / (d as int))
    }
}

/// `x / 2` as Rust computes it for an `i64`.
pub fn half_toward_zero(x: i64) -> (r: i64)
    ensures
        r == trunc_div(x as int, 2),
{
    if x >= 0 {
        x / 2
    } else {
        let m: i128 = -(x as i128);
        (-(m / 2)) as i64
    }
}

/// `i64 / k` as Rust computes it, for a positive divisor.
pub fn div_toward_zero(x: i64, k: i64) -> (r: i64)
    requires
        k > 0,
    ensures
        r == trunc_div(x as int, k as nat),
{
    if x >= 0 {
        x / k
    } else {
        let m: i128 = -(x as i128);
        let q: i128 = m / (k as i128);
        assert(q <= m) by (nonlinear_arith)
            requires
                m >= 0,
                k >= 1,
                q == (m as int) / (k as int),
        ;
        (-q) as i64
    }
}

} // verus!
