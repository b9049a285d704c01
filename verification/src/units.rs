//! Fixed-point quantities and the integer arithmetic shared by the effects.
//!
//! Every real-valued quantity of the ripple engine is an integer count of
//! millionths: an amplitude of 1.0 is `UNIT`, a coordinate of -6.3 is
//! `-6_300_000`, a blend fraction of 0.25 is `250_000`. Time is counted in
//! microseconds, so one second is `UNIT` ticks as well.

use vstd::prelude::*;

verus! {

/// One whole, in fixed-point steps. Also the number of microseconds in a second.
pub const UNIT: i64 = 1_000_000;

/// One full turn (2π) in millionths of a radian.
pub const TWO_PI: i64 = 6_283_185;

/// `v` limited to the closed interval `[lo, hi]`.
pub open spec fn clamp_to(v: int, lo: int, hi: int) -> int {
    if v < lo {
        lo
    } else if v > hi {
        hi
    } else {
        v
    }
}

/// The quotient `n / d` rounded away from zero, for a positive `d`: the
/// whole number of least magnitude that is no nearer to zero than the exact
/// quotient. It is zero only where `n` is.
pub open spec fn div_away_from_zero(n: int, d: int) -> int {
    if n >= 0 {
        (n + d - 1) / d
    } else {
        -((-n + d - 1) / d)
    }
}

/// The quotient `n / d` rounded to the nearest integer, ties away from zero,
/// for a positive `d`.
pub open spec fn div_nearest(n: int, d: int) -> int {
    if n >= 0 {
        (2 * n + d) / (2 * d)
    } else {
        -((2 * (-n) + d) / (2 * d))
    }
}

/// `r` is the integer square root of `n`: the largest integer whose square
/// does not exceed `n`.
pub open spec fn is_isqrt(n: int, r: int) -> bool {
    &&& 0 <= r
    &&& r * r <= n
    &&& n < (r + 1) * (r + 1)
}

/// The integer square root is unique.
pub proof fn lemma_isqrt_unique(n: int, a: int, b: int)
    requires
        is_isqrt(n, a),
        is_isqrt(n, b),
    ensures
        a == b,
{
    if a < b {
        assert((a + 1) * (a + 1) <= b * b) by (nonlinear_arith)
            requires
                0 <= a,
                a + 1 <= b,
        ;
    } else if b < a {
        assert((b + 1) * (b + 1) <= a * a) by (nonlinear_arith)
            requires
                0 <= b,
                b + 1 <= a,
        ;
    }
}

/// The integer square root of `n`, as a spec value.
pub open spec fn isqrt_spec(n: int) -> int {
    choose|r: int| is_isqrt(n, r)
}

/// Floor of the square root of `n`.
pub fn isqrt(n: u128) -> (r: u64)
    ensures
        is_isqrt(n as int, r as int),
        r as int == isqrt_spec(n as int),
{
    let mut lo: u128 = 0;
    let mut hi: u128 = 0x1_0000_0000_0000_0000;
    assert(n < hi * hi) by (nonlinear_arith)
        requires
            hi == 0x1_0000_0000_0000_0000u128,
            n <= u128::MAX,
    ;
    while hi - lo > 1
        invariant
            lo < hi <= 0x1_0000_0000_0000_0000u128,
            lo * lo <= n,
            n < hi * hi,
        decreases hi - lo,
    {
        let mid: u128 = lo + (hi - lo) / 2;
        assert(mid * mid <= 0xffff_ffff_ffff_ffffu128 * 0xffff_ffff_ffff_ffffu128)
            by (nonlinear_arith)
            requires
                0 <= mid <= 0xffff_ffff_ffff_ffffu128,
        ;
        let sq: u128 = mid * mid;
        if sq <= n {
            lo = mid;
        } else {
            hi = mid;
        }
    }
    proof {
        assert(hi == lo + 1);
        assert(is_isqrt(n as int, lo as int));
        lemma_isqrt_unique(n as int, lo as int, isqrt_spec(n as int));
    }
    lo as u64
}

/// `n / d` rounded toward negative infinity.
pub fn div_floor(n: i128, d: i128) -> (q: i128)
    requires
        d > 0,
    ensures
        q == n / d,
{
    proof {
        vstd::arithmetic::div_mod::lemma_fundamental_div_mod(n as int, d as int);
        vstd::arithmetic::div_mod::lemma_mod_bound(n as int, d as int);
        lemma_quotient_bound(n as int, d as int);
    }
    match n.checked_div_euclid(d) {
        Some(q) => q,
        None => 0,
    }
}

/// A quotient by a positive divisor is no larger in magnitude than the dividend.
pub proof fn lemma_quotient_bound(n: int, d: int)
    requires
        d > 0,
    ensures
        n >= 0 ==> 0 <= n / d <= n,
        n < 0 ==> n <= n / d < 0,
{
    vstd::arithmetic::div_mod::lemma_fundamental_div_mod(n, d);
    vstd::arithmetic::div_mod::lemma_mod_bound(n, d);
    let q = n / d;
    let r = n % d;
    if n >= 0 {
        assert(q >= 0 && q <= n) by (nonlinear_arith)
            requires
                n == d * q + r,
                0 <= r < d,
                n >= 0,
                d > 0,
        ;
    } else {
        assert(q < 0 && n <= q) by (nonlinear_arith)
            requires
                n == d * q + r,
                0 <= r < d,
                n < 0,
                d > 0,
        ;
    }
}

/// The least non-negative remainder of `n` modulo `d`.
pub fn rem_floor(n: i128, d: i128) -> (r: i128)
    requires
        d > 0,
    ensures
        r == n % d,
        0 <= r < d,
{
    proof {
        vstd::arithmetic::div_mod::lemma_mod_bound(n as int, d as int);
    }
    match n.checked_rem_euclid(d) {
        Some(r) => r,
        None => 0,
    }
}

} // verus!
