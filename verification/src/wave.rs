//! The ripple of one drop, in closed form.
//!
//! A drop sends out a single ring. Its leading edge has travelled
//! `speed * t` after `t` seconds; the ring reaches `ring_width` behind it.
//! Inside the ring the amplitude at distance `d` is
//!
//! ```text
//! sin(k * d - speed * t) / (2 + t) * min(lead, trail) / ring_width
//! ```
//!
//! where `lead` and `trail` are the distances to the two edges. Outside the
//! ring it is zero. The sine is read from a `SineTableSingle`; everything
//! else is exact integer arithmetic with one division at the end, rounded
//! away from zero so that no ripple inside the ring is lost to rounding.

use vstd::prelude::*;
use vstd::math::min;
use crate::math::{SineTableSingle, phase_index};
use crate::units::{UNIT, clamp_to, div_away_from_zero, isqrt, isqrt_spec};

verus! {

/// The constants of the wave: wave number `k`, speed of the leading edge per
/// second, and width of the ring, all in millionths.
#[derive(Clone, Copy, Debug)]
pub struct WaveParams {
    pub wave_number: u32,
    pub speed: u32,
    pub ring_width: u32,
}

impl WaveParams {
    /// The ring has a width.
    pub open spec fn wf(&self) -> bool {
        self.ring_width > 0
    }

    /// The parameters, where the ring has a width.
    pub fn new(wave_number: u32, speed: u32, ring_width: u32) -> (params: Option<WaveParams>)
        ensures
            params is Some <==> ring_width > 0,
            params matches Some(p) ==> p == (WaveParams { wave_number, speed, ring_width }),
    {
        if ring_width > 0 {
            Some(WaveParams { wave_number, speed, ring_width })
        } else {
            None
        }
    }
}

impl Default for WaveParams {
    /// Wave number 15, speed 3.5 per second, ring width 1.2 times the speed.
    fn default() -> (params: Self)
        ensures
            params.wave_number == 15_000_000,
            params.speed == 3_500_000,
            params.ring_width == 4_200_000,
            params.wf(),
    {
        WaveParams { wave_number: 15_000_000, speed: 3_500_000, ring_width: 4_200_000 }
    }
}

/// Distance from `d` back to the leading edge after `t` microseconds,
/// scaled by `UNIT`. Negative ahead of the edge.
pub open spec fn lead_gap(p: WaveParams, d: int, t: int) -> int {
    p.speed * t - d * 1_000_000
}

/// Distance from the trailing edge up to `d` after `t` microseconds, scaled
/// by `UNIT`. Negative behind the edge.
pub open spec fn trail_gap(p: WaveParams, d: int, t: int) -> int {
    d * 1_000_000 - (p.speed * t - p.ring_width * 1_000_000)
}

/// `d` lies in the ring, edges included.
pub open spec fn in_ring(p: WaveParams, d: int, t: int) -> bool {
    lead_gap(p, d, t) >= 0 && trail_gap(p, d, t) >= 0
}

/// `d` lies strictly between the two edges.
pub open spec fn inside_ring(p: WaveParams, d: int, t: int) -> bool {
    lead_gap(p, d, t) > 0 && trail_gap(p, d, t) > 0
}

/// The linear taper toward the nearer edge, as a fraction of the ring width
/// clamped to `[0, 1]` and scaled by `ring_width * UNIT`.
pub open spec fn taper(p: WaveParams, d: int, t: int) -> int {
    clamp_to(min(lead_gap(p, d, t), trail_gap(p, d, t)), 0, p.ring_width * 1_000_000)
}

/// The argument of the sine, `k * d - speed * t`, in `1 / UNIT^2` of a radian.
pub open spec fn phase(p: WaveParams, d: int, t: int) -> int {
    p.wave_number * d - p.speed * t
}

/// Numerator of the exact amplitude for the sine value `s`.
pub open spec fn wave_numerator(p: WaveParams, s: int, d: int, t: int) -> int {
    if in_ring(p, d, t) {
        s * taper(p, d, t)
    } else {
        0
    }
}

/// Denominator of the exact amplitude: the decay `2 + t` times the ring width.
pub open spec fn wave_denominator(p: WaveParams, t: int) -> int {
    (2_000_000 + t) * p.ring_width
}

/// The amplitude at distance `d` after `t` microseconds for the sine value
/// `s`: the exact quotient, rounded away from zero.
pub open spec fn wave_amplitude(p: WaveParams, s: int, d: int, t: int) -> int {
    div_away_from_zero(wave_numerator(p, s, d, t), wave_denominator(p, t))
}

/// The amplitude at the point `(x, y)` relative to the drop, `t` microseconds
/// after it fell, with the sine read from `sine`.
pub open spec fn wave_xy_spec(sine: Seq<i32>, p: WaveParams, x: int, y: int, t: int) -> int {
    let d = isqrt_spec(x * x + y * y);
    wave_amplitude(p, sine[phase_index(phase(p, d, t))] as int, d, t)
}

/// In the ring the taper is the distance to the nearer edge, at most half the
/// ring width; the clamp changes nothing there.
pub proof fn lemma_taper_in_ring(p: WaveParams, d: int, t: int)
    requires
        in_ring(p, d, t),
    ensures
        taper(p, d, t) == min(lead_gap(p, d, t), trail_gap(p, d, t)),
        0 <= 2 * taper(p, d, t) <= p.ring_width * 1_000_000,
        lead_gap(p, d, t) + trail_gap(p, d, t) == p.ring_width * 1_000_000,
{
}

/// The ring taper at its boundaries.
///
/// On the leading edge and on the trailing edge the amplitude is exactly
/// zero, and so it is outside the ring. Strictly between the edges the
/// amplitude is nonzero whenever the sine is, and has its sign.
pub proof fn lemma_ring_taper_boundary(p: WaveParams, s: int, d: int, t: int)
    requires
        p.wf(),
        t >= 0,
    ensures
        lead_gap(p, d, t) == 0 ==> wave_amplitude(p, s, d, t) == 0,
        trail_gap(p, d, t) == 0 ==> wave_amplitude(p, s, d, t) == 0,
        !in_ring(p, d, t) ==> wave_amplitude(p, s, d, t) == 0,
        inside_ring(p, d, t) && s != 0 ==> wave_amplitude(p, s, d, t) != 0,
        inside_ring(p, d, t) && s > 0 ==> wave_amplitude(p, s, d, t) > 0,
        inside_ring(p, d, t) && s < 0 ==> wave_amplitude(p, s, d, t) < 0,
        s == 0 ==> wave_amplitude(p, s, d, t) == 0,
{
    let den = wave_denominator(p, t);
    let num = wave_numerator(p, s, d, t);
    assert(den > 0) by (nonlinear_arith)
        requires
            den == (2_000_000 + t) * p.ring_width,
            t >= 0,
            p.ring_width > 0,
    ;
    lemma_quotient_sign(num, den);
    if in_ring(p, d, t) {
        lemma_taper_in_ring(p, d, t);
        let e = taper(p, d, t);
        if lead_gap(p, d, t) == 0 || trail_gap(p, d, t) == 0 || s == 0 {
            assert(s * e == 0) by (nonlinear_arith)
                requires
                    e == 0 || s == 0,
            ;
        }
        if inside_ring(p, d, t) {
            assert(e > 0);
            assert((s > 0 ==> s * e > 0) && (s < 0 ==> s * e < 0)) by (nonlinear_arith)
                requires
                    e > 0,
            ;
        }
    }
}

/// A quotient that is rounded away from zero has the sign of its numerator.
pub proof fn lemma_quotient_sign(num: int, den: int)
    requires
        den > 0,
    ensures
        num == 0 ==> div_away_from_zero(num, den) == 0,
        num > 0 ==> div_away_from_zero(num, den) > 0,
        num < 0 ==> div_away_from_zero(num, den) < 0,
{
    if num >= 0 {
        assert((num == 0 ==> (num + den - 1) / den == 0) && (num > 0 ==> (num + den - 1) / den
            > 0)) by (nonlinear_arith)
            requires
                num >= 0,
                den > 0,
        ;
    } else {
        assert((-num + den - 1) / den > 0) by (nonlinear_arith)
            requires
                num < 0,
                den > 0,
        ;
    }
}

/// A quotient that is rounded away from zero stays within any whole bound on
/// the ratio.
pub proof fn lemma_quotient_within(num: int, den: int, bound: int)
    requires
        den > 0,
        bound >= 0,
        -(bound * den) <= num <= bound * den,
    ensures
        -bound <= div_away_from_zero(num, den) <= bound,
{
    if num >= 0 {
        assert(0 <= (num + den - 1) / den <= bound) by (nonlinear_arith)
            requires
                0 <= num <= bound * den,
                den > 0,
        ;
    } else {
        assert(0 <= (-num + den - 1) / den <= bound) by (nonlinear_arith)
            requires
                0 <= -num <= bound * den,
                den > 0,
        ;
    }
}

/// Every amplitude lies within a quarter of a whole of zero: the sine is at
/// most one, the decay at most a half, and the taper at most a half.
pub proof fn lemma_amplitude_range(p: WaveParams, s: int, d: int, t: int)
    requires
        p.wf(),
        t >= 0,
        -1_000_000 <= s <= 1_000_000,
    ensures
        -250_000 <= wave_amplitude(p, s, d, t) <= 250_000,
        wave_denominator(p, t) > 0,
{
    let den = wave_denominator(p, t);
    let num = wave_numerator(p, s, d, t);
    let ring = p.ring_width as int;
    assert(den > 0 && den >= 2_000_000 * ring) by (nonlinear_arith)
        requires
            den == (2_000_000 + t) * ring,
            t >= 0,
            ring > 0,
    ;
    if in_ring(p, d, t) {
        lemma_taper_in_ring(p, d, t);
        let e = taper(p, d, t);
        assert(-(250_000 * den) <= s * e <= 250_000 * den) by (nonlinear_arith)
            requires
                -1_000_000 <= s <= 1_000_000,
                0 <= 2 * e <= ring * 1_000_000,
                den >= 2_000_000 * ring,
                ring > 0,
        ;
    } else {
        assert(250_000 * den >= 0) by (nonlinear_arith)
            requires
                den > 0,
        ;
    }
    lemma_quotient_within(num, den, 250_000);
}

/// The ripple fades: after `t` microseconds no amplitude exceeds
/// `0.5 / (2 + t)` by a whole step.
pub proof fn lemma_amplitude_decays(p: WaveParams, s: int, d: int, t: int)
    requires
        p.wf(),
        t >= 0,
        -1_000_000 <= s <= 1_000_000,
    ensures
        (vstd::math::abs(wave_amplitude(p, s, d, t)) - 1) * (2_000_000 + t) < 500_000_000_000,
{
    let den = wave_denominator(p, t);
    let num = wave_numerator(p, s, d, t);
    let ring = p.ring_width as int;
    let decay = 2_000_000 + t;
    let m = vstd::math::abs(num) as int;
    let q = vstd::math::abs(wave_amplitude(p, s, d, t)) as int;
    assert(den > 0) by (nonlinear_arith)
        requires
            den == decay * ring,
            decay > 0,
            ring > 0,
    ;
    assert(q == (m + den - 1) / den);
    assert((q - 1) * den < m || q == 0) by (nonlinear_arith)
        requires
            q == (m + den - 1) / den,
            m >= 0,
            den > 0,
    ;
    if in_ring(p, d, t) {
        lemma_taper_in_ring(p, d, t);
        let e = taper(p, d, t);
        assert(2 * m <= 1_000_000 * (ring * 1_000_000)) by (nonlinear_arith)
            requires
                m == s * e || m == -(s * e),
                -1_000_000 <= s <= 1_000_000,
                0 <= 2 * e <= ring * 1_000_000,
        ;
    } else {
        assert(m == 0);
        assert(1_000_000 * (ring * 1_000_000) >= 0) by (nonlinear_arith)
            requires
                ring > 0,
        ;
    }
    if q > 0 {
        assert((q - 1) * decay < 500_000_000_000) by (nonlinear_arith)
            requires
                (q - 1) * den < m,
                den == decay * ring,
                2 * m <= 1_000_000 * (ring * 1_000_000),
                ring > 0,
                decay > 0,
                q >= 1,
        ;
    } else {
        assert((q - 1) * decay < 500_000_000_000) by (nonlinear_arith)
            requires
                q == 0,
                decay > 0,
        ;
    }
}

/// The ripple at a point: zero on both edges of the ring and outside it,
/// nonzero strictly inside it wherever the sine is, and of the sine's sign.
pub proof fn lemma_wave_xy_in_ring(sine: Seq<i32>, p: WaveParams, x: int, y: int, t: int)
    requires
        p.wf(),
        t >= 0,
    ensures
        ({
            let d = isqrt_spec(x * x + y * y);
            let s = sine[phase_index(phase(p, d, t))];
            let w = wave_xy_spec(sine, p, x, y, t);
            &&& lead_gap(p, d, t) == 0 || trail_gap(p, d, t) == 0 || !in_ring(p, d, t) ==> w == 0
            &&& inside_ring(p, d, t) && s != 0 ==> w != 0
            &&& inside_ring(p, d, t) && s > 0 ==> w > 0
            &&& inside_ring(p, d, t) && s < 0 ==> w < 0
        }),
{
    let d = isqrt_spec(x * x + y * y);
    lemma_ring_taper_boundary(p, sine[phase_index(phase(p, d, t))] as int, d, t);
}

/// The amplitude at distance `d` after `t` microseconds.
pub fn wave_value(sine: &SineTableSingle, params: &WaveParams, d: u64, t: u64) -> (amplitude: i32)
    requires
        sine.wf(),
        params.wf(),
    ensures
        amplitude == wave_amplitude(
            *params,
            sine@[phase_index(phase(*params, d as int, t as int))] as int,
            d as int,
            t as int,
        ),
        -250_000 <= amplitude <= 250_000,
{
    let ghost p = *params;
    let speed = params.speed as i128;
    let width = params.ring_width as i128;
    let k = params.wave_number as i128;
    let dist = d as i128;
    let time = t as i128;
    assert(speed * time <= 0xffff_ffff * 0xffff_ffff_ffff_ffff) by (nonlinear_arith)
        requires
            0 <= speed <= 0xffff_ffff,
            0 <= time <= 0xffff_ffff_ffff_ffff,
    ;
    assert(0 <= speed * time) by (nonlinear_arith)
        requires
            0 <= speed,
            0 <= time,
    ;
    assert(k * dist <= 0xffff_ffff * 0xffff_ffff_ffff_ffff) by (nonlinear_arith)
        requires
            0 <= k <= 0xffff_ffff,
            0 <= dist <= 0xffff_ffff_ffff_ffff,
    ;
    assert(0 <= k * dist) by (nonlinear_arith)
        requires
            0 <= k,
            0 <= dist,
    ;
    let front: i128 = speed * time;
    let lead: i128 = front - dist * 1_000_000;
    let trail: i128 = dist * 1_000_000 - (front - width * 1_000_000);
    let turns: i128 = k * dist - front;
    let s = sine.at_phase(turns) as i128;
    proof {
        assert(lead == lead_gap(p, d as int, t as int));
        assert(trail == trail_gap(p, d as int, t as int));
        assert(turns == phase(p, d as int, t as int));
        lemma_amplitude_range(p, s as int, d as int, t as int);
        lemma_quotient_sign(0, wave_denominator(p, t as int));
    }
    if lead < 0 || trail < 0 {
        return 0;
    }
    let edge: i128 = if lead <= trail {
        lead
    } else {
        trail
    };
    proof {
        lemma_taper_in_ring(p, d as int, t as int);
        assert(edge == taper(p, d as int, t as int));
        assert(-(1_000_000 * 0xffff_ffff * 1_000_000) <= s * edge <= 1_000_000 * 0xffff_ffff
            * 1_000_000) by (nonlinear_arith)
            requires
                -1_000_000 <= s <= 1_000_000,
                0 <= edge <= 0xffff_ffff * 1_000_000,
        ;
        assert(0 < (2_000_000 + time) * width <= (2_000_000 + 0xffff_ffff_ffff_ffff) * 0xffff_ffff)
            by (nonlinear_arith)
            requires
                0 <= time <= 0xffff_ffff_ffff_ffff,
                0 < width <= 0xffff_ffff,
        ;
    }
    let num: i128 = s * edge;
    let den: i128 = (2_000_000 + time) * width;
    assert(num == wave_numerator(p, s as int, d as int, t as int));
    assert(den == wave_denominator(p, t as int));
    if num >= 0 {
        let q: i128 = (num + den - 1) / den;
        q as i32
    } else {
        let q: i128 = (-num + den - 1) / den;
        (-q) as i32
    }
}

/// The amplitude at the point `(x, y)` relative to the drop, `t` microseconds
/// after it fell.
pub fn wave_xy(sine: &SineTableSingle, params: &WaveParams, x: i64, y: i64, t: u64) -> (amplitude:
    i32)
    requires
        sine.wf(),
        params.wf(),
    ensures
        amplitude == wave_xy_spec(sine@, *params, x as int, y as int, t as int),
        -250_000 <= amplitude <= 250_000,
{
    let d = distance(x, y);
    wave_value(sine, params, d, t)
}

/// The distance of `(x, y)` from the origin, rounded down.
pub fn distance(x: i64, y: i64) -> (d: u64)
    ensures
        d == isqrt_spec(x * x + y * y),
{
    let ax: u128 = if x < 0 {
        (-(x as i128)) as u128
    } else {
        x as u128
    };
    let ay: u128 = if y < 0 {
        (-(y as i128)) as u128
    } else {
        y as u128
    };
    assert(ax * ax <= 0x8000_0000_0000_0000 * 0x8000_0000_0000_0000) by (nonlinear_arith)
        requires
            0 <= ax <= 0x8000_0000_0000_0000,
    ;
    assert(ay * ay <= 0x8000_0000_0000_0000 * 0x8000_0000_0000_0000) by (nonlinear_arith)
        requires
            0 <= ay <= 0x8000_0000_0000_0000,
    ;
    assert(ax * ax == x * x) by (nonlinear_arith)
        requires
            ax == x || ax == -x,
    ;
    assert(ay * ay == y * y) by (nonlinear_arith)
        requires
            ay == y || ay == -y,
    ;
    isqrt(ax * ax + ay * ay)
}

} // verus!
