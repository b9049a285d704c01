//! The water colour model: from a scalar amplitude to an RGB triple.
//!
//! A positive amplitude ramps toward a bright cyan-blue, a negative one
//! toward a darker teal. The colour is then pulled toward a fixed green
//! anchor by the tint fraction and toward its own luminance by the
//! desaturation fraction. All arithmetic is exact: a channel is carried as
//! a numerator over a fixed power of `UNIT` and rounded once, at the end.

use vstd::prelude::*;
use crate::units::{UNIT, clamp_to};

verus! {

/// The red, green and blue of the tint anchor.
pub const TINT_RED: i64 = 80;

pub const TINT_GREEN: i64 = 160;

pub const TINT_BLUE: i64 = 80;

/// Denominator of a finished channel: `1000 * UNIT^3`.
pub const CHANNEL_SCALE: i128 = 1_000_000_000_000_000_000_000;

/// An amplitude grid as a mathematical value: rows of cells.
pub open spec fn field_view(field: Vec<Vec<i128>>) -> Seq<Seq<int>> {
    Seq::new(field@.len(), |i: int| Seq::new(field@[i]@.len(), |j: int| field@[i]@[j] as int))
}

/// A colour grid as a mathematical value: rows of RGB triples.
pub open spec fn grid_view(grid: Vec<Vec<(u8, u8, u8)>>) -> Seq<Seq<(u8, u8, u8)>> {
    Seq::new(grid@.len(), |i: int| grid@[i]@)
}

/// The undesaturated colour of a clamped amplitude `a` in `[-UNIT, UNIT]`,
/// each channel scaled by `UNIT`.
pub open spec fn base_color(a: int) -> (int, int, int) {
    if a >= 0 {
        (180 * a, 120_000_000 + 120 * a, 200_000_000 + 55 * a)
    } else {
        (0, 120_000_000 - 90 * (-a), 200_000_000 - 120 * (-a))
    }
}

/// Luminance of a colour: `0.299 R + 0.587 G + 0.114 B`, scaled by a further 1000.
pub open spec fn luminance(c: (int, int, int)) -> int {
    299 * c.0 + 587 * c.1 + 114 * c.2
}

/// `from` moved toward `to` by the fraction `frac / UNIT`; the result is
/// scaled by a further `UNIT`.
pub open spec fn blend(from: int, to: int, frac: int) -> int {
    from * 1_000_000 + frac * (to - from)
}

/// A channel numerator over `CHANNEL_SCALE`, rounded to the nearest integer
/// (ties upward) and clamped to a byte.
pub open spec fn round_to_byte(numerator: int) -> int {
    clamp_to(
        (2 * numerator + 1_000_000_000_000_000_000_000) / 2_000_000_000_000_000_000_000,
        0,
        255,
    )
}

/// One finished channel: the base channel `c` (scaled by `UNIT`) tinted toward
/// `anchor`, desaturated toward the luminance `lum`, rounded and clamped to a byte.
pub open spec fn channel(c: int, anchor: int, lum: int, d: int, t: int) -> int {
    let tinted = blend(c, anchor * 1_000_000, t);
    let desaturated = blend(1000 * tinted, lum * 1_000_000, d);
    round_to_byte(desaturated)
}

/// The colour of one amplitude under the given desaturation and tint
/// fractions. Amplitude is clamped to `[-UNIT, UNIT]`, the two fractions to
/// `[0, UNIT]`.
pub open spec fn water_rgb_spec(amplitude: int, desaturation: int, tint: int) -> (u8, u8, u8) {
    let a = clamp_to(amplitude, -UNIT, UNIT as int);
    let d = clamp_to(desaturation, 0, UNIT as int);
    let t = clamp_to(tint, 0, UNIT as int);
    let c = base_color(a);
    let lum = luminance(c);
    (
        channel(c.0, TINT_RED as int, lum, d, t) as u8,
        channel(c.1, TINT_GREEN as int, lum, d, t) as u8,
        channel(c.2, TINT_BLUE as int, lum, d, t) as u8,
    )
}

/// `grid` is the colouring of `field`: same shape, every cell the colour of
/// the amplitude at the same place.
pub open spec fn colorized(
    field: Seq<Seq<int>>,
    desaturation: int,
    tint: int,
    grid: Seq<Seq<(u8, u8, u8)>>,
) -> bool {
    &&& grid.len() == field.len()
    &&& forall|i: int|
        0 <= i < field.len() ==> (#[trigger] grid[i]).len() == field[i].len()
    &&& forall|i: int, j: int|
        0 <= i < field.len() && 0 <= j < field[i].len() ==> #[trigger] grid[i][j]
            == water_rgb_spec(field[i][j], desaturation, tint)
}

/// A blend of two values from `[0, bound]` by a fraction from `[0, UNIT]`
/// stays in `[0, bound * UNIT]`.
pub proof fn lemma_blend_bounds(from: int, to: int, frac: int, bound: int)
    requires
        0 <= from <= bound,
        0 <= to <= bound,
        0 <= frac <= UNIT,
    ensures
        0 <= blend(from, to, frac) <= bound * UNIT,
        -(bound * UNIT) <= frac * (to - from) <= bound * UNIT,
{
    let u = UNIT as int;
    assert(blend(from, to, frac) == from * (u - frac) + frac * to) by (nonlinear_arith)
        requires
            blend(from, to, frac) == from * u + frac * (to - from),
    ;
    assert(0 <= from * (u - frac) + frac * to <= bound * u) by (nonlinear_arith)
        requires
            0 <= from <= bound,
            0 <= to <= bound,
            0 <= frac <= u,
    ;
    assert(-(bound * u) <= frac * (to - from) <= bound * u) by (nonlinear_arith)
        requires
            0 <= from <= bound,
            0 <= to <= bound,
            0 <= frac <= u,
    ;
}

fn blend_exec(from: i128, to: i128, frac: i128, Ghost(bound): Ghost<int>) -> (r: i128)
    requires
        0 <= from <= bound,
        0 <= to <= bound,
        0 <= frac <= UNIT,
        bound <= 1_000_000_000_000_000_000,
    ensures
        r == blend(from as int, to as int, frac as int),
        0 <= r <= bound * UNIT,
{
    proof {
        lemma_blend_bounds(from as int, to as int, frac as int, bound);
        assert(bound * UNIT <= 1_000_000_000_000_000_000 * 1_000_000) by (nonlinear_arith)
            requires
                bound <= 1_000_000_000_000_000_000,
                UNIT == 1_000_000,
        ;
    }
    from * (UNIT as i128) + frac * (to - from)
}

fn channel_exec(c: i128, anchor: i64, lum: i128, d: i128, t: i128) -> (r: u8)
    requires
        0 <= c <= 255 * UNIT,
        0 <= anchor <= 255,
        0 <= lum <= 1000 * 255 * UNIT,
        0 <= d <= UNIT,
        0 <= t <= UNIT,
    ensures
        r == channel(c as int, anchor as int, lum as int, d as int, t as int),
{
    assert(UNIT == 1_000_000);
    let tinted = blend_exec(c, (anchor as i128) * 1_000_000, t, Ghost(255 * UNIT));
    let desaturated = blend_exec(
        1000 * tinted,
        lum * 1_000_000,
        d,
        Ghost(1000 * 255 * UNIT * UNIT),
    );
    if desaturated >= 255 * CHANNEL_SCALE {
        255
    } else {
        let q = (2 * desaturated + CHANNEL_SCALE) / (2 * CHANNEL_SCALE);
        q as u8
    }
}

/// The colour of one amplitude.
pub fn water_rgb(a_norm: i128, desaturation: i64, tint: i64) -> (rgb: (u8, u8, u8))
    ensures
        rgb == water_rgb_spec(a_norm as int, desaturation as int, tint as int),
{
    let unit: i128 = UNIT as i128;
    let a: i128 = if a_norm < -unit {
        -unit
    } else if a_norm > unit {
        unit
    } else {
        a_norm
    };
    let d: i128 = if desaturation < 0 {
        0
    } else if desaturation > UNIT {
        unit
    } else {
        desaturation as i128
    };
    let t: i128 = if tint < 0 {
        0
    } else if tint > UNIT {
        unit
    } else {
        tint as i128
    };
    let (r, g, b): (i128, i128, i128) = if a >= 0 {
        (180 * a, 120 * unit + 120 * a, 200 * unit + 55 * a)
    } else {
        (0, 120 * unit - 90 * (-a), 200 * unit - 120 * (-a))
    };
    let lum: i128 = 299 * r + 587 * g + 114 * b;
    (
        channel_exec(r, TINT_RED, lum, d, t),
        channel_exec(g, TINT_GREEN, lum, d, t),
        channel_exec(b, TINT_BLUE, lum, d, t),
    )
}

/// The colour grid of an amplitude field: one triple per cell, row by row.
pub fn colorize(field: &Vec<Vec<i128>>, desaturation: i64, tint: i64) -> (grid: Vec<Vec<(u8, u8, u8)>>)
    ensures
        colorized(field_view(*field), desaturation as int, tint as int, grid_view(grid)),
{
    let mut grid: Vec<Vec<(u8, u8, u8)>> = Vec::new();
    let mut i: usize = 0;
    while i < field.len()
        invariant
            i <= field@.len(),
            grid@.len() == i,
            forall|p: int| 0 <= p < i ==> (#[trigger] grid@[p])@.len() == field@[p]@.len(),
            forall|p: int, q: int|
                0 <= p < i && 0 <= q < field@[p]@.len() ==> #[trigger] grid@[p]@[q]
                    == water_rgb_spec(field@[p]@[q] as int, desaturation as int, tint as int),
        decreases field@.len() - i,
    {
        let row = &field[i];
        let mut colors: Vec<(u8, u8, u8)> = Vec::new();
        let mut j: usize = 0;
        while j < row.len()
            invariant
                j <= row@.len(),
                colors@.len() == j,
                forall|q: int|
                    0 <= q < j ==> #[trigger] colors@[q] == water_rgb_spec(
                        row@[q] as int,
                        desaturation as int,
                        tint as int,
                    ),
            decreases row@.len() - j,
        {
            colors.push(water_rgb(row[j], desaturation, tint));
            j += 1;
        }
        grid.push(colors);
        i += 1;
    }
    grid
}

/// Colouring is a function of its inputs: any two colourings of one field
/// under the same fractions are the same grid.
pub proof fn lemma_colorize_deterministic(
    field: Seq<Seq<int>>,
    desaturation: int,
    tint: int,
    first: Seq<Seq<(u8, u8, u8)>>,
    second: Seq<Seq<(u8, u8, u8)>>,
)
    requires
        colorized(field, desaturation, tint, first),
        colorized(field, desaturation, tint, second),
    ensures
        first == second,
{
    assert forall|i: int| 0 <= i < first.len() implies first[i] == second[i] by {
        assert(first[i].len() == second[i].len());
        assert forall|j: int| 0 <= j < first[i].len() implies first[i][j] == second[i][j] by {
            assert(first[i][j] == water_rgb_spec(field[i][j], desaturation, tint));
            assert(second[i][j] == water_rgb_spec(field[i][j], desaturation, tint));
        }
        assert(first[i] =~= second[i]);
    }
    assert(first =~= second);
}

/// An amplitude beyond the unit range is coloured as the nearer end of the
/// range: above `UNIT` as `UNIT`, below `-UNIT` as `-UNIT`.
pub proof fn lemma_amplitude_clamp(amplitude: int, desaturation: int, tint: int)
    ensures
        amplitude >= UNIT ==> water_rgb_spec(amplitude, desaturation, tint) == water_rgb_spec(
            UNIT as int,
            desaturation,
            tint,
        ),
        amplitude <= -UNIT ==> water_rgb_spec(amplitude, desaturation, tint) == water_rgb_spec(
            -UNIT,
            desaturation,
            tint,
        ),
        water_rgb_spec(amplitude, desaturation, tint) == water_rgb_spec(
            clamp_to(amplitude, -UNIT, UNIT as int),
            desaturation,
            tint,
        ),
{
}

} // verus!
