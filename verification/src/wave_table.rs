//! The quantized wave table.
//!
//! The ripple of one drop depends on the offset `(x, y)` from the drop and on
//! the time `t` since it fell. The table splits each of the three axes into
//! `resolution` equal buckets over a fixed domain and stores the wave at the
//! centre of every bucket. A lookup truncates its coordinates to a bucket and
//! returns the stored sample; there is no interpolation.
//!
//! A table is built once, for one set of wave parameters, and never changes
//! afterwards. It can be shared freely.

use vstd::prelude::*;
use crate::math::{SineTableSingle, valid_samples_single};
use crate::units::clamp_to;
use crate::wave::{WaveParams, wave_xy_spec, distance, wave_value};

verus! {

/// Lower end of the x axis.
pub const X_MIN: i64 = -6_300_000;

/// Upper end of the x axis.
pub const X_MAX: i64 = 6_300_000;

/// Lower end of the y axis.
pub const Y_MIN: i64 = -6_300_000;

/// Upper end of the y axis.
pub const Y_MAX: i64 = 6_300_000;

/// Upper end of the time axis, in microseconds. The axis starts at zero.
pub const T_MAX: i64 = 5_000_000;

/// Buckets per axis in the reference sizing.
pub const RESOLUTION: usize = 400;

/// The bucket of `x` on the x axis: `floor((x - X_MIN) / step)`, limited to
/// the table.
pub open spec fn x_bucket(x: int, resolution: int) -> int {
    clamp_to(((x + 6_300_000) * resolution) / 12_600_000, 0, resolution - 1)
}

/// The bucket of `y` on the y axis.
pub open spec fn y_bucket(y: int, resolution: int) -> int {
    clamp_to(((y + 6_300_000) * resolution) / 12_600_000, 0, resolution - 1)
}

/// The bucket of `t` on the time axis.
pub open spec fn t_bucket(t: int, resolution: int) -> int {
    clamp_to((t * resolution) / 5_000_000, 0, resolution - 1)
}

/// The centre of bucket `i` on the x axis, rounded down to a whole step.
pub open spec fn x_center(i: int, resolution: int) -> int {
    -6_300_000 + ((2 * i + 1) * 12_600_000) / (2 * resolution)
}

/// The centre of bucket `i` on the y axis.
pub open spec fn y_center(i: int, resolution: int) -> int {
    -6_300_000 + ((2 * i + 1) * 12_600_000) / (2 * resolution)
}

/// The centre of bucket `i` on the time axis.
pub open spec fn t_center(i: int, resolution: int) -> int {
    ((2 * i + 1) * 5_000_000) / (2 * resolution)
}

/// The sample that belongs in the table at `(tx, ty, tt)`: the wave at the
/// centre of that bucket.
pub open spec fn table_entry(
    sine: Seq<i32>,
    params: WaveParams,
    resolution: int,
    tx: int,
    ty: int,
    tt: int,
) -> int {
    wave_xy_spec(
        sine,
        params,
        x_center(tx, resolution),
        y_center(ty, resolution),
        t_center(tt, resolution),
    )
}

/// What a table is, mathematically: its sizing, the wave parameters and the
/// sine samples it was built from. The stored samples follow from these.
pub struct WaveTableView {
    pub resolution: int,
    pub params: WaveParams,
    pub sine: Seq<i32>,
}

impl WaveTableView {
    /// The stored sample at `(tx, ty, tt)`.
    pub open spec fn entry(self, tx: int, ty: int, tt: int) -> int {
        table_entry(self.sine, self.params, self.resolution, tx, ty, tt)
    }

    /// The result of a lookup at `(x, y, t)`: the wave at the centre of the
    /// bucket that holds the point.
    pub open spec fn lookup(self, x: int, y: int, t: int) -> int {
        self.entry(
            x_bucket(x, self.resolution),
            y_bucket(y, self.resolution),
            t_bucket(t, self.resolution),
        )
    }
}

/// One row of the table holds the right samples along the time axis.
pub open spec fn row_filled(v: WaveTableView, tx: int, ty: int, row: Seq<i32>) -> bool {
    &&& row.len() == v.resolution
    &&& forall|tt: int| 0 <= tt < v.resolution ==> #[trigger] row[tt] == v.entry(tx, ty, tt)
}

/// One plane of the table holds the right rows along the y axis.
pub open spec fn plane_filled(v: WaveTableView, tx: int, plane: Seq<Vec<i32>>) -> bool {
    &&& plane.len() == v.resolution
    &&& forall|ty: int|
        0 <= ty < v.resolution ==> row_filled(v, tx, ty, (#[trigger] plane[ty])@)
}

/// The precomputed wave of one drop over `(x, y, t)`.
pub struct QuantizedWaveTable {
    resolution: usize,
    params: WaveParams,
    samples: Vec<Vec<Vec<i32>>>,
    sine: Ghost<Seq<i32>>,
}

impl View for QuantizedWaveTable {
    type V = WaveTableView;

    closed spec fn view(&self) -> WaveTableView {
        WaveTableView { resolution: self.resolution as int, params: self.params, sine: self.sine@ }
    }
}

impl QuantizedWaveTable {
    /// The table is complete: it has a valid sizing and valid parameters, and
    /// every bucket holds the wave at its centre.
    pub closed spec fn wf(&self) -> bool {
        &&& 0 < self.resolution
        &&& self.params.wf()
        &&& valid_samples_single(self.sine@)
        &&& self.samples@.len() == self.resolution
        &&& forall|tx: int|
            0 <= tx < self.resolution ==> plane_filled(self@, tx, (#[trigger] self.samples@[tx])@)
    }

    /// A complete table has at least one bucket per axis, valid parameters
    /// and valid sine samples.
    pub proof fn lemma_wf_view(&self)
        requires
            self.wf(),
        ensures
            0 < self@.resolution,
            self@.params.wf(),
            valid_samples_single(self@.sine),
    {
    }

    /// Buckets per axis.
    pub fn resolution(&self) -> (r: usize)
        ensures
            r == self@.resolution,
    {
        self.resolution
    }

    /// The wave parameters the table was built for.
    pub fn params(&self) -> (p: WaveParams)
        ensures
            p == self@.params,
    {
        self.params
    }
}

/// A bucket index lies inside the table, and the ends of an axis saturate.
pub proof fn lemma_bucket_range(value: int, min: int, span: int, resolution: int)
    requires
        span > 0,
        resolution > 0,
    ensures
        0 <= clamp_to(((value - min) * resolution) / span, 0, resolution - 1) < resolution,
        value <= min ==> clamp_to(((value - min) * resolution) / span, 0, resolution - 1) == 0,
        value >= min + span ==> clamp_to(((value - min) * resolution) / span, 0, resolution - 1)
            == resolution - 1,
        min <= value < min + span ==> 0 <= ((value - min) * resolution) / span < resolution,
{
    let n = (value - min) * resolution;
    if value <= min {
        assert(n / span <= 0) by (nonlinear_arith)
            requires
                n == (value - min) * resolution,
                value <= min,
                resolution > 0,
                span > 0,
        ;
    } else if value >= min + span {
        assert(n / span >= resolution) by (nonlinear_arith)
            requires
                n == (value - min) * resolution,
                value >= min + span,
                resolution > 0,
                span > 0,
        ;
    } else {
        assert(0 <= n / span < resolution) by (nonlinear_arith)
            requires
                n == (value - min) * resolution,
                min <= value < min + span,
                resolution > 0,
                span > 0,
        ;
    }
}

/// The signed distance from `value` to the exact centre of bucket `j` on an
/// axis that starts at `min`, is `span` long and has `resolution` buckets,
/// scaled by twice the resolution.
pub open spec fn center_offset(value: int, min: int, span: int, resolution: int, j: int) -> int {
    2 * resolution * (value - min) - (2 * j + 1) * span
}

/// A lookup reads the nearest bucket.
///
/// On every axis the bucket that a value is truncated to is the one whose
/// centre lies nearest to the value, also where the value lies outside the
/// axis and is read at its edge.
pub proof fn lemma_nearest_center(value: int, min: int, span: int, resolution: int, j: int)
    requires
        span > 0,
        resolution > 0,
        0 <= j < resolution,
    ensures
        vstd::math::abs(
            center_offset(
                value,
                min,
                span,
                resolution,
                clamp_to(((value - min) * resolution) / span, 0, resolution - 1),
            ),
        ) <= vstd::math::abs(center_offset(value, min, span, resolution, j)),
{
    let b = clamp_to(((value - min) * resolution) / span, 0, resolution - 1);
    let n = 2 * resolution * (value - min);
    let m = (value - min) * resolution;
    let cb = (2 * b + 1) * span;
    let cj = (2 * j + 1) * span;
    lemma_bucket_range(value, min, span, resolution);
    assert(center_offset(value, min, span, resolution, b) == n - cb);
    assert(center_offset(value, min, span, resolution, j) == n - cj);
    assert(n == 2 * m) by (nonlinear_arith)
        requires
            n == 2 * resolution * (value - min),
            m == (value - min) * resolution,
    ;
    if value <= min {
        assert(b == 0);
        assert(n <= 0) by (nonlinear_arith)
            requires
                n == 2 * resolution * (value - min),
                value <= min,
                resolution > 0,
        ;
        assert(cj >= span) by (nonlinear_arith)
            requires
                cj == (2 * j + 1) * span,
                j >= 0,
                span > 0,
        ;
        assert(cb == span) by (nonlinear_arith)
            requires
                cb == (2 * b + 1) * span,
                b == 0,
        ;
        assert(n - cb <= 0 && n - cj <= n - cb);
    } else if value >= min + span {
        assert(b == resolution - 1);
        assert(n >= 2 * resolution * span) by (nonlinear_arith)
            requires
                n == 2 * resolution * (value - min),
                value >= min + span,
                resolution > 0,
        ;
        assert(cj <= cb && cb < 2 * resolution * span) by (nonlinear_arith)
            requires
                cj == (2 * j + 1) * span,
                cb == (2 * b + 1) * span,
                b == resolution - 1,
                0 <= j < resolution,
                span > 0,
        ;
        assert(n - cb >= 0 && n - cj >= n - cb);
    } else {
        assert(b == m / span);
        assert(b * span <= m < b * span + span) by (nonlinear_arith)
            requires
                b == m / span,
                span > 0,
        ;
        assert(cb == 2 * (b * span) + span) by (nonlinear_arith)
            requires
                cb == (2 * b + 1) * span,
        ;
        assert(-span <= n - cb < span);
        if j > b {
            assert(cj >= cb + 2 * span) by (nonlinear_arith)
                requires
                    cj == (2 * j + 1) * span,
                    cb == (2 * b + 1) * span,
                    j >= b + 1,
                    span > 0,
            ;
            assert(n - cj <= -span);
        } else if j < b {
            assert(cj <= cb - 2 * span) by (nonlinear_arith)
                requires
                    cj == (2 * j + 1) * span,
                    cb == (2 * b + 1) * span,
                    j <= b - 1,
                    span > 0,
            ;
            assert(n - cj >= span);
        }
    }
}

/// The table agrees with the wave.
///
/// For every set of wave parameters, a lookup at `(x, y, t)` returns exactly
/// the wave in closed form at the centres of three buckets, and on each axis
/// that bucket is the one whose centre is nearest to the coordinate.
pub proof fn lemma_lookup_is_wave_at_nearest_center(table: WaveTableView, x: int, y: int, t: int)
    requires
        table.resolution > 0,
    ensures
        table.lookup(x, y, t) == wave_xy_spec(
            table.sine,
            table.params,
            x_center(x_bucket(x, table.resolution), table.resolution),
            y_center(y_bucket(y, table.resolution), table.resolution),
            t_center(t_bucket(t, table.resolution), table.resolution),
        ),
        forall|j: int|
            0 <= j < table.resolution ==> vstd::math::abs(
                center_offset(
                    x,
                    -6_300_000,
                    12_600_000,
                    table.resolution,
                    x_bucket(x, table.resolution),
                ),
            ) <= vstd::math::abs(
                #[trigger] center_offset(x, -6_300_000, 12_600_000, table.resolution, j),
            ),
        forall|j: int|
            0 <= j < table.resolution ==> vstd::math::abs(
                center_offset(
                    y,
                    -6_300_000,
                    12_600_000,
                    table.resolution,
                    y_bucket(y, table.resolution),
                ),
            ) <= vstd::math::abs(
                #[trigger] center_offset(y, -6_300_000, 12_600_000, table.resolution, j),
            ),
        forall|j: int|
            0 <= j < table.resolution ==> vstd::math::abs(
                center_offset(t, 0, 5_000_000, table.resolution, t_bucket(t, table.resolution)),
            ) <= vstd::math::abs(#[trigger] center_offset(t, 0, 5_000_000, table.resolution, j)),
{
    let r = table.resolution;
    assert forall|j: int| 0 <= j < r implies vstd::math::abs(
        center_offset(x, -6_300_000, 12_600_000, r, x_bucket(x, r)),
    ) <= vstd::math::abs(#[trigger] center_offset(x, -6_300_000, 12_600_000, r, j)) by {
        lemma_nearest_center(x, -6_300_000, 12_600_000, r, j);
    }
    assert forall|j: int| 0 <= j < r implies vstd::math::abs(
        center_offset(y, -6_300_000, 12_600_000, r, y_bucket(y, r)),
    ) <= vstd::math::abs(#[trigger] center_offset(y, -6_300_000, 12_600_000, r, j)) by {
        lemma_nearest_center(y, -6_300_000, 12_600_000, r, j);
    }
    assert forall|j: int| 0 <= j < r implies vstd::math::abs(
        center_offset(t, 0, 5_000_000, r, t_bucket(t, r)),
    ) <= vstd::math::abs(#[trigger] center_offset(t, 0, 5_000_000, r, j)) by {
        lemma_nearest_center(t, 0, 5_000_000, r, j);
    }
}

/// The bucket of `value` on an axis that starts at `min` and is `span` long.
fn axis_bucket(value: i64, min: i64, span: i64, resolution: usize) -> (bucket: usize)
    requires
        0 < span <= 1_000_000_000,
        -1_000_000_000 <= min <= 1_000_000_000,
        0 < resolution,
    ensures
        bucket == clamp_to(((value - min) * resolution) / (span as int), 0, resolution - 1),
        bucket < resolution,
{
    proof {
        lemma_bucket_range(value as int, min as int, span as int, resolution as int);
    }
    if value <= min {
        0
    } else if value >= min + span {
        resolution - 1
    } else {
        let offset: i128 = (value - min) as i128;
        let buckets: i128 = resolution as i128;
        assert(0 <= offset * buckets <= 1_000_000_000 * 0xffff_ffff_ffff_ffff) by (nonlinear_arith)
            requires
                0 <= offset <= 1_000_000_000,
                0 < buckets <= 0xffff_ffff_ffff_ffff,
        ;
        let q: i128 = (offset * buckets) / (span as i128);
        q as usize
    }
}

/// The centre of bucket `i` on an axis that starts at `min` and is `span` long.
fn axis_center(i: usize, min: i64, span: i64, resolution: usize) -> (center: i64)
    requires
        0 < span <= 1_000_000_000,
        -1_000_000_000 <= min <= 1_000_000_000,
        0 < resolution,
        i < resolution,
    ensures
        center == min + ((2 * i + 1) * span) / (2 * resolution),
        min <= center <= min + span,
{
    let odd: i128 = 2 * (i as i128) + 1;
    let twice: i128 = 2 * (resolution as i128);
    let length: i128 = span as i128;
    assert(0 <= odd * length <= 0x2_0000_0000_0000_0000 * 1_000_000_000) by (nonlinear_arith)
        requires
            0 <= odd <= 0x2_0000_0000_0000_0000,
            0 < length <= 1_000_000_000,
    ;
    assert(0 <= (odd * length) / (twice as int) <= length) by (nonlinear_arith)
        requires
            0 <= odd <= twice,
            0 < twice,
            0 < length,
    ;
    let step: i128 = (odd * length) / twice;
    min + (step as i64)
}

/// Builds the table for `params` with `resolution` buckets per axis, reading
/// the sine from `sine`. Every bucket receives the wave at its centre.
///
/// There is no table without buckets, nor for a ring without width.
pub fn gen_wave_xy_lookup(sine: &SineTableSingle, params: WaveParams, resolution: usize) -> (table:
    Option<QuantizedWaveTable>)
    requires
        sine.wf(),
    ensures
        table is Some <==> 0 < resolution && params.wf(),
        table matches Some(t) ==> t.wf() && t@ == (WaveTableView {
            resolution: resolution as int,
            params,
            sine: sine@,
        }),
{
    if resolution == 0 || params.ring_width == 0 {
        return None;
    }
    let ghost v = WaveTableView { resolution: resolution as int, params, sine: sine@ };
    let mut planes: Vec<Vec<Vec<i32>>> = Vec::new();
    let mut tx: usize = 0;
    while tx < resolution
        invariant
            0 < resolution,
            tx <= resolution,
            sine.wf(),
            params.wf(),
            v == (WaveTableView { resolution: resolution as int, params, sine: sine@ }),
            planes@.len() == tx,
            forall|a: int| 0 <= a < tx ==> plane_filled(v, a, (#[trigger] planes@[a])@),
        decreases resolution - tx,
    {
        let x = axis_center(tx, X_MIN, X_MAX - X_MIN, resolution);
        let mut rows: Vec<Vec<i32>> = Vec::new();
        let mut ty: usize = 0;
        while ty < resolution
            invariant
                0 < resolution,
                tx < resolution,
                ty <= resolution,
                sine.wf(),
                params.wf(),
                v == (WaveTableView { resolution: resolution as int, params, sine: sine@ }),
                x == x_center(tx as int, resolution as int),
                rows@.len() == ty,
                forall|b: int| 0 <= b < ty ==> row_filled(v, tx as int, b, (#[trigger] rows@[b])@),
            decreases resolution - ty,
        {
            let y = axis_center(ty, Y_MIN, Y_MAX - Y_MIN, resolution);
            let d = distance(x, y);
            let mut row: Vec<i32> = Vec::new();
            let mut tt: usize = 0;
            while tt < resolution
                invariant
                    0 < resolution,
                    tx < resolution,
                    ty < resolution,
                    tt <= resolution,
                    sine.wf(),
                    params.wf(),
                    v == (WaveTableView { resolution: resolution as int, params, sine: sine@ }),
                    x == x_center(tx as int, resolution as int),
                    y == y_center(ty as int, resolution as int),
                    d == crate::units::isqrt_spec(x * x + y * y),
                    row@.len() == tt,
                    forall|c: int|
                        0 <= c < tt ==> #[trigger] row@[c] == v.entry(tx as int, ty as int, c),
                decreases resolution - tt,
            {
                let t = axis_center(tt, 0, T_MAX, resolution);
                let sample = wave_value(sine, &params, d, t as u64);
                assert(sample == v.entry(tx as int, ty as int, tt as int));
                row.push(sample);
                tt += 1;
            }
            rows.push(row);
            ty += 1;
        }
        planes.push(rows);
        tx += 1;
    }
    Some(QuantizedWaveTable { resolution, params, samples: planes, sine: Ghost(sine@) })
}

/// The stored wave nearest to `(x, y, t)`: coordinates in millionths, time in
/// microseconds. Coordinates outside the table's domain are read at its edge.
pub fn wave_xy_lut(table: &QuantizedWaveTable, x: i64, y: i64, t: i64) -> (amplitude: i32)
    requires
        table.wf(),
    ensures
        amplitude == table@.lookup(x as int, y as int, t as int),
{
    let tx = axis_bucket(x, X_MIN, X_MAX - X_MIN, table.resolution);
    let ty = axis_bucket(y, Y_MIN, Y_MAX - Y_MIN, table.resolution);
    let tt = axis_bucket(t, 0, T_MAX, table.resolution);
    assert(plane_filled(table@, tx as int, table.samples@[tx as int]@));
    assert(row_filled(table@, tx as int, ty as int, table.samples@[tx as int]@[ty as int]@));
    table.samples[tx][ty][tt]
}

} // verus!
