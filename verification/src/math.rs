//! Quantized sine lookup.
//!
//! A table holds `SIN_LUT_SIZE` samples of the sine over one full turn, a
//! tenth of a degree apart. A lookup folds the angle into `[0, 2π)`, scales
//! it to a bucket, rounds to the nearest bucket and wraps.
//!
//! There are two tables with independent samples. `SineTable` is the wide
//! one: angles in billionths of a radian, samples in billionths.
//! `SineTableSingle` is the narrow one: angles in millionths of a radian,
//! samples in millionths (`UNIT`). The samples themselves are measured by
//! whoever builds the table; this module checks them and does the lookups.

use vstd::prelude::*;
use crate::units::{UNIT, rem_floor};

verus! {

/// Number of samples in the wide table: one per tenth of a degree.
pub const SIN_LUT_SIZE: usize = 3600;

/// Number of samples in the narrow table.
pub const SIN_LUT_SIZE_SINGLE: usize = 3600;

/// One whole in the wide table: samples and angles count billionths.
pub const NANO: i64 = 1_000_000_000;

/// One full turn (2π) in billionths of a radian.
pub const TWO_PI_NANO: i64 = 6_283_185_307;

/// One full turn for a phase counted in `1 / UNIT^2` of a radian.
pub const TWO_PI_FINE: i64 = 6_283_185_000_000;

/// The bucket of `angle` in a table of 3600 samples, where `turn` is the
/// length of a full turn in the unit of `angle`: the angle modulo one turn,
/// scaled to the table, rounded to the nearest bucket, wrapped.
pub open spec fn angle_bucket(angle: int, turn: int) -> int {
    ((7200 * (angle % turn) + turn) / (2 * turn)) % 3600
}

/// The bucket of an angle given in billionths of a radian.
pub open spec fn sin_lut_index(angle: int) -> int {
    ((7200 * (angle % 6_283_185_307) + 6_283_185_307) / 12_566_370_614) % 3600
}

/// The bucket of an angle given in millionths of a radian.
pub open spec fn sin_lut_index_single(angle: int) -> int {
    ((7200 * (angle % 6_283_185) + 6_283_185) / 12_566_370) % 3600
}

/// The bucket of a phase given in `1 / UNIT^2` of a radian.
pub open spec fn phase_index(phase: int) -> int {
    ((7200 * (phase % 6_283_185_000_000) + 6_283_185_000_000) / 12_566_370_000_000) % 3600
}

/// The samples fit the wide table: 3600 of them, none beyond `NANO` in magnitude.
pub open spec fn valid_samples(samples: Seq<i64>) -> bool {
    &&& samples.len() == 3600
    &&& forall|i: int|
        0 <= i < samples.len() ==> -1_000_000_000 <= #[trigger] samples[i] <= 1_000_000_000
}

/// The samples fit the narrow table: 3600 of them, none beyond `UNIT` in magnitude.
pub open spec fn valid_samples_single(samples: Seq<i32>) -> bool {
    &&& samples.len() == 3600
    &&& forall|i: int| 0 <= i < samples.len() ==> -1_000_000 <= #[trigger] samples[i] <= 1_000_000
}

/// A bucket lies inside the table.
pub proof fn lemma_angle_bucket_range(angle: int, turn: int)
    requires
        turn > 0,
    ensures
        0 <= angle_bucket(angle, turn) < 3600,
        0 <= angle % turn < turn,
        0 <= (7200 * (angle % turn) + turn) / (2 * turn) <= 3600,
{
    vstd::arithmetic::div_mod::lemma_mod_bound(angle, turn);
    let n = angle % turn;
    assert(0 <= (7200 * n + turn) / (2 * turn) <= 3600) by (nonlinear_arith)
        requires
            0 <= n < turn,
    ;
}

fn bucket_of(angle: i128, turn: i64) -> (r: usize)
    requires
        turn > 0,
    ensures
        r == angle_bucket(angle as int, turn as int),
        r < 3600,
{
    proof {
        lemma_angle_bucket_range(angle as int, turn as int);
    }
    let n = rem_floor(angle, turn as i128);
    let q = (7200 * n + turn as i128) / (2 * (turn as i128));
    (q % 3600) as usize
}

/// The wide sine table.
pub struct SineTable {
    samples: Vec<i64>,
}

impl View for SineTable {
    type V = Seq<i64>;

    /// The samples, first bucket first.
    closed spec fn view(&self) -> Seq<i64> {
        self.samples@
    }
}

impl SineTable {
    /// The table holds 3600 samples, each within `[-NANO, NANO]`.
    pub open spec fn wf(&self) -> bool {
        valid_samples(self@)
    }

    /// A table of the given samples, where they fit: 3600 of them, none
    /// beyond one whole in magnitude.
    pub fn from_samples(samples: Vec<i64>) -> (table: Option<SineTable>)
        ensures
            table is Some <==> valid_samples(samples@),
            table matches Some(t) ==> t.wf() && t@ == samples@,
    {
        if samples.len() != SIN_LUT_SIZE {
            return None;
        }
        let mut i: usize = 0;
        while i < samples.len()
            invariant
                i <= samples@.len(),
                forall|k: int| 0 <= k < i ==> -NANO <= #[trigger] samples@[k] <= NANO,
            decreases samples@.len() - i,
        {
            if samples[i] < -NANO || samples[i] > NANO {
                return None;
            }
            i += 1;
        }
        Some(SineTable { samples })
    }

    /// The sample of one bucket.
    pub fn sample(&self, index: usize) -> (s: i64)
        requires
            self.wf(),
            index < 3600,
        ensures
            s == self@[index as int],
            -NANO <= s <= NANO,
    {
        self.samples[index]
    }
}

/// The narrow sine table.
pub struct SineTableSingle {
    samples: Vec<i32>,
}

impl View for SineTableSingle {
    type V = Seq<i32>;

    /// The samples, first bucket first.
    closed spec fn view(&self) -> Seq<i32> {
        self.samples@
    }
}

impl SineTableSingle {
    /// The table holds 3600 samples, each within `[-UNIT, UNIT]`.
    pub open spec fn wf(&self) -> bool {
        valid_samples_single(self@)
    }

    /// A table of the given samples, where they fit: 3600 of them, none
    /// beyond one whole in magnitude.
    pub fn from_samples(samples: Vec<i32>) -> (table: Option<SineTableSingle>)
        ensures
            table is Some <==> valid_samples_single(samples@),
            table matches Some(t) ==> t.wf() && t@ == samples@,
    {
        if samples.len() != SIN_LUT_SIZE_SINGLE {
            return None;
        }
        let mut i: usize = 0;
        while i < samples.len()
            invariant
                i <= samples@.len(),
                forall|k: int| 0 <= k < i ==> -UNIT <= #[trigger] samples@[k] <= UNIT,
            decreases samples@.len() - i,
        {
            if (samples[i] as i64) < -UNIT || (samples[i] as i64) > UNIT {
                return None;
            }
            i += 1;
        }
        Some(SineTableSingle { samples })
    }

    /// The sample of one bucket.
    pub fn sample(&self, index: usize) -> (s: i32)
        requires
            self.wf(),
            index < 3600,
        ensures
            s == self@[index as int],
            -UNIT <= s <= UNIT,
    {
        self.samples[index]
    }

    /// The sample nearest to a phase counted in `1 / UNIT^2` of a radian.
    pub fn at_phase(&self, phase: i128) -> (s: i32)
        requires
            self.wf(),
        ensures
            s == self@[phase_index(phase as int)],
            -UNIT <= s <= UNIT,
    {
        let index = bucket_of(phase, TWO_PI_FINE);
        self.samples[index]
    }
}

/// The sine of `angle`, read from the wide table. The angle is in billionths
/// of a radian, the result in billionths.
pub fn sin_lut(table: &SineTable, angle: i64) -> (s: i64)
    requires
        table.wf(),
    ensures
        s == table@[sin_lut_index(angle as int)],
        0 <= sin_lut_index(angle as int) < 3600,
        -NANO <= s <= NANO,
{
    let index = bucket_of(angle as i128, TWO_PI_NANO);
    table.sample(index)
}

/// The sine of `angle`, read from the narrow table. The angle is in
/// millionths of a radian, the result in millionths.
pub fn sin_lut_f32(table: &SineTableSingle, angle: i64) -> (s: i32)
    requires
        table.wf(),
    ensures
        s == table@[sin_lut_index_single(angle as int)],
        0 <= sin_lut_index_single(angle as int) < 3600,
        -UNIT <= s <= UNIT,
{
    let index = bucket_of(angle as i128, crate::units::TWO_PI);
    table.sample(index)
}

} // verus!
