//! The amplitude field of one frame.
//!
//! Every cell of the grid receives the sum of the ripples of all active
//! drops. A cell is mapped into the coordinates of a drop so that the grid
//! spans one full turn in each direction whatever its size: the cell in
//! column `col` lies at `2π * (drop.x + col - width) / width` for a drop in
//! column `drop.x`, and likewise for rows. The ripple itself is read from the
//! wave table at the drop's age.
//!
//! Cells are 128 bits wide, so that no number of drops can overflow a sum.

use vstd::prelude::*;
use crate::color::field_view;
use crate::drops::{DropSet, DropSetView, RainDrop, alive_at};
use crate::units::{clamp_to, div_floor};
use crate::wave_table::{
    QuantizedWaveTable,
    WaveTableView,
    lemma_bucket_range,
    t_bucket,
    wave_xy_lut,
    x_bucket,
    y_bucket,
};

verus! {

/// The largest magnitude a cell may hold before ripples are added to it.
pub const AMPLITUDE_LIMIT: i128 = 0x4000_0000_0000_0000_0000_0000_0000_0000;

/// The coordinate of cell `cell` as seen from a drop at `origin`, along an
/// axis of `extent` cells, in millionths of a radian.
pub open spec fn cell_coordinate(origin: int, cell: int, extent: int) -> int {
    (6_283_185 * (origin + cell - extent)) / extent
}

/// The ripple of one drop at the cell `(col, row)` of a `width` by `height`
/// grid at the time `now`.
pub open spec fn drop_contribution(
    table: WaveTableView,
    drop: RainDrop,
    col: int,
    row: int,
    width: int,
    height: int,
    now: int,
) -> int {
    table.lookup(
        cell_coordinate(drop.x as int, col, width),
        cell_coordinate(drop.y as int, row, height),
        drop.age(now),
    )
}

/// The sum of the ripples of `drops` at the cell `(col, row)`.
pub open spec fn cell_amplitude(
    table: WaveTableView,
    drops: Seq<RainDrop>,
    col: int,
    row: int,
    width: int,
    height: int,
    now: int,
) -> int
    decreases drops.len(),
{
    if drops.len() == 0 {
        0
    } else {
        cell_amplitude(table, drops.drop_last(), col, row, width, height, now) + drop_contribution(
            table,
            drops.last(),
            col,
            row,
            width,
            height,
            now,
        )
    }
}

/// `field` has `height` rows of `width` cells.
pub open spec fn has_shape(field: Seq<Seq<int>>, width: int, height: int) -> bool {
    &&& field.len() == height
    &&& forall|row: int| 0 <= row < height ==> (#[trigger] field[row]).len() == width
}

/// `field` reaches over the grid: it has at least `height` rows, and each of
/// the first `height` rows has at least `width` cells.
pub open spec fn covers_grid(field: Seq<Seq<int>>, width: int, height: int) -> bool {
    &&& field.len() >= height
    &&& forall|row: int| 0 <= row < height ==> (#[trigger] field[row]).len() >= width
}

/// Two fields have the same rows of the same lengths.
pub open spec fn same_shape(first: Seq<Seq<int>>, second: Seq<Seq<int>>) -> bool {
    &&& first.len() == second.len()
    &&& forall|row: int|
        #![trigger first[row]]
        #![trigger second[row]]
        0 <= row < first.len() ==> first[row].len() == second[row].len()
}

/// `after` is `before` with the ripples of `drops` added to every cell of
/// the grid. Cells beyond the grid are as they were.
pub open spec fn ripples_added(
    table: WaveTableView,
    drops: Seq<RainDrop>,
    width: int,
    height: int,
    now: int,
    before: Seq<Seq<int>>,
    after: Seq<Seq<int>>,
) -> bool {
    &&& same_shape(before, after)
    &&& forall|row: int, col: int|
        0 <= row < before.len() && 0 <= col < before[row].len() ==> #[trigger] after[row][col]
            == before[row][col] + if row < height && col < width {
            cell_amplitude(table, drops, col, row, width, height, now)
        } else {
            0
        }
}

/// `field` is the amplitude field of `drops`: `height` rows of `width`
/// cells, each the sum of the ripples at its place.
pub open spec fn accumulated(
    table: WaveTableView,
    drops: Seq<RainDrop>,
    width: int,
    height: int,
    now: int,
    field: Seq<Seq<int>>,
) -> bool {
    &&& has_shape(field, width, height)
    &&& forall|row: int, col: int|
        0 <= row < height && 0 <= col < width ==> #[trigger] field[row][col] == cell_amplitude(
            table,
            drops,
            col,
            row,
            width,
            height,
            now,
        )
}

/// The amplitude field is a function of the drops: with no drops it is
/// zero everywhere, and each further drop adds its own ripple to every cell.
pub proof fn lemma_superposition(
    table: WaveTableView,
    drops: Seq<RainDrop>,
    drop: RainDrop,
    col: int,
    row: int,
    width: int,
    height: int,
    now: int,
)
    ensures
        cell_amplitude(table, Seq::empty(), col, row, width, height, now) == 0,
        cell_amplitude(table, drops.push(drop), col, row, width, height, now) == cell_amplitude(
            table,
            drops,
            col,
            row,
            width,
            height,
            now,
        ) + drop_contribution(table, drop, col, row, width, height, now),
{
    assert(drops.push(drop).drop_last() =~= drops);
    assert(drops.push(drop).last() == drop);
}

/// The sum of the ripples of those of `drops` that have not reached the
/// time to live at `now`. Drops that have do not count.
pub open spec fn living_amplitude(
    table: WaveTableView,
    drops: Seq<RainDrop>,
    col: int,
    row: int,
    width: int,
    height: int,
    now: int,
    time_to_live: int,
) -> int
    decreases drops.len(),
{
    if drops.len() == 0 {
        0
    } else {
        living_amplitude(table, drops.drop_last(), col, row, width, height, now, time_to_live)
            + if drops.last().age(now) < time_to_live {
            drop_contribution(table, drops.last(), col, row, width, height, now)
        } else {
            0
        }
    }
}

proof fn lemma_living_amplitude(
    table: WaveTableView,
    drops: Seq<RainDrop>,
    col: int,
    row: int,
    width: int,
    height: int,
    now: int,
    time_to_live: int,
)
    ensures
        cell_amplitude(
            table,
            drops.filter(alive_at(now, time_to_live)),
            col,
            row,
            width,
            height,
            now,
        ) == living_amplitude(table, drops, col, row, width, height, now, time_to_live),
        (forall|i: int| 0 <= i < drops.len() ==> (#[trigger] drops[i]).age(now) >= time_to_live)
            ==> living_amplitude(table, drops, col, row, width, height, now, time_to_live) == 0,
    decreases drops.len(),
{
    let pred = alive_at(now, time_to_live);
    if drops.len() > 0 {
        let head = drops.drop_last();
        let last = drops.last();
        lemma_living_amplitude(table, head, col, row, width, height, now, time_to_live);
        assert(drops.filter(pred) == if pred(last) {
            head.filter(pred).push(last)
        } else {
            head.filter(pred)
        }) by {
            reveal(Seq::filter);
        }
        if pred(last) {
            lemma_superposition(table, head.filter(pred), last, col, row, width, height, now);
        }
        assert(pred(last) == (last.age(now) < time_to_live));
        if forall|i: int| 0 <= i < drops.len() ==> (#[trigger] drops[i]).age(now) >= time_to_live {
            assert forall|i: int| 0 <= i < head.len() implies (#[trigger] head[i]).age(now)
                >= time_to_live by {
                assert(head[i] == drops[i]);
            }
            assert(drops[drops.len() - 1].age(now) >= time_to_live);
        }
    } else {
        assert(drops.filter(pred) =~= Seq::<RainDrop>::empty()) by {
            reveal(Seq::filter);
        }
    }
}

/// Drops that have reached their time to live add nothing.
///
/// After the expiry step at `now`, the amplitude of every cell is the sum of
/// the ripples of the drops that had not reached their time to live; where
/// all drops had, it is zero.
pub proof fn lemma_expired_drops_add_nothing(
    table: WaveTableView,
    set: DropSetView,
    now: int,
    col: int,
    row: int,
    width: int,
    height: int,
)
    ensures
        cell_amplitude(table, set.without_expired(now).drops, col, row, width, height, now)
            == living_amplitude(
            table,
            set.drops,
            col,
            row,
            width,
            height,
            now,
            set.time_to_live,
        ),
        set.none_alive(now) ==> cell_amplitude(
            table,
            set.without_expired(now).drops,
            col,
            row,
            width,
            height,
            now,
        ) == 0,
{
    lemma_living_amplitude(table, set.drops, col, row, width, height, now, set.time_to_live);
}

/// The grid spans a full turn around a drop, whatever its size: seen from a
/// drop on the grid, every cell lies within one turn to either side, and so
/// within the domain of the wave table.
pub proof fn lemma_coordinate_within_a_turn(origin: int, cell: int, extent: int)
    requires
        0 <= origin < extent,
        0 <= cell < extent,
    ensures
        -6_283_185 <= cell_coordinate(origin, cell, extent) < 6_283_185,
        cell_coordinate(0, 0, extent) == -6_283_185,
{
    let offset = origin + cell - extent;
    let n = 6_283_185 * offset;
    assert(-6_283_185 <= n / extent < 6_283_185) by (nonlinear_arith)
        requires
            n == 6_283_185 * offset,
            -extent <= offset < extent,
            extent > 0,
    ;
    let m = 6_283_185 * (0 + 0 - extent);
    assert(m / extent == -6_283_185) by (nonlinear_arith)
        requires
            m == 6_283_185 * (0 + 0 - extent),
            extent > 0,
    ;
}

/// A coordinate far outside the table reads the same bucket as the end of
/// the 64-bit range.
proof fn lemma_lookup_saturates(table: WaveTableView, x: int, y: int, t: int)
    requires
        table.resolution > 0,
    ensures
        table.lookup(x, y, t) == table.lookup(
            clamp_to(x, i64::MIN as int, i64::MAX as int),
            clamp_to(y, i64::MIN as int, i64::MAX as int),
            clamp_to(t, i64::MIN as int, i64::MAX as int),
        ),
{
    let r = table.resolution;
    let cx = clamp_to(x, i64::MIN as int, i64::MAX as int);
    let cy = clamp_to(y, i64::MIN as int, i64::MAX as int);
    let ct = clamp_to(t, i64::MIN as int, i64::MAX as int);
    lemma_bucket_range(x, -6_300_000, 12_600_000, r);
    lemma_bucket_range(cx, -6_300_000, 12_600_000, r);
    lemma_bucket_range(y, -6_300_000, 12_600_000, r);
    lemma_bucket_range(cy, -6_300_000, 12_600_000, r);
    lemma_bucket_range(t, 0, 5_000_000, r);
    lemma_bucket_range(ct, 0, 5_000_000, r);
    assert(x_bucket(x, r) == x_bucket(cx, r));
    assert(y_bucket(y, r) == y_bucket(cy, r));
    assert(t_bucket(t, r) == t_bucket(ct, r));
}

fn saturate(v: i128) -> (r: i64)
    ensures
        r == clamp_to(v as int, i64::MIN as int, i64::MAX as int),
{
    if v < i64::MIN as i128 {
        i64::MIN
    } else if v > i64::MAX as i128 {
        i64::MAX
    } else {
        v as i64
    }
}

fn coordinate(origin: usize, cell: usize, extent: usize) -> (c: i64)
    requires
        extent > 0,
    ensures
        c == clamp_to(
            cell_coordinate(origin as int, cell as int, extent as int),
            i64::MIN as int,
            i64::MAX as int,
        ),
{
    let offset: i128 = (origin as i128) + (cell as i128) - (extent as i128);
    saturate(div_floor(6_283_185 * offset, extent as i128))
}

/// The ripple of one drop at one cell.
fn contribution(
    table: &QuantizedWaveTable,
    drop: &RainDrop,
    col: usize,
    row: usize,
    width: usize,
    height: usize,
    now: i64,
) -> (amplitude: i32)
    requires
        table.wf(),
        width > 0,
        height > 0,
    ensures
        amplitude == drop_contribution(
            table@,
            *drop,
            col as int,
            row as int,
            width as int,
            height as int,
            now as int,
        ),
{
    let x = coordinate(drop.x, col, width);
    let y = coordinate(drop.y, row, height);
    let t = saturate((now as i128) - (drop.t as i128));
    proof {
        table.lemma_wf_view();
        lemma_lookup_saturates(
            table@,
            cell_coordinate(drop.x as int, col as int, width as int),
            cell_coordinate(drop.y as int, row as int, height as int),
            drop.age(now as int),
        );
    }
    wave_xy_lut(table, x, y, t)
}

/// The sum of the ripples of all drops at one cell.
fn cell_sum(
    table: &QuantizedWaveTable,
    drops: &Vec<RainDrop>,
    col: usize,
    row: usize,
    width: usize,
    height: usize,
    now: i64,
) -> (sum: i128)
    requires
        table.wf(),
        width > 0,
        height > 0,
    ensures
        sum == cell_amplitude(
            table@,
            drops@,
            col as int,
            row as int,
            width as int,
            height as int,
            now as int,
        ),
        -0x1_0000_0000_0000_0000_0000_0000 <= sum <= 0x1_0000_0000_0000_0000_0000_0000,
{
    let mut sum: i128 = 0;
    let mut i: usize = 0;
    assert(drops@.take(0) =~= Seq::<RainDrop>::empty());
    while i < drops.len()
        invariant
            table.wf(),
            width > 0,
            height > 0,
            i <= drops@.len(),
            -(i * 0x8000_0000) <= sum <= i * 0x8000_0000,
            sum == cell_amplitude(
                table@,
                drops@.take(i as int),
                col as int,
                row as int,
                width as int,
                height as int,
                now as int,
            ),
        decreases drops@.len() - i,
    {
        let amplitude = contribution(table, &drops[i], col, row, width, height, now);
        proof {
            assert(drops@.take(i + 1).drop_last() =~= drops@.take(i as int));
            assert(drops@.take(i + 1).last() == drops@[i as int]);
        }
        sum = sum + amplitude as i128;
        i += 1;
    }
    assert(drops@.take(drops@.len() as int) =~= drops@);
    assert(i * 0x8000_0000 <= 0xffff_ffff_ffff_ffff * 0x8000_0000) by (nonlinear_arith)
        requires
            i <= 0xffff_ffff_ffff_ffff,
    ;
    sum
}

/// One row of a field with the ripples of `drops` added to its first
/// `width` cells.
fn rippled_row(
    table: &QuantizedWaveTable,
    drops: &Vec<RainDrop>,
    cells: &Vec<i128>,
    row: usize,
    width: usize,
    height: usize,
    now: i64,
) -> (rippled: Vec<i128>)
    requires
        table.wf(),
        row < height,
        cells@.len() >= width,
        forall|c: int| 0 <= c < width ==> -AMPLITUDE_LIMIT <= #[trigger] cells@[c] <= AMPLITUDE_LIMIT,
    ensures
        rippled@.len() == cells@.len(),
        forall|c: int|
            0 <= c < width ==> #[trigger] rippled@[c] == cells@[c] + cell_amplitude(
                table@,
                drops@,
                c,
                row as int,
                width as int,
                height as int,
                now as int,
            ),
        forall|c: int| width <= c < cells@.len() ==> #[trigger] rippled@[c] == cells@[c],
{
    let mut rippled: Vec<i128> = Vec::new();
    let mut col: usize = 0;
    while col < width
        invariant
            table.wf(),
            row < height,
            col <= width <= cells@.len(),
            forall|c: int|
                0 <= c < width ==> -AMPLITUDE_LIMIT <= #[trigger] cells@[c] <= AMPLITUDE_LIMIT,
            rippled@.len() == col,
            forall|c: int|
                0 <= c < col ==> #[trigger] rippled@[c] == cells@[c] + cell_amplitude(
                    table@,
                    drops@,
                    c,
                    row as int,
                    width as int,
                    height as int,
                    now as int,
                ),
        decreases width - col,
    {
        let sum = cell_sum(table, drops, col, row, width, height, now);
        rippled.push(cells[col] + sum);
        col += 1;
    }
    while col < cells.len()
        invariant
            width <= col <= cells@.len(),
            rippled@.len() == col,
            forall|c: int|
                0 <= c < width ==> #[trigger] rippled@[c] == cells@[c] + cell_amplitude(
                    table@,
                    drops@,
                    c,
                    row as int,
                    width as int,
                    height as int,
                    now as int,
                ),
            forall|c: int| width <= c < col ==> #[trigger] rippled@[c] == cells@[c],
        decreases cells@.len() - col,
    {
        rippled.push(cells[col]);
        col += 1;
    }
    rippled
}

/// Adds the ripples of all active drops of `drop_set` at the time `now` to
/// the cells of `fb` that lie on a grid of `height` rows of `width` cells.
///
/// Where there are drops, the field must reach over the grid, and the cells
/// on the grid must leave room for the ripples. A field that is larger than
/// the grid keeps what lies beyond it.
pub fn generate_wave(
    drop_set: &DropSet,
    table: &QuantizedWaveTable,
    width: usize,
    height: usize,
    now: i64,
    fb: &mut Vec<Vec<i128>>,
)
    requires
        table.wf(),
        drop_set@.drops.len() > 0 ==> covers_grid(
            field_view(*old(fb)),
            width as int,
            height as int,
        ),
        drop_set@.drops.len() > 0 ==> forall|row: int, col: int|
            0 <= row < height && 0 <= col < width ==> -AMPLITUDE_LIMIT <= #[trigger] field_view(
                *old(fb),
            )[row][col] <= AMPLITUDE_LIMIT,
    ensures
        ripples_added(
            table@,
            drop_set@.drops,
            width as int,
            height as int,
            now as int,
            field_view(*old(fb)),
            field_view(*final(fb)),
        ),
{
    let drops = drop_set.active_drops();
    if drops.len() == 0 {
        return ;
    }
    let ghost before = fb@;
    let ghost shown = field_view(*fb);
    proof {
        assert forall|r: int| 0 <= r < height implies (#[trigger] before[r])@.len() >= width by {
            assert(shown[r].len() >= width);
        }
        assert forall|r: int, c: int| 0 <= r < height && 0 <= c < width implies -AMPLITUDE_LIMIT
            <= #[trigger] before[r]@[c] <= AMPLITUDE_LIMIT by {
            assert(shown[r].len() >= width);
            assert(shown[r][c] == before[r]@[c]);
        }
    }
    let mut row: usize = 0;
    while row < height
        invariant
            table.wf(),
            row <= height <= before.len(),
            drops@ == drop_set@.drops,
            before == old(fb)@,
            fb@.len() == before.len(),
            forall|r: int| 0 <= r < height ==> (#[trigger] before[r])@.len() >= width,
            forall|r: int, c: int|
                0 <= r < height && 0 <= c < width ==> -AMPLITUDE_LIMIT <= #[trigger] before[r]@[c]
                    <= AMPLITUDE_LIMIT,
            forall|r: int| row <= r < before.len() ==> #[trigger] fb@[r] == before[r],
            forall|r: int| 0 <= r < row ==> (#[trigger] fb@[r])@.len() == before[r]@.len(),
            forall|r: int, c: int|
                0 <= r < row && 0 <= c < width ==> #[trigger] fb@[r]@[c] == before[r]@[c]
                    + cell_amplitude(
                    table@,
                    drops@,
                    c,
                    r,
                    width as int,
                    height as int,
                    now as int,
                ),
            forall|r: int, c: int|
                0 <= r < row && width <= c < before[r]@.len() ==> #[trigger] fb@[r]@[c]
                    == before[r]@[c],
        decreases height - row,
    {
        let rippled = rippled_row(table, drops, &fb[row], row, width, height, now);
        fb.set(row, rippled);
        row += 1;
    }
    proof {
        let after = field_view(*fb);
        assert forall|r: int| 0 <= r < shown.len() implies (#[trigger] shown[r]).len()
            == after[r].len() by {
            if r >= height {
                assert(fb@[r] == before[r]);
            }
        }
        assert forall|r: int, c: int|
            0 <= r < shown.len() && 0 <= c < shown[r].len() implies #[trigger] after[r][c]
            == shown[r][c] + if r < height && c < width {
            cell_amplitude(
                table@,
                drop_set@.drops,
                c,
                r,
                width as int,
                height as int,
                now as int,
            )
        } else {
            0
        } by {
            assert(shown[r][c] == before[r]@[c]);
            if r >= height {
                assert(fb@[r] == before[r]);
            }
            assert(after[r][c] == fb@[r]@[c]);
        }
    }
}

/// The amplitude field of the active drops of `drop_set` at the time `now`,
/// on a grid of `height` rows of `width` cells.
pub fn compute(
    drop_set: &DropSet,
    table: &QuantizedWaveTable,
    width: usize,
    height: usize,
    now: i64,
) -> (field: Vec<Vec<i128>>)
    requires
        table.wf(),
    ensures
        accumulated(
            table@,
            drop_set@.drops,
            width as int,
            height as int,
            now as int,
            field_view(field),
        ),
{
    let mut field: Vec<Vec<i128>> = Vec::new();
    let mut row: usize = 0;
    while row < height
        invariant
            row <= height,
            field@.len() == row,
            forall|r: int| 0 <= r < row ==> (#[trigger] field@[r])@.len() == width,
            forall|r: int, c: int| 0 <= r < row && 0 <= c < width ==> #[trigger] field@[r]@[c] == 0,
        decreases height - row,
    {
        let mut cells: Vec<i128> = Vec::new();
        let mut col: usize = 0;
        while col < width
            invariant
                col <= width,
                cells@.len() == col,
                forall|c: int| 0 <= c < col ==> #[trigger] cells@[c] == 0,
            decreases width - col,
        {
            cells.push(0);
            col += 1;
        }
        field.push(cells);
        row += 1;
    }
    let ghost zero = field_view(field);
    proof {
        assert forall|r: int| 0 <= r < height implies (#[trigger] zero[r]).len() == width by {
            assert(field@[r]@.len() == width);
        }
        assert forall|r: int, c: int| 0 <= r < height && 0 <= c < width implies #[trigger] zero[r][c]
            == 0 by {
            assert(zero[r][c] == field@[r]@[c]);
        }
    }
    generate_wave(drop_set, table, width, height, now, &mut field);
    proof {
        let sums = field_view(field);
        assert forall|r: int| 0 <= r < height implies (#[trigger] sums[r]).len() == width by {
            assert(zero[r].len() == width);
        }
        assert forall|r: int, c: int| 0 <= r < height && 0 <= c < width implies #[trigger] sums[r][c]
            == cell_amplitude(
            table@,
            drop_set@.drops,
            c,
            r,
            width as int,
            height as int,
            now as int,
        ) by {
            assert(zero[r].len() == width);
            assert(zero[r][c] == 0);
        }
    }
    field
}

} // verus!
