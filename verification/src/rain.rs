//! The rain effect: drops fall on a grid, ripple, and are painted as water.
//!
//! Once per frame the caller ticks the engine with the current time and asks
//! it for the colour grid. The engine owns its drops and its wave table and
//! keeps no other state between frames.

use vstd::prelude::*;
use crate::color::{colorized, field_view, grid_view, water_rgb, water_rgb_spec};
use crate::drops::{DropSet, DropSetView, RainDrop, NEVER_SPAWNED, advance_outcome};
use crate::field::{accumulated, cell_amplitude, compute};
use crate::wave_table::{QuantizedWaveTable, WaveTableView};

verus! {

/// The desaturation a new engine paints with: one half.
pub const DESATURATION: i64 = 500_000;

/// The tint a new engine paints with: one quarter.
pub const TINT: i64 = 250_000;

/// The engine as a mathematical value.
pub struct RainView {
    /// The drops and the rules by which they come and go.
    pub drops: DropSetView,
    /// The wave table the ripples are read from.
    pub table: WaveTableView,
    /// The time of the last tick.
    pub now: int,
    /// The fractions of the colour model.
    pub desaturation: int,
    pub tint: int,
}

impl RainView {
    /// The colour of the cell `(col, row)` in the current frame.
    pub open spec fn frame_cell(self, col: int, row: int) -> (u8, u8, u8) {
        water_rgb_spec(
            cell_amplitude(
                self.table,
                self.drops.drops,
                col,
                row,
                self.drops.width,
                self.drops.height,
                self.now,
            ),
            self.desaturation,
            self.tint,
        )
    }

    /// `grid` is the current frame: one row per grid row, one colour per cell.
    pub open spec fn is_frame(self, grid: Seq<Seq<(u8, u8, u8)>>) -> bool {
        &&& grid.len() == self.drops.height
        &&& forall|row: int|
            0 <= row < self.drops.height ==> (#[trigger] grid[row]).len() == self.drops.width
        &&& forall|row: int, col: int|
            0 <= row < self.drops.height && 0 <= col < self.drops.width ==> #[trigger] grid[row][col]
                == self.frame_cell(col, row)
    }

    /// The engine after a tick at `now` in which a due drop falls on `(x, y)`.
    pub open spec fn ticked(self, now: i64, x: usize, y: usize) -> RainView {
        RainView { drops: self.drops.advanced(now, x, y), now: now as int, ..self }
    }
}

/// The rain effect on one grid.
pub struct Rain {
    pub(crate) width: usize,
    pub(crate) height: usize,
    drops: DropSet,
    table: QuantizedWaveTable,
    now: i64,
    desaturation: i64,
    tint: i64,
}

impl View for Rain {
    type V = RainView;

    closed spec fn view(&self) -> RainView {
        RainView {
            drops: self.drops@,
            table: self.table@,
            now: self.now as int,
            desaturation: self.desaturation as int,
            tint: self.tint as int,
        }
    }
}

impl Rain {
    /// The engine is consistent: its grid is not empty, its table is
    /// complete, and no drop that has reached its time to live is active.
    pub closed spec fn wf(&self) -> bool {
        &&& self.drops.wf()
        &&& self.table.wf()
        &&& self.width == self@.drops.width
        &&& self.height == self@.drops.height
        &&& self@.drops.all_alive(self@.now)
    }

    /// In a consistent engine every active drop is younger than the time to
    /// live and lies on the grid, which is not empty.
    pub proof fn lemma_wf(&self)
        requires
            self.wf(),
        ensures
            self@.drops.all_alive(self@.now),
            self@.drops.in_grid(),
            self@.drops.width > 0,
            self@.drops.height > 0,
    {
    }

    /// An engine for a grid of `width` by `height` cells without drops.
    /// Drops stay for `rain_drop_ttl` microseconds; one falls when more than
    /// `rain_drop_velocity` microseconds have passed since the last. Ripples
    /// are read from `table`, whose wave number the drops take.
    pub fn new(
        width: usize,
        height: usize,
        rain_drop_ttl: u64,
        rain_drop_velocity: u64,
        table: QuantizedWaveTable,
    ) -> (rain: Rain)
        requires
            width > 0,
            height > 0,
            table.wf(),
        ensures
            rain.wf(),
            rain@ == (RainView {
                drops: DropSetView {
                    drops: Seq::empty(),
                    time_to_live: rain_drop_ttl as int,
                    spawn_cadence: rain_drop_velocity as int,
                    last_spawn_at: NEVER_SPAWNED as int,
                    width: width as int,
                    height: height as int,
                    wave_number: table@.params.wave_number,
                },
                table: table@,
                now: 0,
                desaturation: DESATURATION as int,
                tint: TINT as int,
            }),
    {
        let k = table.params().wave_number;
        Rain {
            width,
            height,
            drops: DropSet::new(width, height, rain_drop_ttl, rain_drop_velocity, k),
            table,
            now: 0,
            desaturation: DESATURATION,
            tint: TINT,
        }
    }

    /// Sets the fractions of the colour model.
    pub fn set_colors(&mut self, desaturation: i64, tint: i64)
        requires
            old(self).wf(),
        ensures
            final(self).wf(),
            final(self)@ == (RainView {
                desaturation: desaturation as int,
                tint: tint as int,
                ..old(self)@
            }),
    {
        self.desaturation = desaturation;
        self.tint = tint;
    }

    /// Advances the drops to the time `now`: a drop falls if one is due, and
    /// every drop that has reached its time to live is forgotten.
    pub fn tick(&mut self, now: i64)
        requires
            old(self).wf(),
        ensures
            final(self).wf(),
            exists|x: usize, y: usize|
                x < old(self)@.drops.width && y < old(self)@.drops.height && final(self)@
                    == #[trigger] old(self)@.ticked(now, x, y),
            advance_outcome(old(self)@.drops, now, final(self)@.drops),
    {
        self.drops.advance(now);
        self.now = now;
        proof {
            let (x, y) = choose|x: usize, y: usize|
                x < old(self)@.drops.width && y < old(self)@.drops.height && self.drops@
                    == #[trigger] old(self)@.drops.advanced(now, x, y);
            assert(self@ == old(self)@.ticked(now, x, y));
        }
    }

    /// The active drops, oldest first.
    pub fn active_drops(&self) -> (drops: &Vec<RainDrop>)
        ensures
            drops@ == self@.drops.drops,
    {
        self.drops.active_drops()
    }

    /// Paints an amplitude field that fits on the grid. The result always
    /// covers the whole grid; cells the field does not reach stay black.
    pub fn wave_to_color(&self, fb: Vec<Vec<i128>>) -> (colors: Vec<Vec<(u8, u8, u8)>>)
        requires
            self.wf(),
            fb@.len() <= self@.drops.height,
            forall|i: int| 0 <= i < fb@.len() ==> (#[trigger] fb@[i])@.len() <= self@.drops.width,
        ensures
            colors@.len() == self@.drops.height,
            forall|i: int|
                0 <= i < self@.drops.height ==> (#[trigger] colors@[i])@.len()
                    == self@.drops.width,
            forall|i: int, j: int|
                0 <= i < self@.drops.height && 0 <= j < self@.drops.width ==> #[trigger] colors@[i]@[j]
                    == if i < fb@.len() && j < fb@[i]@.len() {
                    water_rgb_spec(fb@[i]@[j] as int, self@.desaturation, self@.tint)
                } else {
                    (0u8, 0u8, 0u8)
                },
    {
        let mut colors: Vec<Vec<(u8, u8, u8)>> = Vec::new();
        let mut i: usize = 0;
        while i < self.height
            invariant
                self.wf(),
                i <= self.height,
                fb@.len() <= self.height,
                forall|p: int| 0 <= p < fb@.len() ==> (#[trigger] fb@[p])@.len() <= self.width,
                colors@.len() == i,
                forall|p: int| 0 <= p < i ==> (#[trigger] colors@[p])@.len() == self.width,
                forall|p: int, q: int|
                    0 <= p < i && 0 <= q < self.width ==> #[trigger] colors@[p]@[q] == if p
                        < fb@.len() && q < fb@[p]@.len() {
                        water_rgb_spec(
                            fb@[p]@[q] as int,
                            self.desaturation as int,
                            self.tint as int,
                        )
                    } else {
                        (0u8, 0u8, 0u8)
                    },
            decreases self.height - i,
        {
            let mut row: Vec<(u8, u8, u8)> = Vec::new();
            let mut j: usize = 0;
            while j < self.width
                invariant
                    i < self.height,
                    j <= self.width,
                    fb@.len() <= self.height,
                    i < fb@.len() ==> fb@[i as int]@.len() <= self.width,
                    row@.len() == j,
                    forall|q: int|
                        0 <= q < j ==> #[trigger] row@[q] == if i < fb@.len() && q
                            < fb@[i as int]@.len() {
                            water_rgb_spec(
                                fb@[i as int]@[q] as int,
                                self.desaturation as int,
                                self.tint as int,
                            )
                        } else {
                            (0u8, 0u8, 0u8)
                        },
                decreases self.width - j,
            {
                if i < fb.len() && j < fb[i].len() {
                    row.push(water_rgb(fb[i][j], self.desaturation, self.tint));
                } else {
                    row.push((0, 0, 0));
                }
                j += 1;
            }
            colors.push(row);
            i += 1;
        }
        colors
    }

    /// The colour grid of the current frame: the ripples of all active drops
    /// at the time of the last tick, painted as water.
    pub fn render(&self) -> (grid: Vec<Vec<(u8, u8, u8)>>)
        requires
            self.wf(),
        ensures
            self@.is_frame(grid_view(grid)),
    {
        let field = compute(&self.drops, &self.table, self.width, self.height, self.now);
        let ghost cells = field_view(field);
        proof {
            assert forall|i: int| 0 <= i < field@.len() implies (#[trigger] field@[i])@.len()
                <= self.width by {
                assert(cells[i].len() == self.width);
            }
        }
        let grid = self.wave_to_color(field);
        proof {
            let frame = grid_view(grid);
            assert forall|row: int, col: int|
                0 <= row < self.height && 0 <= col < self.width implies #[trigger] frame[row][col]
                == self@.frame_cell(col, row) by {
                assert(cells[row].len() == self.width);
                assert(cells[row][col] == field@[row]@[col]);
                assert(frame[row][col] == grid@[row]@[col]);
            }
        }
        grid
    }
}

/// A frame is the colouring of the amplitude field of the engine's drops.
pub proof fn lemma_frame_is_colored_field(
    rain: RainView,
    field: Seq<Seq<int>>,
    grid: Seq<Seq<(u8, u8, u8)>>,
)
    requires
        accumulated(
            rain.table,
            rain.drops.drops,
            rain.drops.width,
            rain.drops.height,
            rain.now,
            field,
        ),
        colorized(field, rain.desaturation, rain.tint, grid),
    ensures
        rain.is_frame(grid),
{
    assert forall|row: int, col: int|
        0 <= row < rain.drops.height && 0 <= col < rain.drops.width implies #[trigger] grid[row][col]
        == rain.frame_cell(col, row) by {
        assert(field[row].len() == rain.drops.width);
        assert(grid[row][col] == water_rgb_spec(field[row][col], rain.desaturation, rain.tint));
    }
    assert forall|row: int| 0 <= row < rain.drops.height implies (#[trigger] grid[row]).len()
        == rain.drops.width by {
        assert(field[row].len() == rain.drops.width);
    }
}

} // verus!
