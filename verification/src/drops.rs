//! The drops that are currently rippling.
//!
//! A `DropSet` spawns a new drop at a random grid position whenever more than
//! the spawn cadence has passed since the last spawn, and forgets every drop
//! that has reached its time to live. Time is handed in by the caller, in
//! microseconds on a clock of the caller's choosing; a fresh set behaves as if
//! its last spawn lay a thousand seconds before time zero. Every set has a
//! random generator of its own, so that sets do not disturb each other's
//! sequences of cells.

use vstd::prelude::*;
use rand::rngs::StdRng;
use rand::RngExt;

verus! {

/// `rand`'s standard generator. Opaque here: a set owns one and so draws
/// its cells from a sequence of its own.
#[verifier::external_type_specification]
#[verifier::external_body]
pub struct ExStdRng(StdRng);

/// Calls `rand::make_rng`, which makes a new generator with a seed of its
/// own. Nothing is claimed of it.
#[verifier::external_body]
fn own_generator() -> StdRng {
    rand::make_rng()
}

/// Calls `RngExt::random_range` on `0..bound`. The call panics on an empty
/// range, so the bound must be positive; the value it returns lies in the
/// range. Which value comes back is left open.
#[verifier::external_body]
fn random_below(rng: &mut StdRng, bound: usize) -> (r: usize)
    requires
        bound > 0,
    ensures
        r < bound,
{
    rng.random_range(0..bound)
}

/// The time of the last spawn of a set that has not spawned yet.
pub const NEVER_SPAWNED: i64 = -1_000_000_000;

/// One ripple source: a grid cell, the time it fell, and its wave number.
#[derive(Clone, Copy, Debug, PartialEq, Eq, Structural)]
pub struct RainDrop {
    pub x: usize,
    pub y: usize,
    pub t: i64,
    pub k: u32,
}

impl RainDrop {
    /// A drop with wave number `k` that falls on `(x, y)` at the time `now`.
    pub fn new(k: u32, x: usize, y: usize, now: i64) -> (drop: RainDrop)
        ensures
            drop == (RainDrop { x, y, t: now, k }),
    {
        RainDrop { x, y, k, t: now }
    }

    /// The time since the drop fell, in microseconds.
    pub open spec fn age(self, now: int) -> int {
        now - self.t
    }
}

/// The predicate "has not yet reached its time to live at `now`".
pub open spec fn alive_at(now: int, time_to_live: int) -> spec_fn(RainDrop) -> bool {
    |drop: RainDrop| drop.age(now) < time_to_live
}

/// More than `cadence` has passed between `last` and `now`.
pub open spec fn spawn_due(last: int, cadence: int, now: int) -> bool {
    now - last > cadence
}

/// A drop set as a mathematical value.
pub struct DropSetView {
    /// The active drops, oldest first.
    pub drops: Seq<RainDrop>,
    /// Microseconds a drop stays active.
    pub time_to_live: int,
    /// Microseconds that must have passed before the next spawn.
    pub spawn_cadence: int,
    /// Time of the last spawn.
    pub last_spawn_at: int,
    /// Size of the grid that drops fall on.
    pub width: int,
    pub height: int,
    /// Wave number given to new drops.
    pub wave_number: u32,
}

impl DropSetView {
    /// Every drop lies on the grid.
    pub open spec fn in_grid(self) -> bool {
        forall|i: int|
            0 <= i < self.drops.len() ==> (#[trigger] self.drops[i]).x < self.width
                && self.drops[i].y < self.height
    }

    /// No drop has reached its time to live at `now`.
    pub open spec fn all_alive(self, now: int) -> bool {
        forall|i: int|
            0 <= i < self.drops.len() ==> (#[trigger] self.drops[i]).age(now) < self.time_to_live
    }

    /// Every drop has reached its time to live at `now`.
    pub open spec fn none_alive(self, now: int) -> bool {
        forall|i: int|
            0 <= i < self.drops.len() ==> (#[trigger] self.drops[i]).age(now) >= self.time_to_live
    }

    /// A spawn is due at `now`.
    pub open spec fn due(self, now: int) -> bool {
        spawn_due(self.last_spawn_at, self.spawn_cadence, now)
    }

    /// The set after a drop has fallen on `(x, y)` at `now`.
    pub open spec fn with_drop(self, now: i64, x: usize, y: usize) -> DropSetView {
        DropSetView {
            drops: self.drops.push(RainDrop { x, y, t: now, k: self.wave_number }),
            last_spawn_at: now as int,
            ..self
        }
    }

    /// The set after the spawn step at `now`, where a due drop falls on `(x, y)`.
    pub open spec fn spawned(self, now: i64, x: usize, y: usize) -> DropSetView {
        if self.due(now as int) {
            self.with_drop(now, x, y)
        } else {
            self
        }
    }

    /// The set after the expiry step at `now`: the drops that are still
    /// alive, in their old order.
    pub open spec fn without_expired(self, now: int) -> DropSetView {
        DropSetView { drops: self.drops.filter(alive_at(now, self.time_to_live)), ..self }
    }

    /// The set after one advance at `now`, where a due drop falls on `(x, y)`.
    pub open spec fn advanced(self, now: i64, x: usize, y: usize) -> DropSetView {
        self.spawned(now, x, y).without_expired(now as int)
    }
}

/// After the expiry step no drop has reached its time to live, drops that
/// were on the grid still are, and nothing but the drops has changed.
pub proof fn lemma_without_expired(v: DropSetView, now: int)
    ensures
        v.without_expired(now).all_alive(now),
        v.in_grid() ==> v.without_expired(now).in_grid(),
        v.without_expired(now).drops.len() <= v.drops.len(),
        v.all_alive(now) ==> v.without_expired(now) == v,
{
    let pred = alive_at(now, v.time_to_live);
    let kept = v.drops.filter(pred);
    broadcast use vstd::seq_lib::group_filter_ensures;

    assert forall|i: int| 0 <= i < kept.len() implies (#[trigger] kept[i]).age(now)
        < v.time_to_live by {
        assert(pred(kept[i]));
    }
    if v.in_grid() {
        assert forall|i: int| 0 <= i < kept.len() implies (#[trigger] kept[i]).x < v.width
            && kept[i].y < v.height by {
            assert(kept.contains(kept[i]));
            v.drops.lemma_filter_contains_rev(pred, kept[i]);
            let j = choose|j: int| 0 <= j < v.drops.len() && v.drops[j] == kept[i];
            assert(v.drops[j].x < v.width);
        }
    }
    if v.all_alive(now) {
        lemma_filter_all(v.drops, pred);
    }
}

/// Filtering by a predicate that holds of every element changes nothing.
pub proof fn lemma_filter_all(s: Seq<RainDrop>, pred: spec_fn(RainDrop) -> bool)
    requires
        forall|i: int| 0 <= i < s.len() ==> pred(#[trigger] s[i]),
    ensures
        s.filter(pred) == s,
    decreases s.len(),
{
    reveal(Seq::filter);
    if s.len() > 0 {
        lemma_filter_all(s.drop_last(), pred);
        assert(s.drop_last().push(s.last()) =~= s);
    }
}

/// A run of advances: the times at which they happen and, for each, the cell
/// that a drop falls on if one is due.
pub struct Run {
    pub nows: Seq<i64>,
    pub cells: Seq<(usize, usize)>,
}

impl Run {
    /// Every advance has its cell.
    pub open spec fn wf(self) -> bool {
        self.nows.len() == self.cells.len()
    }

    /// The times never go backwards.
    pub open spec fn non_decreasing(self) -> bool {
        forall|i: int, j: int| 0 <= i <= j < self.nows.len() ==> self.nows[i] <= self.nows[j]
    }

    /// The run without its last advance.
    pub open spec fn drop_last(self) -> Run {
        Run { nows: self.nows.drop_last(), cells: self.cells.drop_last() }
    }
}

impl DropSetView {
    /// The set after the advances of `run`, in order.
    pub open spec fn after(self, run: Run) -> DropSetView
        decreases run.nows.len(),
    {
        if run.nows.len() == 0 {
            self
        } else {
            self.after(run.drop_last()).advanced(
                run.nows.last(),
                run.cells.last().0,
                run.cells.last().1,
            )
        }
    }

    /// The number of advances of `run` in which a drop falls.
    pub open spec fn spawns_during(self, run: Run) -> int
        decreases run.nows.len(),
    {
        if run.nows.len() == 0 {
            0
        } else {
            self.spawns_during(run.drop_last()) + if self.after(run.drop_last()).due(
                run.nows.last() as int,
            ) {
                1int
            } else {
                0int
            }
        }
    }
}

proof fn lemma_spawn_spacing(v: DropSetView, run: Run)
    requires
        v.spawn_cadence > 0,
        run.wf(),
        run.nows.len() > 0,
        run.non_decreasing(),
    ensures
        v.after(run).spawn_cadence == v.spawn_cadence,
        0 <= v.spawns_during(run) <= run.nows.len(),
        v.spawns_during(run) >= 1 ==> run.nows[0] + (v.spawns_during(run) - 1) * v.spawn_cadence
            <= v.after(run).last_spawn_at <= run.nows.last(),
        v.spawns_during(run) == 0 ==> v.after(run).last_spawn_at == v.last_spawn_at,
    decreases run.nows.len(),
{
    let head = run.drop_last();
    let now = run.nows.last();
    if head.nows.len() == 0 {
        assert(v.after(head) == v);
        assert(v.spawns_during(head) == 0);
        assert(run.nows[0] == now);
    } else {
        assert(head.non_decreasing());
        lemma_spawn_spacing(v, head);
        let count = v.spawns_during(head);
        let before = v.after(head).last_spawn_at;
        assert(head.nows[0] == run.nows[0]);
        assert(head.nows.last() == run.nows[run.nows.len() - 2]);
        assert(head.nows.last() <= now);
        if v.after(head).due(now as int) {
            if count >= 1 {
                assert(run.nows[0] + count * v.spawn_cadence <= now) by (nonlinear_arith)
                    requires
                        run.nows[0] + (count - 1) * v.spawn_cadence <= before,
                        now - before > v.spawn_cadence,
                ;
            }
        }
    }
}

/// Spawns keep their distance.
///
/// Over any run of advances at non-decreasing times, with a positive
/// cadence, the number of spawns is at most the number of whole cadences
/// between the first and the last advance, plus one.
pub proof fn lemma_spawn_rate(v: DropSetView, run: Run)
    requires
        v.spawn_cadence > 0,
        run.wf(),
        run.nows.len() > 0,
        run.non_decreasing(),
    ensures
        v.spawns_during(run) <= (run.nows.last() - run.nows.first()) / v.spawn_cadence + 1,
{
    lemma_spawn_spacing(v, run);
    let count = v.spawns_during(run);
    let span = run.nows.last() - run.nows.first();
    let cadence = v.spawn_cadence;
    assert(span >= 0);
    if count >= 1 {
        assert(count - 1 <= span / cadence) by (nonlinear_arith)
            requires
                (count - 1) * cadence <= span,
                cadence > 0,
                count >= 1,
        ;
    } else {
        assert(span / cadence >= 0) by (nonlinear_arith)
            requires
                span >= 0,
                cadence > 0,
        ;
    }
}

/// Filtering a single element keeps it or not.
proof fn lemma_filter_single(drop: RainDrop, pred: spec_fn(RainDrop) -> bool)
    ensures
        seq![drop].filter(pred) == if pred(drop) {
            seq![drop]
        } else {
            Seq::<RainDrop>::empty()
        },
{
    reveal_with_fuel(Seq::filter, 2);
    assert(seq![drop].drop_last() =~= Seq::<RainDrop>::empty());
    assert(Seq::<RainDrop>::empty().push(drop) =~= seq![drop]);
}

/// Every element that a filter keeps comes from the sequence it was given.
proof fn lemma_filtered_from(s: Seq<RainDrop>, pred: spec_fn(RainDrop) -> bool)
    ensures
        forall|i: int| 0 <= i < s.filter(pred).len() ==> s.contains(#[trigger] s.filter(pred)[i]),
{
    let kept = s.filter(pred);
    assert forall|i: int| 0 <= i < kept.len() implies s.contains(#[trigger] kept[i]) by {
        assert(kept.contains(kept[i]));
        s.lemma_filter_contains_rev(pred, kept[i]);
    }
}

/// The drops after an advance: the old drops that are still alive, in their
/// old order, and after them the new drop, if one was due and drops live at
/// all.
pub proof fn lemma_advanced_drops(v: DropSetView, now: i64, x: usize, y: usize)
    ensures
        v.advanced(now, x, y).drops == v.without_expired(now as int).drops + if v.due(now as int)
            && v.time_to_live > 0 {
            seq![RainDrop { x, y, t: now, k: v.wave_number }]
        } else {
            Seq::<RainDrop>::empty()
        },
        v.advanced(now, x, y).last_spawn_at == if v.due(now as int) {
            now as int
        } else {
            v.last_spawn_at
        },
        forall|i: int|
            0 <= i < v.without_expired(now as int).drops.len() ==> v.drops.contains(
                #[trigger] v.without_expired(now as int).drops[i],
            ),
{
    let pred = alive_at(now as int, v.time_to_live);
    let kept = v.drops.filter(pred);
    let drop = RainDrop { x, y, t: now, k: v.wave_number };
    lemma_filtered_from(v.drops, pred);
    if v.due(now as int) {
        assert(v.drops.push(drop) =~= v.drops + seq![drop]);
        Seq::filter_distributes_over_add(v.drops, seq![drop], pred);
        lemma_filter_single(drop, pred);
        assert(pred(drop) == (v.time_to_live > 0));
    } else {
        assert(kept =~= kept + Seq::<RainDrop>::empty());
    }
}

/// An advance never makes more than one drop, and none unless one is due.
/// A drop that is made is the youngest, and stays unless drops do not live
/// at all.
pub proof fn lemma_one_spawn_per_advance(v: DropSetView, now: i64, x: usize, y: usize)
    ensures
        v.advanced(now, x, y).drops.len() <= v.drops.len() + if v.due(now as int) {
            1int
        } else {
            0int
        },
        v.due(now as int) && v.time_to_live > 0 ==> v.advanced(now, x, y).drops.len() >= 1
            && v.advanced(now, x, y).drops.last() == (RainDrop {
            x,
            y,
            t: now,
            k: v.wave_number,
        }),
{
    lemma_advanced_drops(v, now, x, y);
    v.drops.lemma_filter_len(alive_at(now as int, v.time_to_live));
}

/// Where no drop has reached its time to live, an advance keeps all drops
/// as they are; a new drop comes after them.
pub proof fn lemma_advance_keeps_the_living(v: DropSetView, now: i64, x: usize, y: usize)
    requires
        v.all_alive(now as int),
    ensures
        v.advanced(now, x, y).drops.len() >= v.drops.len(),
        v.advanced(now, x, y).drops.take(v.drops.len() as int) == v.drops,
{
    lemma_advanced_drops(v, now, x, y);
    lemma_filter_all(v.drops, alive_at(now as int, v.time_to_live));
    assert(v.advanced(now, x, y).drops.take(v.drops.len() as int) =~= v.drops);
}

/// Filtering by a predicate that holds of no element leaves nothing.
pub proof fn lemma_filter_none(s: Seq<RainDrop>, pred: spec_fn(RainDrop) -> bool)
    requires
        forall|i: int| 0 <= i < s.len() ==> !pred(#[trigger] s[i]),
    ensures
        s.filter(pred) == Seq::<RainDrop>::empty(),
{
    let kept = s.filter(pred);
    if kept.len() > 0 {
        s.lemma_filter_pred(pred, 0);
        assert(kept.contains(kept[0]));
        s.lemma_filter_contains_rev(pred, kept[0]);
        let j = choose|j: int| 0 <= j < s.len() && s[j] == kept[0];
        assert(!pred(s[j]));
    }
    assert(kept =~= Seq::<RainDrop>::empty());
}

/// Where every drop has reached its time to live, an advance leaves none of
/// them; only a new drop is active after it.
pub proof fn lemma_advance_drops_the_dead(v: DropSetView, now: i64, x: usize, y: usize)
    requires
        v.none_alive(now as int),
    ensures
        v.advanced(now, x, y).drops.len() == if v.due(now as int) && v.time_to_live > 0 {
            1int
        } else {
            0int
        },
{
    lemma_advanced_drops(v, now, x, y);
    lemma_filter_none(v.drops, alive_at(now as int, v.time_to_live));
}

/// After an advance every drop but a new one was active before.
pub proof fn lemma_advance_makes_nothing_else(v: DropSetView, now: i64, x: usize, y: usize)
    ensures
        forall|i: int|
            0 <= i < v.advanced(now, x, y).drops.len() - if v.due(now as int) && v.time_to_live
                > 0 {
                1int
            } else {
                0int
            } ==> v.drops.contains(#[trigger] v.advanced(now, x, y).drops[i]),
{
    lemma_advanced_drops(v, now, x, y);
    let kept = v.without_expired(now as int).drops;
    let after = v.advanced(now, x, y).drops;
    assert forall|i: int| 0 <= i < kept.len() implies v.drops.contains(#[trigger] after[i]) by {
        assert(after[i] == kept[i]);
    }
}

/// Drops go when their time is up, and only then.
///
/// After an advance at `now`, a drop whose age has reached the time to live
/// is not among the active drops, and a drop that was active before and is
/// younger than that still is.
pub proof fn lemma_expired_drop_is_gone(
    v: DropSetView,
    now: i64,
    x: usize,
    y: usize,
    drop: RainDrop,
)
    ensures
        drop.age(now as int) >= v.time_to_live ==> !v.advanced(now, x, y).drops.contains(drop),
        drop.age(now as int) < v.time_to_live && v.drops.contains(drop) ==> v.advanced(
            now,
            x,
            y,
        ).drops.contains(drop),
{
    let before = v.spawned(now, x, y);
    let after = v.advanced(now, x, y);
    lemma_without_expired(before, now as int);
    if after.drops.contains(drop) {
        let i = choose|i: int| 0 <= i < after.drops.len() && after.drops[i] == drop;
        assert(after.drops[i].age(now as int) < after.time_to_live);
    }
    if drop.age(now as int) < v.time_to_live && v.drops.contains(drop) {
        let pred = alive_at(now as int, v.time_to_live);
        let i = choose|i: int| 0 <= i < v.drops.len() && v.drops[i] == drop;
        assert(before.drops[i] == drop);
        assert(pred(before.drops[i]));
        before.drops.lemma_filter_contains(pred, i);
    }
}

/// What an advance at `now` makes of the drops, whatever cell a new drop
/// falls on. At most one drop is new, and only if one was due; it is the
/// last, unless drops do not live at all. Where no old drop has reached its
/// time to live, all of them stay in place; where all of them have, none
/// stays.
pub open spec fn advance_outcome(before: DropSetView, now: i64, after: DropSetView) -> bool {
    let spawned = if before.due(now as int) {
        1int
    } else {
        0int
    };
    let stays = if before.due(now as int) && before.time_to_live > 0 {
        1int
    } else {
        0int
    };
    &&& after.all_alive(now as int)
    &&& after.drops.len() <= before.drops.len() + spawned
    &&& stays == 1 ==> after.drops.len() >= 1 && after.drops.last().t == now
    &&& before.all_alive(now as int) ==> after.drops.len() == before.drops.len() + stays
        && after.drops.take(before.drops.len() as int) == before.drops
    &&& before.none_alive(now as int) ==> after.drops.len() == stays
}

/// Every advance has the outcome that `advance_outcome` describes.
pub proof fn lemma_advance_outcome(v: DropSetView, now: i64, x: usize, y: usize)
    ensures
        advance_outcome(v, now, v.advanced(now, x, y)),
{
    lemma_without_expired(v.spawned(now, x, y), now as int);
    lemma_one_spawn_per_advance(v, now, x, y);
    if v.all_alive(now as int) {
        lemma_advance_keeps_the_living(v, now, x, y);
        lemma_advanced_drops(v, now, x, y);
        lemma_filter_all(v.drops, alive_at(now as int, v.time_to_live));
    }
    if v.none_alive(now as int) {
        lemma_advance_drops_the_dead(v, now, x, y);
    }
}

/// The active drops of one grid, with the rules by which they come and go.
pub struct DropSet {
    rain_drop_ttl: u64,
    rain_drop_velocity: u64,
    k: u32,
    width: usize,
    height: usize,
    rain_drops: Vec<RainDrop>,
    rng: StdRng,
    last_drop_added: i64,
}

impl View for DropSet {
    type V = DropSetView;

    closed spec fn view(&self) -> DropSetView {
        DropSetView {
            drops: self.rain_drops@,
            time_to_live: self.rain_drop_ttl as int,
            spawn_cadence: self.rain_drop_velocity as int,
            last_spawn_at: self.last_drop_added as int,
            width: self.width as int,
            height: self.height as int,
            wave_number: self.k,
        }
    }
}

impl DropSet {
    /// The grid is not empty and every drop lies on it.
    pub open spec fn wf(&self) -> bool {
        &&& self@.width > 0
        &&& self@.height > 0
        &&& self@.in_grid()
    }

    /// An empty set for a grid of `width` by `height` cells. Drops stay for
    /// `rain_drop_ttl` microseconds; one falls when more than
    /// `rain_drop_velocity` microseconds have passed since the last.
    pub fn new(
        width: usize,
        height: usize,
        rain_drop_ttl: u64,
        rain_drop_velocity: u64,
        k: u32,
    ) -> (set: DropSet)
        requires
            width > 0,
            height > 0,
        ensures
            set.wf(),
            set@ == (DropSetView {
                drops: Seq::empty(),
                time_to_live: rain_drop_ttl as int,
                spawn_cadence: rain_drop_velocity as int,
                last_spawn_at: NEVER_SPAWNED as int,
                width: width as int,
                height: height as int,
                wave_number: k,
            }),
    {
        DropSet {
            rain_drop_ttl,
            rain_drop_velocity,
            k,
            width,
            height,
            rain_drops: Vec::new(),
            rng: own_generator(),
            last_drop_added: NEVER_SPAWNED,
        }
    }

    /// Whether a spawn is due at `now`.
    pub fn spawn_is_due(&self, now: i64) -> (due: bool)
        ensures
            due == self@.due(now as int),
    {
        (now as i128) - (self.last_drop_added as i128) > (self.rain_drop_velocity as i128)
    }

    /// Lets a drop fall on `(x, y)` at `now`, due or not.
    pub fn add_rain_drop(&mut self, now: i64, x: usize, y: usize)
        requires
            old(self).wf(),
            x < old(self)@.width,
            y < old(self)@.height,
        ensures
            final(self).wf(),
            final(self)@ == old(self)@.with_drop(now, x, y),
    {
        self.rain_drops.push(RainDrop::new(self.k, x, y, now));
        self.last_drop_added = now;
    }

    /// The spawn step: if a spawn is due at `now`, a drop falls on a random
    /// cell of the grid.
    pub fn add_rain_drop_if_time_elapsed(&mut self, now: i64)
        requires
            old(self).wf(),
        ensures
            final(self).wf(),
            exists|x: usize, y: usize|
                x < old(self)@.width && y < old(self)@.height && final(self)@ == #[trigger] old(
                    self,
                )@.spawned(now, x, y),
    {
        if self.spawn_is_due(now) {
            let width = self.width;
            let height = self.height;
            let x = random_below(&mut self.rng, width);
            let y = random_below(&mut self.rng, height);
            self.add_rain_drop(now, x, y);
            assert(self@ == old(self)@.spawned(now, x, y));
        } else {
            assert(self@ == old(self)@.spawned(now, 0, 0));
        }
    }

    /// The expiry step: forgets every drop that has reached its time to live
    /// at `now`. The others keep their order.
    pub fn remove_rain_drops_based_on_time(&mut self, now: i64)
        requires
            old(self).wf(),
        ensures
            final(self).wf(),
            final(self)@ == old(self)@.without_expired(now as int),
            final(self)@.all_alive(now as int),
    {
        let ghost pred = alive_at(now as int, self.rain_drop_ttl as int);
        let ghost before = self.rain_drops@;
        let mut kept: Vec<RainDrop> = Vec::new();
        let mut i: usize = 0;
        proof {
            reveal(Seq::filter);
            assert(before.take(0) =~= Seq::<RainDrop>::empty());
        }
        while i < self.rain_drops.len()
            invariant
                i <= before.len(),
                before == self.rain_drops@,
                pred == alive_at(now as int, self.rain_drop_ttl as int),
                kept@ == before.take(i as int).filter(pred),
            decreases before.len() - i,
        {
            let drop = self.rain_drops[i];
            proof {
                reveal(Seq::filter);
                assert(before.take(i + 1).drop_last() =~= before.take(i as int));
                assert(before.take(i + 1).last() == drop);
            }
            if (now as i128) - (drop.t as i128) < (self.rain_drop_ttl as i128) {
                kept.push(drop);
            }
            i += 1;
        }
        proof {
            assert(before.take(before.len() as int) =~= before);
            lemma_without_expired(old(self)@, now as int);
        }
        self.rain_drops = kept;
    }

    /// One advance at `now`: the spawn step, then the expiry step. Both run
    /// on every call.
    pub fn advance(&mut self, now: i64)
        requires
            old(self).wf(),
        ensures
            final(self).wf(),
            exists|x: usize, y: usize|
                x < old(self)@.width && y < old(self)@.height && final(self)@ == #[trigger] old(
                    self,
                )@.advanced(now, x, y),
            advance_outcome(old(self)@, now, final(self)@),
    {
        self.add_rain_drop_if_time_elapsed(now);
        let ghost (x, y) = choose|x: usize, y: usize|
            x < old(self)@.width && y < old(self)@.height && self@ == #[trigger] old(
                self,
            )@.spawned(now, x, y);
        self.remove_rain_drops_based_on_time(now);
        proof {
            lemma_advance_outcome(old(self)@, now, x, y);
        }
    }

    /// The active drops, oldest first.
    pub fn active_drops(&self) -> (drops: &Vec<RainDrop>)
        ensures
            drops@ == self@.drops,
    {
        &self.rain_drops
    }

    /// Width of the grid.
    pub fn width(&self) -> (w: usize)
        ensures
            w == self@.width,
    {
        self.width
    }

    /// Height of the grid.
    pub fn height(&self) -> (h: usize)
        ensures
            h == self@.height,
    {
        self.height
    }
}

} // verus!
