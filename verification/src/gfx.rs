//! Small pieces of screen state: what a key press is, and things that change
//! with time.
//!
//! Nothing here reads a clock. The caller hands in the current time in
//! microseconds, on any clock it likes, and gets durations back in the same
//! unit. Writing speed is counted in millionths of a character per second.

use vstd::prelude::*;
use vstd::string::{StrSliceExecFns, StringExecFns, StringSliceAdditionalSpecFns};
use crate::units::clamp_to;

verus! {

/// A key press, as far as the screens tell keys apart.
#[derive(Debug, Clone, Copy, PartialEq, Eq, Structural)]
pub enum Key {
    Esc,
    Enter,
    Up,
    Down,
    Other,
}

/// A screen of the game: it paints a picture, shows a text beside it, and
/// answers key presses with events of the type `T`.
pub trait ScreenRenderer<T> {
    /// The picture of the screen, row by row.
    fn render(&mut self) -> Vec<Vec<(u8, u8, u8)>>;

    /// The text of the screen.
    fn text(&mut self) -> String;

    /// Width of the text window.
    fn text_window_sz(&self) -> u16;

    /// Handles a key press.
    fn key_event(&mut self, key_code: Key) -> Option<T>;
}

/// Something that is brought up to date once per frame, at the time `now`.
pub trait Updater {
    fn update(&mut self, now: i64);
}

/// A flag that is set until the first update.
pub struct FirstTime {
    pub first_time: bool,
}

impl FirstTime {
    /// A flag that is still set.
    pub fn new() -> (flag: Self)
        ensures
            flag.first_time,
    {
        Self { first_time: true }
    }

    /// Whether no update has happened yet.
    pub fn isit(&self) -> (first: bool)
        ensures
            first == self.first_time,
    {
        self.first_time
    }
}

impl Updater for FirstTime {
    /// Clears the flag.
    fn update(&mut self, now: i64)
        ensures
            !final(self).first_time,
    {
        if self.first_time {
            self.first_time = false;
        }
    }
}

/// The number of characters written after `elapsed` microseconds at `speed`
/// millionths of a character per second.
pub open spec fn chars_written(elapsed: int, speed: int) -> int {
    if elapsed <= 0 {
        0
    } else {
        (elapsed * speed) / 1_000_000_000_000
    }
}

/// The microseconds it takes to write `chars` characters at `speed`
/// millionths of a character per second. Nothing takes no time; at speed zero
/// anything else takes forever, which is the largest duration there is.
pub open spec fn writing_time(chars: int, speed: int) -> int {
    if chars <= 0 {
        0
    } else if speed <= 0 {
        u64::MAX as int
    } else {
        clamp_to((chars * 1_000_000_000_000) / speed, 0, u64::MAX as int)
    }
}

/// The length of a text in bytes, as UTF-8.
pub open spec fn byte_len(text: Seq<char>) -> usize {
    vstd::utf8::encode_utf8(text).len() as usize
}

/// Text that appears letter by letter.
pub struct TextHelper {
    /// The text that is being written, if any.
    pub text: Option<String>,
    /// When writing began.
    pub text_delay_timer: i64,
    /// Millionths of a character written per second.
    pub write_speed: u64,
    /// When the whole text was first seen to be written.
    pub end_of_writing: Option<i64>,
}

impl TextHelper {
    /// The number of characters that are visible at the time `now`.
    pub open spec fn chars_visible(&self, now: int) -> int {
        clamp_to(
            chars_written(now - self.text_delay_timer, self.write_speed as int),
            0,
            usize::MAX as int,
        )
    }

    /// Whether the whole text counts as written at the time `now`. The
    /// count of visible characters is held against the length of the text
    /// in bytes.
    pub open spec fn complete(&self, now: int) -> bool {
        self.text matches Some(t) && self.chars_visible(now) >= byte_len(t@)
    }

    /// The part of the text that is visible at the time `now`: all of it
    /// once it counts as written, its first characters before that; nothing
    /// where there is no text.
    pub open spec fn visible_text(&self, now: int) -> Seq<char> {
        match self.text {
            Some(t) => if self.complete(now) {
                t@
            } else {
                t@.take(vstd::math::min(self.chars_visible(now), t@.len() as int))
            },
            None => Seq::empty(),
        }
    }

    /// The end of writing as it is recorded after a look at the time `now`:
    /// the first look that finds the text written records its own time.
    pub open spec fn end_seen(&self, now: i64) -> Option<i64> {
        if self.complete(now as int) && self.end_of_writing is None {
            Some(now)
        } else {
            self.end_of_writing
        }
    }

    /// A helper without text. Writing speed is `write_speed`; the clock of
    /// the next text starts at `now`.
    pub fn new(write_speed: u64, now: i64) -> (helper: Self)
        ensures
            helper == (TextHelper {
                text: None,
                text_delay_timer: now,
                write_speed,
                end_of_writing: None,
            }),
    {
        Self { text: None, write_speed, text_delay_timer: now, end_of_writing: None }
    }

    /// A helper that starts to write `text` at the time `now`.
    pub fn with_text(write_speed: u64, text: String, now: i64) -> (helper: Self)
        ensures
            helper == (TextHelper {
                text: Some(text),
                text_delay_timer: now,
                write_speed,
                end_of_writing: None,
            }),
    {
        Self { text: Some(text), write_speed, text_delay_timer: now, end_of_writing: None }
    }

    /// Starts to write `text` at the time `now`.
    pub fn new_text(&mut self, text: String, now: i64)
        ensures
            *final(self) == (TextHelper {
                text: Some(text),
                text_delay_timer: now,
                write_speed: old(self).write_speed,
                end_of_writing: None,
            }),
    {
        self.text = Some(text);
        self.text_delay_timer = now;
        self.end_of_writing = None;
    }

    /// The number of characters that are visible at the time `now`.
    pub fn chars_to_show(&self, now: i64) -> (chars: usize)
        ensures
            chars == self.chars_visible(now as int),
    {
        let elapsed: i128 = (now as i128) - (self.text_delay_timer as i128);
        if elapsed <= 0 {
            return 0;
        }
        let span: u128 = elapsed as u128;
        let speed: u128 = self.write_speed as u128;
        assert(span * speed <= 0xffff_ffff_ffff_ffff * 0xffff_ffff_ffff_ffff) by (nonlinear_arith)
            requires
                0 <= span <= 0xffff_ffff_ffff_ffff,
                0 <= speed <= 0xffff_ffff_ffff_ffff,
        ;
        let written: u128 = (span * speed) / 1_000_000_000_000;
        if written > usize::MAX as u128 {
            usize::MAX
        } else {
            written as usize
        }
    }

    /// When the whole text was first seen to be written, if it is written at
    /// the time `now`. The first call that sees the text complete records
    /// its own time.
    pub fn text_reached_end(&mut self, now: i64) -> (end: Option<i64>)
        ensures
            old(self).text is None ==> end is None && *final(self) == *old(self),
            old(self).text is Some ==> end == old(self).end_seen(now) && *final(self) == (
                TextHelper { end_of_writing: end, ..*old(self) }
            ),
    {
        let is_end = match &self.text {
            None => {
                return None;
            },
            Some(text) => self.chars_to_show(now) >= text.as_str().len(),
        };
        if is_end && self.end_of_writing.is_none() {
            self.end_of_writing = Some(now);
        }
        self.end_of_writing
    }

    /// The part of the text that is visible at the time `now`: all of it once
    /// the count of visible characters reaches its length in bytes, its
    /// first characters before that.
    pub fn get_text(&mut self, now: i64) -> (shown: Option<String>)
        ensures
            *final(self) == *old(self),
            old(self).text is None ==> shown is None,
            old(self).text is Some ==> (shown matches Some(s) && s@ == old(self).visible_text(
                now as int,
            )),
    {
        match &self.text {
            Some(text) => {
                let chars_to_show = self.chars_to_show(now);
                if chars_to_show >= text.as_str().len() {
                    return Some(text.clone());
                }
                let available = text.as_str().unicode_len();
                let count = if chars_to_show < available {
                    chars_to_show
                } else {
                    available
                };
                let prefix = text.as_str().substring_char(0, count);
                assert(prefix@ =~= text@.take(count as int));
                Some(String::from_str(prefix))
            },
            None => None,
        }
    }

    /// The microseconds it takes from `now` to write the rest of the text.
    pub fn time_to_finish(&self, now: i64) -> (left: u64)
        ensures
            self.text is None ==> left == 0,
            self.text matches Some(t) ==> left == writing_time(
                byte_len(t@) - self.chars_visible(now as int),
                self.write_speed as int,
            ),
    {
        match &self.text {
            None => 0,
            Some(text) => {
                let length = text.as_str().len();
                let shown = self.chars_to_show(now);
                if shown >= length {
                    return 0;
                }
                if self.write_speed == 0 {
                    return u64::MAX;
                }
                let chars_left: u128 = (length - shown) as u128;
                assert(chars_left * 1_000_000_000_000 <= 0xffff_ffff_ffff_ffff
                    * 1_000_000_000_000) by (nonlinear_arith)
                    requires
                        0 <= chars_left <= 0xffff_ffff_ffff_ffff,
                ;
                let time: u128 = (chars_left * 1_000_000_000_000) / (self.write_speed as u128);
                if time > u64::MAX as u128 {
                    u64::MAX
                } else {
                    time as u64
                }
            },
        }
    }
}

/// Something that is visible and hidden in turn.
pub struct Blink {
    blink_interval: u64,
    last_blink_time: i64,
    pub is_visible: bool,
}

/// A blinker as a mathematical value.
pub struct BlinkView {
    /// Microseconds between two changes.
    pub blink_interval: u64,
    /// The time of the last change.
    pub last_blink_time: i64,
    pub is_visible: bool,
}

impl BlinkView {
    /// Whether a change is due at the time `now`: more than the interval has
    /// passed since the last one.
    pub open spec fn due(self, now: int) -> bool {
        now - self.last_blink_time > self.blink_interval
    }
}

impl View for Blink {
    type V = BlinkView;

    closed spec fn view(&self) -> BlinkView {
        BlinkView {
            blink_interval: self.blink_interval,
            last_blink_time: self.last_blink_time,
            is_visible: self.is_visible,
        }
    }
}

impl Blink {
    /// Something visible that changes every `blink_interval` microseconds,
    /// counted from `now`.
    pub fn new(blink_interval: u64, now: i64) -> (blink: Self)
        ensures
            blink@ == (BlinkView { blink_interval, last_blink_time: now, is_visible: true }),
    {
        Self { blink_interval, last_blink_time: now, is_visible: true }
    }

    /// Whether it is visible.
    pub fn visible(&self) -> (visible: bool)
        ensures
            visible == self@.is_visible,
    {
        self.is_visible
    }
}

impl Updater for Blink {
    /// Changes between visible and hidden if a change is due.
    fn update(&mut self, now: i64)
        ensures
            final(self)@ == if old(self)@.due(now as int) {
                BlinkView {
                    is_visible: !old(self)@.is_visible,
                    last_blink_time: now,
                    ..old(self)@
                }
            } else {
                old(self)@
            },
    {
        if (now as i128) - (self.last_blink_time as i128) > (self.blink_interval as i128) {
            self.is_visible = !self.is_visible;
            self.last_blink_time = now;
        }
    }
}

/// A timer that goes off once, or again and again.
pub struct Timer {
    start_time: Option<i64>,
    trigger_time: u64,
    periodical: bool,
}

/// A timer as a mathematical value.
pub struct TimerView {
    /// When the timer was started, if it was.
    pub start_time: Option<i64>,
    /// Microseconds from the start until the timer goes off.
    pub trigger_time: u64,
    /// Whether the timer starts again when it has gone off.
    pub periodical: bool,
}

impl TimerView {
    /// Whether the timer goes off at the time `now`: it was started, and more
    /// than the trigger time has passed since.
    pub open spec fn triggers(self, now: int) -> bool {
        self.start_time matches Some(start) && now - start > self.trigger_time
    }
}

impl View for Timer {
    type V = TimerView;

    closed spec fn view(&self) -> TimerView {
        TimerView {
            start_time: self.start_time,
            trigger_time: self.trigger_time,
            periodical: self.periodical,
        }
    }
}

impl Timer {
    /// A timer that has not been started.
    pub fn new(trigger_time: u64, periodical: bool) -> (timer: Self)
        ensures
            timer@ == (TimerView { start_time: None, trigger_time, periodical }),
    {
        Self { trigger_time, start_time: None, periodical }
    }

    /// Starts the timer at the time `now`.
    pub fn reset(&mut self, now: i64)
        ensures
            final(self)@ == (TimerView { start_time: Some(now), ..old(self)@ }),
    {
        self.start_time = Some(now);
    }

    /// Whether the timer goes off at the time `now`. A periodical timer that
    /// goes off starts again at `now`; any other timer stays as it is.
    pub fn is_trigger(&mut self, now: i64) -> (triggered: bool)
        ensures
            triggered == old(self)@.triggers(now as int),
            final(self)@ == if triggered && old(self)@.periodical {
                TimerView { start_time: Some(now), ..old(self)@ }
            } else {
                old(self)@
            },
    {
        if let Some(start_time) = self.start_time {
            if (now as i128) - (start_time as i128) > (self.trigger_time as i128) {
                if self.periodical {
                    self.start_time = Some(now);
                }
                return true;
            }
        }
        false
    }
}

} // verus!
