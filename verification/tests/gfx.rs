use call_of_cthulhu::gfx::{Blink, FirstTime, TextHelper, Timer, Updater};

#[test]
fn first_time_is_set_until_the_first_update() {
    let mut flag = FirstTime::new();
    assert!(flag.isit());
    assert!(flag.first_time);
    flag.update(0);
    assert!(!flag.isit());
    flag.update(1);
    assert!(!flag.isit());
}

#[test]
fn blink_changes_after_more_than_the_interval() {
    let mut blink = Blink::new(500_000, 1_000);
    assert!(blink.visible());
    blink.update(1_000);
    assert!(blink.visible());
    blink.update(501_000);
    assert!(blink.visible());
    blink.update(501_001);
    assert!(!blink.visible());
    assert!(!blink.is_visible);
    // the interval counts from the change
    blink.update(1_001_001);
    assert!(!blink.visible());
    blink.update(1_001_002);
    assert!(blink.visible());
    blink.update(0);
    assert!(blink.visible());
}

#[test]
fn a_timer_that_was_not_started_never_goes_off() {
    let mut timer = Timer::new(0, false);
    assert!(!timer.is_trigger(0));
    assert!(!timer.is_trigger(i64::MAX));
    let mut timer = Timer::new(0, true);
    assert!(!timer.is_trigger(i64::MAX));
}

#[test]
fn a_single_timer_goes_off_and_stays_off() {
    let mut timer = Timer::new(1_000_000, false);
    timer.reset(5_000_000);
    assert!(!timer.is_trigger(5_000_000));
    assert!(!timer.is_trigger(6_000_000));
    assert!(timer.is_trigger(6_000_001));
    assert!(timer.is_trigger(6_000_002));
    assert!(timer.is_trigger(60_000_000));
    assert!(!timer.is_trigger(5_500_000));
    timer.reset(60_000_000);
    assert!(!timer.is_trigger(61_000_000));
    assert!(timer.is_trigger(61_000_001));
}

#[test]
fn a_periodical_timer_starts_again_when_it_goes_off() {
    let mut timer = Timer::new(1_000_000, true);
    timer.reset(0);
    assert!(!timer.is_trigger(1_000_000));
    assert!(timer.is_trigger(1_000_001));
    assert!(!timer.is_trigger(1_000_002));
    assert!(!timer.is_trigger(2_000_001));
    assert!(timer.is_trigger(2_000_002));
    assert!(!timer.is_trigger(2_000_003));
}

#[test]
fn text_appears_at_the_writing_speed() {
    // 50 characters per second
    let helper = TextHelper::with_text(50_000_000, "x".repeat(1000), 10_000);
    assert_eq!(helper.chars_to_show(10_000), 0);
    assert_eq!(helper.chars_to_show(9_000), 0);
    assert_eq!(helper.chars_to_show(i64::MIN), 0);
    assert_eq!(helper.chars_to_show(29_999), 0);
    assert_eq!(helper.chars_to_show(30_000), 1);
    assert_eq!(helper.chars_to_show(1_010_000), 50);
    assert_eq!(helper.chars_to_show(1_009_999), 49);
    assert_eq!(helper.chars_to_show(20_010_000), 1000);
    let still = TextHelper::with_text(0, "abc".to_string(), 0);
    assert_eq!(still.chars_to_show(i64::MAX), 0);
    let fast = TextHelper::with_text(u64::MAX, "abc".to_string(), i64::MIN);
    assert_eq!(fast.chars_to_show(i64::MAX), usize::MAX);
}

#[test]
fn a_helper_without_text_shows_nothing() {
    let mut helper = TextHelper::new(50_000_000, 0);
    assert_eq!(helper.text, None);
    assert_eq!(helper.get_text(1_000_000), None);
    assert_eq!(helper.text_reached_end(1_000_000), None);
    assert_eq!(helper.end_of_writing, None);
    assert_eq!(helper.time_to_finish(0), 0);
    helper.new_text("ab".to_string(), 2_000_000);
    assert_eq!(helper.text, Some("ab".to_string()));
    assert_eq!(helper.text_delay_timer, 2_000_000);
    assert_eq!(helper.get_text(2_000_000), Some(String::new()));
    assert_eq!(helper.get_text(2_020_000), Some("a".to_string()));
    assert_eq!(helper.get_text(2_040_000), Some("ab".to_string()));
}

#[test]
fn visible_text_grows_letter_by_letter() {
    let mut helper = TextHelper::with_text(1_000_000, "hello".to_string(), 0);
    assert_eq!(helper.get_text(0), Some("".to_string()));
    assert_eq!(helper.get_text(999_999), Some("".to_string()));
    assert_eq!(helper.get_text(1_000_000), Some("h".to_string()));
    assert_eq!(helper.get_text(4_999_999), Some("hell".to_string()));
    assert_eq!(helper.get_text(5_000_000), Some("hello".to_string()));
    assert_eq!(helper.get_text(500_000_000), Some("hello".to_string()));
    assert_eq!(helper.text, Some("hello".to_string()));
}

#[test]
fn text_of_several_bytes_per_letter_is_cut_between_letters() {
    // six letters in eight bytes
    let text = "žluťou";
    assert_eq!(text.len(), 8);
    assert_eq!(text.chars().count(), 6);
    let mut helper = TextHelper::with_text(1_000_000, text.to_string(), 0);
    assert_eq!(helper.get_text(1_000_000), Some("ž".to_string()));
    assert_eq!(helper.get_text(4_000_000), Some("žluť".to_string()));
    assert_eq!(helper.get_text(6_000_000), Some("žluťou".to_string()));
    // all letters are out, but the count is held against the bytes
    assert_eq!(helper.get_text(7_000_000), Some("žluťou".to_string()));
    assert_eq!(helper.text_reached_end(7_999_999), None);
    assert_eq!(helper.text_reached_end(8_000_000), Some(8_000_000));
}

#[test]
fn the_end_of_writing_is_recorded_once() {
    let mut helper = TextHelper::with_text(1_000_000, "abc".to_string(), 0);
    assert_eq!(helper.text_reached_end(2_999_999), None);
    assert_eq!(helper.end_of_writing, None);
    assert_eq!(helper.text_reached_end(3_500_000), Some(3_500_000));
    assert_eq!(helper.end_of_writing, Some(3_500_000));
    assert_eq!(helper.text_reached_end(9_000_000), Some(3_500_000));
    // also when the clock goes back
    assert_eq!(helper.text_reached_end(0), Some(3_500_000));
    helper.new_text("abcd".to_string(), 10_000_000);
    assert_eq!(helper.end_of_writing, None);
    assert_eq!(helper.text_reached_end(13_999_999), None);
    assert_eq!(helper.text_reached_end(14_000_000), Some(14_000_000));
    let mut empty = TextHelper::with_text(1_000_000, String::new(), 5);
    assert_eq!(empty.text_reached_end(5), Some(5));
}

#[test]
fn time_to_finish_is_the_time_for_the_letters_that_are_left() {
    // 50 characters per second: 20 ms each
    let helper = TextHelper::with_text(50_000_000, "x".repeat(100), 0);
    assert_eq!(helper.time_to_finish(0), 2_000_000);
    assert_eq!(helper.time_to_finish(1_000_000), 1_000_000);
    assert_eq!(helper.time_to_finish(1_990_000), 20_000);
    assert_eq!(helper.time_to_finish(2_000_000), 0);
    assert_eq!(helper.time_to_finish(3_000_000), 0);
    // three letters at three per second take a second, rounded down to the microsecond
    let thirds = TextHelper::with_text(3_000_000, "abc".to_string(), 0);
    assert_eq!(thirds.time_to_finish(0), 1_000_000);
    let sevenths = TextHelper::with_text(7_000_000, "a".to_string(), 0);
    assert_eq!(sevenths.time_to_finish(0), 142_857);
    let never = TextHelper::with_text(0, "abc".to_string(), 0);
    assert_eq!(never.time_to_finish(0), u64::MAX);
    let nothing = TextHelper::with_text(0, String::new(), 0);
    assert_eq!(nothing.time_to_finish(0), 0);
    let slow = TextHelper::with_text(1, "x".repeat(100), 0);
    assert_eq!(slow.time_to_finish(0), 100_000_000_000_000);
    let slowest = TextHelper::with_text(1, "x".repeat(20_000_000), 0);
    assert_eq!(slowest.time_to_finish(0), u64::MAX);
}

struct Still {
    keys: usize,
}

impl call_of_cthulhu::gfx::ScreenRenderer<usize> for Still {
    fn render(&mut self) -> Vec<Vec<(u8, u8, u8)>> {
        vec![vec![(1, 2, 3)]]
    }

    fn text(&mut self) -> String {
        "still".to_string()
    }

    fn text_window_sz(&self) -> u16 {
        5
    }

    fn key_event(&mut self, key_code: call_of_cthulhu::gfx::Key) -> Option<usize> {
        self.keys += 1;
        if key_code == call_of_cthulhu::gfx::Key::Enter {
            Some(self.keys)
        } else {
            None
        }
    }
}

#[test]
fn a_screen_can_be_used_through_its_trait() {
    let mut screen: Box<dyn call_of_cthulhu::gfx::ScreenRenderer<usize>> = Box::new(Still { keys: 0 });
    assert_eq!(screen.render(), vec![vec![(1, 2, 3)]]);
    assert_eq!(screen.text(), "still");
    assert_eq!(screen.text_window_sz(), 5);
    assert_eq!(screen.key_event(call_of_cthulhu::gfx::Key::Up), None);
    assert_eq!(screen.key_event(call_of_cthulhu::gfx::Key::Enter), Some(2));
}
