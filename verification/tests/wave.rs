use call_of_cthulhu::math::SineTableSingle;
use call_of_cthulhu::units::{div_floor, isqrt, rem_floor};
use call_of_cthulhu::wave::{distance, wave_value, wave_xy, WaveParams};

fn samples() -> Vec<i32> {
    (0..3600)
        .map(|i| ((i as f64) * std::f64::consts::PI / 1800.0).sin())
        .map(|s| (s * 1e6).round() as i32)
        .collect()
}

fn sine() -> SineTableSingle {
    SineTableSingle::from_samples(samples()).unwrap()
}

/// The sample the library must read for a phase in 1e-12 rad.
fn sample_at(phase: i128) -> i128 {
    let turn: i128 = 6_283_185_000_000;
    let folded = phase.rem_euclid(turn);
    let bucket = ((7200 * folded + turn) / (2 * turn)) % 3600;
    samples()[bucket as usize] as i128
}

/// The closed form, worked out independently in wide integers.
fn expected(params: &WaveParams, d: u64, t: u64) -> i32 {
    let front = params.speed as i128 * t as i128;
    let lead = front - d as i128 * 1_000_000;
    let trail = d as i128 * 1_000_000 - (front - params.ring_width as i128 * 1_000_000);
    if lead < 0 || trail < 0 {
        return 0;
    }
    let s = sample_at(params.wave_number as i128 * d as i128 - front);
    let num = s * lead.min(trail);
    let den = (2_000_000 + t as i128) * params.ring_width as i128;
    // rounded away from zero
    let magnitude = (num.abs() + den - 1) / den;
    (num.signum() * magnitude) as i32
}

#[test]
fn default_parameters_are_the_reference_ones() {
    let p = WaveParams::default();
    assert_eq!(p.wave_number, 15_000_000);
    assert_eq!(p.speed, 3_500_000);
    assert_eq!(p.ring_width, 4_200_000);
}

#[test]
fn parameters_need_a_ring_width() {
    assert!(WaveParams::new(15_000_000, 3_500_000, 0).is_none());
    let p = WaveParams::new(1, 2, 3).unwrap();
    assert_eq!((p.wave_number, p.speed, p.ring_width), (1, 2, 3));
    assert!(WaveParams::new(0, 0, 1).is_some());
}

#[test]
fn amplitude_is_zero_on_the_leading_edge() {
    let p = WaveParams::default();
    // after one second the edge is at 3.5
    assert_eq!(wave_value(&sine(), &p, 3_500_000, 1_000_000), 0);
    // after two seconds at 7.0
    assert_eq!(wave_value(&sine(), &p, 7_000_000, 2_000_000), 0);
    assert_eq!(wave_value(&sine(), &p, 0, 0), 0);
}

#[test]
fn amplitude_is_zero_on_the_trailing_edge() {
    let p = WaveParams::default();
    // after two seconds the trailing edge is at 7.0 - 4.2 = 2.8
    assert_eq!(wave_value(&sine(), &p, 2_800_000, 2_000_000), 0);
    // after 1.2 seconds it is at the drop itself
    assert_eq!(wave_value(&sine(), &p, 0, 1_200_000), 0);
}

#[test]
fn amplitude_is_zero_outside_the_ring() {
    let p = WaveParams::default();
    assert_eq!(wave_value(&sine(), &p, 7_000_001, 2_000_000), 0);
    assert_eq!(wave_value(&sine(), &p, 2_799_999, 2_000_000), 0);
    assert_eq!(wave_value(&sine(), &p, 100_000_000, 2_000_000), 0);
    assert_eq!(wave_value(&sine(), &p, 1, 0), 0);
    assert_eq!(wave_value(&sine(), &p, u64::MAX, u64::MAX), 0);
}

#[test]
fn amplitude_inside_the_ring_follows_the_closed_form() {
    let p = WaveParams::default();
    // d = 5.0 after 2 s: lead 2.0, trail 2.2, decay 4, sine of 75 - 7 = 68 rad
    let s = sample_at(15_000_000i128 * 5_000_000 - 3_500_000i128 * 2_000_000);
    assert!(s < 0);
    let den = 4_000_000i128 * 4_200_000;
    let by_hand = -((-s * 2_000_000_000_000 + den - 1) / den);
    let got = wave_value(&sine(), &p, 5_000_000, 2_000_000);
    assert_eq!(got as i128, by_hand);
    assert!(got < 0);
    let real = (68.0f64).sin() / 4.0 * (2.0 / 4.2);
    assert!((got as f64 / 1e6 - real).abs() < 0.001, "{got} vs {real}");
}

#[test]
fn amplitude_is_rounded_away_from_zero() {
    // a table of ones: the amplitude is taper / decay
    let ones = SineTableSingle::from_samples(vec![1_000_000; 3600]).unwrap();
    let p = WaveParams::default();
    // d = 5.0 after 2 s: 2.0 / 4.2 / 4 = 0.119047619...
    assert_eq!(wave_value(&ones, &p, 5_000_000, 2_000_000), 119_048);
    let minus = SineTableSingle::from_samples(vec![-1_000_000; 3600]).unwrap();
    assert_eq!(wave_value(&minus, &p, 5_000_000, 2_000_000), -119_048);
    // an exact quotient stays as it is: d = 4.9 after 2 s: 2.1 / 4.2 / 4 = 0.125
    assert_eq!(wave_value(&ones, &p, 4_900_000, 2_000_000), 125_000);
    assert_eq!(wave_value(&minus, &p, 4_900_000, 2_000_000), -125_000);
}

#[test]
fn amplitude_is_nonzero_strictly_inside_the_ring_wherever_the_sine_is() {
    let p = WaveParams::default();
    // one step inside the leading edge after one second, with a sine of one
    let ones = SineTableSingle::from_samples(vec![1_000_000; 3600]).unwrap();
    assert_eq!(wave_xy(&ones, &p, 3_499_999, 0, 1_000_000), 1);
    assert_eq!(wave_value(&ones, &p, 3_499_999, 1_000_000), 1);
    assert_eq!(wave_value(&ones, &p, 3_500_000, 1_000_000), 0);
    // one step inside the trailing edge after two seconds
    assert_eq!(wave_value(&ones, &p, 2_800_001, 2_000_000), 1);
    assert_eq!(wave_value(&ones, &p, 2_800_000, 2_000_000), 0);
    // the smallest sine there is
    let faint = SineTableSingle::from_samples(vec![-1; 3600]).unwrap();
    assert_eq!(wave_value(&faint, &p, 3_499_999, 1_000_000), -1);
    assert_eq!(wave_value(&faint, &p, 5_000_000, 2_000_000), -1);
    let none = SineTableSingle::from_samples(vec![0; 3600]).unwrap();
    assert_eq!(wave_value(&none, &p, 5_000_000, 2_000_000), 0);
    // with the sine itself
    let mut inside = 0;
    for d in (2_800_001..7_000_000u64).step_by(37_123).chain([2_800_001, 6_999_999]) {
        let got = wave_value(&sine(), &p, d, 2_000_000);
        assert_eq!(got, expected(&p, d, 2_000_000));
        let s = sample_at(15_000_000i128 * d as i128 - 7_000_000_000_000);
        assert_eq!(got.signum() as i128, s.signum(), "at {d}");
        if s != 0 {
            inside += 1;
        }
    }
    assert!(inside > 100);
}

#[test]
fn amplitude_never_exceeds_a_quarter_and_fades() {
    let p = WaveParams::default();
    for t in (0..6_000_000u64).step_by(101_111) {
        for d in (0..21_000_000u64).step_by(333_331) {
            let got = wave_value(&sine(), &p, d, t);
            assert!(got.abs() <= 250_000);
            // no more than 0.5 / (2 + t), up to a step
            assert!((got.abs() as i128 - 1) * (2_000_000 + t as i128) < 500_000_000_000);
            assert_eq!(got, expected(&p, d, t));
        }
    }
    let ones = SineTableSingle::from_samples(vec![1_000_000; 3600]).unwrap();
    // the largest amplitude: in the middle of the ring at once... the ring opens at t = 0.6 s
    assert_eq!(wave_value(&ones, &p, 0, 600_000), 192_308);
}

#[test]
fn other_parameters_move_the_ring() {
    let p = WaveParams::new(2_000_000, 1_000_000, 500_000).unwrap();
    // after 3 s the ring spans 2.5 ..= 3.0
    assert_eq!(wave_value(&sine(), &p, 3_000_000, 3_000_000), 0);
    assert_eq!(wave_value(&sine(), &p, 2_500_000, 3_000_000), 0);
    assert_eq!(wave_value(&sine(), &p, 2_499_999, 3_000_000), 0);
    let got = wave_value(&sine(), &p, 2_750_000, 3_000_000);
    assert_eq!(got, expected(&p, 2_750_000, 3_000_000));
    // sin(5.5 - 3) / 5 * 0.5 = 0.0598
    assert!((got as f64 / 1e6 - (2.5f64).sin() / 5.0 * 0.5).abs() < 0.001);
    // a wave that does not move stays at the drop for good
    let still = WaveParams::new(2_000_000, 0, 500_000).unwrap();
    assert_eq!(wave_value(&sine(), &still, 0, 3_000_000), 0);
    assert_eq!(wave_value(&sine(), &still, 1, 3_000_000), 0);
}

#[test]
fn wave_at_a_point_uses_its_distance() {
    let p = WaveParams::default();
    assert_eq!(distance(3_000_000, 4_000_000), 5_000_000);
    assert_eq!(distance(-3_000_000, -4_000_000), 5_000_000);
    assert_eq!(distance(0, 0), 0);
    assert_eq!(distance(1, 1), 1);
    assert_eq!(distance(i64::MIN, 0), 1 << 63);
    assert_eq!(distance(i64::MIN, i64::MIN), 13_043_817_825_332_782_212);
    assert_eq!(
        wave_xy(&sine(), &p, 3_000_000, -4_000_000, 2_000_000),
        wave_value(&sine(), &p, 5_000_000, 2_000_000)
    );
    assert_eq!(
        wave_xy(&sine(), &p, -4_000_000, 3_000_000, 2_000_000),
        wave_value(&sine(), &p, 5_000_000, 2_000_000)
    );
    assert_eq!(wave_xy(&sine(), &p, 7_000_000, 0, 2_000_000), 0);
}

#[test]
fn integer_square_root_rounds_down() {
    assert_eq!(isqrt(0), 0);
    assert_eq!(isqrt(1), 1);
    assert_eq!(isqrt(2), 1);
    assert_eq!(isqrt(3), 1);
    assert_eq!(isqrt(4), 2);
    assert_eq!(isqrt(15), 3);
    assert_eq!(isqrt(16), 4);
    assert_eq!(isqrt(17), 4);
    assert_eq!(isqrt(1_000_000_000_000), 1_000_000);
    assert_eq!(isqrt(999_999_999_999), 999_999);
    assert_eq!(isqrt(u128::MAX), u64::MAX);
    assert_eq!(isqrt((u64::MAX as u128) * (u64::MAX as u128)), u64::MAX);
    assert_eq!(isqrt((u64::MAX as u128) * (u64::MAX as u128) - 1), u64::MAX - 1);
}

#[test]
fn floor_division_rounds_toward_negative_infinity() {
    assert_eq!(div_floor(7, 2), 3);
    assert_eq!(div_floor(-7, 2), -4);
    assert_eq!(div_floor(-8, 2), -4);
    assert_eq!(div_floor(0, 5), 0);
    assert_eq!(div_floor(-1, 5), -1);
    assert_eq!(div_floor(i128::MIN, 1), i128::MIN);
    assert_eq!(rem_floor(7, 2), 1);
    assert_eq!(rem_floor(-7, 2), 1);
    assert_eq!(rem_floor(-1, 5), 4);
    assert_eq!(rem_floor(-10, 5), 0);
    assert_eq!(rem_floor(i128::MIN, 7), i128::MIN.rem_euclid(7));
}
