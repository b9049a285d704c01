use call_of_cthulhu::color::{colorize, water_rgb};

#[test]
fn zero_field_is_tinted_and_desaturated_base_color() {
    let field = vec![vec![0i128; 5]; 3];
    let grid = colorize(&field, 500_000, 250_000);
    assert_eq!(grid.len(), 3);
    for row in &grid {
        assert_eq!(row.len(), 5);
        for cell in row {
            assert_eq!(*cell, (57, 112, 132));
        }
    }
}

#[test]
fn zero_amplitude_without_blending_is_the_base_color() {
    assert_eq!(water_rgb(0, 0, 0), (0, 120, 200));
}

#[test]
fn full_positive_amplitude_is_bright_cyan_blue() {
    assert_eq!(water_rgb(1_000_000, 0, 0), (180, 240, 255));
}

#[test]
fn full_negative_amplitude_is_dark_teal() {
    assert_eq!(water_rgb(-1_000_000, 0, 0), (0, 30, 80));
}

#[test]
fn half_amplitudes_lie_halfway_along_the_ramps() {
    assert_eq!(water_rgb(500_000, 0, 0), (90, 180, 228));
    assert_eq!(water_rgb(-500_000, 0, 0), (0, 75, 140));
}

#[test]
fn amplitude_beyond_one_is_colored_as_one() {
    for (d, t) in [(0, 0), (500_000, 250_000), (1_000_000, 0), (0, 1_000_000), (123_456, 654_321)] {
        assert_eq!(water_rgb(2_000_000, d, t), water_rgb(1_000_000, d, t));
        assert_eq!(water_rgb(-2_000_000, d, t), water_rgb(-1_000_000, d, t));
        assert_eq!(water_rgb(i128::MAX, d, t), water_rgb(1_000_000, d, t));
        assert_eq!(water_rgb(i128::MIN, d, t), water_rgb(-1_000_000, d, t));
    }
    let wide = colorize(&vec![vec![2_000_000i128, -2_000_000]], 500_000, 250_000);
    let unit = colorize(&vec![vec![1_000_000i128, -1_000_000]], 500_000, 250_000);
    assert_eq!(wide, unit);
}

#[test]
fn full_tint_is_the_green_anchor() {
    assert_eq!(water_rgb(0, 0, 1_000_000), (80, 160, 80));
    assert_eq!(water_rgb(1_000_000, 0, 1_000_000), (80, 160, 80));
    assert_eq!(water_rgb(-700_000, 0, 2_000_000), (80, 160, 80));
}

#[test]
fn full_desaturation_is_the_luminance_of_the_untinted_color() {
    // 0.299 * 0 + 0.587 * 120 + 0.114 * 200 = 93.24
    assert_eq!(water_rgb(0, 1_000_000, 0), (93, 93, 93));
    assert_eq!(water_rgb(0, 1_000_000, 1_000_000), (93, 93, 93));
    // 0.299 * 180 + 0.587 * 240 + 0.114 * 255 = 223.77
    assert_eq!(water_rgb(1_000_000, 5_000_000, 0), (224, 224, 224));
}

#[test]
fn fractions_below_zero_count_as_zero() {
    assert_eq!(water_rgb(300_000, -1, -1), water_rgb(300_000, 0, 0));
    assert_eq!(water_rgb(300_000, i64::MIN, i64::MIN), water_rgb(300_000, 0, 0));
}

#[test]
fn channels_round_to_the_nearest_integer() {
    // red is 180 * a: 0.5 rounds up, just below it rounds down
    assert_eq!(water_rgb(2_778, 0, 0).0, 1);
    assert_eq!(water_rgb(2_777, 0, 0).0, 0);
    // tinted red at a = 0 is 80 * t: 80 * 0.00625 = 0.5
    assert_eq!(water_rgb(0, 0, 6_250).0, 1);
    assert_eq!(water_rgb(0, 0, 6_249).0, 0);
}

#[test]
fn coloring_twice_gives_the_same_grid() {
    let field = vec![
        vec![0i128, 1, -1, 999_999, -999_999],
        vec![250_000, -250_000, 3_000_000, -3_000_000, 17],
        vec![],
    ];
    let first = colorize(&field, 500_000, 250_000);
    let second = colorize(&field, 500_000, 250_000);
    assert_eq!(first, second);
    assert_eq!(first.len(), 3);
    assert_eq!(first[0].len(), 5);
    assert_eq!(first[2].len(), 0);
    for (row, colors) in field.iter().zip(first.iter()) {
        for (a, c) in row.iter().zip(colors.iter()) {
            assert_eq!(*c, water_rgb(*a, 500_000, 250_000));
        }
    }
}

#[test]
fn empty_field_has_an_empty_grid() {
    let grid = colorize(&Vec::new(), 500_000, 250_000);
    assert!(grid.is_empty());
}
