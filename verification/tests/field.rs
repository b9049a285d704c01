use call_of_cthulhu::drops::DropSet;
use call_of_cthulhu::field::{compute, generate_wave};
use call_of_cthulhu::math::SineTableSingle;
use call_of_cthulhu::wave::WaveParams;
use call_of_cthulhu::wave_table::{gen_wave_xy_lookup, wave_xy_lut, QuantizedWaveTable};

fn table(resolution: usize) -> QuantizedWaveTable {
    let samples: Vec<i32> = (0..3600)
        .map(|i| ((i as f64) * std::f64::consts::PI / 1800.0).sin())
        .map(|s| (s * 1e6).round() as i32)
        .collect();
    let sine = SineTableSingle::from_samples(samples).unwrap();
    gen_wave_xy_lookup(&sine, WaveParams::default(), resolution).unwrap()
}

/// The coordinate of a cell as seen from a drop, worked out independently.
fn coordinate(origin: usize, cell: usize, extent: usize) -> i64 {
    let n = 6_283_185i128 * (origin as i128 + cell as i128 - extent as i128);
    n.div_euclid(extent as i128).clamp(i64::MIN as i128, i64::MAX as i128) as i64
}

#[test]
fn a_field_without_drops_is_zero() {
    let set = DropSet::new(6, 3, 2_000_000, 1_000_000, 1);
    let field = compute(&set, &table(8), 6, 3, 1_000);
    assert_eq!(field, vec![vec![0i128; 6]; 3]);
}

#[test]
fn a_field_has_the_shape_it_is_asked_for() {
    let mut set = DropSet::new(6, 3, 2_000_000, 1_000_000, 1);
    set.add_rain_drop(0, 1, 1);
    assert_eq!(compute(&set, &table(8), 0, 0, 1_000), Vec::<Vec<i128>>::new());
    assert_eq!(compute(&set, &table(8), 0, 2, 1_000), vec![Vec::<i128>::new(); 2]);
    assert_eq!(compute(&set, &table(8), 5, 0, 1_000), Vec::<Vec<i128>>::new());
    let field = compute(&set, &table(8), 4, 7, 1_000);
    assert_eq!(field.len(), 7);
    assert!(field.iter().all(|row| row.len() == 4));
}

#[test]
fn the_grid_spans_a_full_turn_around_the_drop() {
    // the cell in column `col` lies at 2 pi * (drop.x + col - width) / width
    assert_eq!(coordinate(0, 0, 10), -6_283_185);
    assert_eq!(coordinate(0, 5, 10), -3_141_593);
    assert_eq!(coordinate(5, 5, 10), 0);
    assert_eq!(coordinate(9, 9, 10), 5_026_548);
    assert_eq!(coordinate(3, 0, 10), -4_398_230);
}

#[test]
fn one_drop_contributes_the_table_at_its_age() {
    let t = table(32);
    let mut set = DropSet::new(10, 4, 10_000_000, 1_000_000, 1);
    set.add_rain_drop(1_000_000, 7, 2);
    let mut nonzero = 0;
    for now in [1_000_000i64, 1_400_000, 2_300_000, 3_000_000, 4_500_000, 900_000] {
        let field = compute(&set, &t, 10, 4, now);
        for row in 0..4 {
            for col in 0..10 {
                let expected = wave_xy_lut(&t, coordinate(7, col, 10), coordinate(2, row, 4), now - 1_000_000);
                assert_eq!(field[row][col], expected as i128);
                if expected != 0 {
                    nonzero += 1;
                }
            }
        }
    }
    assert!(nonzero > 0);
}

#[test]
fn the_centre_of_the_ripple_is_opposite_the_drop() {
    // the coordinate is zero where drop.x + col == width
    let t = table(64);
    let mut set = DropSet::new(8, 8, 10_000_000, 1_000_000, 1);
    set.add_rain_drop(0, 3, 6);
    let field = compute(&set, &t, 8, 8, 500_000);
    let at_centre = wave_xy_lut(&t, 0, 0, 500_000) as i128;
    assert_eq!(field[2][5], at_centre);
}

#[test]
fn drops_add_up() {
    let t = table(32);
    let mut one = DropSet::new(9, 5, 10_000_000, 0, 1);
    one.add_rain_drop(0, 2, 3);
    let mut other = DropSet::new(9, 5, 10_000_000, 0, 1);
    other.add_rain_drop(700_000, 8, 0);
    let mut both = DropSet::new(9, 5, 10_000_000, 0, 1);
    both.add_rain_drop(0, 2, 3);
    both.add_rain_drop(700_000, 8, 0);
    let mut twice = DropSet::new(9, 5, 10_000_000, 0, 1);
    twice.add_rain_drop(0, 2, 3);
    twice.add_rain_drop(0, 2, 3);
    let now = 1_900_000;
    let a = compute(&one, &t, 9, 5, now);
    let b = compute(&other, &t, 9, 5, now);
    let ab = compute(&both, &t, 9, 5, now);
    let aa = compute(&twice, &t, 9, 5, now);
    let mut nonzero = 0;
    for row in 0..5 {
        for col in 0..9 {
            assert_eq!(ab[row][col], a[row][col] + b[row][col]);
            assert_eq!(aa[row][col], 2 * a[row][col]);
            if a[row][col] != 0 && b[row][col] != 0 {
                nonzero += 1;
            }
        }
    }
    assert!(nonzero > 0);
}

#[test]
fn ripples_are_added_to_what_the_field_holds() {
    let t = table(32);
    let mut set = DropSet::new(9, 5, 10_000_000, 0, 1);
    set.add_rain_drop(0, 2, 3);
    let fresh = compute(&set, &t, 9, 5, 1_500_000);
    let mut field = vec![vec![0i128; 9]; 5];
    for row in 0..5 {
        for col in 0..9 {
            field[row][col] = (row * 100 + col) as i128 - 250;
        }
    }
    field[4][8] = 1 << 126;
    field[0][0] = -(1 << 126);
    let before = field.clone();
    generate_wave(&set, &t, 9, 5, 1_500_000, &mut field);
    for row in 0..5 {
        for col in 0..9 {
            assert_eq!(field[row][col], before[row][col] + fresh[row][col]);
        }
    }
    generate_wave(&set, &t, 9, 5, 1_500_000, &mut field);
    assert_eq!(field[2][3], before[2][3] + 2 * fresh[2][3]);
}

#[test]
fn an_expired_drop_contributes_nothing() {
    let t = table(32);
    let mut set = DropSet::new(9, 5, 2_000_000, 10_000_000, 1);
    set.add_rain_drop(0, 2, 3);
    set.advance(1_999_999);
    let alive = compute(&set, &t, 9, 5, 1_999_999);
    assert!(alive.iter().any(|row| row.iter().any(|a| *a != 0)));
    set.advance(2_000_000);
    assert!(set.active_drops().is_empty());
    assert_eq!(compute(&set, &t, 9, 5, 2_000_000), vec![vec![0i128; 9]; 5]);
}

#[test]
fn a_drop_off_the_grid_is_read_at_the_edge_of_the_table() {
    let t = table(16);
    let mut set = DropSet::new(1000, 1000, 10_000_000, 0, 1);
    set.add_rain_drop(0, 999, 999);
    // on a grid of two by two the drop lies far outside
    let field = compute(&set, &t, 2, 2, 1_000_000);
    let edge = wave_xy_lut(&t, i64::MAX, i64::MAX, 1_000_000) as i128;
    assert_eq!(field, vec![vec![edge; 2]; 2]);
}

#[test]
fn a_clock_that_went_backwards_reads_the_first_moment() {
    let t = table(16);
    let mut set = DropSet::new(4, 4, 10_000_000, 0, 1);
    set.add_rain_drop(5_000_000, 1, 1);
    assert_eq!(compute(&set, &t, 4, 4, 1_000_000), compute(&set, &t, 4, 4, 5_000_000));
    assert_eq!(compute(&set, &t, 4, 4, i64::MIN), compute(&set, &t, 4, 4, 5_000_000));
}

#[test]
fn a_field_larger_than_the_grid_keeps_what_lies_beyond() {
    let t = table(32);
    let mut set = DropSet::new(9, 5, 10_000_000, 0, 1);
    set.add_rain_drop(0, 2, 3);
    let fresh = compute(&set, &t, 3, 2, 1_500_000);
    let mut field = vec![vec![7i128, 8, 9, 10, 11], vec![1, 2, 3], vec![], vec![5; 8]];
    let before = field.clone();
    generate_wave(&set, &t, 3, 2, 1_500_000, &mut field);
    assert_eq!(field.len(), 4);
    for row in 0..4 {
        assert_eq!(field[row].len(), before[row].len());
        for col in 0..before[row].len() {
            if row < 2 && col < 3 {
                assert_eq!(field[row][col], before[row][col] + fresh[row][col]);
            } else {
                assert_eq!(field[row][col], before[row][col]);
            }
        }
    }
    assert!(fresh.iter().any(|row| row.iter().any(|a| *a != 0)));
}

#[test]
fn without_drops_any_field_stays_as_it_is() {
    let t = table(8);
    let set = DropSet::new(9, 5, 10_000_000, 0, 1);
    let mut field = vec![vec![i128::MAX], vec![]];
    generate_wave(&set, &t, 9, 5, 0, &mut field);
    assert_eq!(field, vec![vec![i128::MAX], vec![]]);
    let mut empty: Vec<Vec<i128>> = Vec::new();
    generate_wave(&set, &t, 9, 5, 0, &mut empty);
    assert!(empty.is_empty());
}

#[test]
fn after_expiry_the_field_is_the_sum_over_the_drops_that_are_left() {
    let t = table(32);
    let mut all = DropSet::new(9, 5, 2_000_000, 0, 1);
    all.add_rain_drop(0, 2, 3);
    all.add_rain_drop(900_000, 7, 1);
    all.add_rain_drop(100_000, 4, 4);
    let mut kept = DropSet::new(9, 5, 2_000_000, 0, 1);
    kept.add_rain_drop(900_000, 7, 1);
    let now = 2_100_000;
    all.remove_rain_drops_based_on_time(now);
    assert_eq!(all.active_drops().len(), 1);
    let field = compute(&all, &t, 9, 5, now);
    assert_eq!(field, compute(&kept, &t, 9, 5, now));
    assert!(field.iter().any(|row| row.iter().any(|a| *a != 0)));
    all.remove_rain_drops_based_on_time(2_900_000);
    assert_eq!(compute(&all, &t, 9, 5, 2_900_000), vec![vec![0i128; 9]; 5]);
}
