use call_of_cthulhu::math::{sin_lut, sin_lut_f32, SineTable, SineTableSingle};

fn wide_samples() -> Vec<i64> {
    (0..3600)
        .map(|i| ((i as f64) * std::f64::consts::PI / 1800.0).sin())
        .map(|s| (s * 1e9).round() as i64)
        .collect()
}

fn narrow_samples() -> Vec<i32> {
    (0..3600)
        .map(|i| ((i as f32) * std::f32::consts::PI / 1800.0).sin())
        .map(|s| (s * 1e6).round() as i32)
        .collect()
}

#[test]
fn wide_table_takes_3600_samples_within_one() {
    assert!(SineTable::from_samples(wide_samples()).is_some());
    let mut short = wide_samples();
    short.pop();
    assert!(SineTable::from_samples(short).is_none());
    let mut long = wide_samples();
    long.push(0);
    assert!(SineTable::from_samples(long).is_none());
    assert!(SineTable::from_samples(Vec::new()).is_none());
    let mut high = wide_samples();
    high[17] = 1_000_000_001;
    assert!(SineTable::from_samples(high).is_none());
    let mut low = wide_samples();
    low[3599] = -1_000_000_001;
    assert!(SineTable::from_samples(low).is_none());
    let mut edge = wide_samples();
    edge[0] = 1_000_000_000;
    edge[1] = -1_000_000_000;
    assert!(SineTable::from_samples(edge).is_some());
}

#[test]
fn narrow_table_takes_3600_samples_within_one() {
    assert!(SineTableSingle::from_samples(narrow_samples()).is_some());
    let mut short = narrow_samples();
    short.pop();
    assert!(SineTableSingle::from_samples(short).is_none());
    let mut high = narrow_samples();
    high[2] = 1_000_001;
    assert!(SineTableSingle::from_samples(high).is_none());
    let mut low = narrow_samples();
    low[2] = -1_000_001;
    assert!(SineTableSingle::from_samples(low).is_none());
}

#[test]
fn sample_reads_the_bucket() {
    let table = SineTable::from_samples((0..3600).collect()).unwrap();
    assert_eq!(table.sample(0), 0);
    assert_eq!(table.sample(1234), 1234);
    assert_eq!(table.sample(3599), 3599);
    let narrow = SineTableSingle::from_samples((0..3600).collect()).unwrap();
    assert_eq!(narrow.sample(77), 77);
}

#[test]
fn lookup_rounds_to_the_nearest_bucket_and_wraps() {
    // samples that name their own bucket
    let table = SineTable::from_samples((0..3600).collect()).unwrap();
    // one bucket is 2 pi / 3600 = 1_745_329.25 billionths
    assert_eq!(sin_lut(&table, 0), 0);
    assert_eq!(sin_lut(&table, 872_664), 0);
    assert_eq!(sin_lut(&table, 872_665), 1);
    assert_eq!(sin_lut(&table, 1_745_329), 1);
    assert_eq!(sin_lut(&table, 1_570_796_327), 900);
    assert_eq!(sin_lut(&table, 3_141_592_654), 1800);
    // the last half bucket of the turn belongs to bucket 0 again
    assert_eq!(sin_lut(&table, 6_283_185_306), 0);
    assert_eq!(sin_lut(&table, 6_283_185_307), 0);
    assert_eq!(sin_lut(&table, 6_283_185_307 + 1_745_329), 1);
    // negative angles fold into the turn from above
    assert_eq!(sin_lut(&table, -1_745_329), 3599);
    assert_eq!(sin_lut(&table, -1_570_796_327), 2700);
    assert_eq!(sin_lut(&table, 10 * 6_283_185_307 + 3_141_592_654), 1800);
    assert_eq!(sin_lut(&table, i64::MAX), sin_lut(&table, i64::MAX % 6_283_185_307));
}

#[test]
fn narrow_lookup_rounds_to_the_nearest_bucket_and_wraps() {
    let table = SineTableSingle::from_samples((0..3600).collect()).unwrap();
    // one bucket is 1745.33 millionths
    assert_eq!(sin_lut_f32(&table, 0), 0);
    assert_eq!(sin_lut_f32(&table, 872), 0);
    assert_eq!(sin_lut_f32(&table, 873), 1);
    assert_eq!(sin_lut_f32(&table, 1_570_796), 900);
    assert_eq!(sin_lut_f32(&table, 3_141_593), 1800);
    assert_eq!(sin_lut_f32(&table, 6_283_185), 0);
    assert_eq!(sin_lut_f32(&table, -1_745), 3599);
    assert_eq!(sin_lut_f32(&table, -3_141_593), 1800);
}

#[test]
fn lookups_follow_the_sine() {
    let wide = SineTable::from_samples(wide_samples()).unwrap();
    let narrow = SineTableSingle::from_samples(narrow_samples()).unwrap();
    for step in -50..50 {
        let angle = (step as f64) * 0.37;
        let expected = angle.sin();
        let got = sin_lut(&wide, (angle * 1e9).round() as i64) as f64 / 1e9;
        assert!((got - expected).abs() < 0.001, "{angle}: {got} vs {expected}");
        let got = sin_lut_f32(&narrow, (angle * 1e6).round() as i64) as f64 / 1e6;
        assert!((got - expected).abs() < 0.001, "{angle}: {got} vs {expected}");
    }
    assert_eq!(sin_lut(&wide, 1_570_796_327), 1_000_000_000);
    assert_eq!(sin_lut_f32(&narrow, 1_570_796), 1_000_000);
    assert_eq!(sin_lut(&wide, 0), 0);
}

#[test]
fn the_two_tables_are_independent() {
    let wide = SineTable::from_samples(vec![5; 3600]).unwrap();
    let narrow = SineTableSingle::from_samples(vec![-7; 3600]).unwrap();
    assert_eq!(sin_lut(&wide, 123_456_789), 5);
    assert_eq!(sin_lut_f32(&narrow, 123_456), -7);
}
