use call_of_cthulhu::images::{
    fit, place_centered, quality_scale_image, read_bitmap, read_image, rgb_pixels, scale_image,
};

const K: (u8, u8, u8) = (0, 0, 0);

fn numbered(count: usize) -> Vec<(u8, u8, u8)> {
    (0..count).map(|i| (i as u8 + 1, 0, 0)).collect()
}

#[test]
fn without_regard_to_proportions_a_picture_fills_the_canvas() {
    assert_eq!(fit(10, 20, 80, 24, false), (80, 24));
    assert_eq!(fit(0, 0, 80, 24, false), (80, 24));
    assert_eq!(fit(10, 20, 0, 0, false), (0, 0));
}

#[test]
fn a_narrow_picture_takes_the_height_and_twice_its_width() {
    // 100 by 100 on 80 by 24: 24 high, 24 wide by proportion, drawn 48 wide
    assert_eq!(fit(100, 100, 80, 24, true), (48, 24));
    // 10 by 20 on 80 by 24: 12 wide by proportion, drawn 24 wide
    assert_eq!(fit(10, 20, 80, 24, true), (24, 24));
    // twice the width would not fit: as wide as the canvas
    assert_eq!(fit(100, 50, 80, 24, true), (80, 24));
    // the width by proportion is rounded to the nearest cell: 24 * 3 / 7 = 10.29, 24 * 3 / 5 = 14.4
    assert_eq!(fit(3, 7, 80, 24, true), (20, 24));
    assert_eq!(fit(3, 5, 80, 24, true), (28, 24));
    // 3 * 1 / 2 = 1.5 rounds up
    assert_eq!(fit(1, 2, 80, 3, true), (4, 3));
}

#[test]
fn a_wide_picture_takes_the_width_and_the_height_that_goes_with_it() {
    // 400 by 100 on 80 by 24: 20 high
    assert_eq!(fit(400, 100, 80, 24, true), (80, 20));
    // the same proportions as the canvas count as wide
    assert_eq!(fit(80, 24, 80, 24, true), (80, 24));
    assert_eq!(fit(160, 48, 80, 24, true), (80, 24));
    // 80 * 9 / 1000 = 0.72 rounds to 1, 80 * 3 / 1000 = 0.24 rounds to 0
    assert_eq!(fit(1000, 9, 80, 24, true), (80, 1));
    assert_eq!(fit(1000, 3, 80, 24, true), (80, 0));
}

#[test]
fn a_picture_without_pixels_or_a_canvas_without_cells_leaves_nothing_to_draw() {
    assert_eq!(fit(0, 10, 80, 24, true), (0, 0));
    assert_eq!(fit(10, 0, 80, 24, true), (0, 0));
    assert_eq!(fit(0, 0, 80, 24, true), (0, 0));
    assert_eq!(fit(10, 10, 0, 24, true), (0, 0));
    assert_eq!(fit(10, 10, 80, 0, true), (0, 0));
    assert_eq!(fit(u16::MAX, 1, u16::MAX, u16::MAX, true), (u16::MAX, 1));
    assert_eq!(fit(1, u16::MAX, u16::MAX, u16::MAX, true), (2, u16::MAX));
    assert_eq!(fit(u16::MAX, u16::MAX, u16::MAX, u16::MAX, true), (u16::MAX, u16::MAX));
}

#[test]
fn scaling_up_repeats_pixels() {
    // 1 2
    // 3 4
    let image = numbered(4);
    let scaled = scale_image(&image, 2, 2, 4, 4, false);
    let p = |n: u8| (n, 0, 0);
    assert_eq!(
        scaled,
        vec![
            vec![p(1), p(1), p(2), p(2)],
            vec![p(1), p(1), p(2), p(2)],
            vec![p(3), p(3), p(4), p(4)],
            vec![p(3), p(3), p(4), p(4)],
        ]
    );
}

#[test]
fn scaling_down_picks_the_pixel_above_and_to_the_left() {
    // 1 2 3 4
    // 5 6 7 8
    // 9 ...
    let image = numbered(16);
    let p = |n: u8| (n, 0, 0);
    assert_eq!(scale_image(&image, 4, 4, 2, 2, false), vec![vec![p(1), p(3)], vec![p(9), p(11)]]);
    assert_eq!(
        scale_image(&image, 4, 4, 3, 3, false),
        vec![vec![p(1), p(2), p(3)], vec![p(5), p(6), p(7)], vec![p(9), p(10), p(11)]]
    );
    assert_eq!(scale_image(&image, 4, 4, 1, 1, false), vec![vec![p(1)]]);
    assert_eq!(scale_image(&image, 4, 4, 4, 4, false)[3], vec![p(13), p(14), p(15), p(16)]);
}

#[test]
fn a_picture_that_keeps_its_proportions_sits_in_the_middle() {
    // 2 by 2 on 8 by 2: drawn 4 wide, two black columns on either side
    let image = numbered(4);
    let p = |n: u8| (n, 0, 0);
    assert_eq!(
        scale_image(&image, 2, 2, 8, 2, true),
        vec![
            vec![K, K, p(1), p(1), p(2), p(2), K, K],
            vec![K, K, p(3), p(3), p(4), p(4), K, K],
        ]
    );
    // 4 by 1 on 4 by 5: drawn 1 high in row (5 - 1) / 2
    let image = numbered(4);
    assert_eq!(
        scale_image(&image, 4, 1, 4, 5, true),
        vec![vec![K; 4], vec![K; 4], vec![p(1), p(2), p(3), p(4)], vec![K; 4], vec![K; 4]]
    );
    // an odd margin has its smaller half first
    assert_eq!(
        scale_image(&numbered(1), 1, 1, 5, 1, true),
        vec![vec![K, p(1), p(1), K, K]]
    );
}

#[test]
fn nothing_to_draw_leaves_a_black_canvas() {
    assert_eq!(scale_image(&[], 0, 0, 3, 2, true), vec![vec![K; 3]; 2]);
    assert_eq!(scale_image(&[], 0, 7, 3, 2, true), vec![vec![K; 3]; 2]);
    assert_eq!(scale_image(&numbered(4), 2, 2, 0, 0, true), Vec::<Vec<(u8, u8, u8)>>::new());
    assert_eq!(scale_image(&numbered(4), 2, 2, 0, 3, false), vec![Vec::new(); 3]);
    assert_eq!(scale_image(&numbered(4), 2, 2, 3, 0, false), Vec::<Vec<(u8, u8, u8)>>::new());
    assert_eq!(scale_image(&[], 0, 0, 0, 2, false), vec![Vec::new(); 2]);
}

#[test]
fn pixels_beyond_the_picture_are_ignored() {
    let mut image = numbered(4);
    image.push((99, 99, 99));
    let p = |n: u8| (n, 0, 0);
    assert_eq!(scale_image(&image, 2, 2, 2, 2, false), vec![vec![p(1), p(2)], vec![p(3), p(4)]]);
}

#[test]
fn resampling_a_picture_of_one_color_keeps_the_color() {
    let image = vec![(10u8, 200u8, 90u8); 6];
    let scaled = quality_scale_image(&image, 3, 2, 6, 4, false);
    assert_eq!(scaled, vec![vec![(10u8, 200u8, 90u8); 6]; 4]);
    let scaled = quality_scale_image(&image, 3, 2, 2, 1, false);
    assert_eq!(scaled, vec![vec![(10u8, 200u8, 90u8); 2]; 1]);
    let scaled = quality_scale_image(&image, 3, 2, 3, 2, false);
    assert_eq!(scaled, vec![vec![(10u8, 200u8, 90u8); 3]; 2]);
}

#[test]
fn resampling_keeps_a_picture_in_the_middle_of_its_canvas() {
    // 2 by 2 on 8 by 2: drawn 4 wide, two black columns on either side
    let image = vec![(255u8, 255u8, 255u8); 4];
    let w = (255u8, 255u8, 255u8);
    assert_eq!(
        quality_scale_image(&image, 2, 2, 8, 2, true),
        vec![vec![K, K, w, w, w, w, K, K]; 2]
    );
    assert_eq!(
        quality_scale_image(&image, 4, 1, 4, 5, true),
        vec![vec![K; 4], vec![K; 4], vec![w; 4], vec![K; 4], vec![K; 4]]
    );
}

#[test]
fn resampling_blends_neighbours() {
    // black over white, stretched: the rows in between are neither black nor white
    let image = vec![(0u8, 0u8, 0u8), (0, 0, 0), (255, 255, 255), (255, 255, 255)];
    let scaled = quality_scale_image(&image, 2, 2, 2, 8, false);
    assert_eq!(scaled.len(), 8);
    assert!(scaled.iter().all(|row| row.len() == 2 && row[0] == row[1]));
    assert!(scaled[0][0].0 < 20);
    assert!(scaled[7][0].0 > 235);
    assert!(scaled.windows(2).all(|rows| rows[0][0].0 <= rows[1][0].0));
    assert!(scaled.iter().any(|row| row[0].0 > 20 && row[0].0 < 235));
    assert!(scaled.iter().all(|row| row[0].0 == row[0].1 && row[0].1 == row[0].2));
}

#[test]
fn resampling_fills_in_black_for_pixels_that_are_missing() {
    let scaled = quality_scale_image(&[(200, 200, 200)], 1, 2, 1, 2, false);
    assert_eq!(scaled, vec![vec![(200, 200, 200)], vec![K]]);
    assert_eq!(quality_scale_image(&[], 0, 0, 3, 2, true), vec![vec![K; 3]; 2]);
    assert_eq!(quality_scale_image(&[], 0, 0, 3, 2, false), vec![vec![K; 3]; 2]);
    assert_eq!(quality_scale_image(&[(9, 9, 9)], 1, 1, 0, 0, false), Vec::<Vec<(u8, u8, u8)>>::new());
}

#[test]
fn a_buffer_is_drawn_in_the_middle_of_its_canvas() {
    let picture = vec![1u8, 2, 3, 4, 5, 6];
    assert_eq!(
        place_centered(&picture, 2, 1, 5, 3),
        vec![vec![K; 5], vec![K, (1, 2, 3), (4, 5, 6), K, K], vec![K; 5]]
    );
    assert_eq!(place_centered(&picture, 1, 2, 1, 2), vec![vec![(1, 2, 3)], vec![(4, 5, 6)]]);
    assert_eq!(place_centered(&Vec::new(), 0, 0, 2, 1), vec![vec![K, K]]);
}

#[test]
fn fitting_hands_back_the_size_of_the_picture() {
    let image = numbered(4);
    let (w, h, scaled) = read_image(&image, 2, 2, 4, 4, false, false);
    assert_eq!((w, h), (2, 2));
    assert_eq!(scaled, scale_image(&image, 2, 2, 4, 4, false));
    let (w, h, scaled) = read_image(&image, 2, 2, 8, 2, false, true);
    assert_eq!((w, h), (2, 2));
    assert_eq!(scaled, scale_image(&image, 2, 2, 8, 2, true));
    let plain = vec![(7u8, 8u8, 9u8); 4];
    let (w, h, scaled) = read_image(&plain, 2, 2, 8, 2, true, true);
    assert_eq!((w, h), (2, 2));
    assert_eq!(scaled, vec![vec![K, K, (7, 8, 9), (7, 8, 9), (7, 8, 9), (7, 8, 9), K, K]; 2]);
}

#[test]
fn bytes_make_pixels_three_at_a_time() {
    assert_eq!(rgb_pixels(&[1, 2, 3, 4, 5, 6]), vec![(1, 2, 3), (4, 5, 6)]);
    assert_eq!(rgb_pixels(&[1, 2, 3, 4, 5]), vec![(1, 2, 3)]);
    assert_eq!(rgb_pixels(&[1, 2]), Vec::new());
    assert_eq!(rgb_pixels(&[]), Vec::new());
}

#[test]
fn a_bitmap_starts_with_its_width_and_height() {
    let bytes = [2u8, 0, 3, 0, 1, 1, 1, 2, 2, 2, 3, 3, 3, 4, 4, 4, 5, 5, 5, 6, 6, 6];
    let (w, h, screen) = read_bitmap(&bytes).unwrap();
    assert_eq!((w, h), (2, 3));
    assert_eq!(
        screen,
        vec![
            vec![(1, 1, 1), (2, 2, 2)],
            vec![(3, 3, 3), (4, 4, 4)],
            vec![(5, 5, 5), (6, 6, 6)],
        ]
    );
    // bytes after the last pixel are ignored
    let mut longer = bytes.to_vec();
    longer.extend([9, 9, 9, 9]);
    assert_eq!(read_bitmap(&longer).unwrap().2, screen);
}

#[test]
fn the_size_of_a_bitmap_is_written_low_byte_first() {
    let mut bytes = vec![0x01u8, 0x01, 0x01, 0x00];
    bytes.extend(std::iter::repeat(7u8).take(3 * 257));
    let (w, h, screen) = read_bitmap(&bytes).unwrap();
    assert_eq!((w, h), (257, 1));
    assert_eq!(screen, vec![vec![(7, 7, 7); 257]]);
    assert_eq!(read_bitmap(&[0xff, 0xff, 0, 0]).unwrap(), (65535, 0, Vec::new()));
    assert_eq!(read_bitmap(&[0, 0, 2, 1]).unwrap(), (0, 258, vec![Vec::new(); 258]));
}

#[test]
fn too_few_bytes_are_no_bitmap() {
    assert_eq!(read_bitmap(&[]), None);
    assert_eq!(read_bitmap(&[1]), None);
    assert_eq!(read_bitmap(&[1, 0, 1]), None);
    assert_eq!(read_bitmap(&[0, 0, 0, 0]), Some((0, 0, Vec::new())));
}
