use ironpaint::mask::{dilate_alpha_mask, GrayRaster};

#[test]
fn zero_radius_dilation_keeps_the_mask() {
    let mask = GrayRaster::from_raw(3, 2, vec![1, 2, 3, 4, 5, 6]).unwrap();
    assert_eq!(dilate_alpha_mask(&mask, 0), mask);
}

#[test]
fn radius_one_dilation_spreads_to_the_four_neighbours() {
    let mut samples = vec![0u8; 25];
    samples[12] = 200;
    samples[0] = 10;
    let mask = GrayRaster::from_raw(5, 5, samples).unwrap();
    let dilated = dilate_alpha_mask(&mask, 1);
    let expected: Vec<u8> = vec![
        10, 10, 0, 0, 0, //
        10, 0, 200, 0, 0, //
        0, 200, 200, 200, 0, //
        0, 0, 200, 0, 0, //
        0, 0, 0, 0, 0,
    ];
    assert_eq!(dilated.samples, expected);
}

#[test]
fn radius_two_dilation_fills_the_disc_but_not_the_corners() {
    let mut samples = vec![0u8; 25];
    samples[12] = 9;
    let mask = GrayRaster::from_raw(5, 5, samples).unwrap();
    let dilated = dilate_alpha_mask(&mask, 2);
    for y in 0..5u32 {
        for x in 0..5u32 {
            let dx = x.abs_diff(2);
            let dy = y.abs_diff(2);
            let expected = if dx * dx + dy * dy <= 4 { 9 } else { 0 };
            assert_eq!(dilated.get(x, y), expected, "({x}, {y})");
        }
    }
}

#[test]
fn masks_need_one_sample_per_pixel() {
    assert!(GrayRaster::from_raw(2, 2, vec![0; 3]).is_none());
    assert!(GrayRaster::from_raw(0, 7, vec![]).is_some());
    let empty = GrayRaster::from_raw(0, 7, vec![]).unwrap();
    assert_eq!(dilate_alpha_mask(&empty, 3).samples.len(), 0);
}

#[test]
fn radii_past_the_mask_fill_it_with_its_largest_sample() {
    let mask = GrayRaster::from_raw(3, 2, vec![4, 0, 7, 1, 90, 2]).unwrap();
    for radius in [3u32, 46_341, 60_000, 65_535] {
        let dilated = dilate_alpha_mask(&mask, radius);
        assert_eq!(dilated.samples, vec![90; 6], "radius {radius}");
    }
}
