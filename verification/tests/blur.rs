use ironpaint::discrete::{
    box_blur_axes, box_blur_axis, DiscreteGaussianPlan, GaussianLinePass, ScaledDividerU32,
};
use ironpaint::raster::RgbaRaster;

/// The three-box window that approximates a gaussian of `sigma` pixels.
fn window_for_sigma(sigma_px: f32) -> u32 {
    (f64::from(sigma_px) * 3.0 * (2.0 * std::f64::consts::PI).sqrt() / 4.0 + 0.5).floor() as u32
}

#[test]
fn discrete_gaussian_matches_chromium_pdf_alpha_profile() {
    let plan = DiscreteGaussianPlan::from_window(window_for_sigma(15.625))
        .expect("finite sigma has a plan");
    assert_eq!(plan.pass_widths(), [29, 29, 29]);

    let mut source = RgbaRaster::transparent(594, 594).expect("test raster dimensions");
    for y in 47..547 {
        for x in 47..547 {
            source.put_pixel(x, y, [0, 0, 0, 255]);
        }
    }
    let blurred = box_blur_axes(&source, plan).expect("valid image and plan produce a blurred image");
    let expected = [
        (10, 1),
        (15, 3),
        (20, 9),
        (25, 19),
        (30, 34),
        (35, 57),
        (40, 86),
        (45, 118),
        (46, 124),
        (47, 131),
        (48, 137),
        (50, 150),
    ];
    for (x, alpha) in expected {
        assert_eq!(blurred.get_pixel(x, 300)[3], alpha, "x={x}");
    }
}

#[test]
fn broad_mask_plan_has_the_kernel_support_of_three_boxes() {
    let plan = DiscreteGaussianPlan::from_window(window_for_sigma(28.125)).expect("plan");
    assert_eq!(plan.pass_widths(), [53, 53, 53]);
    assert_eq!(plan.support_radius(), 78);
}

#[test]
fn plans_exist_only_for_windows_two_to_254() {
    assert!(DiscreteGaussianPlan::from_window(0).is_none());
    assert!(DiscreteGaussianPlan::from_window(1).is_none());
    assert!(DiscreteGaussianPlan::from_window(2).is_some());
    assert!(DiscreteGaussianPlan::from_window(254).is_some());
    assert!(DiscreteGaussianPlan::from_window(255).is_none());
    let even = DiscreteGaussianPlan::from_window(4).unwrap();
    assert_eq!(even.pass_widths(), [4, 4, 5]);
    assert_eq!(even.border, 5);
    let odd = DiscreteGaussianPlan::from_window(5).unwrap();
    assert_eq!(odd.pass_widths(), [5, 5, 5]);
    assert_eq!(odd.border, 6);
}

#[test]
fn scaled_divider_rounds_like_chromium() {
    assert!(ScaledDividerU32::new(0).is_none());
    assert!(ScaledDividerU32::new(1).is_none());
    assert!(ScaledDividerU32::new(u32::MAX).is_none());
    let divider = ScaledDividerU32::new(29 * 29 * 29).unwrap();
    assert_eq!(divider.factor, 176_103);
    assert_eq!(divider.half, 12_195);
    assert_eq!(divider.divide(0), Some(0));
    assert_eq!(divider.divide(255 * 29 * 29 * 29 + divider.half), Some(255));
    assert_eq!(divider.divide(100 * 29 * 29 * 29 + divider.half), Some(100));
    assert_eq!(divider.divide(u32::MAX), None);
    let three = ScaledDividerU32::new(3).unwrap();
    assert_eq!(three.factor, 1_431_655_765);
    assert_eq!(three.divide(3 * 200 + three.half), Some(200));
}

#[test]
fn blurring_an_empty_raster_is_refused() {
    let plan = DiscreteGaussianPlan::from_window(3).unwrap();
    let empty = RgbaRaster::transparent(0, 5).unwrap();
    assert!(box_blur_axes(&empty, plan).is_none());
    assert!(box_blur_axis(&empty, plan, true).is_none());
}

#[test]
fn blurring_keeps_a_uniform_opaque_interior() {
    let plan = DiscreteGaussianPlan::from_window(3).unwrap();
    let mut source = RgbaRaster::transparent(40, 3).unwrap();
    for x in 0..40 {
        for y in 0..3 {
            source.put_pixel(x, y, [255, 255, 255, 255]);
        }
    }
    let blurred = box_blur_axis(&source, plan, true).unwrap();
    assert_eq!(blurred.get_pixel(20, 1), [255, 255, 255, 255]);
    assert!(blurred.get_pixel(0, 1)[3] < 255);
}

#[test]
fn transparent_samples_keep_a_line_pass_at_rest() {
    let plan = DiscreteGaussianPlan::from_window(5).expect("window in range");
    let mut pass = GaussianLinePass::new(plan).expect("window of at least one");
    let half = pass.divider.half;
    for _ in 0..20 {
        assert_eq!(pass.advance([0; 4]), Some([0, 0, 0, 0]));
        assert_eq!((pass.sum0, pass.sum1, pass.sum2), ([0; 4], [0; 4], [half; 4]));
    }
    assert!(pass.advance([255, 255, 255, 255]).is_some());
    assert_ne!(pass.sum0, [0; 4]);
    pass.reset();
    let after_one = (pass.buffer0.clone(), pass.buffer1.clone(), pass.buffer2.clone(), pass.sum0, pass.sum1, pass.sum2);
    pass.reset();
    let after_two = (pass.buffer0.clone(), pass.buffer1.clone(), pass.buffer2.clone(), pass.sum0, pass.sum1, pass.sum2);
    assert_eq!(after_one, after_two);
    assert!(after_one.0.iter().chain(&after_one.1).chain(&after_one.2).all(|cell| *cell == [0; 4]));
    assert_eq!((pass.cursor0, pass.cursor1, pass.cursor2), (0, 0, 0));
    assert_eq!(pass.advance([0; 4]), Some([0, 0, 0, 0]));
}
