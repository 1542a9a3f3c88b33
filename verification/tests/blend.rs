use ironpaint::compositing::{begin_blend_mode, pdf_blend_name};
use ironpaint::blend::{composite_opaque_channel, composite_opaque_pixel, supports, BlendMode};

#[test]
fn opaque_screen_then_multiply_matches_chromium_integer_channels() {
    let base = [253, 216, 53, 255];
    let blue = [21, 101, 192, 255];
    let red = [211, 47, 47, 255];

    let screen = composite_opaque_pixel(blue, base, BlendMode::Screen, false).unwrap();
    assert_eq!(screen, [254, 232, 206, 255]);
    assert_eq!(
        composite_opaque_pixel(red, screen, BlendMode::Multiply, false),
        Some([210, 42, 37, 255])
    );
}

#[test]
fn opaque_linear_multiply_uses_chromium_filter_surface_quantization() {
    let red = [213, 0, 0, 255];
    let blue = [21, 101, 192, 255];

    assert_eq!(
        composite_opaque_pixel(red, blue, BlendMode::Multiply, true),
        Some([13, 0, 0, 255])
    );
}

#[test]
fn normal_mode_keeps_the_source_channel() {
    assert_eq!(
        composite_opaque_pixel([1, 2, 3, 255], [200, 100, 50, 255], BlendMode::Normal, false),
        Some([1, 2, 3, 255])
    );
    assert_eq!(composite_opaque_channel(77, 200, BlendMode::Normal), Some(77));
}

#[test]
fn floating_point_and_non_separable_modes_leave_the_integer_path() {
    assert_eq!(composite_opaque_channel(10, 20, BlendMode::Overlay), None);
    assert_eq!(
        composite_opaque_pixel([1, 2, 3, 255], [4, 5, 6, 255], BlendMode::Difference, false),
        None
    );
    assert!(supports(BlendMode::Difference));
    assert!(!supports(BlendMode::Hue));
    assert_eq!(
        composite_opaque_pixel([1, 2, 3, 255], [4, 5, 6, 255], BlendMode::Luminosity, true),
        None
    );
}

#[test]
fn multiply_by_white_and_screen_with_black_are_identities() {
    for value in [0u8, 1, 127, 128, 254, 255] {
        assert_eq!(composite_opaque_channel(value, 255, BlendMode::Multiply), Some(value));
        assert_eq!(composite_opaque_channel(value, 0, BlendMode::Screen), Some(value));
    }
    assert_eq!(composite_opaque_channel(128, 128, BlendMode::Multiply), Some(64));
}

#[test]
fn blend_modes_select_a_named_graphics_state() {
    let mut content = String::from("q\n");
    let mut states = Vec::new();
    assert!(!begin_blend_mode(&mut content, &mut states, BlendMode::Normal));
    assert_eq!(content, "q\n");
    assert!(states.is_empty());
    assert!(begin_blend_mode(&mut content, &mut states, BlendMode::ColorDodge));
    assert_eq!(content, "q\n/GSbmColorDodge gs\n");
    assert_eq!(states, vec![("GSbmColorDodge".to_string(), 255u8)]);
    assert_eq!(pdf_blend_name(BlendMode::Luminosity), Some("Luminosity"));
    assert_eq!(pdf_blend_name(BlendMode::Normal), None);
}
