use ironpaint::border::Rgba8Color;
use ironpaint::color_space::{linear_to_srgb_byte, srgb_to_linear_byte, RasterFilterColorSpace};

#[test]
fn linear_rgb_surface_boundary_matches_rgba8_quantization() {
    assert_eq!(srgb_to_linear_byte(17), 1);
    assert_eq!(linear_to_srgb_byte(1), 13);
    assert_eq!(linear_to_srgb_byte(srgb_to_linear_byte(213)), 213);
}

#[test]
fn alpha_is_not_a_color_space_component() {
    let converted = RasterFilterColorSpace::LinearRgb.enter_color(Rgba8Color::rgba8(17, 17, 17, 127));
    assert_eq!(converted.to_rgba8(), [1, 1, 1, 127]);
}

#[test]
fn transfer_tables_match_the_float_transfer_functions() {
    for byte in 0..=255u8 {
        let component = f32::from(byte) / 255.0;
        let linear = if component <= 0.04045 {
            component / 12.92
        } else {
            ((component + 0.055) / 1.055).powf(2.4)
        };
        let expected = (linear * 255.0).round().clamp(0.0, 255.0) as u8;
        assert_eq!(srgb_to_linear_byte(byte), expected, "sRGB {byte}");
        let srgb = if component <= 0.003_130_8 {
            12.92 * component
        } else {
            1.055 * component.powf(1.0 / 2.4) - 0.055
        };
        let expected = (srgb * 255.0).round().clamp(0.0, 255.0) as u8;
        assert_eq!(linear_to_srgb_byte(byte), expected, "linear {byte}");
    }
}

#[test]
fn srgb_working_space_leaves_colors_unchanged() {
    let color = Rgba8Color::rgba8(17, 120, 213, 64);
    assert_eq!(RasterFilterColorSpace::resolve(false).enter_color(color), color);
    assert_eq!(RasterFilterColorSpace::resolve(true), RasterFilterColorSpace::LinearRgb);
}

#[test]
fn transfer_tables_are_monotone_and_fix_black_and_white() {
    assert_eq!((srgb_to_linear_byte(0), srgb_to_linear_byte(255)), (0, 255));
    assert_eq!((linear_to_srgb_byte(0), linear_to_srgb_byte(255)), (0, 255));
    for byte in 0..255u8 {
        assert!(srgb_to_linear_byte(byte) <= srgb_to_linear_byte(byte + 1));
        assert!(linear_to_srgb_byte(byte) <= linear_to_srgb_byte(byte + 1));
        assert!(srgb_to_linear_byte(byte) <= byte);
        assert!(linear_to_srgb_byte(byte) >= byte);
    }
}
