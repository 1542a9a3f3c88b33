use ironpaint::backdrop::GradientBackdrop;
use ironpaint::blend::BlendMode;
use ironpaint::border::{
    bevel_edge_shade, is_bevel_style, BevelShade, BorderStyle, PhysicalSide, Rgba8Color,
};
use ironpaint::clipping::{ContentClip, StackingTraversal};
use ironpaint::tiles::{repeat_modes, AxisRepeatMode, BackgroundRepeat, BackgroundRepeatModes};
use ironpaint::turbulence::svg_turbulence_random;

#[test]
fn content_clip_brackets_content_and_mirrors_the_stacking_clip() {
    let clip = ContentClip::from_path("0 0 10 10 re\n".to_string());
    let mut output = String::from("BT\n");
    let mut stacking = StackingTraversal::new();
    clip.begin(&mut output, &mut stacking);
    assert_eq!(output, "BT\nq\n0 0 10 10 re\nW n\n");
    assert_eq!(stacking.depth(), 1);
    output.push_str("0 0 m\n");
    clip.finish(&mut output, &mut stacking);
    assert_eq!(output, "BT\nq\n0 0 10 10 re\nW n\n0 0 m\nQ\n");
    assert_eq!(stacking.depth(), 0);
}

#[test]
fn nested_clips_unwind_in_order() {
    let outer = ContentClip::from_path("A\n".to_string());
    let inner = ContentClip::from_path("B\n".to_string());
    let mut output = String::new();
    let mut stacking = StackingTraversal::new();
    outer.begin(&mut output, &mut stacking);
    inner.begin(&mut output, &mut stacking);
    assert_eq!(stacking.depth(), 2);
    inner.finish(&mut output, &mut stacking);
    outer.finish(&mut output, &mut stacking);
    assert_eq!(output, "q\nA\nW n\nq\nB\nW n\nQ\nQ\n");
    assert_eq!(stacking.depth(), 0);
    stacking.pop_clip();
    assert_eq!(stacking.depth(), 0);
}

#[test]
fn bevel_styles_are_the_three_dimensional_ones() {
    for style in [BorderStyle::Groove, BorderStyle::Ridge, BorderStyle::Inset, BorderStyle::Outset] {
        assert!(is_bevel_style(style));
    }
    for style in [BorderStyle::Solid, BorderStyle::Double, BorderStyle::Dashed, BorderStyle::NoStyle] {
        assert!(!is_bevel_style(style));
    }
}

#[test]
fn bevel_shades_light_the_top_left_of_outset_and_the_bottom_right_of_inset() {
    assert_eq!(bevel_edge_shade(BorderStyle::Outset, PhysicalSide::Top, false), BevelShade::Light);
    assert_eq!(bevel_edge_shade(BorderStyle::Outset, PhysicalSide::Right, false), BevelShade::Dark);
    assert_eq!(bevel_edge_shade(BorderStyle::Inset, PhysicalSide::Left, true), BevelShade::Dark);
    assert_eq!(bevel_edge_shade(BorderStyle::Inset, PhysicalSide::Bottom, true), BevelShade::Light);
    assert_eq!(bevel_edge_shade(BorderStyle::Ridge, PhysicalSide::Top, false), BevelShade::Light);
    assert_eq!(bevel_edge_shade(BorderStyle::Ridge, PhysicalSide::Top, true), BevelShade::Dark);
    assert_eq!(bevel_edge_shade(BorderStyle::Groove, PhysicalSide::Top, true), BevelShade::Light);
    assert_eq!(bevel_edge_shade(BorderStyle::Solid, PhysicalSide::Top, true), BevelShade::Base);
}

#[test]
fn gradient_backdrop_keeps_only_an_isolated_opaque_colour() {
    let opaque = Rgba8Color::rgb(10, 20, 30);
    let translucent = Rgba8Color::rgba8(10, 20, 30, 254);
    assert_eq!(
        GradientBackdrop::isolated_linear_layer(Some(opaque), false, BlendMode::Normal).opaque_color(),
        Some(opaque)
    );
    assert_eq!(
        GradientBackdrop::isolated_linear_layer(Some(opaque), true, BlendMode::Normal),
        GradientBackdrop::default()
    );
    assert_eq!(
        GradientBackdrop::isolated_linear_layer(Some(opaque), false, BlendMode::Multiply).0,
        None
    );
    assert_eq!(
        GradientBackdrop::isolated_linear_layer(Some(translucent), false, BlendMode::Normal).0,
        None
    );
    assert_eq!(GradientBackdrop(Some(translucent)).opaque_color(), None);
    assert_eq!(GradientBackdrop::isolated_linear_layer(None, false, BlendMode::Normal).0, None);
}

#[test]
fn repeat_keywords_map_to_per_axis_modes() {
    let modes = repeat_modes(BackgroundRepeat::SpaceRound);
    assert_eq!(modes.horizontal, AxisRepeatMode::Space);
    assert_eq!(modes.vertical, AxisRepeatMode::Round);
    assert!(modes.is_distributed());
    let modes = BackgroundRepeatModes::from(BackgroundRepeat::RepeatX);
    assert_eq!(modes.horizontal, AxisRepeatMode::Repeat);
    assert_eq!(modes.vertical, AxisRepeatMode::NoRepeat);
    assert!(!modes.is_distributed());
}

#[test]
fn turbulence_random_follows_park_miller() {
    assert_eq!(svg_turbulence_random(1), 16_807);
    assert_eq!(svg_turbulence_random(16_807), 282_475_249);
    assert_eq!(svg_turbulence_random(282_475_249), 1_622_650_073);
    for seed in [1i32, 7, 127_773, 2_147_483_646, 1_000_000_007] {
        let expected = (i64::from(seed) * 16_807 % 2_147_483_647) as i32;
        assert_eq!(svg_turbulence_random(seed), expected, "seed {seed}");
    }
}

#[test]
fn mixed_repeat_keywords_are_mirror_images() {
    let space_round = repeat_modes(BackgroundRepeat::SpaceRound);
    let round_space = repeat_modes(BackgroundRepeat::RoundSpace);
    assert_eq!(space_round.horizontal, round_space.vertical);
    assert_eq!(space_round.vertical, round_space.horizontal);
    let repeat_x = repeat_modes(BackgroundRepeat::RepeatX);
    let repeat_y = repeat_modes(BackgroundRepeat::RepeatY);
    assert_eq!(repeat_x.horizontal, repeat_y.vertical);
    assert_eq!(repeat_x.vertical, repeat_y.horizontal);
}
