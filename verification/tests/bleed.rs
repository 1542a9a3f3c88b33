use ironpaint::bleed::{BackgroundBleed, BackgroundClip, BLEED_SUBUNITS_PER_LAYOUT_UNIT};
use ironpaint::border::{
    BorderStyle, CornerRadii, LayoutBorderSide, PhysicalEdges, Rgba8Color, LAYOUT_UNITS_PER_POINT,
};

fn points(value: i32) -> i32 {
    value * LAYOUT_UNITS_PER_POINT
}

/// A length in points as bleed subunits (sixths of a layout unit).
fn bleed_points(value: i32) -> i64 {
    i64::from(points(value)) * BLEED_SUBUNITS_PER_LAYOUT_UNIT
}

fn side(style: BorderStyle, alpha: u8) -> LayoutBorderSide {
    LayoutBorderSide {
        width: points(6),
        color: Rgba8Color::rgba8(0, 0, 0, alpha),
        style,
    }
}

#[test]
fn one_double_edge_selects_the_conservative_global_fraction() {
    let border = PhysicalEdges::new(
        side(BorderStyle::Solid, 255),
        side(BorderStyle::Double, 255),
        side(BorderStyle::Solid, 255),
        side(BorderStyle::Solid, 255),
    );
    let bleed = BackgroundBleed::from_decoration(&border, false);

    assert_eq!(
        bleed.clip_insets(BackgroundClip::Border, CornerRadii::circular(points(10))),
        PhysicalEdges::uniform(bleed_points(1))
    );
}

#[test]
fn any_exposed_or_translucent_edge_disables_bleed_avoidance() {
    for exposed in [
        side(BorderStyle::Dashed, 255),
        side(BorderStyle::Dotted, 255),
        side(BorderStyle::Solid, 128),
        LayoutBorderSide::default(),
    ] {
        let border = PhysicalEdges::new(
            side(BorderStyle::Solid, 255),
            exposed,
            side(BorderStyle::Solid, 255),
            side(BorderStyle::Solid, 255),
        );
        assert_eq!(
            BackgroundBleed::from_decoration(&border, false),
            BackgroundBleed::none()
        );
    }
}

#[test]
fn square_and_inner_background_clips_need_no_bleed_inset() {
    let bleed =
        BackgroundBleed::from_decoration(&PhysicalEdges::uniform(side(BorderStyle::Solid, 255)), false);

    assert_eq!(
        bleed.clip_insets(BackgroundClip::Border, CornerRadii::zero()),
        PhysicalEdges::uniform(0i64)
    );
    assert_eq!(
        bleed.clip_insets(BackgroundClip::Padding, CornerRadii::circular(points(10))),
        PhysicalEdges::uniform(0i64)
    );
}

#[test]
fn border_image_disables_opaque_edge_bleed_avoidance() {
    let border = PhysicalEdges::uniform(side(BorderStyle::Solid, 255));

    assert_eq!(
        BackgroundBleed::from_decoration(&border, true),
        BackgroundBleed::none()
    );
}

#[test]
fn opaque_solid_border_hides_half_of_each_width() {
    let border = PhysicalEdges::new(
        side(BorderStyle::Solid, 255),
        LayoutBorderSide { width: points(4), ..side(BorderStyle::Solid, 255) },
        side(BorderStyle::Groove, 255),
        side(BorderStyle::Solid, 255),
    );
    let bleed = BackgroundBleed::from_decoration(&border, false);
    assert_eq!(
        bleed.insets,
        PhysicalEdges::new(bleed_points(3), bleed_points(2), bleed_points(3), bleed_points(3))
    );
    assert!(!bleed.obscures_rectangular_destination(CornerRadii::circular(points(2))));
    assert!(bleed.obscures_rectangular_destination(CornerRadii::zero()));
    assert!(!BackgroundBleed::none().obscures_rectangular_destination(CornerRadii::zero()));
}

#[test]
fn content_clip_needs_no_bleed_inset() {
    let bleed =
        BackgroundBleed::from_decoration(&PhysicalEdges::uniform(side(BorderStyle::Solid, 255)), false);
    assert_eq!(
        bleed.clip_insets(BackgroundClip::Content, CornerRadii::circular(points(10))),
        PhysicalEdges::uniform(0i64)
    );
}

#[test]
fn one_unit_border_hides_exactly_half_a_unit() {
    let thin = LayoutBorderSide { width: 1, ..side(BorderStyle::Solid, 255) };
    let bleed = BackgroundBleed::from_decoration(&PhysicalEdges::uniform(thin), false);
    assert_eq!(bleed.insets, PhysicalEdges::uniform(BLEED_SUBUNITS_PER_LAYOUT_UNIT / 2));
    let double = LayoutBorderSide { width: 1, ..side(BorderStyle::Double, 255) };
    let bleed = BackgroundBleed::from_decoration(&PhysicalEdges::uniform(double), false);
    assert_eq!(bleed.insets, PhysicalEdges::uniform(BLEED_SUBUNITS_PER_LAYOUT_UNIT / 6));
}
