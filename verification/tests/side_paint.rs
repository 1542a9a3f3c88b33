use ironpaint::border::{BorderStyle, LayoutBorderSide, PhysicalEdges, Rgba8Color};
use ironpaint::border_paint::{
    begin_border_alpha, end_border_alpha, paint_solid_side_components, reset_dash_pattern,
    BorderRingPaths,
};

fn solid(width: i32, color: Rgba8Color) -> LayoutBorderSide {
    LayoutBorderSide {
        width,
        color,
        style: BorderStyle::Solid,
    }
}

fn fill_operator(color: Rgba8Color) -> String {
    format!(
        "{} {} {} rg\n",
        f32::from(color.red) / 255.0,
        f32::from(color.green) / 255.0,
        f32::from(color.blue) / 255.0
    )
}

/// Exclusive side regions of a 100 x 50 box with square corners split on
/// their diagonals.
fn ring_paths(sides: &PhysicalEdges<LayoutBorderSide>, clip: Option<String>) -> BorderRingPaths {
    let w = |side: &LayoutBorderSide| f32::from(side.width as u16) / 64.0;
    let (t, r, b, l) = (w(&sides.top), w(&sides.right), w(&sides.bottom), w(&sides.left));
    BorderRingPaths {
        side_paths: PhysicalEdges {
            top: format!("0 50 m 100 50 l {} {} l {} {} l h\n", 100.0 - r, 50.0 - t, l, 50.0 - t),
            right: format!("100 50 m 100 0 l {} {} l {} {} l h\n", 100.0 - r, b, 100.0 - r, 50.0 - t),
            bottom: format!("100 0 m 0 0 l {} {} l {} {} l h\n", l, b, 100.0 - r, b),
            left: format!("0 0 m 0 50 l {} {} l {} {} l h\n", l, 50.0 - t, l, b),
        },
        fill_operators: PhysicalEdges {
            top: fill_operator(sides.top.color),
            right: fill_operator(sides.right.color),
            bottom: fill_operator(sides.bottom.color),
            left: fill_operator(sides.left.color),
        },
        curved_clip: clip,
    }
}

fn paint_components(sides: PhysicalEdges<LayoutBorderSide>) -> (String, Vec<(String, u8)>) {
    let mut content = String::new();
    let mut states = Vec::new();
    let mut counter = 0;
    let ring = ring_paths(&sides, None);
    paint_solid_side_components(&mut content, &ring, sides, &mut states, &mut counter);
    (content, states)
}

fn fill_count(content: &str) -> usize {
    content.lines().filter(|line| *line == "f").count()
}

#[test]
fn disconnected_equal_colour_sides_remain_separate_components() {
    let red = Rgba8Color::rgb(255, 0, 0);
    let sides = PhysicalEdges::new(
        solid(256, red),
        Default::default(),
        solid(256, red),
        Default::default(),
    );

    let (content, _) = paint_components(sides);

    assert_eq!(fill_count(&content), 2);
}

#[test]
fn alternating_colours_form_four_components() {
    let red = Rgba8Color::rgb(255, 0, 0);
    let blue = Rgba8Color::rgb(0, 0, 255);
    let sides = PhysicalEdges::new(
        solid(256, red),
        solid(256, blue),
        solid(256, red),
        solid(256, blue),
    );

    let (content, _) = paint_components(sides);

    assert_eq!(fill_count(&content), 4);
}

#[test]
fn adjacent_translucent_sides_share_one_alpha_group() {
    let translucent = Rgba8Color::rgba8(255, 0, 0, 128);
    let sides = PhysicalEdges::new(
        solid(256, translucent),
        solid(256, translucent),
        Default::default(),
        Default::default(),
    );

    let (content, states) = paint_components(sides);

    assert_eq!(fill_count(&content), 1);
    assert_eq!(states, vec![("GSbd0".to_string(), 128u8)]);
    assert_eq!(f32::from(states[0].1) / 255.0, 128.0 / 255.0);
}

#[test]
fn uniform_solid_ring_is_one_closed_fill_from_the_top() {
    let red = Rgba8Color::rgb(255, 0, 0);
    let sides = PhysicalEdges::uniform(solid(256, red));
    let ring = ring_paths(&sides, None);
    let (content, states) = paint_components(sides);
    let expected = format!(
        "{}{}{}{}{}f\n",
        ring.fill_operators.top,
        ring.side_paths.top,
        ring.side_paths.right,
        ring.side_paths.bottom,
        ring.side_paths.left
    );
    assert_eq!(content, expected);
    assert!(states.is_empty());
}

#[test]
fn wrapping_component_starts_after_the_first_break() {
    let red = Rgba8Color::rgb(255, 0, 0);
    let blue = Rgba8Color::rgb(0, 0, 255);
    // Left and top join across the top-left corner; right and bottom are blue.
    let sides = PhysicalEdges::new(solid(256, red), solid(256, blue), solid(256, blue), solid(256, red));
    let ring = ring_paths(&sides, Some("clip-path\n".to_string()));
    let mut content = String::new();
    let mut states = Vec::new();
    let mut counter = 3;
    paint_solid_side_components(&mut content, &ring, sides, &mut states, &mut counter);
    let expected = format!(
        "{}q\nclip-path\n{}{}f\nQ\n{}q\nclip-path\n{}{}f\nQ\n",
        ring.fill_operators.right,
        ring.side_paths.right,
        ring.side_paths.bottom,
        ring.fill_operators.left,
        ring.side_paths.left,
        ring.side_paths.top
    );
    assert_eq!(content, expected);
    assert_eq!(counter, 3);
}

#[test]
fn patterned_and_missing_sides_are_not_filled() {
    let red = Rgba8Color::rgb(255, 0, 0);
    let sides = PhysicalEdges::new(
        LayoutBorderSide { style: BorderStyle::Dashed, ..solid(256, red) },
        solid(0, red),
        LayoutBorderSide { style: BorderStyle::Hidden, ..solid(256, red) },
        LayoutBorderSide { style: BorderStyle::Double, ..solid(256, red) },
    );
    let (content, states) = paint_components(sides);
    assert_eq!(content, "");
    assert!(states.is_empty());
}

#[test]
fn translucent_side_is_bracketed_by_its_opacity_state() {
    let mut content = String::from("x\n");
    let mut states = vec![("GSbd0".to_string(), 10u8)];
    let mut counter = 1;
    let applied = begin_border_alpha(&mut content, &mut states, &mut counter, 200);
    assert!(applied);
    end_border_alpha(&mut content, applied);
    assert_eq!(content, "x\n/GSbd1 gs\n/GSDefault gs\n");
    assert_eq!(states, vec![("GSbd0".to_string(), 10u8), ("GSbd1".to_string(), 200u8)]);
    assert_eq!(counter, 2);

    let applied = begin_border_alpha(&mut content, &mut states, &mut counter, 255);
    assert!(!applied);
    end_border_alpha(&mut content, applied);
    assert_eq!(content, "x\n/GSbd1 gs\n/GSDefault gs\n");
    assert_eq!(counter, 2);
}

#[test]
fn dash_pattern_resets_follow_the_style() {
    assert_eq!(reset_dash_pattern(BorderStyle::Dashed), "[] 0 d\n");
    assert_eq!(reset_dash_pattern(BorderStyle::Dotted), "[] 0 d\n0 J\n");
    assert_eq!(reset_dash_pattern(BorderStyle::Solid), "");
}
