use ironpaint::filter_plan::{
    is_color_operation, surface_operation_steps, FilterOperationKind as Op, SurfaceStep,
};

#[test]
fn consecutive_colour_functions_form_one_run() {
    let operations = vec![Op::Grayscale, Op::Opacity, Op::Blur { positive_radius: true }, Op::Invert];
    assert_eq!(
        surface_operation_steps(&operations),
        Some(vec![
            SurfaceStep::ColorRun { start: 0, end: 2 },
            SurfaceStep::Blur { index: 2 },
            SurfaceStep::ColorRun { start: 3, end: 4 },
        ])
    );
}

#[test]
fn geometry_primitives_keep_list_order() {
    let operations = vec![
        Op::DropShadow,
        Op::Matrix,
        Op::HueRotate,
        Op::BlendWithFlood,
        Op::Blur { positive_radius: false },
        Op::Saturate,
    ];
    assert_eq!(
        surface_operation_steps(&operations),
        Some(vec![
            SurfaceStep::DropShadow { index: 0 },
            SurfaceStep::ColorRun { start: 1, end: 3 },
            SurfaceStep::BlendWithFlood { index: 3 },
            SurfaceStep::ColorRun { start: 5, end: 6 },
        ])
    );
}

#[test]
fn offset_and_dilation_have_no_surface_plan() {
    assert_eq!(surface_operation_steps(&vec![Op::Sepia, Op::Offset]), None);
    assert_eq!(surface_operation_steps(&vec![Op::MorphologyDilate, Op::Sepia]), None);
    assert_eq!(surface_operation_steps(&vec![]), Some(vec![]));
}

#[test]
fn colour_functions_are_the_pixelwise_ones() {
    for operation in [
        Op::Grayscale,
        Op::Sepia,
        Op::Invert,
        Op::Brightness,
        Op::Contrast,
        Op::Saturate,
        Op::HueRotate,
        Op::Opacity,
        Op::Matrix,
    ] {
        assert!(is_color_operation(operation));
    }
    for operation in [
        Op::BlendWithFlood,
        Op::Blur { positive_radius: true },
        Op::DropShadow,
        Op::Offset,
        Op::MorphologyDilate,
    ] {
        assert!(!is_color_operation(operation));
    }
}
