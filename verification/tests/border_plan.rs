use ironpaint::border::{BevelShade, BorderStyle, CornerRadii, LayoutBorderSide, PhysicalEdges, Rgba8Color};
use ironpaint::border_plan::{
    partitioned_border_plan, uniform_paint_side, PartitionedBorderPlan, SideTreatment,
};

fn side(width: i32, style: BorderStyle, color: Rgba8Color) -> LayoutBorderSide {
    LayoutBorderSide { width, color, style }
}

#[test]
fn one_colour_solid_sides_become_one_ring_fill() {
    let red = Rgba8Color::rgb(200, 0, 0);
    let border = PhysicalEdges::new(
        side(64, BorderStyle::Solid, red),
        side(128, BorderStyle::Solid, red),
        side(64, BorderStyle::Solid, red),
        side(32, BorderStyle::Solid, red),
    );
    assert_eq!(partitioned_border_plan(&border, CornerRadii::circular(640)), PartitionedBorderPlan::WholeRing);
    assert_eq!(uniform_paint_side(&border), None);
}

#[test]
fn equal_bevelled_sides_paint_as_one_frame() {
    let grey = Rgba8Color::rgb(128, 128, 128);
    let groove = side(192, BorderStyle::Groove, grey);
    let border = PhysicalEdges::uniform(groove);
    assert_eq!(uniform_paint_side(&border), Some(groove));
    assert_eq!(
        partitioned_border_plan(&border, CornerRadii::zero()),
        PartitionedBorderPlan::UniformBevel { side: groove }
    );
}

#[test]
fn mixed_sides_get_their_own_treatment() {
    let blue = Rgba8Color::rgb(0, 0, 200);
    let green = Rgba8Color::rgb(0, 160, 0);
    let border = PhysicalEdges::new(
        side(64, BorderStyle::Solid, blue),
        side(192, BorderStyle::Double, green),
        side(128, BorderStyle::Ridge, green),
        side(64, BorderStyle::Dashed, blue),
    );
    let expected_square = PhysicalEdges::new(
        SideTreatment::GroupedSolid,
        SideTreatment::DoubleRules,
        SideTreatment::BevelHalves { outer: BevelShade::Dark, inner: BevelShade::Light },
        SideTreatment::SquarePattern,
    );
    assert_eq!(
        partitioned_border_plan(&border, CornerRadii::zero()),
        PartitionedBorderPlan::PerSide { treatments: expected_square }
    );
    let expected_rounded = PhysicalEdges::new(
        SideTreatment::GroupedSolid,
        SideTreatment::DoubleRules,
        SideTreatment::BevelHalves { outer: BevelShade::Dark, inner: BevelShade::Light },
        SideTreatment::RoundedPattern,
    );
    assert_eq!(
        partitioned_border_plan(&border, CornerRadii::circular(320)),
        PartitionedBorderPlan::PerSide { treatments: expected_rounded }
    );
}

#[test]
fn hidden_and_zero_width_sides_paint_nothing() {
    let black = Rgba8Color::rgb(0, 0, 0);
    let border = PhysicalEdges::new(
        side(64, BorderStyle::Hidden, black),
        side(0, BorderStyle::Solid, black),
        side(64, BorderStyle::Inset, black),
        side(64, BorderStyle::Outset, black),
    );
    assert_eq!(
        partitioned_border_plan(&border, CornerRadii::zero()),
        PartitionedBorderPlan::PerSide {
            treatments: PhysicalEdges::new(
                SideTreatment::Nothing,
                SideTreatment::Nothing,
                SideTreatment::BevelBand { shade: BevelShade::Light },
                SideTreatment::BevelBand { shade: BevelShade::Light },
            )
        }
    );
}
