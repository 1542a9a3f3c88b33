//! How a border that is not one uniform frame is painted: the choice
//! between one ring fill, a uniform bevelled frame, and per-side painting,
//! and what each side receives in the per-side case.

use vstd::prelude::*;
use crate::border::{
    spec_bevel_edge_shade, bevel_edge_shade, BevelShade, BorderStyle, CornerRadii, LayoutBorder,
    LayoutBorderSide, PhysicalEdges, PhysicalSide,
};

verus! {

/// What one side receives when the sides of a border are painted one by one.
#[derive(Clone, Copy, Debug, PartialEq, Eq, Structural)]
pub enum SideTreatment {
    /// The side paints nothing.
    Nothing,
    /// The side is solid: it is filled with the connected equal-colour
    /// solid sides around it.
    GroupedSolid,
    /// Two rules of the side's colour, one in the outer third of the band
    /// and one in the inner third.
    DoubleRules,
    /// The outer and the inner half of the band in two shades (`groove`,
    /// `ridge`).
    BevelHalves { outer: BevelShade, inner: BevelShade },
    /// The whole band in one shade (`inset`, `outset`).
    BevelBand { shade: BevelShade },
    /// Dashes or dots laid along the side's curved stroke.
    RoundedPattern,
    /// Dashes or dots laid along a straight side.
    SquarePattern,
}

/// The painting of a border that is not a uniform frame.
#[derive(Clone, Copy, Debug, PartialEq, Eq)]
pub enum PartitionedBorderPlan {
    /// Every side is solid in the top side's colour: the whole ring is
    /// one fill.
    WholeRing,
    /// All four sides are the same bevelled side: the lit and the dark
    /// halves of the frame are each one fill.
    UniformBevel { side: LayoutBorderSide },
    /// Solid sides are filled in connected groups, then each other side
    /// is painted in its own region.
    PerSide { treatments: PhysicalEdges<SideTreatment> },
}

/// The side shared by all four sides of a border, when they are equal and
/// paint.
pub open spec fn spec_uniform_paint_side(border: LayoutBorder) -> Option<LayoutBorderSide> {
    if border.top.spec_paints() && border.right == border.top && border.bottom == border.top
        && border.left == border.top {
        Some(border.top)
    } else {
        None
    }
}

/// The side shared by all four sides of a border, when they are equal and
/// paint.
pub fn uniform_paint_side(border: &LayoutBorder) -> (result: Option<LayoutBorderSide>)
    ensures
        result == spec_uniform_paint_side(*border),
{
    if border.top.paints() && border.right == border.top && border.bottom == border.top
        && border.left == border.top {
        Some(border.top)
    } else {
        None
    }
}

/// Every side paints solid in the colour of the top side.
pub open spec fn spec_is_single_solid_ring(border: LayoutBorder) -> bool {
    &&& border.top.spec_paints()
    &&& border.top.style == BorderStyle::Solid
    &&& forall|side: PhysicalSide|
        #![auto]
        border.at(side).spec_paints() && border.at(side).style == BorderStyle::Solid
            && border.at(side).color == border.top.color
}

/// What `side`, on edge `edge`, receives when sides are painted one by one.
pub open spec fn spec_side_treatment(
    side: LayoutBorderSide,
    edge: PhysicalSide,
    rounded: bool,
) -> SideTreatment {
    if !side.spec_paints() {
        SideTreatment::Nothing
    } else {
        match side.style {
            BorderStyle::Solid => SideTreatment::GroupedSolid,
            BorderStyle::Double => SideTreatment::DoubleRules,
            BorderStyle::Groove | BorderStyle::Ridge => SideTreatment::BevelHalves {
                outer: spec_bevel_edge_shade(side.style, edge, false),
                inner: spec_bevel_edge_shade(side.style, edge, true),
            },
            BorderStyle::Inset | BorderStyle::Outset => SideTreatment::BevelBand {
                shade: spec_bevel_edge_shade(side.style, edge, false),
            },
            BorderStyle::Dashed | BorderStyle::Dotted => if rounded {
                SideTreatment::RoundedPattern
            } else {
                SideTreatment::SquarePattern
            },
            _ => SideTreatment::Nothing,
        }
    }
}

/// The plan for a border with corner radii `radii`: one ring fill when every
/// side is solid in one colour, else a uniform bevelled frame when the four
/// sides are one bevelled side, else per-side painting, where dashes and dots
/// follow the curve exactly when some corner is rounded.
pub open spec fn spec_partitioned_border_plan(
    border: LayoutBorder,
    radii: CornerRadii,
) -> PartitionedBorderPlan {
    let rounded = !radii.spec_is_zero();
    if spec_is_single_solid_ring(border) {
        PartitionedBorderPlan::WholeRing
    } else if spec_uniform_paint_side(border) is Some && crate::border::spec_is_bevel_style(
        border.top.style,
    ) {
        PartitionedBorderPlan::UniformBevel { side: border.top }
    } else {
        PartitionedBorderPlan::PerSide {
            treatments: PhysicalEdges {
                top: spec_side_treatment(border.top, PhysicalSide::Top, rounded),
                right: spec_side_treatment(border.right, PhysicalSide::Right, rounded),
                bottom: spec_side_treatment(border.bottom, PhysicalSide::Bottom, rounded),
                left: spec_side_treatment(border.left, PhysicalSide::Left, rounded),
            },
        }
    }
}

/// What `side`, on edge `edge`, receives when sides are painted one by one.
pub fn side_treatment(side: LayoutBorderSide, edge: PhysicalSide, rounded: bool) -> (result:
    SideTreatment)
    ensures
        result == spec_side_treatment(side, edge, rounded),
{
    if !side.paints() {
        return SideTreatment::Nothing;
    }
    match side.style {
        BorderStyle::Solid => SideTreatment::GroupedSolid,
        BorderStyle::Double => SideTreatment::DoubleRules,
        BorderStyle::Groove | BorderStyle::Ridge => SideTreatment::BevelHalves {
            outer: bevel_edge_shade(side.style, edge, false),
            inner: bevel_edge_shade(side.style, edge, true),
        },
        BorderStyle::Inset | BorderStyle::Outset => SideTreatment::BevelBand {
            shade: bevel_edge_shade(side.style, edge, false),
        },
        BorderStyle::Dashed | BorderStyle::Dotted => {
            if rounded {
                SideTreatment::RoundedPattern
            } else {
                SideTreatment::SquarePattern
            }
        },
        _ => SideTreatment::Nothing,
    }
}

/// Decide how a border that is not a uniform frame is painted.
pub fn partitioned_border_plan(border: &LayoutBorder, radii: CornerRadii) -> (plan:
    PartitionedBorderPlan)
    ensures
        plan == spec_partitioned_border_plan(*border, radii),
{
    let top = border.top;
    let single_ring = top.paints() && top.style == BorderStyle::Solid && solid_in(border.right, top)
        && solid_in(border.bottom, top) && solid_in(border.left, top);
    proof {
        if single_ring {
            assert forall|side: PhysicalSide|
                #![auto]
                border.at(side).spec_paints() && border.at(side).style == BorderStyle::Solid
                    && border.at(side).color == border.top.color by {
                match side {
                    PhysicalSide::Top => {},
                    PhysicalSide::Right => {},
                    PhysicalSide::Bottom => {},
                    PhysicalSide::Left => {},
                }
            }
        } else {
            if spec_is_single_solid_ring(*border) {
                assert(border.at(PhysicalSide::Right).spec_paints());
                assert(border.at(PhysicalSide::Bottom).spec_paints());
                assert(border.at(PhysicalSide::Left).spec_paints());
            }
        }
    }
    if single_ring {
        return PartitionedBorderPlan::WholeRing;
    }
    match uniform_paint_side(border) {
        Some(side) => {
            if crate::border::is_bevel_style(side.style) {
                return PartitionedBorderPlan::UniformBevel { side };
            }
        },
        None => {},
    }
    let rounded = !radii.is_zero();
    PartitionedBorderPlan::PerSide {
        treatments: PhysicalEdges {
            top: side_treatment(border.top, PhysicalSide::Top, rounded),
            right: side_treatment(border.right, PhysicalSide::Right, rounded),
            bottom: side_treatment(border.bottom, PhysicalSide::Bottom, rounded),
            left: side_treatment(border.left, PhysicalSide::Left, rounded),
        },
    }
}

/// `side` paints solid in the colour of `top`.
fn solid_in(side: LayoutBorderSide, top: LayoutBorderSide) -> (result: bool)
    ensures
        result == (side.spec_paints() && side.style == BorderStyle::Solid && side.color
            == top.color),
{
    side.paints() && side.style == BorderStyle::Solid && side.color == top.color
}

/// In per-side painting every side that paints is painted exactly once by
/// one treatment, a side that does not paint receives nothing, and the two
/// halves of a `groove` or `ridge` side take opposite shades.
pub proof fn lemma_per_side_plan_covers_painting_sides(
    border: LayoutBorder,
    radii: CornerRadii,
    edge: PhysicalSide,
)
    requires
        spec_partitioned_border_plan(border, radii) is PerSide,
    ensures
        ({
            let treatment = spec_partitioned_border_plan(border, radii)->treatments.at(edge);
            &&& (treatment == SideTreatment::Nothing) <==> !border.at(edge).spec_paints()
            &&& (treatment == SideTreatment::GroupedSolid) <==> (border.at(edge).spec_paints()
                && border.at(edge).style == BorderStyle::Solid)
            &&& treatment matches SideTreatment::BevelHalves { outer, inner } ==> outer != inner
        }),
{
}

/// A painting side is treated as its style prescribes, the top and left edges being the high edges: `groove` is
/// dark in its outer half and lit in its inner half on a high edge and the
/// reverse on a low one, `ridge` is the mirror of `groove`, `inset` is
/// dark on a high edge and lit on a low one, `outset` the reverse;
/// `double` draws two rules, and dashes and dots follow the curve exactly
/// when some corner is rounded.
pub proof fn lemma_side_treatment_follows_style(
    side: LayoutBorderSide,
    edge: PhysicalSide,
    rounded: bool,
)
    requires
        side.spec_paints(),
    ensures
        ({
            let treatment = spec_side_treatment(side, edge, rounded);
            let style = side.style;
            let high = edge == PhysicalSide::Top || edge == PhysicalSide::Left;
            let lit_if_high = if high {
                BevelShade::Light
            } else {
                BevelShade::Dark
            };
            let dark_if_high = if high {
                BevelShade::Dark
            } else {
                BevelShade::Light
            };
            &&& style == BorderStyle::Groove ==> treatment == SideTreatment::BevelHalves {
                outer: dark_if_high,
                inner: lit_if_high,
            }
            &&& style == BorderStyle::Ridge ==> treatment == SideTreatment::BevelHalves {
                outer: lit_if_high,
                inner: dark_if_high,
            }
            &&& style == BorderStyle::Inset ==> treatment == SideTreatment::BevelBand {
                shade: dark_if_high,
            }
            &&& style == BorderStyle::Outset ==> treatment == SideTreatment::BevelBand {
                shade: lit_if_high,
            }
            &&& style == BorderStyle::Double ==> treatment == SideTreatment::DoubleRules
            &&& style == BorderStyle::Solid ==> treatment == SideTreatment::GroupedSolid
            &&& (style == BorderStyle::Dashed || style == BorderStyle::Dotted) ==> treatment == (
            if rounded {
                SideTreatment::RoundedPattern
            } else {
                SideTreatment::SquarePattern
            })
        }),
{
}

/// In per-side painting each painting side is shaded as its style
/// prescribes, the top and left edges being the high edges: `groove` is
/// dark in its outer half and lit in its inner half on a high edge and the
/// reverse on a low one, `ridge` is the mirror of `groove`, `inset` is
/// dark on a high edge and lit on a low one, `outset` the reverse;
/// `double` draws two rules, and dashes and dots follow the curve exactly
/// when some corner is rounded.
pub proof fn lemma_per_side_styles_are_shaded_by_edge(
    border: LayoutBorder,
    radii: CornerRadii,
    edge: PhysicalSide,
)
    requires
        spec_partitioned_border_plan(border, radii) is PerSide,
        border.at(edge).spec_paints(),
    ensures
        ({
            let treatment = spec_partitioned_border_plan(border, radii)->treatments.at(edge);
            let style = border.at(edge).style;
            let high = edge == PhysicalSide::Top || edge == PhysicalSide::Left;
            let lit_if_high = if high {
                BevelShade::Light
            } else {
                BevelShade::Dark
            };
            let dark_if_high = if high {
                BevelShade::Dark
            } else {
                BevelShade::Light
            };
            &&& style == BorderStyle::Groove ==> treatment == SideTreatment::BevelHalves {
                outer: dark_if_high,
                inner: lit_if_high,
            }
            &&& style == BorderStyle::Ridge ==> treatment == SideTreatment::BevelHalves {
                outer: lit_if_high,
                inner: dark_if_high,
            }
            &&& style == BorderStyle::Inset ==> treatment == SideTreatment::BevelBand {
                shade: dark_if_high,
            }
            &&& style == BorderStyle::Outset ==> treatment == SideTreatment::BevelBand {
                shade: lit_if_high,
            }
            &&& style == BorderStyle::Double ==> treatment == SideTreatment::DoubleRules
            &&& style == BorderStyle::Solid ==> treatment == SideTreatment::GroupedSolid
            &&& (style == BorderStyle::Dashed || style == BorderStyle::Dotted) ==> treatment == (
            if radii.spec_is_zero() {
                SideTreatment::SquarePattern
            } else {
                SideTreatment::RoundedPattern
            })
        }),
{
    lemma_side_treatment_follows_style(border.at(edge), edge, !radii.spec_is_zero());
}

} // verus!
