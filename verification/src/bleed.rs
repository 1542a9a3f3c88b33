//! Paint-only inset hidden below an opaque rounded border edge.

use vstd::prelude::*;
use crate::border::{
    BorderStyle, CornerRadii, LayoutBorder, LayoutBorderSide, PhysicalEdges, PhysicalSide,
};

verus! {

/// The box edge a background layer is clipped to.
#[derive(Clone, Copy, Debug, PartialEq, Eq, Structural)]
pub enum BackgroundClip {
    Border,
    Padding,
    Content,
}

/// Bleed insets are held exactly in sixths of a layout unit, so that half
/// and a sixth of any border width are whole numbers of them.
pub const BLEED_SUBUNITS_PER_LAYOUT_UNIT: i64 = 6;

/// Insets per side in sixths of a layout unit.
pub type BleedInsets = PhysicalEdges<i64>;

/// The zero inset on every side.
pub open spec fn zero_edges() -> BleedInsets {
    PhysicalEdges { top: 0, right: 0, bottom: 0, left: 0 }
}

/// A border edge hides the background beneath it: it paints, its colour is
/// opaque and it is not broken into dashes or dots.
pub open spec fn spec_edge_obscures_background(side: LayoutBorderSide) -> bool {
    &&& side.spec_paints()
    &&& side.color.alpha == 255
    &&& side.style != BorderStyle::Dashed
    &&& side.style != BorderStyle::Dotted
}

/// See [`spec_edge_obscures_background`].
pub fn edge_obscures_background(side: LayoutBorderSide) -> (result: bool)
    ensures
        result == spec_edge_obscures_background(side),
{
    side.paints() && side.color.is_opaque() && !(side.style == BorderStyle::Dashed || side.style
        == BorderStyle::Dotted)
}

/// The border width hidden below an opaque edge, in sixths of that width:
/// one sixth when any side is `double` (only the outer stripe is solid),
/// else three sixths, a half.
pub open spec fn bleed_sixths(border: LayoutBorder) -> int {
    if border.top.style == BorderStyle::Double || border.right.style == BorderStyle::Double
        || border.bottom.style == BorderStyle::Double || border.left.style == BorderStyle::Double {
        1
    } else {
        3
    }
}

/// The hidden fraction does not depend on which side is `double`: one
/// sixth as soon as any of the four sides is, a half when none is.
pub proof fn lemma_bleed_fraction_follows_any_double_side(border: LayoutBorder)
    ensures
        (exists|side: PhysicalSide| #[trigger] border.at(side).style == BorderStyle::Double)
            ==> bleed_sixths(border) == 1,
        (forall|side: PhysicalSide| #[trigger] border.at(side).style != BorderStyle::Double)
            ==> bleed_sixths(border) == 3,
{
    if exists|side: PhysicalSide| #[trigger] border.at(side).style == BorderStyle::Double {
        let side = choose|side: PhysicalSide| #[trigger] border.at(side).style == BorderStyle::Double;
        match side {
            PhysicalSide::Top => {},
            PhysicalSide::Right => {},
            PhysicalSide::Bottom => {},
            PhysicalSide::Left => {},
        }
    }
    if forall|side: PhysicalSide| #[trigger] border.at(side).style != BorderStyle::Double {
        assert(border.at(PhysicalSide::Top).style != BorderStyle::Double);
        assert(border.at(PhysicalSide::Right).style != BorderStyle::Double);
        assert(border.at(PhysicalSide::Bottom).style != BorderStyle::Double);
        assert(border.at(PhysicalSide::Left).style != BorderStyle::Double);
    }
}

/// Paint-only inset hidden below an opaque rounded border edge.
///
/// CSS backgrounds still cover the border box conceptually. Shrinking only
/// the concealed outer portion prevents the background and border from
/// contributing competing antialias coverage at the same curve.
#[derive(Clone, Copy, Debug, PartialEq, Eq)]
pub struct BackgroundBleed {
    /// The inset of each side, in sixths of a layout unit.
    pub insets: BleedInsets,
}

impl BackgroundBleed {
    /// No bleed inset.
    pub fn none() -> (result: Self)
        ensures
            result.insets == zero_edges(),
    {
        BackgroundBleed { insets: PhysicalEdges { top: 0, right: 0, bottom: 0, left: 0 } }
    }

    /// The bleed inset of a border decoration: each border width times a
    /// half, or times a sixth when any side is `double`. A border image, or
    /// any edge that does not hide the background, disables bleed avoidance.
    pub fn from_decoration(border: &LayoutBorder, has_border_image: bool) -> (result: Self)
        ensures
            has_border_image ==> result.insets == zero_edges(),
            !spec_edge_obscures_background(border.top) || !spec_edge_obscures_background(
                border.right,
            ) || !spec_edge_obscures_background(border.bottom) || !spec_edge_obscures_background(
                border.left,
            ) ==> result.insets == zero_edges(),
            !has_border_image && spec_edge_obscures_background(border.top)
                && spec_edge_obscures_background(border.right) && spec_edge_obscures_background(
                border.bottom,
            ) && spec_edge_obscures_background(border.left) ==> result.insets == (PhysicalEdges {
                top: (border.top.width * bleed_sixths(*border)) as i64,
                right: (border.right.width * bleed_sixths(*border)) as i64,
                bottom: (border.bottom.width * bleed_sixths(*border)) as i64,
                left: (border.left.width * bleed_sixths(*border)) as i64,
            }),
            !has_border_image && (forall|side: PhysicalSide|
                spec_edge_obscures_background(#[trigger] border.at(side))) ==> forall|
                side: PhysicalSide,
            |
                #[trigger] result.insets.at(side) == if exists|double: PhysicalSide|
                    #[trigger] border.at(double).style == BorderStyle::Double {
                    border.at(side).width as int
                } else {
                    3 * border.at(side).width
                },
    {
        proof {
            lemma_bleed_fraction_follows_any_double_side(*border);
            if forall|side: PhysicalSide| spec_edge_obscures_background(#[trigger] border.at(side)) {
                assert(spec_edge_obscures_background(border.at(PhysicalSide::Top)));
                assert(spec_edge_obscures_background(border.at(PhysicalSide::Right)));
                assert(spec_edge_obscures_background(border.at(PhysicalSide::Bottom)));
                assert(spec_edge_obscures_background(border.at(PhysicalSide::Left)));
            }
        }
        if has_border_image {
            return Self::none();
        }
        if !(edge_obscures_background(border.top) && edge_obscures_background(border.right)
            && edge_obscures_background(border.bottom) && edge_obscures_background(border.left)) {
            return Self::none();
        }
        let sixths: i64 = if border.top.style == BorderStyle::Double || border.right.style
            == BorderStyle::Double || border.bottom.style == BorderStyle::Double || border.left.style
            == BorderStyle::Double {
            1
        } else {
            3
        };
        BackgroundBleed {
            insets: PhysicalEdges {
                top: border.top.width as i64 * sixths,
                right: border.right.width as i64 * sixths,
                bottom: border.bottom.width as i64 * sixths,
                left: border.left.width as i64 * sixths,
            },
        }
    }

    /// The inset, in sixths of a layout unit, applied to a background
    /// clipped to `clip` under `radii`: only a rounded border-box clip needs
    /// it.
    pub fn clip_insets(self, clip: BackgroundClip, radii: CornerRadii) -> (result: BleedInsets)
        ensures
            result == if clip == BackgroundClip::Border && !radii.spec_is_zero() {
                self.insets
            } else {
                zero_edges()
            },
    {
        if clip == BackgroundClip::Border && !radii.is_zero() {
            self.insets
        } else {
            Self::none().insets
        }
    }

    /// Whether every physical border edge hides a rectangular image
    /// destination up to the inner border.
    ///
    /// A rounded border exposes parts of that rectangle around its curved
    /// inner frontier, so it retains the CSS painting box even when every
    /// side is opaque.
    pub fn obscures_rectangular_destination(self, radii: CornerRadii) -> (result: bool)
        ensures
            result == (self.insets != zero_edges() && radii.spec_is_zero()),
    {
        let zero = self.insets.top == 0 && self.insets.right == 0 && self.insets.bottom == 0
            && self.insets.left == 0;
        !zero && radii.is_zero()
    }
}

} // verus!
