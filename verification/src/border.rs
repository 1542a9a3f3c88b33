//! Physical sides, border styles and border sides in integer layout units.

use vstd::prelude::*;

verus! {

/// Lengths are integer layout units: 64 per point.
pub const LAYOUT_UNITS_PER_POINT: i32 = 64;

/// One physical box side.
#[derive(Clone, Copy, Debug, PartialEq, Eq, Structural)]
pub enum PhysicalSide {
    Top,
    Right,
    Bottom,
    Left,
}

impl PhysicalSide {
    /// Position of the side in clockwise order from the top.
    pub open spec fn ordinal(self) -> int {
        match self {
            PhysicalSide::Top => 0,
            PhysicalSide::Right => 1,
            PhysicalSide::Bottom => 2,
            PhysicalSide::Left => 3,
        }
    }

    /// The side with a given clockwise position (taken modulo 4).
    pub open spec fn from_ordinal(ordinal: int) -> PhysicalSide {
        let o = ordinal % 4;
        if o == 0 {
            PhysicalSide::Top
        } else if o == 1 {
            PhysicalSide::Right
        } else if o == 2 {
            PhysicalSide::Bottom
        } else {
            PhysicalSide::Left
        }
    }

    /// All sides in clockwise order, starting at the top.
    pub fn all() -> (result: [PhysicalSide; 4])
        ensures
            forall|i: int| 0 <= i < 4 ==> (#[trigger] result[i]).ordinal() == i,
    {
        [PhysicalSide::Top, PhysicalSide::Right, PhysicalSide::Bottom, PhysicalSide::Left]
    }

    /// The next side clockwise.
    pub fn clockwise(self) -> (result: PhysicalSide)
        ensures
            result.ordinal() == (self.ordinal() + 1) % 4,
    {
        match self {
            PhysicalSide::Top => PhysicalSide::Right,
            PhysicalSide::Right => PhysicalSide::Bottom,
            PhysicalSide::Bottom => PhysicalSide::Left,
            PhysicalSide::Left => PhysicalSide::Top,
        }
    }

    /// The next side counter-clockwise.
    pub fn counter_clockwise(self) -> (result: PhysicalSide)
        ensures
            result.ordinal() == (self.ordinal() + 3) % 4,
    {
        match self {
            PhysicalSide::Top => PhysicalSide::Left,
            PhysicalSide::Right => PhysicalSide::Top,
            PhysicalSide::Bottom => PhysicalSide::Right,
            PhysicalSide::Left => PhysicalSide::Bottom,
        }
    }
}

/// Sides are determined by their clockwise position.
pub proof fn lemma_side_ordinal_injective(first: PhysicalSide, second: PhysicalSide)
    ensures
        first.ordinal() == second.ordinal() <==> first == second,
        0 <= first.ordinal() < 4,
        PhysicalSide::from_ordinal(first.ordinal()) == first,
{
}

/// Turning clockwise then counter-clockwise (or the other way) returns to
/// the same side, and four clockwise turns make a full circle.
pub proof fn lemma_side_rotation(side: PhysicalSide)
    ensures
        PhysicalSide::from_ordinal((side.ordinal() + 1) % 4 + 3) == side,
        PhysicalSide::from_ordinal((side.ordinal() + 3) % 4 + 1) == side,
        PhysicalSide::from_ordinal(side.ordinal() + 4) == side,
{
}

/// One value per physical side.
#[derive(Clone, Copy, Debug, PartialEq, Eq)]
pub struct PhysicalEdges<T> {
    pub top: T,
    pub right: T,
    pub bottom: T,
    pub left: T,
}

impl<T> PhysicalEdges<T> {
    /// The value of one side.
    pub open spec fn at(self, side: PhysicalSide) -> T {
        match side {
            PhysicalSide::Top => self.top,
            PhysicalSide::Right => self.right,
            PhysicalSide::Bottom => self.bottom,
            PhysicalSide::Left => self.left,
        }
    }

    /// A reference to the value of one side.
    pub fn get_ref(&self, side: PhysicalSide) -> (result: &T)
        ensures
            *result == self.at(side),
    {
        match side {
            PhysicalSide::Top => &self.top,
            PhysicalSide::Right => &self.right,
            PhysicalSide::Bottom => &self.bottom,
            PhysicalSide::Left => &self.left,
        }
    }
}

impl<T: Copy> PhysicalEdges<T> {
    pub fn new(top: T, right: T, bottom: T, left: T) -> (result: Self)
        ensures
            result.top == top && result.right == right && result.bottom == bottom && result.left
                == left,
    {
        PhysicalEdges { top, right, bottom, left }
    }

    pub fn uniform(value: T) -> (result: Self)
        ensures
            result.top == value && result.right == value && result.bottom == value && result.left
                == value,
    {
        PhysicalEdges { top: value, right: value, bottom: value, left: value }
    }

    pub fn get(&self, side: PhysicalSide) -> (result: T)
        ensures
            result == self.at(side),
    {
        match side {
            PhysicalSide::Top => self.top,
            PhysicalSide::Right => self.right,
            PhysicalSide::Bottom => self.bottom,
            PhysicalSide::Left => self.left,
        }
    }
}

/// Four edge lengths in layout units.
pub type EdgeSizes = PhysicalEdges<i32>;

/// An 8-bit straight-alpha sRGB colour.
#[derive(Clone, Copy, Debug, PartialEq, Eq, Structural)]
pub struct Rgba8Color {
    pub red: u8,
    pub green: u8,
    pub blue: u8,
    pub alpha: u8,
}

impl Rgba8Color {
    pub fn rgba8(red: u8, green: u8, blue: u8, alpha: u8) -> (result: Self)
        ensures
            result == (Rgba8Color { red, green, blue, alpha }),
    {
        Rgba8Color { red, green, blue, alpha }
    }

    pub fn rgb(red: u8, green: u8, blue: u8) -> (result: Self)
        ensures
            result == (Rgba8Color { red, green, blue, alpha: 255 }),
    {
        Rgba8Color { red, green, blue, alpha: 255 }
    }

    /// The channels as `[red, green, blue, alpha]`.
    pub fn to_rgba8(self) -> (result: [u8; 4])
        ensures
            result[0] == self.red && result[1] == self.green && result[2] == self.blue && result[3]
                == self.alpha,
    {
        [self.red, self.green, self.blue, self.alpha]
    }

    pub fn is_opaque(self) -> (result: bool)
        ensures
            result == (self.alpha == 255),
    {
        self.alpha == 255
    }
}

/// CSS `border-style` values.
#[derive(Clone, Copy, Debug, PartialEq, Eq, Structural)]
pub enum BorderStyle {
    NoStyle,
    Hidden,
    Solid,
    Dashed,
    Dotted,
    Double,
    Groove,
    Ridge,
    Inset,
    Outset,
}

/// The three-dimensional styles whose sides are shaded lighter or darker.
pub open spec fn spec_is_bevel_style(style: BorderStyle) -> bool {
    style == BorderStyle::Groove || style == BorderStyle::Ridge || style == BorderStyle::Inset
        || style == BorderStyle::Outset
}

pub fn is_bevel_style(style: BorderStyle) -> (result: bool)
    ensures
        result == spec_is_bevel_style(style),
{
    match style {
        BorderStyle::Groove | BorderStyle::Ridge | BorderStyle::Inset | BorderStyle::Outset => true,
        _ => false,
    }
}

/// Which shade of the base colour a bevelled band is painted in.
#[derive(Clone, Copy, Debug, PartialEq, Eq, Structural)]
pub enum BevelShade {
    Light,
    Dark,
    Base,
}

/// The shade of one band of a side: the top and left edges are lit for
/// `outset`, the outer band of `ridge` and the inner band of `groove`;
/// the other edges take the dark shade; styles without a bevel keep the
/// base colour.
pub open spec fn spec_bevel_edge_shade(
    style: BorderStyle,
    side: PhysicalSide,
    inner_band: bool,
) -> BevelShade {
    let high_edge = side == PhysicalSide::Top || side == PhysicalSide::Left;
    let light_on_high_edge = match style {
        BorderStyle::Outset => true,
        BorderStyle::Inset => false,
        BorderStyle::Ridge => !inner_band,
        _ => inner_band,
    };
    if !spec_is_bevel_style(style) {
        BevelShade::Base
    } else if high_edge == light_on_high_edge {
        BevelShade::Light
    } else {
        BevelShade::Dark
    }
}

/// Choose the shade of one band of a bevelled side.
pub fn bevel_edge_shade(style: BorderStyle, side: PhysicalSide, inner_band: bool) -> (shade:
    BevelShade)
    ensures
        shade == spec_bevel_edge_shade(style, side, inner_band),
{
    let high_edge = match side {
        PhysicalSide::Top | PhysicalSide::Left => true,
        _ => false,
    };
    let light_on_high_edge = match style {
        BorderStyle::Outset => true,
        BorderStyle::Inset => false,
        BorderStyle::Ridge => !inner_band,
        BorderStyle::Groove => inner_band,
        _ => {
            return BevelShade::Base;
        },
    };
    if high_edge == light_on_high_edge {
        BevelShade::Light
    } else {
        BevelShade::Dark
    }
}

/// Bevel shading is consistent: opposite edges of a bevelled band take
/// opposite shades, `inset` is `outset` with light and dark exchanged, and
/// the inner band of `groove` is shaded like the outer band of `ridge`.
pub proof fn lemma_bevel_shades(style: BorderStyle, inner_band: bool)
    requires
        spec_is_bevel_style(style),
    ensures
        spec_bevel_edge_shade(style, PhysicalSide::Top, inner_band) != spec_bevel_edge_shade(
            style,
            PhysicalSide::Bottom,
            inner_band,
        ),
        spec_bevel_edge_shade(style, PhysicalSide::Left, inner_band) != spec_bevel_edge_shade(
            style,
            PhysicalSide::Right,
            inner_band,
        ),
        spec_bevel_edge_shade(style, PhysicalSide::Top, inner_band) == spec_bevel_edge_shade(
            style,
            PhysicalSide::Left,
            inner_band,
        ),
        forall|side: PhysicalSide|
            #![auto]
            spec_bevel_edge_shade(BorderStyle::Inset, side, inner_band) != spec_bevel_edge_shade(
                BorderStyle::Outset,
                side,
                inner_band,
            ),
        forall|side: PhysicalSide|
            #![auto]
            spec_bevel_edge_shade(BorderStyle::Groove, side, inner_band) == spec_bevel_edge_shade(
                BorderStyle::Ridge,
                side,
                !inner_band,
            ),
{
}

/// One used border side: width in layout units, colour and style.
#[derive(Clone, Copy, Debug, PartialEq, Eq, Structural)]
pub struct LayoutBorderSide {
    pub width: i32,
    pub color: Rgba8Color,
    pub style: BorderStyle,
}

impl LayoutBorderSide {
    /// The side has a positive width and a visible style.
    pub open spec fn spec_paints(self) -> bool {
        self.width > 0 && self.style != BorderStyle::NoStyle && self.style != BorderStyle::Hidden
    }

    pub fn paints(self) -> (result: bool)
        ensures
            result == self.spec_paints(),
    {
        self.width > 0 && self.style != BorderStyle::NoStyle && self.style != BorderStyle::Hidden
    }

    /// Both sides paint one solid region of the same colour.
    pub open spec fn spec_shares_solid_region_with(self, other: Self) -> bool {
        &&& self.spec_paints()
        &&& other.spec_paints()
        &&& self.style == BorderStyle::Solid
        &&& other.style == BorderStyle::Solid
        &&& self.color == other.color
    }

    pub fn shares_solid_region_with(self, other: Self) -> (result: bool)
        ensures
            result == self.spec_shares_solid_region_with(other),
    {
        self.paints() && other.paints() && self.style == BorderStyle::Solid && other.style
            == BorderStyle::Solid && self.color == other.color
    }
}

impl Default for LayoutBorderSide {
    /// A missing side: no width, transparent, no style.
    fn default() -> (result: Self)
        ensures
            result.width == 0,
            result.color == (Rgba8Color { red: 0, green: 0, blue: 0, alpha: 0 }),
            result.style == BorderStyle::NoStyle,
    {
        LayoutBorderSide {
            width: 0,
            color: Rgba8Color { red: 0, green: 0, blue: 0, alpha: 0 },
            style: BorderStyle::NoStyle,
        }
    }
}

/// The four used border sides of a box.
pub type LayoutBorder = PhysicalEdges<LayoutBorderSide>;

/// The widths of a border's sides.
pub fn border_widths(border: &LayoutBorder) -> (result: EdgeSizes)
    ensures
        result.top == border.top.width && result.right == border.right.width && result.bottom
            == border.bottom.width && result.left == border.left.width,
{
    PhysicalEdges {
        top: border.top.width,
        right: border.right.width,
        bottom: border.bottom.width,
        left: border.left.width,
    }
}

/// One elliptical corner radius in layout units.
#[derive(Clone, Copy, Debug, PartialEq, Eq, Structural)]
pub struct CornerRadius {
    pub x: i32,
    pub y: i32,
}

impl CornerRadius {
    /// A corner with no extent along either axis is square.
    pub open spec fn spec_is_zero(self) -> bool {
        self.x <= 0 || self.y <= 0
    }

    pub fn is_zero(self) -> (result: bool)
        ensures
            result == self.spec_is_zero(),
    {
        self.x <= 0 || self.y <= 0
    }
}

/// The four corner radii of a box.
#[derive(Clone, Copy, Debug, PartialEq, Eq, Structural)]
pub struct CornerRadii {
    pub top_left: CornerRadius,
    pub top_right: CornerRadius,
    pub bottom_right: CornerRadius,
    pub bottom_left: CornerRadius,
}

impl CornerRadii {
    /// Every corner is square.
    pub open spec fn spec_is_zero(self) -> bool {
        &&& self.top_left.spec_is_zero()
        &&& self.top_right.spec_is_zero()
        &&& self.bottom_right.spec_is_zero()
        &&& self.bottom_left.spec_is_zero()
    }

    pub fn is_zero(self) -> (result: bool)
        ensures
            result == self.spec_is_zero(),
    {
        self.top_left.is_zero() && self.top_right.is_zero() && self.bottom_right.is_zero()
            && self.bottom_left.is_zero()
    }

    /// Square corners.
    pub fn zero() -> (result: Self)
        ensures
            result.spec_is_zero(),
            result == CornerRadii::uniform_spec(CornerRadius { x: 0, y: 0 }),
    {
        CornerRadii::uniform(CornerRadius { x: 0, y: 0 })
    }

    /// The same radius at every corner.
    pub fn uniform(radius: CornerRadius) -> (result: Self)
        ensures
            result.top_left == radius && result.top_right == radius && result.bottom_right
                == radius && result.bottom_left == radius,
    {
        CornerRadii {
            top_left: radius,
            top_right: radius,
            bottom_right: radius,
            bottom_left: radius,
        }
    }

    /// The same circular radius at every corner.
    pub fn circular(radius: i32) -> (result: Self)
        ensures
            result == CornerRadii::uniform_spec(CornerRadius { x: radius, y: radius }),
    {
        CornerRadii::uniform(CornerRadius { x: radius, y: radius })
    }

    pub open spec fn uniform_spec(radius: CornerRadius) -> Self {
        CornerRadii {
            top_left: radius,
            top_right: radius,
            bottom_right: radius,
            bottom_left: radius,
        }
    }
}

} // verus!
