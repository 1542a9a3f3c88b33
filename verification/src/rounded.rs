//! CSS rounded rectangles and border rings in layout units, and exact
//! point containment in them.
//!
//! Used radii are held exactly: as numerators over a denominator shared by
//! one shape, so that fitting the radii of a box to its size keeps every
//! fraction.

use vstd::prelude::*;
use crate::border::{CornerRadii, CornerRadius, EdgeSizes};

verus! {

/// A rectangle in top-down layout coordinates.
#[derive(Clone, Copy, Debug, PartialEq, Eq, Structural)]
pub struct LayoutRect {
    pub x: i32,
    pub y: i32,
    pub width: i32,
    pub height: i32,
}

/// A point in top-down layout coordinates.
#[derive(Clone, Copy, Debug, PartialEq, Eq, Structural)]
pub struct LayoutPoint {
    pub x: i32,
    pub y: i32,
}

impl LayoutRect {
    /// The rectangle shrunk by `edges`; a side never shrinks below zero, and
    /// the origin keeps the full shift of the leading insets.
    pub open spec fn spec_inset(self, edges: EdgeSizes) -> LayoutRect {
        LayoutRect {
            x: (self.x + edges.left) as i32,
            y: (self.y + edges.top) as i32,
            width: if self.width - edges.left - edges.right >= 0 {
                (self.width - edges.left - edges.right) as i32
            } else {
                0
            },
            height: if self.height - edges.top - edges.bottom >= 0 {
                (self.height - edges.top - edges.bottom) as i32
            } else {
                0
            },
        }
    }

    /// Insetting by `edges` keeps the origin and size within `i32`.
    pub open spec fn inset_in_range(self, edges: EdgeSizes) -> bool {
        &&& i32::MIN <= self.x + edges.left <= i32::MAX
        &&& i32::MIN <= self.y + edges.top <= i32::MAX
        &&& self.width - edges.left - edges.right <= i32::MAX
        &&& self.height - edges.top - edges.bottom <= i32::MAX
    }

    /// See [`LayoutRect::spec_inset`].
    pub fn inset(self, edges: EdgeSizes) -> (result: LayoutRect)
        requires
            self.inset_in_range(edges),
        ensures
            result == self.spec_inset(edges),
    {
        let width = self.width as i64 - edges.left as i64 - edges.right as i64;
        let height = self.height as i64 - edges.top as i64 - edges.bottom as i64;
        LayoutRect {
            x: (self.x as i64 + edges.left as i64) as i32,
            y: (self.y as i64 + edges.top as i64) as i32,
            width: if width >= 0 {
                width as i32
            } else {
                0
            },
            height: if height >= 0 {
                height as i32
            } else {
                0
            },
        }
    }
}

/// One used corner radius: its horizontal and vertical extent, each as a
/// numerator over the denominator of the shape that holds it.
#[derive(Clone, Copy, Debug, PartialEq, Eq, Structural)]
pub struct UsedRadius {
    pub x: i128,
    pub y: i128,
}

/// The used radii of the four corners of a shape.
#[derive(Clone, Copy, Debug, PartialEq, Eq, Structural)]
pub struct UsedRadii {
    pub top_left: UsedRadius,
    pub top_right: UsedRadius,
    pub bottom_right: UsedRadius,
    pub bottom_left: UsedRadius,
}

/// Numerators of used radii stay below `2^64` in magnitude.
pub open spec fn radius_in_range(radius: UsedRadius) -> bool {
    -0x1_0000_0000_0000_0000 < radius.x < 0x1_0000_0000_0000_0000
        && -0x1_0000_0000_0000_0000 < radius.y < 0x1_0000_0000_0000_0000
}

/// One CSS rounded rectangle in top-down layout coordinates. Its used radii
/// are the numerators `radii` over the denominator `scale`.
#[derive(Clone, Copy, Debug, PartialEq, Eq, Structural)]
pub struct CssRoundedRect {
    pub rect: LayoutRect,
    pub radii: UsedRadii,
    pub scale: i128,
}

/// Keep the tighter of two shrink ratios `length / sum`: a side's ratio
/// replaces the current one when its radii overlap it more.
pub open spec fn tighter_ratio(current: (int, int), length: int, sum: int) -> (int, int) {
    if sum > 0 && length * current.1 < current.0 * sum {
        (length, sum)
    } else {
        current
    }
}

/// The factor `numerator / denominator` by which CSS scales all radii of a
/// box so that adjacent radii never overlap: the smallest ratio of a side's
/// length to the sum of the two radii along it, or one when every side
/// fits.
pub open spec fn fit_ratio(rect: LayoutRect, radii: CornerRadii) -> (int, int) {
    let top = tighter_ratio((1, 1), rect.width as int, radii.top_left.x + radii.top_right.x);
    let right = tighter_ratio(top, rect.height as int, radii.top_right.y + radii.bottom_right.y);
    let bottom = tighter_ratio(right, rect.width as int, radii.bottom_right.x + radii.bottom_left.x);
    tighter_ratio(bottom, rect.height as int, radii.bottom_left.y + radii.top_left.y)
}

/// An authored radius scaled by `factor` (over the shape's denominator).
pub open spec fn scaled_radius(radius: CornerRadius, factor: int) -> UsedRadius {
    UsedRadius { x: (radius.x * factor) as i128, y: (radius.y * factor) as i128 }
}

/// All authored radii scaled by `factor`.
pub open spec fn scaled_radii(radii: CornerRadii, factor: int) -> UsedRadii {
    UsedRadii {
        top_left: scaled_radius(radii.top_left, factor),
        top_right: scaled_radius(radii.top_right, factor),
        bottom_right: scaled_radius(radii.bottom_right, factor),
        bottom_left: scaled_radius(radii.bottom_left, factor),
    }
}

/// The shape of a box with its radii fitted once: each radius times the fit
/// ratio, exactly.
pub open spec fn fitted_shape(rect: LayoutRect, radii: CornerRadii) -> CssRoundedRect {
    let ratio = fit_ratio(rect, radii);
    CssRoundedRect { rect, radii: scaled_radii(radii, ratio.0), scale: ratio.1 as i128 }
}

/// A used radius numerator reduced by a border width, never below zero.
pub open spec fn inset_extent(extent: int, width: int, scale: int) -> int {
    if extent - width * scale >= 0 {
        extent - width * scale
    } else {
        0
    }
}

/// A used radius reduced by the widths of the two sides that meet at it.
pub open spec fn inset_radius(radius: UsedRadius, horizontal: int, vertical: int, scale: int) -> UsedRadius {
    UsedRadius {
        x: inset_extent(radius.x as int, horizontal, scale) as i128,
        y: inset_extent(radius.y as int, vertical, scale) as i128,
    }
}

/// The shape inside a border of widths `edges`: the rectangle inset by the
/// widths, and each corner's used radii reduced by the widths that meet
/// there; the curves are not fitted again.
pub open spec fn inset_shape(shape: CssRoundedRect, edges: EdgeSizes) -> CssRoundedRect {
    let k = shape.scale as int;
    CssRoundedRect {
        rect: shape.rect.spec_inset(edges),
        radii: UsedRadii {
            top_left: inset_radius(shape.radii.top_left, edges.left as int, edges.top as int, k),
            top_right: inset_radius(shape.radii.top_right, edges.right as int, edges.top as int, k),
            bottom_right: inset_radius(
                shape.radii.bottom_right,
                edges.right as int,
                edges.bottom as int,
                k,
            ),
            bottom_left: inset_radius(
                shape.radii.bottom_left,
                edges.left as int,
                edges.bottom as int,
                k,
            ),
        },
        scale: shape.scale,
    }
}

/// The corner ellipse of radii `a` by `b` holds the point at offset
/// `(dx, dy)` from its centre (all in the same units); a corner without
/// extent on an axis is square and holds everything.
pub open spec fn ellipse_holds(dx: int, dy: int, a: int, b: int) -> bool {
    a <= 0 || b <= 0 || dx * dx * (b * b) + dy * dy * (a * a) <= (a * a) * (b * b)
}

/// `2^64`, the base of the half-width limbs of a `u128`.
pub open spec fn limb_base() -> int {
    0x1_0000_0000_0000_0000
}

/// The 256-bit product of two `u128` values, as high and low `u128` words.
fn wide_mul(x: u128, y: u128) -> (product: (u128, u128))
    ensures
        product.0 * (limb_base() * limb_base()) + product.1 == x * y,
{
    let base: u128 = 0x1_0000_0000_0000_0000;
    let x1 = x / base;
    let x0 = x % base;
    let y1 = y / base;
    let y0 = y % base;
    proof {
        assert(x == x1 * base + x0 && y == y1 * base + y0);
        assert(x1 < base && y1 < base) by (nonlinear_arith)
            requires
                x1 == x / base,
                y1 == y / base,
                x <= 0xffff_ffff_ffff_ffff_ffff_ffff_ffff_ffffu128,
                y <= 0xffff_ffff_ffff_ffff_ffff_ffff_ffff_ffffu128,
                base == 0x1_0000_0000_0000_0000u128,
        ;
        assert(x0 * y0 <= (base - 1) * (base - 1) && x0 * y1 <= (base - 1) * (base - 1) && x1 * y0
            <= (base - 1) * (base - 1) && x1 * y1 <= (base - 1) * (base - 1)) by (nonlinear_arith)
            requires
                x0 < base,
                x1 < base,
                y0 < base,
                y1 < base,
        ;
    }
    let p00 = x0 * y0;
    let p01 = x0 * y1;
    let p10 = x1 * y0;
    let p11 = x1 * y1;
    let mid = p00 / base + p01 % base + p10 % base;
    let lo = p00 % base + (mid % base) * base;
    proof {
        assert((mid % base) * base <= (base - 1) * base) by (nonlinear_arith)
            requires
                mid % base < base,
        ;
        assert(p00 == (p00 / base) * base + p00 % base);
        assert(p01 == (p01 / base) * base + p01 % base);
        assert(p10 == (p10 / base) * base + p10 % base);
        assert(mid == (mid / base) * base + mid % base);
        assert(mid / base <= 2);
        assert(p01 / base < base && p10 / base < base);
        let h = p11 + p01 / base + p10 / base + mid / base;
        assert(x * y == p11 * (base * base) + (p01 + p10) * base + p00) by (nonlinear_arith)
            requires
                x == x1 * base + x0,
                y == y1 * base + y0,
                p00 == x0 * y0,
                p01 == x0 * y1,
                p10 == x1 * y0,
                p11 == x1 * y1,
        ;
        assert(x * y == h * (base * base) + lo) by (nonlinear_arith)
            requires
                x * y == p11 * (base * base) + (p01 + p10) * base + p00,
                p00 == (p00 / base) * base + p00 % base,
                p01 == (p01 / base) * base + p01 % base,
                p10 == (p10 / base) * base + p10 % base,
                mid == p00 / base + p01 % base + p10 % base,
                mid == (mid / base) * base + mid % base,
                lo == p00 % base + (mid % base) * base,
                h == p11 + p01 / base + p10 / base + mid / base,
        ;
        assert(x * y <= 0xffff_ffff_ffff_ffff_ffff_ffff_ffff_ffff * 0xffff_ffff_ffff_ffff_ffff_ffff_ffff_ffff)
            by (nonlinear_arith)
            requires
                x <= 0xffff_ffff_ffff_ffff_ffff_ffff_ffff_ffffu128,
                y <= 0xffff_ffff_ffff_ffff_ffff_ffff_ffff_ffffu128,
        ;
        assert(h < base * base) by (nonlinear_arith)
            requires
                x * y == h * (base * base) + lo,
                0 <= lo,
                x * y <= 0xffff_ffff_ffff_ffff_ffff_ffff_ffff_ffff * 0xffff_ffff_ffff_ffff_ffff_ffff_ffff_ffff,
                base == 0x1_0000_0000_0000_0000u128,
        ;
    }
    let hi = p11 + p01 / base + p10 / base + mid / base;
    (hi, lo)
}

/// Compare two 256-bit values given as high and low words.
fn wide_le(first: (u128, u128), second: (u128, u128)) -> (result: bool)
    ensures
        result == (first.0 * (limb_base() * limb_base()) + first.1 <= second.0 * (limb_base()
            * limb_base()) + second.1),
{
    let ghost w = limb_base() * limb_base();
    proof {
        assert(w == 0x1_0000_0000_0000_0000_0000_0000_0000_0000);
        if first.0 < second.0 {
            assert(first.0 * w + first.1 < second.0 * w + second.1) by (nonlinear_arith)
                requires
                    first.0 < second.0,
                    first.1 < w,
                    0 <= second.1,
                    w > 0,
            ;
        } else if first.0 > second.0 {
            assert(first.0 * w + first.1 > second.0 * w + second.1) by (nonlinear_arith)
                requires
                    first.0 > second.0,
                    second.1 < w,
                    0 <= first.1,
                    w > 0,
            ;
        }
    }
    first.0 < second.0 || (first.0 == second.0 && first.1 <= second.1)
}

fn tighter(current: (i128, i128), length: i128, sum: i128) -> (result: (i128, i128))
    requires
        -0x8000_0000 <= current.0 <= 0x8000_0000,
        1 <= current.1 <= 0x1_0000_0000,
        -0x8000_0000 <= length <= 0x8000_0000,
        -0x1_0000_0000 <= sum <= 0x1_0000_0000,
    ensures
        (result.0 as int, result.1 as int) == tighter_ratio(
            (current.0 as int, current.1 as int),
            length as int,
            sum as int,
        ),
        -0x8000_0000 <= result.0 <= 0x8000_0000,
        1 <= result.1 <= 0x1_0000_0000,
{
    proof {
        assert(-0x1_0000_0000_0000_0000 <= length * current.1 <= 0x1_0000_0000_0000_0000) by (
        nonlinear_arith)
            requires
                -0x8000_0000 <= length <= 0x8000_0000,
                1 <= current.1 <= 0x1_0000_0000,
        ;
        assert(-0x1_0000_0000_0000_0000 <= current.0 * sum <= 0x1_0000_0000_0000_0000) by (
        nonlinear_arith)
            requires
                -0x8000_0000 <= current.0 <= 0x8000_0000,
                -0x1_0000_0000 <= sum <= 0x1_0000_0000,
        ;
    }
    if sum > 0 && length * current.1 < current.0 * sum {
        (length, sum)
    } else {
        current
    }
}

fn scale_radius(radius: CornerRadius, factor: i128) -> (result: UsedRadius)
    requires
        -0x8000_0000 <= factor <= 0x8000_0000,
    ensures
        result == scaled_radius(radius, factor as int),
        radius_in_range(result),
        -0x4000_0000_0000_0000 <= result.x <= 0x4000_0000_0000_0000,
        -0x4000_0000_0000_0000 <= result.y <= 0x4000_0000_0000_0000,
{
    proof {
        assert(-0x4000_0000_0000_0000 <= radius.x * factor <= 0x4000_0000_0000_0000) by (
        nonlinear_arith)
            requires
                -0x8000_0000 <= radius.x <= 0x7fff_ffff,
                -0x8000_0000 <= factor <= 0x8000_0000,
        ;
        assert(-0x4000_0000_0000_0000 <= radius.y * factor <= 0x4000_0000_0000_0000) by (
        nonlinear_arith)
            requires
                -0x8000_0000 <= radius.y <= 0x7fff_ffff,
                -0x8000_0000 <= factor <= 0x8000_0000,
        ;
    }
    UsedRadius { x: radius.x as i128 * factor, y: radius.y as i128 * factor }
}

fn shrink_extent(extent: i128, width: i32, scale: i128) -> (result: i128)
    requires
        -0x1_0000_0000_0000_0000 < extent < 0x1_0000_0000_0000_0000,
        1 <= scale <= 0x1_0000_0000,
        extent - width * scale < 0x1_0000_0000_0000_0000,
    ensures
        result == inset_extent(extent as int, width as int, scale as int),
        0 <= result < 0x1_0000_0000_0000_0000,
{
    proof {
        assert(-0x1_0000_0000_0000_0000 <= width * scale <= 0x1_0000_0000_0000_0000) by (
        nonlinear_arith)
            requires
                -0x8000_0000 <= width <= 0x7fff_ffff,
                1 <= scale <= 0x1_0000_0000,
        ;
    }
    let reduced = extent - width as i128 * scale;
    if reduced >= 0 {
        reduced
    } else {
        0
    }
}

impl CssRoundedRect {
    /// The used radii are within range over a denominator between 1 and
    /// `2^32`.
    pub open spec fn wf(self) -> bool {
        &&& 1 <= self.scale <= 0x1_0000_0000
        &&& radius_in_range(self.radii.top_left)
        &&& radius_in_range(self.radii.top_right)
        &&& radius_in_range(self.radii.bottom_right)
        &&& radius_in_range(self.radii.bottom_left)
    }

    /// A rounded rectangle with its radii fitted to its size: every radius
    /// scaled by the box's fit ratio, with no rounding.
    pub fn new(rect: LayoutRect, radii: CornerRadii) -> (result: Self)
        ensures
            result == fitted_shape(rect, radii),
            result.wf(),
    {
        let width = rect.width as i128;
        let height = rect.height as i128;
        let top = tighter((1, 1), width, radii.top_left.x as i128 + radii.top_right.x as i128);
        let right = tighter(top, height, radii.top_right.y as i128 + radii.bottom_right.y as i128);
        let bottom = tighter(
            right,
            width,
            radii.bottom_right.x as i128 + radii.bottom_left.x as i128,
        );
        let ratio = tighter(bottom, height, radii.bottom_left.y as i128 + radii.top_left.y as i128);
        let fitted = UsedRadii {
            top_left: scale_radius(radii.top_left, ratio.0),
            top_right: scale_radius(radii.top_right, ratio.0),
            bottom_right: scale_radius(radii.bottom_right, ratio.0),
            bottom_left: scale_radius(radii.bottom_left, ratio.0),
        };
        CssRoundedRect { rect, radii: fitted, scale: ratio.1 }
    }

    /// A rounded rectangle whose radii are already the used ones, in whole
    /// layout units.
    pub fn from_used(rect: LayoutRect, radii: CornerRadii) -> (result: Self)
        ensures
            result == (CssRoundedRect { rect, radii: scaled_radii(radii, 1), scale: 1 }),
            result.wf(),
    {
        let one: i128 = 1;
        CssRoundedRect {
            rect,
            radii: UsedRadii {
                top_left: scale_radius(radii.top_left, one),
                top_right: scale_radius(radii.top_right, one),
                bottom_right: scale_radius(radii.bottom_right, one),
                bottom_left: scale_radius(radii.bottom_left, one),
            },
            scale: 1,
        }
    }

    /// Insetting by `edges` keeps every coordinate and used radius in range.
    pub open spec fn inset_in_range(self, edges: EdgeSizes) -> bool {
        let k = self.scale as int;
        &&& self.rect.inset_in_range(edges)
        &&& self.radii.top_left.x - edges.left * k < 0x1_0000_0000_0000_0000
        &&& self.radii.top_left.y - edges.top * k < 0x1_0000_0000_0000_0000
        &&& self.radii.top_right.x - edges.right * k < 0x1_0000_0000_0000_0000
        &&& self.radii.top_right.y - edges.top * k < 0x1_0000_0000_0000_0000
        &&& self.radii.bottom_right.x - edges.right * k < 0x1_0000_0000_0000_0000
        &&& self.radii.bottom_right.y - edges.bottom * k < 0x1_0000_0000_0000_0000
        &&& self.radii.bottom_left.x - edges.left * k < 0x1_0000_0000_0000_0000
        &&& self.radii.bottom_left.y - edges.bottom * k < 0x1_0000_0000_0000_0000
    }

    /// The shape inside a border of widths `edges`: the rectangle inset by
    /// the widths and each corner's used radii reduced by the widths
    /// meeting there, over the same denominator.
    pub fn inset(self, edges: EdgeSizes) -> (result: Self)
        requires
            self.wf(),
            self.inset_in_range(edges),
        ensures
            result == inset_shape(self, edges),
            result.wf(),
    {
        let k = self.scale;
        let rect = self.rect.inset(edges);
        let radii = UsedRadii {
            top_left: UsedRadius {
                x: shrink_extent(self.radii.top_left.x, edges.left, k),
                y: shrink_extent(self.radii.top_left.y, edges.top, k),
            },
            top_right: UsedRadius {
                x: shrink_extent(self.radii.top_right.x, edges.right, k),
                y: shrink_extent(self.radii.top_right.y, edges.top, k),
            },
            bottom_right: UsedRadius {
                x: shrink_extent(self.radii.bottom_right.x, edges.right, k),
                y: shrink_extent(self.radii.bottom_right.y, edges.bottom, k),
            },
            bottom_left: UsedRadius {
                x: shrink_extent(self.radii.bottom_left.x, edges.left, k),
                y: shrink_extent(self.radii.bottom_left.y, edges.bottom, k),
            },
        };
        CssRoundedRect { rect, radii, scale: k }
    }

    /// The shape holds `(px, py)`: inside the half-open rectangle and, in a
    /// corner's box, inside that corner's ellipse. Corner boxes and
    /// ellipses are compared exactly, in units of `1 / scale`.
    pub open spec fn holds(self, px: int, py: int) -> bool {
        let k = self.scale as int;
        let left = self.rect.x as int;
        let top = self.rect.y as int;
        let right = self.rect.x + self.rect.width;
        let bottom = self.rect.y + self.rect.height;
        let (sx, sy) = (px * k, py * k);
        let tl = self.radii.top_left;
        let tr = self.radii.top_right;
        let br = self.radii.bottom_right;
        let bl = self.radii.bottom_left;
        if px < left || px >= right || py < top || py >= bottom {
            false
        } else if sx < left * k + tl.x && sy < top * k + tl.y {
            ellipse_holds(sx - (left * k + tl.x), sy - (top * k + tl.y), tl.x as int, tl.y as int)
        } else if sx > right * k - tr.x && sy < top * k + tr.y {
            ellipse_holds(sx - (right * k - tr.x), sy - (top * k + tr.y), tr.x as int, tr.y as int)
        } else if sx > right * k - br.x && sy > bottom * k - br.y {
            ellipse_holds(
                sx - (right * k - br.x),
                sy - (bottom * k - br.y),
                br.x as int,
                br.y as int,
            )
        } else if sx < left * k + bl.x && sy > bottom * k - bl.y {
            ellipse_holds(
                sx - (left * k + bl.x),
                sy - (bottom * k - bl.y),
                bl.x as int,
                bl.y as int,
            )
        } else {
            true
        }
    }

    /// Whether the shape holds `point`.
    pub fn contains(self, point: LayoutPoint) -> (result: bool)
        requires
            self.wf(),
        ensures
            result == self.holds(point.x as int, point.y as int),
    {
        let k = self.scale;
        let left = self.rect.x as i128;
        let top = self.rect.y as i128;
        let right = left + self.rect.width as i128;
        let bottom = top + self.rect.height as i128;
        let px = point.x as i128;
        let py = point.y as i128;
        if px < left || px >= right || py < top || py >= bottom {
            return false;
        }
        proof {
            assert(-0x8000_0000_0000_0000 <= px * k <= 0x8000_0000_0000_0000) by (nonlinear_arith)
                requires
                    -0x8000_0000 <= px <= 0x8000_0000,
                    1 <= k <= 0x1_0000_0000,
            ;
            assert(-0x8000_0000_0000_0000 <= py * k <= 0x8000_0000_0000_0000) by (nonlinear_arith)
                requires
                    -0x8000_0000 <= py <= 0x8000_0000,
                    1 <= k <= 0x1_0000_0000,
            ;
            assert(-0x8000_0000_0000_0000 <= left * k <= 0x8000_0000_0000_0000) by (nonlinear_arith)
                requires
                    -0x8000_0000 <= left <= 0x8000_0000,
                    1 <= k <= 0x1_0000_0000,
            ;
            assert(-0x8000_0000_0000_0000 <= top * k <= 0x8000_0000_0000_0000) by (nonlinear_arith)
                requires
                    -0x8000_0000 <= top <= 0x8000_0000,
                    1 <= k <= 0x1_0000_0000,
            ;
            assert(-0x1_0000_0000_0000_0000 <= right * k <= 0x1_0000_0000_0000_0000) by (
            nonlinear_arith)
                requires
                    -0x1_0000_0000 <= right <= 0x1_0000_0000,
                    1 <= k <= 0x1_0000_0000,
            ;
            assert(-0x1_0000_0000_0000_0000 <= bottom * k <= 0x1_0000_0000_0000_0000) by (
            nonlinear_arith)
                requires
                    -0x1_0000_0000 <= bottom <= 0x1_0000_0000,
                    1 <= k <= 0x1_0000_0000,
            ;
            assert(left * k <= px * k < right * k) by (nonlinear_arith)
                requires
                    left <= px < right,
                    k >= 1,
            ;
            assert(top * k <= py * k < bottom * k) by (nonlinear_arith)
                requires
                    top <= py < bottom,
                    k >= 1,
            ;
        }
        let sx = px * k;
        let sy = py * k;
        let tl = self.radii.top_left;
        let tr = self.radii.top_right;
        let br = self.radii.bottom_right;
        let bl = self.radii.bottom_left;
        if sx < left * k + tl.x && sy < top * k + tl.y {
            ellipse_contains(sx - (left * k + tl.x), sy - (top * k + tl.y), tl.x, tl.y)
        } else if sx > right * k - tr.x && sy < top * k + tr.y {
            ellipse_contains(sx - (right * k - tr.x), sy - (top * k + tr.y), tr.x, tr.y)
        } else if sx > right * k - br.x && sy > bottom * k - br.y {
            ellipse_contains(sx - (right * k - br.x), sy - (bottom * k - br.y), br.x, br.y)
        } else if sx < left * k + bl.x && sy > bottom * k - bl.y {
            ellipse_contains(sx - (left * k + bl.x), sy - (bottom * k - bl.y), bl.x, bl.y)
        } else {
            true
        }
    }
}

/// Whether the corner ellipse of radii `a` by `b` holds the point at
/// offset `(dx, dy)` from its centre, for a point within the corner's box.
fn ellipse_contains(dx: i128, dy: i128, a: i128, b: i128) -> (result: bool)
    requires
        -0x1_0000_0000_0000_0000 < a < 0x1_0000_0000_0000_0000,
        -0x1_0000_0000_0000_0000 < b < 0x1_0000_0000_0000_0000,
        a > 0 ==> -a <= dx <= a,
        b > 0 ==> -b <= dy <= b,
    ensures
        result == ellipse_holds(dx as int, dy as int, a as int, b as int),
{
    if a <= 0 || b <= 0 {
        return true;
    }
    let ux: u128 = if dx >= 0 {
        dx as u128
    } else {
        (-dx) as u128
    };
    let uy: u128 = if dy >= 0 {
        dy as u128
    } else {
        (-dy) as u128
    };
    let ua = a as u128;
    let ub = b as u128;
    proof {
        assert(ux * ux == dx * dx && uy * uy == dy * dy) by (nonlinear_arith)
            requires
                ux == dx || ux == -dx,
                uy == dy || uy == -dy,
        ;
        assert(ux * ux <= ua * ua && uy * uy <= ub * ub) by (nonlinear_arith)
            requires
                0 <= ux <= ua,
                0 <= uy <= ub,
        ;
        assert(ua * ua < 0x1_0000_0000_0000_0000_0000_0000_0000_0000 && ub * ub
            < 0x1_0000_0000_0000_0000_0000_0000_0000_0000) by (nonlinear_arith)
            requires
                0 < ua < 0x1_0000_0000_0000_0000,
                0 < ub < 0x1_0000_0000_0000_0000,
        ;
    }
    let x2 = ux * ux;
    let y2 = uy * uy;
    let a2 = ua * ua;
    let b2 = ub * ub;
    let rest = b2 - y2;
    let left = wide_mul(x2, b2);
    let right = wide_mul(a2, rest);
    proof {
        assert(a2 * rest == a2 * b2 - y2 * a2) by (nonlinear_arith)
            requires
                rest == b2 - y2,
        ;
    }
    wide_le(left, right)
}


/// The CSS border ring: the border shape less the shape inside it.
#[derive(Clone, Copy, Debug, PartialEq, Eq, Structural)]
pub struct BorderRing {
    pub outer: CssRoundedRect,
    pub inner: CssRoundedRect,
}

impl BorderRing {
    /// The band of a border shape between two insets of it: the outer and
    /// inner shapes derive their curves from the border shape fitted once.
    pub fn between(
        border_box: LayoutRect,
        radii: CornerRadii,
        outer_inset: EdgeSizes,
        inner_inset: EdgeSizes,
    ) -> (ring: Self)
        requires
            border_box.inset_in_range(outer_inset),
            border_box.inset_in_range(inner_inset),
        ensures
            ring.outer == inset_shape(fitted_shape(border_box, radii), outer_inset),
            ring.inner == inset_shape(fitted_shape(border_box, radii), inner_inset),
            ring.outer.wf() && ring.inner.wf(),
    {
        let border_shape = CssRoundedRect::new(border_box, radii);
        proof {
            lemma_fitted_insets_in_range(border_box, radii, outer_inset);
            lemma_fitted_insets_in_range(border_box, radii, inner_inset);
        }
        BorderRing { outer: border_shape.inset(outer_inset), inner: border_shape.inset(inner_inset) }
    }

    /// The ring of a border of `widths` on a box.
    pub fn new(border_box: LayoutRect, radii: CornerRadii, widths: EdgeSizes) -> (ring: Self)
        requires
            border_box.inset_in_range(widths),
        ensures
            ring.outer == inset_shape(
                fitted_shape(border_box, radii),
                crate::border::PhysicalEdges { top: 0, right: 0, bottom: 0, left: 0 },
            ),
            ring.inner == inset_shape(fitted_shape(border_box, radii), widths),
            ring.outer.wf() && ring.inner.wf(),
    {
        let zero: EdgeSizes = crate::border::PhysicalEdges { top: 0, right: 0, bottom: 0, left: 0 };
        BorderRing::between(border_box, radii, zero, widths)
    }

    /// The ring holds a point inside its outer shape and not inside its
    /// inner one.
    pub fn contains(self, point: LayoutPoint) -> (result: bool)
        requires
            self.outer.wf(),
            self.inner.wf(),
        ensures
            result == (self.outer.holds(point.x as int, point.y as int) && !self.inner.holds(
                point.x as int,
                point.y as int,
            )),
    {
        self.outer.contains(point) && !self.inner.contains(point)
    }
}

/// The fit ratio has a numerator within `i32` range and a denominator
/// between 1 and `2^32`.
proof fn lemma_fit_ratio_bounds(rect: LayoutRect, radii: CornerRadii)
    ensures
        -0x8000_0000 <= fit_ratio(rect, radii).0 <= 0x8000_0000,
        1 <= fit_ratio(rect, radii).1 <= 0x1_0000_0000,
{
}

/// Fitted numerators are at most `2^62` in magnitude.
proof fn lemma_fitted_radii_bounds(rect: LayoutRect, radii: CornerRadii)
    ensures
        ({
            let shape = fitted_shape(rect, radii);
            &&& shape.wf()
            &&& -0x4000_0000_0000_0000 <= shape.radii.top_left.x <= 0x4000_0000_0000_0000
            &&& -0x4000_0000_0000_0000 <= shape.radii.top_left.y <= 0x4000_0000_0000_0000
            &&& -0x4000_0000_0000_0000 <= shape.radii.top_right.x <= 0x4000_0000_0000_0000
            &&& -0x4000_0000_0000_0000 <= shape.radii.top_right.y <= 0x4000_0000_0000_0000
            &&& -0x4000_0000_0000_0000 <= shape.radii.bottom_right.x <= 0x4000_0000_0000_0000
            &&& -0x4000_0000_0000_0000 <= shape.radii.bottom_right.y <= 0x4000_0000_0000_0000
            &&& -0x4000_0000_0000_0000 <= shape.radii.bottom_left.x <= 0x4000_0000_0000_0000
            &&& -0x4000_0000_0000_0000 <= shape.radii.bottom_left.y <= 0x4000_0000_0000_0000
        }),
{
    let n = fit_ratio(rect, radii).0;
    lemma_fit_ratio_bounds(rect, radii);
    lemma_scaled_bound(radii.top_left.x as int, n);
    lemma_scaled_bound(radii.top_left.y as int, n);
    lemma_scaled_bound(radii.top_right.x as int, n);
    lemma_scaled_bound(radii.top_right.y as int, n);
    lemma_scaled_bound(radii.bottom_right.x as int, n);
    lemma_scaled_bound(radii.bottom_right.y as int, n);
    lemma_scaled_bound(radii.bottom_left.x as int, n);
    lemma_scaled_bound(radii.bottom_left.y as int, n);
}

proof fn lemma_scaled_bound(radius: int, factor: int)
    requires
        -0x8000_0000 <= radius <= 0x8000_0000,
        -0x8000_0000 <= factor <= 0x8000_0000,
    ensures
        -0x4000_0000_0000_0000 <= radius * factor <= 0x4000_0000_0000_0000,
{
    assert(-0x4000_0000_0000_0000 <= radius * factor <= 0x4000_0000_0000_0000) by (nonlinear_arith)
        requires
            -0x8000_0000 <= radius <= 0x8000_0000,
            -0x8000_0000 <= factor <= 0x8000_0000,
    ;
}

/// Any border widths can inset a fitted shape: its numerators are small
/// enough that reducing them stays in range.
proof fn lemma_fitted_insets_in_range(rect: LayoutRect, radii: CornerRadii, edges: EdgeSizes)
    requires
        rect.inset_in_range(edges),
    ensures
        fitted_shape(rect, radii).inset_in_range(edges),
{
    lemma_fitted_radii_bounds(rect, radii);
    let k = fit_ratio(rect, radii).1;
    lemma_fit_ratio_bounds(rect, radii);
    lemma_width_scale(edges.left as int, k);
    lemma_width_scale(edges.top as int, k);
    lemma_width_scale(edges.right as int, k);
    lemma_width_scale(edges.bottom as int, k);
}

proof fn lemma_width_scale(width: int, scale: int)
    requires
        -0x8000_0000 <= width <= 0x7fff_ffff,
        1 <= scale <= 0x1_0000_0000,
    ensures
        -0x8000_0000_0000_0000 <= width * scale <= 0x8000_0000_0000_0000,
{
    assert(-0x8000_0000_0000_0000 <= width * scale <= 0x8000_0000_0000_0000) by (nonlinear_arith)
        requires
            -0x8000_0000 <= width <= 0x7fff_ffff,
            1 <= scale <= 0x1_0000_0000,
    ;
}

/// A size and radii CSS can hold: nothing negative.
pub open spec fn is_nonnegative_box(rect: LayoutRect, radii: CornerRadii) -> bool {
    &&& rect.width >= 0 && rect.height >= 0
    &&& radii.top_left.x >= 0 && radii.top_left.y >= 0
    &&& radii.top_right.x >= 0 && radii.top_right.y >= 0
    &&& radii.bottom_right.x >= 0 && radii.bottom_right.y >= 0
    &&& radii.bottom_left.x >= 0 && radii.bottom_left.y >= 0
}

/// `n / d` is no larger than `length / sum` (sides without radii bound
/// nothing).
pub open spec fn ratio_within(ratio: (int, int), length: int, sum: int) -> bool {
    sum <= 0 || ratio.0 * sum <= length * ratio.1
}

proof fn lemma_tighter_ratio_bounds(
    current: (int, int),
    length: int,
    sum: int,
    other_length: int,
    other_sum: int,
)
    requires
        0 <= current.0,
        1 <= current.1,
        0 <= length,
        ratio_within(current, other_length, other_sum),
    ensures
        ratio_within(tighter_ratio(current, length, sum), length, sum),
        ratio_within(tighter_ratio(current, length, sum), other_length, other_sum),
        1 <= tighter_ratio(current, length, sum).1,
        0 <= tighter_ratio(current, length, sum).0,
{
    let n = current.0;
    let d = current.1;
    if sum > 0 && length * d < n * sum {
        if other_sum > 0 {
            assert(length * other_sum <= other_length * sum) by (nonlinear_arith)
                requires
                    length * d < n * sum,
                    n * other_sum <= other_length * d,
                    d >= 1,
                    sum > 0,
                    other_sum > 0,
                    length >= 0,
            ;
        }
    }
}

/// Fitted radii never overlap: along every side the two used radii that
/// meet it sum to at most the side's length (all over the shape's
/// denominator), with no rounding.
pub proof fn lemma_fitted_radii_fit(rect: LayoutRect, radii: CornerRadii)
    requires
        is_nonnegative_box(rect, radii),
    ensures
        ({
            let shape = fitted_shape(rect, radii);
            let k = shape.scale as int;
            &&& shape.radii.top_left.x + shape.radii.top_right.x <= rect.width * k
            &&& shape.radii.top_right.y + shape.radii.bottom_right.y <= rect.height * k
            &&& shape.radii.bottom_right.x + shape.radii.bottom_left.x <= rect.width * k
            &&& shape.radii.bottom_left.y + shape.radii.top_left.y <= rect.height * k
        }),
{
    let w = rect.width as int;
    let h = rect.height as int;
    let s_top = radii.top_left.x + radii.top_right.x;
    let s_right = radii.top_right.y + radii.bottom_right.y;
    let s_bottom = radii.bottom_right.x + radii.bottom_left.x;
    let s_left = radii.bottom_left.y + radii.top_left.y;
    let c1 = tighter_ratio((1, 1), w, s_top);
    let c2 = tighter_ratio(c1, h, s_right);
    let c3 = tighter_ratio(c2, w, s_bottom);
    let c4 = tighter_ratio(c3, h, s_left);
    lemma_tighter_ratio_bounds((1, 1), w, s_top, w, 0);
    lemma_tighter_ratio_bounds(c1, h, s_right, w, s_top);
    lemma_tighter_ratio_bounds(c2, w, s_bottom, w, s_top);
    lemma_tighter_ratio_bounds(c2, w, s_bottom, h, s_right);
    lemma_tighter_ratio_bounds(c3, h, s_left, w, s_top);
    lemma_tighter_ratio_bounds(c3, h, s_left, h, s_right);
    lemma_tighter_ratio_bounds(c3, h, s_left, w, s_bottom);
    lemma_fitted_radii_bounds(rect, radii);
    let n = c4.0;
    let d = c4.1;
    lemma_pair_fits(radii.top_left.x as int, radii.top_right.x as int, w, n, d);
    lemma_pair_fits(radii.top_right.y as int, radii.bottom_right.y as int, h, n, d);
    lemma_pair_fits(radii.bottom_right.x as int, radii.bottom_left.x as int, w, n, d);
    lemma_pair_fits(radii.bottom_left.y as int, radii.top_left.y as int, h, n, d);
}

proof fn lemma_pair_fits(first: int, second: int, length: int, n: int, d: int)
    requires
        0 <= first,
        0 <= second,
        0 <= n,
        1 <= d,
        0 <= length,
        first + second <= 0 || n * (first + second) <= length * d,
    ensures
        first * n + second * n <= length * d,
{
    if first + second <= 0 {
        assert(first == 0 && second == 0);
        assert(length * d >= 0) by (nonlinear_arith)
            requires
                0 <= length,
                1 <= d,
        ;
    } else {
        assert(first * n + second * n == n * (first + second)) by (nonlinear_arith);
    }
}

/// Insetting a fitted shape by nothing gives it back when its authored
/// radii are not negative: the ring's outer shape is the box's shape with
/// its radii fitted once.
pub proof fn lemma_zero_inset_keeps_fitted(rect: LayoutRect, radii: CornerRadii)
    requires
        is_nonnegative_box(rect, radii),
    ensures
        inset_shape(
            fitted_shape(rect, radii),
            crate::border::PhysicalEdges { top: 0, right: 0, bottom: 0, left: 0 },
        ) == fitted_shape(rect, radii),
{
    let n = fit_ratio(rect, radii).0;
    let k = fit_ratio(rect, radii).1;
    lemma_fitted_radii_bounds(rect, radii);
    lemma_nonnegative_ratio(rect, radii);
    assert(0 * k == 0);
    let zero: EdgeSizes = crate::border::PhysicalEdges { top: 0, right: 0, bottom: 0, left: 0 };
    assert(rect.spec_inset(zero) == rect);
    assert(radii.top_left.x * n >= 0 && radii.top_left.y * n >= 0 && radii.top_right.x * n >= 0
        && radii.top_right.y * n >= 0 && radii.bottom_right.x * n >= 0 && radii.bottom_right.y * n
        >= 0 && radii.bottom_left.x * n >= 0 && radii.bottom_left.y * n >= 0) by (nonlinear_arith)
        requires
            n >= 0,
            radii.top_left.x >= 0 && radii.top_left.y >= 0,
            radii.top_right.x >= 0 && radii.top_right.y >= 0,
            radii.bottom_right.x >= 0 && radii.bottom_right.y >= 0,
            radii.bottom_left.x >= 0 && radii.bottom_left.y >= 0,
    ;
    let shape = fitted_shape(rect, radii);
    lemma_scaled_bound(radii.top_left.x as int, n);
    lemma_scaled_bound(radii.top_left.y as int, n);
    lemma_scaled_bound(radii.top_right.x as int, n);
    lemma_scaled_bound(radii.top_right.y as int, n);
    lemma_scaled_bound(radii.bottom_right.x as int, n);
    lemma_scaled_bound(radii.bottom_right.y as int, n);
    lemma_scaled_bound(radii.bottom_left.x as int, n);
    lemma_scaled_bound(radii.bottom_left.y as int, n);
    assert(shape.radii.top_left.x == radii.top_left.x * n);
    assert(shape.radii.top_left.y == radii.top_left.y * n);
    assert(shape.radii.top_right.x == radii.top_right.x * n);
    assert(shape.radii.top_right.y == radii.top_right.y * n);
    assert(shape.radii.bottom_right.x == radii.bottom_right.x * n);
    assert(shape.radii.bottom_right.y == radii.bottom_right.y * n);
    assert(shape.radii.bottom_left.x == radii.bottom_left.x * n);
    assert(shape.radii.bottom_left.y == radii.bottom_left.y * n);
    assert(inset_shape(shape, zero).radii == shape.radii);
}

proof fn lemma_nonnegative_ratio(rect: LayoutRect, radii: CornerRadii)
    requires
        is_nonnegative_box(rect, radii),
    ensures
        fit_ratio(rect, radii).0 >= 0,
{
}

/// With square corners a rounded rectangle holds exactly the points of its
/// half-open rectangle, and a rounded one never holds a point outside it.
pub proof fn lemma_rounded_rect_within_rect(shape: CssRoundedRect, px: int, py: int)
    ensures
        shape.holds(px, py) ==> shape.rect.x <= px < shape.rect.x + shape.rect.width
            && shape.rect.y <= py < shape.rect.y + shape.rect.height,
        shape.radii.top_left.x <= 0 && shape.radii.top_right.x <= 0 && shape.radii.bottom_right.x
            <= 0 && shape.radii.bottom_left.x <= 0 ==> (shape.holds(px, py) <==> (shape.rect.x
            <= px < shape.rect.x + shape.rect.width && shape.rect.y <= py < shape.rect.y
            + shape.rect.height)),
{
}

} // verus!
