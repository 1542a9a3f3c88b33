use ironpaint::border::{CornerRadii, CornerRadius, PhysicalEdges};
use ironpaint::rounded::{BorderRing, CssRoundedRect, LayoutPoint, LayoutRect, UsedRadius};

fn rect(x: i32, y: i32, width: i32, height: i32) -> LayoutRect {
    LayoutRect { x, y, width, height }
}

fn point(x: i32, y: i32) -> LayoutPoint {
    LayoutPoint { x, y }
}

#[test]
fn rounded_corners_exclude_the_outside_of_their_ellipse() {
    let shape = CssRoundedRect::from_used(rect(0, 0, 100, 50), CornerRadii::circular(10));
    assert!(!shape.contains(point(1, 1)));
    assert!(shape.contains(point(5, 5)));
    assert!(shape.contains(point(50, 25)));
    assert!(!shape.contains(point(99, 49)));
    assert!(shape.contains(point(93, 43)));
    assert!(!shape.contains(point(100, 10)));
    assert!(!shape.contains(point(-1, 10)));
    assert!(shape.contains(point(0, 10)));
}

#[test]
fn elliptical_corners_use_both_radii() {
    let radii = CornerRadii {
        top_left: CornerRadius { x: 20, y: 10 },
        top_right: CornerRadius { x: 0, y: 10 },
        bottom_right: CornerRadius { x: 10, y: 0 },
        bottom_left: CornerRadius { x: 10, y: 20 },
    };
    let shape = CssRoundedRect::from_used(rect(0, 0, 100, 50), radii);
    // (2, 2) lies outside the 20 x 10 ellipse centred at (20, 10); (4, 4)
    // lies exactly on it.
    assert!(!shape.contains(point(2, 2)));
    assert!(shape.contains(point(4, 4)));
    assert!(shape.contains(point(10, 4)));
    // Corners with a zero radius are square.
    assert!(shape.contains(point(99, 0)));
    assert!(shape.contains(point(99, 49)));
    assert!(!shape.contains(point(1, 49)));
}

#[test]
fn insets_shrink_the_rectangle_and_each_corner_radius() {
    let shape = CssRoundedRect::from_used(rect(0, 0, 100, 50), CornerRadii::circular(10));
    let inner = shape.inset(PhysicalEdges::new(3, 5, 7, 11));
    assert_eq!(inner.rect, rect(11, 3, 84, 40));
    assert_eq!(inner.scale, 1);
    assert_eq!(inner.radii.top_left, UsedRadius { x: 0, y: 7 });
    assert_eq!(inner.radii.top_right, UsedRadius { x: 5, y: 7 });
    assert_eq!(inner.radii.bottom_right, UsedRadius { x: 5, y: 3 });
    assert_eq!(inner.radii.bottom_left, UsedRadius { x: 0, y: 3 });
}

#[test]
fn oversized_insets_keep_the_leading_origin_shift() {
    let inset = rect(10, 20, 3, 4).inset(PhysicalEdges::new(8, 9, 7, 6));
    assert_eq!(inset, rect(16, 28, 0, 0));
}

#[test]
fn the_border_ring_holds_only_the_band_between_its_shapes() {
    let outer = CssRoundedRect::from_used(rect(0, 0, 100, 50), CornerRadii::circular(10));
    let ring = BorderRing { outer, inner: outer.inset(PhysicalEdges::uniform(10)) };
    assert!(ring.contains(point(5, 25)));
    assert!(ring.contains(point(50, 5)));
    assert!(!ring.contains(point(50, 25)));
    assert!(!ring.contains(point(1, 1)));
    assert!(ring.contains(point(10, 9)));
}

fn points(value: i32) -> i32 {
    value * ironpaint::border::LAYOUT_UNITS_PER_POINT
}

#[test]
fn inset_curves_derive_from_the_once_fitted_outer_curve() {
    let radii = CornerRadii {
        top_left: CornerRadius { x: points(90), y: points(30) },
        top_right: CornerRadius { x: points(60), y: points(20) },
        bottom_right: CornerRadius { x: points(30), y: points(10) },
        bottom_left: CornerRadius { x: points(15), y: points(5) },
    };
    let widths = PhysicalEdges::new(points(3), points(5), points(7), points(11));
    let border_box = rect(points(2), points(4), points(100), points(60));
    let fitted = CssRoundedRect::new(border_box, radii);
    let ring = BorderRing::new(border_box, radii, widths);
    assert_eq!(ring.outer, fitted);
    assert_eq!(ring.inner, fitted.inset(widths));
}

/// A used extent as an exact fraction `numerator / scale` compared with
/// `value / divisor`.
fn same_fraction(numerator: i128, scale: i128, value: i128, divisor: i128) -> bool {
    numerator * divisor == value * scale
}

#[test]
fn overlapping_radii_are_scaled_exactly_by_the_tightest_side() {
    let radii = CornerRadii {
        top_left: CornerRadius { x: 90, y: 30 },
        top_right: CornerRadius { x: 60, y: 20 },
        bottom_right: CornerRadius { x: 30, y: 10 },
        bottom_left: CornerRadius { x: 15, y: 5 },
    };
    let fitted = CssRoundedRect::new(rect(0, 0, 100, 60), radii);
    // The top side holds 150 of radius on 100 of length: every radius takes
    // two thirds, with no rounding.
    let k = fitted.scale;
    assert!(same_fraction(fitted.radii.top_left.x, k, 60, 1));
    assert!(same_fraction(fitted.radii.top_left.y, k, 20, 1));
    assert!(same_fraction(fitted.radii.top_right.x, k, 40, 1));
    assert!(same_fraction(fitted.radii.top_right.y, k, 40, 3));
    assert!(same_fraction(fitted.radii.bottom_right.y, k, 20, 3));
    assert!(same_fraction(fitted.radii.bottom_left.y, k, 10, 3));
    assert!(same_fraction(fitted.radii.top_left.x + fitted.radii.top_right.x, k, 100, 1));
    let roomy = CssRoundedRect::new(rect(0, 0, 400, 400), radii);
    assert_eq!(roomy, CssRoundedRect::from_used(rect(0, 0, 400, 400), radii));
    let flat = CssRoundedRect::new(rect(0, 0, 0, 10), CornerRadii::circular(4));
    assert_eq!(flat.radii.top_left, UsedRadius { x: 0, y: 0 });
    assert_eq!(flat.radii.bottom_right, UsedRadius { x: 0, y: 0 });
}

#[test]
fn fractional_corners_are_tested_exactly() {
    // Radii 90 + 60 on a top side of 100 give a top-left radius of exactly
    // 60 by 20: the fitted shape holds the same points as one authored with
    // that radius.
    let radii = CornerRadii {
        top_left: CornerRadius { x: 90, y: 30 },
        top_right: CornerRadius { x: 60, y: 20 },
        bottom_right: CornerRadius { x: 0, y: 0 },
        bottom_left: CornerRadius { x: 0, y: 0 },
    };
    let shape = CssRoundedRect::new(rect(0, 0, 100, 60), radii);
    assert!(!shape.contains(point(3, 2)));
    assert!(shape.contains(point(40, 10)));
    assert!(shape.contains(point(60, 0)));
    let exact = CssRoundedRect::from_used(
        rect(0, 0, 100, 60),
        CornerRadii {
            top_left: CornerRadius { x: 60, y: 20 },
            ..radii
        },
    );
    for x in 0..60 {
        for y in 0..20 {
            assert_eq!(shape.contains(point(x, y)), exact.contains(point(x, y)), "({x}, {y})");
        }
    }
}
