use transporters::curve::{Curve, CurveKind, Param, Point};
use transporters::error::CoreError;

fn pt(x: i64, y: i64) -> Point {
    Point { x, y }
}

fn demo_points() -> Vec<Point> {
    vec![pt(-500, -300), pt(-100, 300), pt(100, -300), pt(500, 300)]
}

fn bezier() -> Curve {
    Curve::build(CurveKind::CubicBezier, demo_points()).unwrap()
}

fn bspline() -> Curve {
    Curve::build(CurveKind::CubicBSpline, demo_points()).unwrap()
}

#[test]
fn build_rejects_three_points() {
    let r = Curve::build(CurveKind::CubicBezier, vec![pt(0, 0), pt(1, 1), pt(2, 2)]);
    assert!(matches!(r, Err(CoreError::InvalidControlPoints)));
}

#[test]
fn build_accepts_four_points() {
    let r = Curve::build(CurveKind::CubicBezier, demo_points());
    assert!(r.is_ok());
    let r = Curve::build(CurveKind::CubicBSpline, demo_points());
    assert!(r.is_ok());
}

#[test]
fn bezier_starts_at_first_control_point() {
    let c = bezier();
    assert_eq!(c.evaluate(&Param { num: 0, den: 1 }), pt(-500, -300));
    assert_eq!(c.evaluate(&Param { num: 0, den: 997 }), pt(-500, -300));
}

#[test]
fn bezier_ends_at_last_control_point() {
    let c = bezier();
    assert_eq!(c.evaluate(&Param { num: 1, den: 1 }), pt(500, 300));
    assert_eq!(c.evaluate(&Param { num: 997, den: 997 }), pt(500, 300));
}

#[test]
fn bezier_midpoint_exact() {
    // (-500 + 3*(-100) + 3*100 + 500) / 8 = 0; same cancellation in y.
    let c = bezier();
    assert_eq!(c.evaluate(&Param { num: 1, den: 2 }), pt(0, 0));
}

#[test]
fn bspline_boundary_values() {
    let c = bspline();
    // Start: (p0 + 4 p1 + p2) / 6 = (-800/6, 600/6), truncated toward zero.
    assert_eq!(c.evaluate(&Param { num: 0, den: 1 }), pt(-133, 100));
    // End: (p1 + 4 p2 + p3) / 6 = (800/6, -600/6).
    assert_eq!(c.evaluate(&Param { num: 5, den: 5 }), pt(133, -100));
}

#[test]
fn evaluate_is_scale_invariant() {
    // The same rational parameter written with different denominators
    // evaluates to the same point.
    let c = bezier();
    let s = bspline();
    let coarse = Param { num: 1, den: 2 };
    let fine = Param { num: 500_000, den: 1_000_000 };
    assert_eq!(c.evaluate(&coarse), c.evaluate(&fine));
    assert_eq!(s.evaluate(&coarse), s.evaluate(&fine));
}

#[test]
fn tessellate_matches_evaluate_pointwise() {
    let c = bezier();
    let n = 9;
    let v = c.tessellate(n).unwrap();
    assert_eq!(v.len(), n);
    for (i, p) in v.iter().enumerate() {
        let t = Param { num: i as u64, den: (n - 1) as u64 };
        assert_eq!(*p, c.evaluate(&t));
    }
}

#[test]
fn tessellate_includes_both_endpoints() {
    let c = bezier();
    let v = c.tessellate(2).unwrap();
    assert_eq!(v[0], pt(-500, -300));
    assert_eq!(v[1], pt(500, 300));
}

#[test]
fn tessellate_rejects_degenerate_counts() {
    let c = bezier();
    assert!(matches!(c.tessellate(1), Err(CoreError::DegenerateSampleCount)));
    assert!(matches!(c.tessellate(0), Err(CoreError::DegenerateSampleCount)));
}

#[test]
fn evaluate_is_stable_near_boundary() {
    // No discontinuity at the ends: one step of a fine tessellation away
    // from an endpoint moves the point only a little.
    let c = bezier();
    let start = c.evaluate(&Param { num: 0, den: 1_000_000 });
    let near_start = c.evaluate(&Param { num: 1, den: 1_000_000 });
    assert!((near_start.x - start.x).abs() <= 1);
    assert!((near_start.y - start.y).abs() <= 2);
    let end = c.evaluate(&Param { num: 1_000_000, den: 1_000_000 });
    let near_end = c.evaluate(&Param { num: 999_999, den: 1_000_000 });
    assert!((near_end.x - end.x).abs() <= 2);
    assert!((near_end.y - end.y).abs() <= 2);
}
