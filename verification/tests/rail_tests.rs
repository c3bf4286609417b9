use transporters::curve::{Curve, CurveKind, Param, Point};
use transporters::error::CoreError;
use transporters::rail::{Rail, RAIL_VERTICES};

fn pt(x: i64, y: i64) -> Point {
    Point { x, y }
}

fn demo_points() -> Vec<Point> {
    vec![pt(-500, -300), pt(-100, 300), pt(100, -300), pt(500, 300)]
}

#[test]
fn new_rail_tessellates_once() {
    let rail = Rail::new(CurveKind::CubicBezier, demo_points()).unwrap();
    let v = rail.vertices();
    assert_eq!(v.len(), RAIL_VERTICES);
    assert_eq!(v[0], pt(-500, -300));
    assert_eq!(v[RAIL_VERTICES - 1], pt(500, 300));
}

#[test]
fn new_rail_rejects_short_polygon() {
    let r = Rail::new(CurveKind::CubicBezier, vec![pt(0, 0), pt(1, 1), pt(2, 2)]);
    assert!(matches!(r, Err(CoreError::InvalidControlPoints)));
}

#[test]
fn set_control_point_updates_point_and_cache() {
    let mut rail = Rail::new(CurveKind::CubicBezier, demo_points()).unwrap();
    assert!(rail.set_control_point(0, pt(-490, -290)).is_ok());
    assert_eq!(rail.control_point(0), pt(-490, -290));
    // The cache follows immediately: the Bezier starts at the new point.
    assert_eq!(rail.vertices()[0], pt(-490, -290));
}

#[test]
fn edits_never_leave_a_stale_tessellation() {
    // After an arbitrary sequence of edits, the cached polyline equals a
    // fresh tessellation of a curve built from the current control points.
    let mut rail = Rail::new(CurveKind::CubicBSpline, demo_points()).unwrap();
    let edits: [(usize, Point); 4] =
        [(0, pt(-480, -20)), (2, pt(77, 13)), (0, pt(5, 5)), (3, pt(444, -444))];
    for (index, position) in edits {
        assert!(rail.set_control_point(index, position).is_ok());
        let mut current: Vec<Point> = Vec::new();
        for i in 0..rail.control_point_count() {
            current.push(rail.control_point(i));
        }
        let fresh =
            Curve::build(CurveKind::CubicBSpline, current).unwrap().tessellate(RAIL_VERTICES);
        assert_eq!(rail.vertices(), &fresh.unwrap());
    }
}

#[test]
fn set_control_point_out_of_range_is_a_no_op() {
    let mut rail = Rail::new(CurveKind::CubicBezier, demo_points()).unwrap();
    let before: Vec<Point> = (0..rail.control_point_count()).map(|i| rail.control_point(i)).collect();
    let vertices_before = rail.vertices().clone();
    let r = rail.set_control_point(4, pt(1, 1));
    assert!(matches!(r, Err(CoreError::IndexOutOfRange)));
    let after: Vec<Point> = (0..rail.control_point_count()).map(|i| rail.control_point(i)).collect();
    assert_eq!(before, after);
    assert_eq!(&vertices_before, rail.vertices());
}

#[test]
fn sample_delegates_to_evaluate() {
    let rail = Rail::new(CurveKind::CubicBezier, demo_points()).unwrap();
    let curve = Curve::build(CurveKind::CubicBezier, demo_points()).unwrap();
    let t = Param { num: 3, den: 7 };
    assert_eq!(rail.sample(&t).unwrap(), curve.evaluate(&t));
}

#[test]
fn sample_rejects_out_of_range_parameter() {
    let rail = Rail::new(CurveKind::CubicBezier, demo_points()).unwrap();
    let r = rail.sample(&Param { num: 8, den: 7 });
    assert!(matches!(r, Err(CoreError::OutOfRangeParameter)));
}
