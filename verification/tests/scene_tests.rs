use transporters::curve::{Curve, CurveKind, Param, Point, COORD_LIMIT};
use transporters::error::CoreError;
use transporters::scene::Scene;
use transporters::traversal::{Direction, PROGRESS_UNIT};

fn pt(x: i64, y: i64) -> Point {
    Point { x, y }
}

fn demo_points() -> Vec<Point> {
    vec![pt(-500, -300), pt(-100, 300), pt(100, -300), pt(500, 300)]
}

fn demo_scene() -> (Scene, usize) {
    let mut scene = Scene::new();
    let rail_id = scene.spawn_rail(CurveKind::CubicBezier, demo_points(), pt(-100, 150)).unwrap();
    (scene, rail_id)
}

#[test]
fn spawn_rail_creates_one_handle_per_control_point() {
    let (scene, rail_id) = demo_scene();
    assert_eq!(scene.rail_count(), 1);
    assert_eq!(scene.handle_count(), 4);
    for (i, p) in demo_points().into_iter().enumerate() {
        let h = scene.handle_at(i).unwrap();
        assert_eq!(h.rail, rail_id);
        assert_eq!(h.index, i);
        assert_eq!(h.position, p);
    }
    assert_eq!(scene.rail_transform(rail_id).unwrap(), pt(-100, 150));
}

#[test]
fn spawn_rail_with_too_few_points_changes_nothing() {
    let mut scene = Scene::new();
    let r = scene.spawn_rail(CurveKind::CubicBezier, vec![pt(0, 0), pt(1, 1), pt(2, 2)], pt(0, 0));
    assert!(matches!(r, Err(CoreError::InvalidControlPoints)));
    assert_eq!(scene.rail_count(), 0);
    assert_eq!(scene.handle_count(), 0);
}

#[test]
fn end_to_end_ride_and_drag() {
    // Spawn a Bezier rail and an agent, advance one full time unit: the
    // agent reaches the evaluation at t = 1, the last control point. The
    // direction flips on the first instant past the end.
    let (mut scene, rail_id) = demo_scene();
    let agent_id = scene.spawn_agent(rail_id).unwrap();
    assert!(scene.update_agents(PROGRESS_UNIT).is_ok());
    let agent = scene.agent_at(agent_id).unwrap();
    assert_eq!(agent.position, pt(500, 300));
    assert_eq!(agent.traversal.progress, PROGRESS_UNIT);
    assert_eq!(agent.traversal.direction, Direction::Forward);
    assert!(scene.update_agents(1).is_ok());
    let agent = scene.agent_at(agent_id).unwrap();
    assert_eq!(agent.position, pt(500, 300));
    assert_eq!(agent.traversal.direction, Direction::Backward);

    // Drag the first control-point handle by the screen delta (10, -10):
    // in world space that is (10, 10), so the point lands on (-490, -290),
    // and the regenerated polyline starts there too.
    assert!(scene.drag_control_point(0, pt(10, -10)).is_ok());
    let h = scene.handle_at(0).unwrap();
    assert_eq!(h.position, pt(-490, -290));
    let vertices = scene.rail_vertices(rail_id).unwrap();
    assert_eq!(vertices[0], pt(-490, -290));
}

#[test]
fn agent_starts_at_the_start_of_the_rail() {
    let (mut scene, rail_id) = demo_scene();
    let agent_id = scene.spawn_agent(rail_id).unwrap();
    let agent = scene.agent_at(agent_id).unwrap();
    assert_eq!(agent.traversal.progress, 0);
    assert_eq!(agent.traversal.direction, Direction::Forward);
    assert_eq!(agent.position, pt(-500, -300));
}

#[test]
fn agent_world_position_adds_the_placement_transform() {
    let (mut scene, rail_id) = demo_scene();
    let agent_id = scene.spawn_agent(rail_id).unwrap();
    // Rail-local (-500, -300) under transform (-100, 150).
    assert_eq!(scene.agent_world_position(agent_id).unwrap(), pt(-600, -150));
}

#[test]
fn drag_updates_the_sampled_curve() {
    // An agent riding a dragged rail samples the edited curve on its next
    // update: reshaping and traversal stay consistent within the tick.
    let (mut scene, rail_id) = demo_scene();
    let agent_id = scene.spawn_agent(rail_id).unwrap();
    assert!(scene.drag_control_point(0, pt(10, -10)).is_ok());
    assert!(scene.update_agents(0).is_ok());
    let agent = scene.agent_at(agent_id).unwrap();
    assert_eq!(agent.position, pt(-490, -290));
}

#[test]
fn drag_control_point_matches_manual_edit() {
    let (mut scene, rail_id) = demo_scene();
    assert!(scene.drag_control_point(2, pt(-7, 3)).is_ok());
    let mut expected_points = demo_points();
    expected_points[2] = pt(100 - 7, -300 - 3);
    let expected = Curve::build(CurveKind::CubicBezier, expected_points)
        .unwrap()
        .tessellate(100)
        .unwrap();
    assert_eq!(scene.rail_vertices(rail_id).unwrap(), &expected);
}

#[test]
fn drag_clamps_at_the_world_border() {
    let (mut scene, _) = demo_scene();
    for _ in 0..3 {
        assert!(scene.drag_control_point(0, pt(COORD_LIMIT, -COORD_LIMIT)).is_ok());
    }
    let h = scene.handle_at(0).unwrap();
    assert_eq!(h.position, pt(COORD_LIMIT, COORD_LIMIT));
}

#[test]
fn drag_with_a_bad_handle_id_is_rejected() {
    let (mut scene, _) = demo_scene();
    let r = scene.drag_control_point(4, pt(1, 1));
    assert!(matches!(r, Err(CoreError::IndexOutOfRange)));
    assert_eq!(scene.handle_at(0).unwrap().position, pt(-500, -300));
}

#[test]
fn drag_rail_moves_only_the_transform() {
    let (mut scene, rail_id) = demo_scene();
    let before = scene.rail_vertices(rail_id).unwrap().clone();
    assert!(scene.drag_rail(rail_id, pt(30, -20)).is_ok());
    assert_eq!(scene.rail_transform(rail_id).unwrap(), pt(-70, 170));
    assert_eq!(scene.rail_vertices(rail_id).unwrap(), &before);
    assert_eq!(scene.handle_at(0).unwrap().position, pt(-500, -300));
}

#[test]
fn dangling_rail_is_reported_not_sampled() {
    let (mut scene, rail_id) = demo_scene();
    let agent_id = scene.spawn_agent(rail_id).unwrap();
    let before = scene.agent_at(agent_id).unwrap();
    assert!(scene.despawn_rail(rail_id).is_ok());
    // The traversal still advances, but no position is invented.
    let r = scene.update_agents(300_000);
    assert!(matches!(r, Err(CoreError::DanglingReference)));
    let after = scene.agent_at(agent_id).unwrap();
    assert_eq!(after.position, before.position);
    assert_eq!(after.traversal.progress, 300_000);
    // Every other way in reports the dangling reference too.
    assert!(matches!(scene.spawn_agent(rail_id), Err(CoreError::DanglingReference)));
    assert!(matches!(scene.drag_control_point(0, pt(1, 1)), Err(CoreError::DanglingReference)));
    assert!(matches!(scene.drag_rail(rail_id, pt(1, 1)), Err(CoreError::DanglingReference)));
    assert!(matches!(scene.rail_vertices(rail_id), Err(CoreError::DanglingReference)));
    assert!(matches!(scene.agent_world_position(agent_id), Err(CoreError::DanglingReference)));
    assert!(matches!(scene.despawn_rail(rail_id), Err(CoreError::DanglingReference)));
}

#[test]
fn two_rails_are_edited_independently() {
    let mut scene = Scene::new();
    let first = scene.spawn_rail(CurveKind::CubicBezier, demo_points(), pt(0, 0)).unwrap();
    let second = scene.spawn_rail(CurveKind::CubicBSpline, demo_points(), pt(10, 10)).unwrap();
    let second_before = scene.rail_vertices(second).unwrap().clone();
    // Handles 0..4 belong to the first rail, 4..8 to the second.
    assert!(scene.drag_control_point(1, pt(40, 0)).is_ok());
    assert_eq!(scene.handle_at(1).unwrap().position, pt(-60, 300));
    assert_eq!(scene.rail_vertices(second).unwrap(), &second_before);
    assert_ne!(scene.rail_vertices(first).unwrap()[50], second_before[50]);
}

#[test]
fn out_of_range_sample_is_impossible_for_agents() {
    // Agents clamp before sampling; a raw out-of-range parameter against
    // the curve engine is the caller bug the rail reports.
    let (mut scene, rail_id) = demo_scene();
    let agent_id = scene.spawn_agent(rail_id).unwrap();
    for _ in 0..7 {
        assert!(scene.update_agents(700_000).is_ok());
        let agent = scene.agent_at(agent_id).unwrap();
        assert!(agent.traversal.progress <= PROGRESS_UNIT);
        let t = Param { num: agent.traversal.progress, den: PROGRESS_UNIT };
        assert!(t.num <= t.den);
    }
}
