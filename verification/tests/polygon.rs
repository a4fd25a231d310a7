use primitive_raycast::error::GeometryError;
use primitive_raycast::raycast2d::{
    cast_ray_outline, cast_ray_segment, BoxedPolygon, Heading2, Point2, Polygon, Ray2d, RayCast2d,
    Vec2,
};
use primitive_raycast::scalar::Ratio;

fn vec2(x: i16, y: i16) -> Vec2 {
    Vec2 { x, y }
}

fn square() -> [Vec2; 4] {
    [vec2(-1, -1), vec2(1, -1), vec2(1, 1), vec2(-1, 1)]
}

#[test]
fn ray_hits_the_nearer_side_of_a_square() {
    let ray = Ray2d { origin: vec2(-5, 0), direction: vec2(1, 0) };
    let hit = Polygon { vertices: square() }
        .cast_ray_local(ray, Ratio::from_int(10))
        .unwrap()
        .unwrap();
    assert_eq!(hit.distance, Ratio { num: 8, den: 2 });
    assert!(hit.distance.same_value(&Ratio::from_int(4)));
    assert_eq!(hit.position, Point2 { x: -2, y: 0, den: 2 });
    assert_eq!(hit.normal, Heading2 { x: -2, y: 0 });
}

#[test]
fn ray_beside_a_square_hits_nothing() {
    let ray = Ray2d { origin: vec2(-5, 3), direction: vec2(1, 0) };
    let polygon = Polygon { vertices: square() };
    assert_eq!(polygon.cast_ray_local(ray, Ratio::from_int(100)), Ok(None));
}

#[test]
fn ray_leading_away_from_a_square_hits_nothing() {
    let ray = Ray2d { origin: vec2(-5, 0), direction: vec2(-1, 0) };
    let polygon = Polygon { vertices: square() };
    assert_eq!(polygon.cast_ray_local(ray, Ratio::from_int(100)), Ok(None));
}

#[test]
fn search_distance_cuts_the_ray_short() {
    let ray = Ray2d { origin: vec2(-5, 0), direction: vec2(1, 0) };
    let polygon = Polygon { vertices: square() };
    assert_eq!(polygon.cast_ray_local(ray, Ratio::from_int(3)), Ok(None));
    let hit = polygon.cast_ray_local(ray, Ratio::from_int(4)).unwrap().unwrap();
    assert!(hit.distance.same_value(&Ratio::from_int(4)));
}

#[test]
fn ray_from_inside_hits_the_side_ahead() {
    let ray = Ray2d { origin: vec2(0, 0), direction: vec2(0, 1) };
    let hit = Polygon { vertices: square() }
        .cast_ray_local(ray, Ratio::from_int(10))
        .unwrap()
        .unwrap();
    assert!(hit.distance.same_value(&Ratio::from_int(1)));
    assert_eq!(hit.position, Point2 { x: 0, y: 2, den: 2 });
    assert_eq!(hit.normal, Heading2 { x: 0, y: -2 });
}

#[test]
fn slanted_ray_hits_a_triangle_at_a_fraction() {
    // The edge from (4, 0) to (0, 4) lies on x + y = 4; the ray from the
    // origin along (1, 2) reaches it at t = 4/3.
    let triangle = Polygon { vertices: [vec2(4, 0), vec2(0, 4), vec2(4, 4)] };
    let ray = Ray2d { origin: vec2(0, 0), direction: vec2(1, 2) };
    let hit = triangle.cast_ray_local(ray, Ratio::from_int(10)).unwrap().unwrap();
    assert!(hit.distance.same_value(&Ratio::new(4, 3).unwrap()));
    assert_eq!(hit.distance, Ratio { num: 16, den: 12 });
    assert_eq!(hit.position, Point2 { x: 16, y: 32, den: 12 });
    assert_eq!(hit.normal, Heading2 { x: -4, y: -4 });
}

#[test]
fn first_edge_wins_a_tie() {
    // The ray reaches the corner (-1, -1), where the last edge ends and the
    // first begins, at the same distance on both.
    let ray = Ray2d { origin: vec2(-3, -3), direction: vec2(1, 1) };
    let hit = Polygon { vertices: square() }
        .cast_ray_local(ray, Ratio::from_int(10))
        .unwrap()
        .unwrap();
    assert!(hit.distance.same_value(&Ratio::from_int(2)));
    assert_eq!(hit.normal, Heading2 { x: 0, y: -2 });
}

#[test]
fn fixed_and_boxed_polygons_agree() {
    let fixed = Polygon { vertices: square() };
    let boxed = BoxedPolygon { vertices: square().to_vec() };
    for origin in [vec2(-5, 0), vec2(0, 0), vec2(7, 3), vec2(-3, -3), vec2(0, -9)] {
        for direction in [vec2(1, 0), vec2(0, 1), vec2(-1, 0), vec2(1, 1), vec2(-2, 1), vec2(0, 0)] {
            let ray = Ray2d { origin, direction };
            let max = Ratio::from_int(20);
            assert_eq!(fixed.cast_ray_local(ray, max), boxed.cast_ray_local(ray, max));
            assert_eq!(boxed.cast_ray_local(ray, max), cast_ray_outline(&square(), ray, max));
        }
    }
}

#[test]
fn degenerate_edge_is_refused() {
    let ray = Ray2d { origin: vec2(-5, 0), direction: vec2(1, 0) };
    let doubled = BoxedPolygon { vertices: vec![vec2(0, 0), vec2(0, 0), vec2(1, 1)] };
    assert_eq!(
        doubled.cast_ray_local(ray, Ratio::from_int(10)),
        Err(GeometryError::DegenerateEdge)
    );
    let closing = Polygon { vertices: [vec2(0, 0), vec2(2, 0), vec2(2, 2), vec2(0, 0)] };
    assert_eq!(
        closing.cast_ray_local(ray, Ratio::from_int(10)),
        Err(GeometryError::DegenerateEdge)
    );
}

#[test]
fn polygon_with_two_vertices_is_refused() {
    let ray = Ray2d { origin: vec2(-5, 0), direction: vec2(1, 0) };
    let line = BoxedPolygon { vertices: vec![vec2(0, -1), vec2(0, 1)] };
    assert_eq!(line.cast_ray_local(ray, Ratio::from_int(10)), Err(GeometryError::TooFewVertices));
    let empty = BoxedPolygon { vertices: Vec::new() };
    assert_eq!(empty.cast_ray_local(ray, Ratio::from_int(10)), Err(GeometryError::TooFewVertices));
    let same = BoxedPolygon { vertices: vec![vec2(0, 0), vec2(0, 0)] };
    assert_eq!(same.cast_ray_local(ray, Ratio::from_int(10)), Err(GeometryError::TooFewVertices));
}

#[test]
fn segment_is_hit_between_its_ends_only() {
    let a = vec2(2, -1);
    let b = vec2(2, 1);
    let max = Ratio::from_int(10);
    let through = Ray2d { origin: vec2(0, 0), direction: vec2(1, 0) };
    let hit = cast_ray_segment(a, b, through, max).unwrap();
    assert!(hit.distance.same_value(&Ratio::from_int(2)));
    assert_eq!(hit.position, Point2 { x: 4, y: 0, den: 2 });
    assert_eq!(hit.normal, Heading2 { x: -2, y: 0 });
    let at_end = Ray2d { origin: vec2(0, 1), direction: vec2(1, 0) };
    assert!(cast_ray_segment(a, b, at_end, max).is_some());
    let past_end = Ray2d { origin: vec2(0, 2), direction: vec2(1, 0) };
    assert_eq!(cast_ray_segment(a, b, past_end, max), None);
    let parallel = Ray2d { origin: vec2(2, -5), direction: vec2(0, 1) };
    assert_eq!(cast_ray_segment(a, b, parallel, max), None);
    let reversed = cast_ray_segment(b, a, through, max).unwrap();
    assert_eq!(reversed.normal, hit.normal);
    assert!(reversed.distance.same_value(&hit.distance));
}

#[test]
fn position_lies_on_the_ray_and_on_the_edge() {
    let polygon = Polygon { vertices: [vec2(-30, -10), vec2(50, -20), vec2(10, 70)] };
    let ray = Ray2d { origin: vec2(-100, 35), direction: vec2(7, -2) };
    let hit = polygon.cast_ray_local(ray, Ratio::from_int(1000)).unwrap().unwrap();
    let (n, d) = (hit.distance.num, hit.distance.den);
    assert!(d > 0 && n >= 0);
    assert_eq!(hit.position.den, d);
    assert_eq!(hit.position.x, -100 * d + n * 7);
    assert_eq!(hit.position.y, 35 * d + n * -2);
    // The closing edge runs from (10, 70) to (-30, -10): twice the run in x
    // is the rise in y.
    assert_eq!(2 * (hit.position.x - 10 * d), hit.position.y - 70 * d);
    assert_eq!(hit.normal, Heading2 { x: -80, y: 40 });
}

#[test]
fn extreme_coordinates_do_not_overflow() {
    let lo = i16::MIN;
    let hi = i16::MAX;
    let polygon = Polygon { vertices: [vec2(lo, lo), vec2(hi, lo), vec2(hi, hi), vec2(lo, hi)] };
    let ray = Ray2d { origin: vec2(0, 0), direction: vec2(hi, lo) };
    let max = Ratio { num: i64::MAX, den: 1 };
    let hit = polygon.cast_ray_local(ray, max).unwrap().unwrap();
    assert!(hit.distance.num > 0);
    assert!(hit.distance.less_than(&Ratio::new(1001, 1000).unwrap()));
}
