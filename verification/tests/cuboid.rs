use primitive_raycast::error::GeometryError;
use primitive_raycast::raycast3d::{Cuboid, Point3, Ray3d, RayCast3d, RayIntersection3d, Vec3};
use primitive_raycast::scalar::Ratio;

const X: Vec3 = Vec3 { x: 1, y: 0, z: 0 };
const Y: Vec3 = Vec3 { x: 0, y: 1, z: 0 };
const Z: Vec3 = Vec3 { x: 0, y: 0, z: 1 };
const NEG_X: Vec3 = Vec3 { x: -1, y: 0, z: 0 };
const NEG_Y: Vec3 = Vec3 { x: 0, y: -1, z: 0 };
const NEG_Z: Vec3 = Vec3 { x: 0, y: 0, z: -1 };

fn vec3(x: i32, y: i32, z: i32) -> Vec3 {
    Vec3 { x, y, z }
}

fn unit_cuboid() -> Cuboid {
    Cuboid::new(vec3(1, 1, 1)).unwrap()
}

/// Stands ten back from the origin against `aim`, moved aside by twelve along
/// `miss` where one is given, and looks along `aim`.
fn shoot(aim: Vec3, miss: Option<Vec3>) -> Option<RayIntersection3d> {
    let m = miss.unwrap_or(vec3(0, 0, 0));
    let ray = Ray3d {
        origin: vec3(-10 * aim.x + 12 * m.x, -10 * aim.y + 12 * m.y, -10 * aim.z + 12 * m.z),
        direction: aim,
    };
    unit_cuboid().cast_ray_local(ray, Ratio::from_int(10)).unwrap()
}

fn check_hit(aim: Vec3) {
    let hit = shoot(aim, None).expect("the ray should hit the cuboid");
    assert!(hit.distance.num > 0);
    assert_eq!(hit.distance, Ratio { num: 9, den: 1 });
    assert_eq!(hit.normal, vec3(-aim.x, -aim.y, -aim.z));
    assert_eq!(
        hit.position,
        Point3 { x: -aim.x as i128, y: -aim.y as i128, z: -aim.z as i128, den: 1 }
    );
}

fn check_misses(aim: Vec3) {
    for side in [X, Y, Z, NEG_X, NEG_Y, NEG_Z] {
        assert!(shoot(aim, Some(side)).is_none(), "the ray should miss the cuboid");
    }
}

#[test]
fn hits_along_x() {
    check_hit(X);
}

#[test]
fn hits_along_y() {
    check_hit(Y);
}

#[test]
fn hits_along_z() {
    check_hit(Z);
}

#[test]
fn hits_along_neg_x() {
    check_hit(NEG_X);
}

#[test]
fn hits_along_neg_y() {
    check_hit(NEG_Y);
}

#[test]
fn hits_along_neg_z() {
    check_hit(NEG_Z);
}

#[test]
fn misses_when_x_ray_is_too_far() {
    check_misses(X);
}

#[test]
fn misses_when_y_ray_is_too_far() {
    check_misses(Y);
}

#[test]
fn misses_when_z_ray_is_too_far() {
    check_misses(Z);
}

#[test]
fn misses_when_neg_x_ray_is_too_far() {
    check_misses(NEG_X);
}

#[test]
fn misses_when_neg_y_ray_is_too_far() {
    check_misses(NEG_Y);
}

#[test]
fn misses_when_neg_z_ray_is_too_far() {
    check_misses(NEG_Z);
}

#[test]
fn ray_from_above_hits_the_top_face() {
    let ray = Ray3d { origin: vec3(0, 0, 5), direction: NEG_Z };
    let hit = unit_cuboid().cast_ray_local(ray, Ratio::from_int(10)).unwrap().unwrap();
    assert_eq!(hit.distance, Ratio { num: 4, den: 1 });
    assert_eq!(hit.position, Point3 { x: 0, y: 0, z: 1, den: 1 });
    assert_eq!(hit.normal, Z);
}

#[test]
fn ray_from_above_is_cut_short() {
    let ray = Ray3d { origin: vec3(0, 0, 5), direction: NEG_Z };
    assert_eq!(unit_cuboid().cast_ray_local(ray, Ratio::from_int(1)), Ok(None));
}

#[test]
fn hit_at_exactly_the_search_distance_is_reported() {
    let ray = Ray3d { origin: vec3(0, 0, 5), direction: NEG_Z };
    let hit = unit_cuboid().cast_ray_local(ray, Ratio::from_int(4)).unwrap().unwrap();
    assert_eq!(hit.distance, Ratio { num: 4, den: 1 });
    let short = Ratio::new(39, 10).unwrap();
    assert_eq!(unit_cuboid().cast_ray_local(ray, short), Ok(None));
}

#[test]
fn ray_from_inside_leaves_through_the_far_face() {
    let ray = Ray3d { origin: vec3(0, 0, 0), direction: X };
    let hit = unit_cuboid().cast_ray_local(ray, Ratio::from_int(10)).unwrap().unwrap();
    assert_eq!(hit.distance, Ratio { num: 1, den: 1 });
    assert_eq!(hit.position, Point3 { x: 1, y: 0, z: 0, den: 1 });
    assert_eq!(hit.normal, X);
}

#[test]
fn box_behind_the_ray_is_missed() {
    let ray = Ray3d { origin: vec3(0, 0, 5), direction: Z };
    assert_eq!(unit_cuboid().cast_ray_local(ray, Ratio::from_int(100)), Ok(None));
}

#[test]
fn slanted_ray_hits_at_a_fraction() {
    // From (-4, 0, 0) along (2, 1, 0) the ray reaches x = -2 at t = 1, where
    // y = 1 is still within a half-extent of 2.
    let cuboid = Cuboid::new(vec3(2, 2, 2)).unwrap();
    let ray = Ray3d { origin: vec3(-4, 0, 0), direction: vec3(2, 1, 0) };
    let hit = cuboid.cast_ray_local(ray, Ratio::from_int(10)).unwrap().unwrap();
    assert_eq!(hit.distance, Ratio { num: 2, den: 2 });
    assert!(hit.distance.same_value(&Ratio::from_int(1)));
    assert_eq!(hit.position, Point3 { x: -4, y: 2, z: 0, den: 2 });
    assert_eq!(hit.normal, NEG_X);
}

#[test]
fn slanted_ray_passes_the_corner() {
    let cuboid = Cuboid::new(vec3(1, 1, 1)).unwrap();
    let ray = Ray3d { origin: vec3(-4, 0, 0), direction: vec3(1, 1, 0) };
    assert_eq!(cuboid.cast_ray_local(ray, Ratio::from_int(10)), Ok(None));
}

#[test]
fn ray_at_an_edge_takes_the_first_axis() {
    // The ray reaches the planes x = -1 and y = -1 at the same parameter.
    let ray = Ray3d { origin: vec3(-3, -3, 0), direction: vec3(1, 1, 0) };
    let hit = unit_cuboid().cast_ray_local(ray, Ratio::from_int(10)).unwrap().unwrap();
    assert_eq!(hit.distance, Ratio { num: 2, den: 1 });
    assert_eq!(hit.position, Point3 { x: -1, y: -1, z: 0, den: 1 });
    assert_eq!(hit.normal, NEG_X);
}

#[test]
fn ray_sliding_on_a_face_plane_counts_as_within() {
    let ray = Ray3d { origin: vec3(-5, 1, 0), direction: X };
    let hit = unit_cuboid().cast_ray_local(ray, Ratio::from_int(10)).unwrap().unwrap();
    assert_eq!(hit.distance, Ratio { num: 4, den: 1 });
    assert_eq!(hit.normal, NEG_X);
}

#[test]
fn ray_without_direction_hits_nothing() {
    let ray = Ray3d { origin: vec3(0, 0, 0), direction: vec3(0, 0, 0) };
    assert_eq!(unit_cuboid().cast_ray_local(ray, Ratio::from_int(10)), Ok(None));
}

#[test]
fn position_is_origin_plus_distance_times_direction() {
    let cuboid = Cuboid::new(vec3(3, 2, 5)).unwrap();
    let ray = Ray3d { origin: vec3(-7, 1, -11), direction: vec3(3, 0, 4) };
    let hit = cuboid.cast_ray_local(ray, Ratio::from_int(100)).unwrap().unwrap();
    // z reaches -5 at t = 6/4, x reaches -3 at t = 4/3: the later entry is z.
    assert_eq!(hit.distance, Ratio { num: 6, den: 4 });
    let (n, d) = (hit.distance.num as i128, hit.distance.den as i128);
    assert_eq!(hit.position.den, hit.distance.den);
    assert_eq!(hit.position.x, -7 * d + n * 3);
    assert_eq!(hit.position.y, 1 * d);
    assert_eq!(hit.position.z, -11 * d + n * 4);
    assert_eq!(hit.normal, NEG_Z);
    let len2 = hit.normal.x * hit.normal.x + hit.normal.y * hit.normal.y + hit.normal.z * hit.normal.z;
    assert_eq!(len2, 1);
}

#[test]
fn cuboid_without_extent_is_refused() {
    assert_eq!(Cuboid::new(vec3(1, 0, 1)), Err(GeometryError::NonPositiveHalfExtent));
    assert_eq!(Cuboid::new(vec3(-1, 1, 1)), Err(GeometryError::NonPositiveHalfExtent));
    let flat = Cuboid { half_size: vec3(1, 1, 0) };
    let ray = Ray3d { origin: vec3(0, 0, 5), direction: NEG_Z };
    assert_eq!(
        flat.cast_ray_local(ray, Ratio::from_int(10)),
        Err(GeometryError::NonPositiveHalfExtent)
    );
}

#[test]
fn fractions_compare_as_numbers() {
    let half = Ratio::new(1, 2).unwrap();
    let third = Ratio::new(2, 6).unwrap();
    assert!(third.less_than(&half));
    assert!(!half.less_than(&third));
    assert!(!half.less_than(&half));
    assert!(third.same_value(&Ratio::new(1, 3).unwrap()));
    assert_eq!(Ratio::new(1, 0), None);
    assert_eq!(Ratio::new(1, -3), None);
    assert_eq!(Ratio::from_int(-7), Ratio { num: -7, den: 1 });
    let big = Ratio { num: i64::MAX, den: i64::MAX };
    assert!(big.same_value(&Ratio::from_int(1)));
}

#[test]
fn hit_lies_on_the_reported_face() {
    let cuboid = Cuboid::new(vec3(3, 2, 5)).unwrap();
    let ray = Ray3d { origin: vec3(10, 9, 1), direction: vec3(-4, -4, -1) };
    let hit = cuboid.cast_ray_local(ray, Ratio::from_int(100)).unwrap().unwrap();
    // x reaches 3 at t = 7/4 and y reaches 2 at t = 7/4: the tie goes to x.
    assert_eq!(hit.distance, Ratio { num: 7, den: 4 });
    assert_eq!(hit.normal, X);
    let d = hit.position.den as i128;
    assert_eq!(hit.position, Point3 { x: 3 * d, y: 2 * d, z: 4 - 7, den: 4 });
    assert!(hit.position.z.abs() <= 5 * d);
}

#[test]
fn errors_say_what_is_wrong() {
    assert_eq!(GeometryError::TooFewVertices.message(), "a polygon needs at least three vertices");
    assert_eq!(
        GeometryError::DegenerateEdge.message(),
        "two consecutive vertices of the polygon coincide"
    );
    assert_eq!(
        GeometryError::NonPositiveHalfExtent.message(),
        "a half-extent of the cuboid is not positive"
    );
}
