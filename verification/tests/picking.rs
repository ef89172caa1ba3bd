use virtual_view::geometry::{BoundingBox, Ray, TrackedObject, Vec3};
use virtual_view::picking::{intersect, Point3, RayHit};
use virtual_view::rational::Frac;

fn v(x: i32, y: i32, z: i32) -> Vec3 {
    Vec3 { x, y, z }
}

fn unit_box() -> BoundingBox {
    BoundingBox { min: v(-1, -1, -1), max: v(1, 1, 1) }
}

fn whole(n: i128) -> Frac {
    Frac { num: n, den: 1 }
}

#[test]
fn ray_from_above_hits_at_distance_nine() {
    let ray = Ray { origin: v(0, 10, 0), direction: v(0, -1, 0) };
    let hit = intersect(&ray, &unit_box());
    assert_eq!(
        hit,
        Some(RayHit {
            distance: whole(9),
            point: Point3 { x: whole(0), y: whole(1), z: whole(0) },
            normal: v(0, 1, 0),
        })
    );
}

#[test]
fn ray_beside_the_box_misses() {
    let ray = Ray { origin: v(10, 10, 0), direction: v(0, -1, 0) };
    assert_eq!(intersect(&ray, &unit_box()), None);
}

#[test]
fn ray_pointing_away_misses() {
    let ray = Ray { origin: v(0, 10, 0), direction: v(0, 1, 0) };
    assert_eq!(intersect(&ray, &unit_box()), None);
}

#[test]
fn ray_starting_inside_misses() {
    let ray = Ray { origin: v(0, 0, 0), direction: v(0, -1, 0) };
    assert_eq!(intersect(&ray, &unit_box()), None);
    let ray = Ray { origin: v(0, 0, 0), direction: v(1, 2, 3) };
    assert_eq!(intersect(&ray, &unit_box()), None);
}

#[test]
fn ray_starting_on_a_face_hits_at_distance_zero() {
    let ray = Ray { origin: v(0, 1, 0), direction: v(0, -1, 0) };
    let hit = intersect(&ray, &unit_box()).unwrap();
    assert_eq!(hit.distance, whole(0));
    assert_eq!(hit.point, Point3 { x: whole(0), y: whole(1), z: whole(0) });
    assert_eq!(hit.normal, v(0, 1, 0));
}

#[test]
fn ray_without_direction_misses() {
    for origin in [v(0, 0, 0), v(1, 1, 1), v(0, 10, 0)] {
        let ray = Ray { origin, direction: v(0, 0, 0) };
        assert_eq!(intersect(&ray, &unit_box()), None);
    }
}

#[test]
fn ray_sliding_along_a_face_hits() {
    // parallel to the y slab, on its upper bound
    let ray = Ray { origin: v(-5, 1, 0), direction: v(1, 0, 0) };
    let hit = intersect(&ray, &unit_box()).unwrap();
    assert_eq!(hit.distance, whole(4));
    assert_eq!(hit.normal, v(-1, 0, 0));
    // just above it
    let ray = Ray { origin: v(-5, 2, 0), direction: v(1, 0, 0) };
    assert_eq!(intersect(&ray, &unit_box()), None);
}

#[test]
fn longer_direction_gives_a_shorter_parameter() {
    let ray = Ray { origin: v(0, 10, 0), direction: v(0, -2, 0) };
    let hit = intersect(&ray, &unit_box()).unwrap();
    assert_eq!(hit.distance, Frac { num: 9, den: 2 });
    assert_eq!(hit.point.y, Frac { num: 2, den: 2 });
    assert_eq!(hit.point.x, Frac { num: 0, den: 2 });
}

#[test]
fn diagonal_ray_hits_the_face_it_reaches_last() {
    // x slab entered at t = 4/2, y slab at t = 9/3: the latest entry is y's
    let ray = Ray { origin: v(-5, 10, 0), direction: v(2, -3, 0) };
    let hit = intersect(&ray, &unit_box()).unwrap();
    assert_eq!(hit.distance, Frac { num: 9, den: 3 });
    assert_eq!(hit.point.x, Frac { num: -15 + 18, den: 3 });
    assert_eq!(hit.point.y, Frac { num: 30 - 27, den: 3 });
    assert_eq!(hit.point.z, Frac { num: 0, den: 3 });
    assert_eq!(hit.normal, v(0, 1, 0));
}

#[test]
fn ray_into_a_corner_has_a_normal_on_every_entered_axis() {
    let ray = Ray { origin: v(5, 5, 5), direction: v(-1, -1, -1) };
    let hit = intersect(&ray, &unit_box()).unwrap();
    assert_eq!(hit.distance, whole(4));
    assert_eq!(hit.point, Point3 { x: whole(1), y: whole(1), z: whole(1) });
    assert_eq!(hit.normal, v(1, 1, 1));
}

#[test]
fn ray_into_an_edge_keeps_the_first_axis_that_is_latest() {
    // x entered at 8/2, y at 4/1: the same number, x's fraction is kept
    let ray = Ray { origin: v(-9, 5, 0), direction: v(2, -1, 0) };
    let hit = intersect(&ray, &unit_box()).unwrap();
    assert_eq!(hit.distance, Frac { num: 8, den: 2 });
    assert_eq!(hit.normal, v(-1, 1, 0));
}

#[test]
fn ray_that_passes_the_corner_outside_misses() {
    // in the x slab for t in 4..=6, in the y slab for t in 3..=5
    let ray = Ray { origin: v(-5, 4, 0), direction: v(1, -1, 0) };
    assert!(intersect(&ray, &unit_box()).is_some());
    // in the y slab for t in 7..=9: it is entered after the x slab is left
    let ray = Ray { origin: v(-5, 8, 0), direction: v(1, -1, 0) };
    assert_eq!(intersect(&ray, &unit_box()), None);
    // in the y slab for t in -3..=-1: it is left before the x slab is entered
    let ray = Ray { origin: v(-5, -2, 0), direction: v(1, -1, 0) };
    assert_eq!(intersect(&ray, &unit_box()), None);
}

#[test]
fn ray_that_only_touches_a_corner_hits_it() {
    // in the x slab for t in 4..=6, in the y slab for t in 6..=8
    let ray = Ray { origin: v(-5, 7, 0), direction: v(1, -1, 0) };
    let hit = intersect(&ray, &unit_box()).unwrap();
    assert_eq!(hit.distance, whole(6));
    assert_eq!(hit.point, Point3 { x: whole(1), y: whole(1), z: whole(0) });
    assert_eq!(hit.normal, v(0, 1, 0));
}

#[test]
fn flat_box_is_hit_like_any_other() {
    let ground = BoundingBox { min: v(-50, 0, -50), max: v(50, 0, 50) };
    let ray = Ray { origin: v(3, 7, -4), direction: v(0, -1, 0) };
    let hit = intersect(&ray, &ground).unwrap();
    assert_eq!(hit.distance, whole(7));
    assert_eq!(hit.point, Point3 { x: whole(3), y: whole(0), z: whole(-4) });
    let ray = Ray { origin: v(51, 7, -4), direction: v(0, -1, 0) };
    assert_eq!(intersect(&ray, &ground), None);
}

#[test]
fn inverted_box_is_never_hit() {
    let inverted = BoundingBox { min: v(1, -1, -1), max: v(-1, 1, 1) };
    let ray = Ray { origin: v(-5, 0, 0), direction: v(1, 0, 0) };
    assert_eq!(intersect(&ray, &inverted), None);
    let inverted = BoundingBox { min: v(-1, 1, -1), max: v(1, -1, 1) };
    assert_eq!(intersect(&ray, &inverted), None);
}

#[test]
fn hit_point_lies_on_the_box_and_nothing_earlier_does() {
    let bx = BoundingBox { min: v(-3, 2, -7), max: v(4, 9, 1) };
    let ray = Ray { origin: v(-20, 30, 11), direction: v(5, -6, -3) };
    let hit = intersect(&ray, &bx).unwrap();
    let (n, m) = (hit.distance.num, hit.distance.den);
    let inside = |n: i128, m: i128| {
        let at = |o: i32, d: i32| (o as i128) * m + n * (d as i128);
        [(at(-20, 5), -3, 4), (at(30, -6), 2, 9), (at(11, -3), -7, 1)]
            .iter()
            .all(|&(p, lo, hi)| (lo as i128) * m <= p && p <= (hi as i128) * m)
    };
    assert!(m > 0 && n >= 0);
    assert!(inside(n, m));
    // a little earlier: n/m - 1/1000
    assert!(!inside(n * 1000 - m, m * 1000));
}

#[test]
fn intersect_at_the_limits_of_the_types() {
    let bx = BoundingBox { min: v(i32::MAX, i32::MIN, 0), max: v(i32::MAX, i32::MAX, 0) };
    let ray = Ray { origin: v(i32::MIN, 0, 0), direction: v(i32::MAX, 0, 0) };
    let hit = intersect(&ray, &bx).unwrap();
    assert_eq!(hit.distance, Frac { num: (i32::MAX as i128) - (i32::MIN as i128), den: i32::MAX as i128 });
    let back = Ray { origin: v(i32::MAX, 0, 0), direction: v(i32::MIN, 0, 0) };
    let hit = intersect(&back, &bx).unwrap();
    assert_eq!(hit.distance, Frac { num: 0, den: -(i32::MIN as i128) });
}

#[test]
fn bounding_box_is_position_plus_and_minus_half_extent() {
    let cube = TrackedObject { position: v(0, 50, 0), extent: v(10, 10, 10) };
    assert_eq!(cube.bounding_box(), BoundingBox { min: v(-5, 45, -5), max: v(5, 55, 5) });
    let slab = TrackedObject { position: v(-3, 4, 100), extent: v(0, 2, 6) };
    assert_eq!(slab.bounding_box(), BoundingBox { min: v(-3, 3, 97), max: v(-3, 5, 103) });
}

#[test]
fn half_of_an_odd_extent_is_rounded_down() {
    let cube = TrackedObject { position: v(0, 0, 0), extent: v(5, 1, 3) };
    assert_eq!(cube.bounding_box(), BoundingBox { min: v(-2, 0, -1), max: v(2, 0, 1) });
}

#[test]
fn bounding_box_at_the_limits_of_the_types() {
    let cube = TrackedObject { position: v(0, -1, 0), extent: v(i32::MAX, i32::MAX, 0) };
    let half = i32::MAX / 2;
    assert_eq!(cube.bounding_box(), BoundingBox { min: v(-half, -1 - half, 0), max: v(half, half - 1, 0) });
}

#[test]
fn rest_height_is_half_the_vertical_extent_above_the_ground() {
    let cube = TrackedObject { position: v(0, 50_000, 0), extent: v(5_000, 5_000, 5_000) };
    assert_eq!(cube.rest_height(0), 2_500);
    assert_eq!(cube.rest_height(-700), 1_800);
    let flat = TrackedObject { position: v(0, 0, 0), extent: v(1, 0, 1) };
    assert_eq!(flat.rest_height(12), 12);
}
