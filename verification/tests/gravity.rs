use virtual_view::geometry::{TrackedObject, Vec3};
use virtual_view::gravity::integrate;

#[test]
fn object_above_rest_drops_by_acceleration_times_time() {
    let position = Vec3 { x: 3, y: 50_000, z: -4 };
    assert_eq!(integrate(position, 2_500, 10, 16), Vec3 { x: 3, y: 49_840, z: -4 });
    assert_eq!(integrate(position, 2_500, 10, 0), position);
    assert_eq!(integrate(position, 2_500, 0, 16), position);
}

#[test]
fn object_at_rest_stays() {
    let position = Vec3 { x: 3, y: 2_500, z: -4 };
    assert_eq!(integrate(position, 2_500, 10, 16), position);
    assert_eq!(integrate(position, 2_500, i32::MAX, i32::MAX), position);
}

#[test]
fn object_below_rest_stays() {
    let position = Vec3 { x: 0, y: -9, z: 0 };
    assert_eq!(integrate(position, 2_500, 10, 16), position);
    assert_eq!(integrate(position, 2_500, i32::MIN, i32::MAX), position);
}

#[test]
fn cube_settles_exactly_on_the_ground() {
    // heights in thousandths, time in milliseconds: a cube of size 5 dropped from 50
    let cube = TrackedObject { position: Vec3 { x: 0, y: 50_000, z: 0 }, extent: Vec3 { x: 5_000, y: 5_000, z: 5_000 } };
    let rest = cube.rest_height(0);
    assert_eq!(rest, 2_500);
    let mut position = cube.position;
    let mut frames = 0;
    while position.y > rest {
        let next = integrate(position, rest, 10, 25);
        assert_eq!(next.y, position.y - 250);
        assert!(next.y >= rest);
        position = next;
        frames += 1;
    }
    assert_eq!(frames, 190);
    assert_eq!(position, Vec3 { x: 0, y: 2_500, z: 0 });
    for _ in 0..100 {
        position = integrate(position, rest, 10, 25);
        assert_eq!(position, Vec3 { x: 0, y: 2_500, z: 0 });
    }
}

#[test]
fn long_frame_carries_the_object_below_rest() {
    let position = Vec3 { x: 0, y: 2_600, z: 0 };
    let sunk = integrate(position, 2_500, 10, 16);
    assert_eq!(sunk.y, 2_440);
    // caught one frame late: from then on it stays
    assert_eq!(integrate(sunk, 2_500, 10, 16), sunk);
}

#[test]
fn uneven_steps_overshoot_by_less_than_one_step() {
    let mut position = Vec3 { x: 0, y: 50_000, z: 0 };
    for _ in 0..1000 {
        position = integrate(position, 2_500, 10, 16);
        assert!(position.y > 2_500 - 160);
    }
    assert_eq!(position.y, 2_480);
}

#[test]
fn negative_time_raises_the_object() {
    let position = Vec3 { x: 0, y: 3_000, z: 0 };
    assert_eq!(integrate(position, 2_500, 10, -5).y, 3_050);
}

#[test]
fn integrate_at_the_limits_of_the_types() {
    let position = Vec3 { x: i32::MAX, y: i32::MAX, z: i32::MIN };
    // 65535 * 65537 = 2^32 - 1: from the highest height to the lowest in one step
    let out = integrate(position, i32::MIN, 65_535, 65_537);
    assert_eq!(out, Vec3 { x: i32::MAX, y: i32::MIN, z: i32::MIN });
}
