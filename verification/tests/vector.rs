use person_sim::vector::{
    clamp_to_coordinate, divide_toward_zero, isqrt, Vector3, ARRIVAL_DISTANCE, UNIT,
};

#[test]
fn isqrt_of_small_numbers() {
    assert_eq!(isqrt(0), 0);
    assert_eq!(isqrt(1), 1);
    assert_eq!(isqrt(2), 1);
    assert_eq!(isqrt(3), 1);
    assert_eq!(isqrt(4), 2);
    assert_eq!(isqrt(8), 2);
    assert_eq!(isqrt(9), 3);
    assert_eq!(isqrt(24), 4);
    assert_eq!(isqrt(25), 5);
    assert_eq!(isqrt(250_000), 500);
    assert_eq!(isqrt(250_001), 500);
    assert_eq!(isqrt(249_999), 499);
}

#[test]
fn isqrt_of_large_numbers() {
    assert_eq!(isqrt(u128::MAX), u64::MAX as u128);
    assert_eq!(isqrt(1u128 << 64), 1u128 << 32);
    assert_eq!(isqrt((1u128 << 64) - 1), (1u128 << 32) - 1);
    let root: u128 = 123_456_789_012;
    assert_eq!(isqrt(root * root), root);
    assert_eq!(isqrt(root * root - 1), root - 1);
    assert_eq!(isqrt(root * root + 2 * root), root);
}

#[test]
fn division_rounds_toward_zero() {
    assert_eq!(divide_toward_zero(7, 2), 3);
    assert_eq!(divide_toward_zero(-7, 2), -3);
    assert_eq!(divide_toward_zero(6, 3), 2);
    assert_eq!(divide_toward_zero(-6, 3), -2);
    assert_eq!(divide_toward_zero(0, 5), 0);
    assert_eq!(divide_toward_zero(1, 5), 0);
    assert_eq!(divide_toward_zero(-1, 5), 0);
    assert_eq!(divide_toward_zero(i128::MAX, 1), i128::MAX);
}

#[test]
fn coordinates_clamp() {
    assert_eq!(clamp_to_coordinate(0), 0);
    assert_eq!(clamp_to_coordinate(i32::MAX as i128 + 1), i32::MAX);
    assert_eq!(clamp_to_coordinate(i32::MIN as i128 - 1), i32::MIN);
    assert_eq!(clamp_to_coordinate(-17), -17);
}

#[test]
fn squared_distance() {
    let a = Vector3::new(0, 0, 0);
    let b = Vector3::new(3000, 0, 4000);
    assert_eq!(a.squared_distance_to(b), 25_000_000);
    assert_eq!(b.squared_distance_to(a), 25_000_000);
    assert_eq!(a.squared_distance_to(a), 0);
    let low = Vector3::new(i32::MIN, i32::MIN, i32::MIN);
    let high = Vector3::new(i32::MAX, i32::MAX, i32::MAX);
    let span = u32::MAX as u128;
    assert_eq!(low.squared_distance_to(high), 3 * span * span);
}

#[test]
fn nearness_is_half_a_unit() {
    assert_eq!(ARRIVAL_DISTANCE, 500);
    assert_eq!(UNIT, 1000);
    let origin = Vector3::new(0, 0, 0);
    assert!(origin.near(Vector3::new(0, 0, 400)));
    assert!(origin.near(Vector3::new(0, 0, 500)));
    assert!(!origin.near(Vector3::new(0, 0, 501)));
    assert!(origin.near(Vector3::new(300, 0, 400)));
    assert!(!origin.near(Vector3::new(300, 1, 400)));
    assert!(origin.near(origin));
}

#[test]
fn offsets_add_and_clamp() {
    let point = Vector3::new(1, -2, 3);
    assert_eq!(point.offset_by(Vector3::new(1000, 0, 0)), Vector3::new(1001, -2, 3));
    let edge = Vector3::new(i32::MAX - 5, i32::MIN + 5, 0);
    assert_eq!(
        edge.offset_by(Vector3::new(1000, -1000, 0)),
        Vector3::new(i32::MAX, i32::MIN, 0)
    );
}

#[test]
fn step_toward_walks_the_given_length() {
    let origin = Vector3::new(0, 0, 0);
    let target = Vector3::new(3000, 0, 4000);
    assert_eq!(origin.step_toward(target, 1000), Vector3::new(600, 0, 800));
    assert_eq!(origin.step_toward(target, 5000), target);
    assert_eq!(origin.step_toward(target, 0), origin);
    assert_eq!(target.step_toward(origin, 1000), Vector3::new(2400, 0, 3200));
}

#[test]
fn step_toward_rounds_toward_zero() {
    let origin = Vector3::new(0, 0, 0);
    // Length is the root of 3_000_000, rounded down: 1732.
    let target = Vector3::new(1000, -1000, 1000);
    assert_eq!(origin.step_toward(target, 16), Vector3::new(9, -9, 9));
}

#[test]
fn step_toward_may_overshoot_and_clamps() {
    let origin = Vector3::new(0, 0, 0);
    let target = Vector3::new(1000, 0, 0);
    assert_eq!(origin.step_toward(target, 3000), Vector3::new(3000, 0, 0));
    let far = Vector3::new(i32::MAX - 10, 0, 0);
    assert_eq!(
        far.step_toward(Vector3::new(i32::MAX, 0, 0), u32::MAX),
        Vector3::new(i32::MAX, 0, 0)
    );
}

#[test]
fn step_toward_own_place_stays() {
    let point = Vector3::new(5, 6, 7);
    assert_eq!(point.step_toward(point, 1000), point);
}
