use boids::fixed::{isqrt, magnitude, NORMALIZE_LIMIT, ONE, WORLD_LIMIT};
use boids::util::signed_angle;
use boids::vector::Vec2;

#[test]
fn isqrt_rounds_down() {
    assert_eq!(isqrt(0), 0);
    assert_eq!(isqrt(1), 1);
    assert_eq!(isqrt(2), 1);
    assert_eq!(isqrt(3), 1);
    assert_eq!(isqrt(4), 2);
    assert_eq!(isqrt(15), 3);
    assert_eq!(isqrt(16), 4);
    assert_eq!(isqrt(17), 4);
    assert_eq!(isqrt(999_999_999_999), 999_999);
    assert_eq!(isqrt(1_000_000_000_000), 1_000_000);
}

#[test]
fn isqrt_of_the_largest_input() {
    assert_eq!(isqrt(u128::MAX), u64::MAX);
    let root = u64::MAX as u128;
    assert_eq!(isqrt(root * root), u64::MAX);
    assert_eq!(isqrt(root * root - 1), u64::MAX - 1);
}

#[test]
fn magnitude_of_both_signs() {
    assert_eq!(magnitude(0), 0);
    assert_eq!(magnitude(7), 7);
    assert_eq!(magnitude(-7), 7);
    assert_eq!(magnitude(i64::MAX), 9_223_372_036_854_775_807);
    assert_eq!(magnitude(i64::MIN), 9_223_372_036_854_775_808);
}

#[test]
fn normalize_three_four_five() {
    let v = Vec2::new(3 * ONE, 4 * ONE).normalize_or_zero();
    assert_eq!(v, Vec2::new(600_000, 800_000));
}

#[test]
fn normalize_keeps_signs() {
    assert_eq!(Vec2::new(-3, 4).normalize_or_zero(), Vec2::new(-600_000, 800_000));
    assert_eq!(Vec2::new(3, -4).normalize_or_zero(), Vec2::new(600_000, -800_000));
    assert_eq!(Vec2::new(-3, -4).normalize_or_zero(), Vec2::new(-600_000, -800_000));
}

#[test]
fn normalize_rounds_to_the_nearest_unit() {
    // 0.70710678 rounds up, 0.44721360 rounds up, 0.89442719 rounds down.
    assert_eq!(Vec2::new(1, 1).normalize_or_zero(), Vec2::new(707_107, 707_107));
    assert_eq!(Vec2::new(-1, -1).normalize_or_zero(), Vec2::new(-707_107, -707_107));
    assert_eq!(Vec2::new(1, 2).normalize_or_zero(), Vec2::new(447_214, 894_427));
    assert_eq!(Vec2::new(-1, -7).normalize_or_zero(), Vec2::new(-141_421, -989_949));
    assert_eq!(Vec2::new(-9101, 1928).normalize_or_zero(), Vec2::new(-978_289, 207_245));
    assert_eq!(Vec2::new(2, 3).normalize_or_zero(), Vec2::new(554_700, 832_050));
}

#[test]
fn normalize_zero_is_zero() {
    assert_eq!(Vec2::zero().normalize_or_zero(), Vec2::new(0, 0));
}

#[test]
fn normalize_along_an_axis_is_exact() {
    assert_eq!(Vec2::new(5, 0).normalize_or_zero(), Vec2::new(ONE, 0));
    assert_eq!(Vec2::new(0, -123_456_789).normalize_or_zero(), Vec2::new(0, -ONE));
}

#[test]
fn normalize_at_the_limit() {
    let v = Vec2::new(NORMALIZE_LIMIT, -NORMALIZE_LIMIT);
    assert!(v.is_normalizable());
    assert_eq!(v.normalize_or_zero(), Vec2::new(707_107, -707_107));
    assert_eq!(Vec2::new(NORMALIZE_LIMIT, 0).normalize_or_zero(), Vec2::new(ONE, 0));
    assert_eq!(Vec2::new(NORMALIZE_LIMIT, 1).normalize_or_zero(), Vec2::new(ONE, 0));
}

#[test]
fn normalized_length_is_one_up_to_rounding() {
    let inputs = vec![
        Vec2::new(1, 1),
        Vec2::new(-1, -7),
        Vec2::new(2, 3),
        Vec2::new(-17, 4),
        Vec2::new(123_456, -654_321),
        Vec2::new(-NORMALIZE_LIMIT, 77),
        Vec2::new(2, -NORMALIZE_LIMIT),
        Vec2::new(NORMALIZE_LIMIT, NORMALIZE_LIMIT),
    ];
    for v in inputs {
        let u = v.normalize_or_zero();
        let norm = (u.x as i128) * (u.x as i128) + (u.y as i128) * (u.y as i128);
        let one = ONE as i128;
        assert!((one - 1) * (one - 1) <= norm);
        assert!(norm <= (one + 1) * (one + 1));
        let length = (norm as f64).sqrt() / ONE as f64;
        assert!((length - 1.0).abs() <= 1e-6);
        assert!(u.is_direction());
    }
}

#[test]
fn limits_are_told_apart() {
    assert!(Vec2::new(NORMALIZE_LIMIT, -NORMALIZE_LIMIT).is_normalizable());
    assert!(!Vec2::new(NORMALIZE_LIMIT + 1, 0).is_normalizable());
    assert!(!Vec2::new(0, i64::MIN).is_normalizable());
    assert!(Vec2::new(WORLD_LIMIT, -WORLD_LIMIT).is_in_world());
    assert!(!Vec2::new(0, WORLD_LIMIT + 1).is_in_world());
    assert!(!Vec2::new(-WORLD_LIMIT - 1, 0).is_in_world());
}

#[test]
fn directions_are_told_apart() {
    assert!(Vec2::new(0, 0).is_direction());
    assert!(Vec2::new(ONE, 0).is_direction());
    assert!(Vec2::new(600_000, 800_000).is_direction());
    assert!(Vec2::new(707_107, 707_107).is_direction());
    assert!(Vec2::new(ONE + 1, 0).is_direction());
    assert!(Vec2::new(0, -ONE - 1).is_direction());
    assert!(!Vec2::new(ONE + 1, 1).is_direction());
    assert!(!Vec2::new(ONE + 2, 0).is_direction());
    assert!(!Vec2::new(ONE, ONE).is_direction());
    assert!(!Vec2::new(i64::MIN, 0).is_direction());
}

#[test]
fn angle_sign_counter_clockwise_is_positive() {
    assert_eq!(signed_angle(Vec2::new(ONE, 0), Vec2::new(0, ONE)), 1);
    assert_eq!(signed_angle(Vec2::new(0, ONE), Vec2::new(-ONE, 0)), 1);
}

#[test]
fn angle_sign_clockwise_is_negative() {
    assert_eq!(signed_angle(Vec2::new(0, ONE), Vec2::new(ONE, 0)), -1);
    assert_eq!(signed_angle(Vec2::new(ONE, 0), Vec2::new(ONE, -1)), -1);
}

#[test]
fn angle_sign_of_aligned_or_zero_vectors_is_zero() {
    assert_eq!(signed_angle(Vec2::new(0, ONE), Vec2::new(0, 5)), 0);
    assert_eq!(signed_angle(Vec2::new(0, ONE), Vec2::new(0, 0)), 0);
    assert_eq!(signed_angle(Vec2::new(0, 0), Vec2::new(3, 4)), 0);
}

#[test]
fn angle_sign_of_opposite_vectors_is_positive() {
    assert_eq!(signed_angle(Vec2::new(0, ONE), Vec2::new(0, -ONE)), 1);
    assert_eq!(signed_angle(Vec2::new(3, 4), Vec2::new(-6, -8)), 1);
}

#[test]
fn angle_sign_of_extreme_vectors() {
    let low = Vec2::new(i64::MIN, i64::MIN);
    assert_eq!(signed_angle(low, low), 0);
    assert_eq!(signed_angle(low, Vec2::new(i64::MAX, i64::MAX)), 1);
    assert_eq!(signed_angle(Vec2::new(i64::MIN, 0), Vec2::new(0, i64::MIN)), 1);
    assert_eq!(signed_angle(Vec2::new(0, i64::MIN), Vec2::new(i64::MIN, 0)), -1);
}
