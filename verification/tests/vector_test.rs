use boids::fixed::{div_fixed, divide_toward_zero, isqrt, magnitude, mul_fixed, rescale, SCALE};
use boids::tools::{norm_sq, Tools};
use boids::vector::{Point2, Vector2};

const UNIT: i64 = 1_000_000;

#[test]
fn scale_is_one_million() {
    assert_eq!(SCALE, 1_000_000);
}

#[test]
fn isqrt_rounds_down() {
    assert_eq!(isqrt(0), 0);
    assert_eq!(isqrt(1), 1);
    assert_eq!(isqrt(2), 1);
    assert_eq!(isqrt(3), 1);
    assert_eq!(isqrt(4), 2);
    assert_eq!(isqrt(99), 9);
    assert_eq!(isqrt(100), 10);
    assert_eq!(isqrt(200_000_000_000_000), 14_142_135);
}

#[test]
fn isqrt_of_the_largest_number() {
    assert_eq!(isqrt(u128::MAX), u64::MAX);
    let below: u128 = (u64::MAX as u128) * (u64::MAX as u128) - 1;
    assert_eq!(isqrt(below), u64::MAX - 1);
}

#[test]
fn isqrt_brackets_its_argument() {
    let mut n: u128 = 0;
    while n < 5000 {
        let r: u128 = isqrt(n) as u128;
        assert!(r * r <= n);
        assert!(n < (r + 1) * (r + 1));
        n += 1;
    }
}

#[test]
fn magnitude_of_both_signs() {
    assert_eq!(magnitude(0), 0);
    assert_eq!(magnitude(17), 17);
    assert_eq!(magnitude(-17), 17);
    assert_eq!(magnitude(i64::MIN), 9_223_372_036_854_775_808);
    assert_eq!(magnitude(i64::MAX), 9_223_372_036_854_775_807);
}

#[test]
fn fixed_product_rounds_toward_zero() {
    assert_eq!(mul_fixed(3 * UNIT, 2 * UNIT), 6 * UNIT);
    assert_eq!(mul_fixed(160_000, 1_600_000), 256_000);
    assert_eq!(mul_fixed(1, 999_999), 0);
    assert_eq!(mul_fixed(-1, 999_999), 0);
    assert_eq!(mul_fixed(-3, 500_000), -1);
    assert_eq!(mul_fixed(3, -500_000), -1);
    assert_eq!(mul_fixed(-3, -500_000), 1);
    assert_eq!(mul_fixed(0, -500_000), 0);
}

#[test]
fn fixed_quotient_rounds_toward_zero() {
    assert_eq!(div_fixed(UNIT, 10 * UNIT), 100_000);
    assert_eq!(div_fixed(-UNIT, 10 * UNIT), -100_000);
    assert_eq!(div_fixed(UNIT, 3 * UNIT), 333_333);
    assert_eq!(div_fixed(-UNIT, 3 * UNIT), -333_333);
    assert_eq!(div_fixed(UNIT, 1), 1_000_000_000_000);
    assert_eq!(div_fixed(0, 7), 0);
}

#[test]
fn whole_quotient_rounds_toward_zero() {
    assert_eq!(divide_toward_zero(7, 2), 3);
    assert_eq!(divide_toward_zero(-7, 2), -3);
    assert_eq!(divide_toward_zero(0, 5), 0);
    assert_eq!(divide_toward_zero(-6, 3), -2);
}

#[test]
fn rescale_keeps_the_sign_of_the_coordinate() {
    assert_eq!(rescale(3 * UNIT, 4 * UNIT, 10 * UNIT), 6 * UNIT);
    assert_eq!(rescale(-3 * UNIT, 4 * UNIT, 10 * UNIT), -6 * UNIT);
    assert_eq!(rescale(4 * UNIT, -3 * UNIT, 10 * UNIT), 8 * UNIT);
    assert_eq!(rescale(0, -3 * UNIT, 10 * UNIT), 0);
    assert_eq!(rescale(3 * UNIT, 4 * UNIT, -10 * UNIT), -6 * UNIT);
    assert_eq!(rescale(5 * UNIT, 5 * UNIT, 5 * UNIT), 3_535_533);
}

#[test]
fn norm_sq_of_a_vector() {
    assert_eq!(norm_sq(3, 4), 25);
    assert_eq!(norm_sq(-3, 4), 25);
    assert_eq!(norm_sq(0, 0), 0);
    assert_eq!(norm_sq(i64::MIN, i64::MIN), 1u128 << 127);
}

#[test]
fn normalize_a_three_four_five_vector() {
    let mut v: Vector2 = Vector2::new(3 * UNIT, 4 * UNIT);
    Tools::normalize_vector(&mut v);
    assert_eq!(v, Vector2::new(600_000, 800_000));
}

#[test]
fn normalize_gives_length_one_within_a_step() {
    let inputs: Vec<(i64, i64)> = vec![
        (1, 1),
        (-7, 3),
        (1, 0),
        (0, -1),
        (123_456_789, -987_654_321),
        (2_199_023_255_552, 1),
        (-2_199_023_255_552, -2_199_023_255_552),
        (5, 1_000_000_000_000),
    ];
    for (x, y) in inputs {
        let mut v: Vector2 = Vector2::new(x, y);
        Tools::normalize_vector(&mut v);
        let a: i128 = v.x.abs() as i128;
        let b: i128 = v.y.abs() as i128;
        let one: i128 = (UNIT as i128) * (UNIT as i128);
        assert!(a * a + b * b <= one);
        assert!((a + 1) * (a + 1) + (b + 1) * (b + 1) > one);
        assert!(v.x == 0 || (v.x > 0) == (x > 0));
        assert!(v.y == 0 || (v.y > 0) == (y > 0));
        let length: f64 = ((a * a + b * b) as f64).sqrt() / 1_000_000.0;
        assert!((length - 1.0).abs() < 1e-5);
    }
}

#[test]
fn normalize_tiny_vectors() {
    let mut v: Vector2 = Vector2::new(1, 1);
    Tools::normalize_vector(&mut v);
    assert_eq!(v, Vector2::new(707_106, 707_106));
    let mut w: Vector2 = Vector2::new(-7, 3);
    Tools::normalize_vector(&mut w);
    assert_eq!(w, Vector2::new(-919_145, 393_919));
}

#[test]
fn limit_shortens_a_long_vector() {
    let mut v: Vector2 = Vector2::new(3 * UNIT, 4 * UNIT);
    Tools::limit_vector(&mut v, 2 * UNIT);
    assert_eq!(v, Vector2::new(1_200_000, 1_600_000));
}

#[test]
fn limit_leaves_a_short_vector() {
    let mut v: Vector2 = Vector2::new(3 * UNIT, 4 * UNIT);
    Tools::limit_vector(&mut v, 5 * UNIT);
    assert_eq!(v, Vector2::new(3 * UNIT, 4 * UNIT));
    let mut w: Vector2 = Vector2::new(-1, 2);
    Tools::limit_vector(&mut w, 7 * UNIT);
    assert_eq!(w, Vector2::new(-1, 2));
    let mut zero: Vector2 = Vector2::zero();
    Tools::limit_vector(&mut zero, 0);
    assert_eq!(zero, Vector2::new(0, 0));
}

#[test]
fn limit_to_zero_gives_zero() {
    let mut v: Vector2 = Vector2::new(3 * UNIT, -4 * UNIT);
    Tools::limit_vector(&mut v, 0);
    assert_eq!(v, Vector2::new(0, 0));
}

#[test]
fn limit_never_exceeds_the_limit() {
    let inputs: Vec<(i64, i64, i64)> = vec![
        (5 * UNIT, 5 * UNIT, 5 * UNIT),
        (-13_645_000_000, 7, 3_500_000),
        (134_217_728, -134_217_727, 160_000),
        (1, 1, 1),
        (3, 4, 4),
        (-9_000_000_000, -9_000_000_000, 67_108_864),
    ];
    for (x, y, max) in inputs {
        let mut v: Vector2 = Vector2::new(x, y);
        Tools::limit_vector(&mut v, max);
        let n: u128 = norm_sq(v.x, v.y);
        assert!(n <= (max as u128) * (max as u128));
        assert!(Tools::vector_length(&v) <= max as u64);
    }
}

#[test]
fn length_rounds_down() {
    assert_eq!(Tools::vector_length(&Vector2::new(3, 4)), 5);
    assert_eq!(Tools::vector_length(&Vector2::new(1, 1)), 1);
    assert_eq!(Tools::vector_length(&Vector2::new(0, 0)), 0);
    assert_eq!(Tools::vector_length(&Vector2::new(-2, 2)), 2);
    assert_eq!(Tools::vector_length(&Vector2::new(i64::MIN, i64::MIN)), 13_043_817_825_332_782_212);
}

#[test]
fn distance_is_symmetric() {
    let a: Point2 = Point2::new(3 * UNIT, -4 * UNIT);
    let b: Point2 = Point2::new(-9 * UNIT, 12 * UNIT);
    assert_eq!(Tools::distance(&a, &b), 20 * UNIT as u64);
    assert_eq!(Tools::distance(&b, &a), 20 * UNIT as u64);
    let c: Point2 = Point2::new(17, 1_000_003);
    assert_eq!(Tools::distance(&a, &c), Tools::distance(&c, &a));
    assert_eq!(Tools::distance(&c, &c), 0);
}

#[test]
fn vector_sums_and_differences() {
    let a: Vector2 = Vector2::new(1, -2);
    let b: Vector2 = Vector2::new(10, 20);
    assert_eq!(a.plus(b), Vector2::new(11, 18));
    assert_eq!(a.minus(b), Vector2::new(-9, -22));
    assert!(Vector2::zero().is_zero());
    assert!(!a.is_zero());
    assert!(!Vector2::new(0, 1).is_zero());
}

#[test]
fn vector_times_and_over() {
    let v: Vector2 = Vector2::new(160_000, -160_000);
    assert_eq!(v.times(2_500_000), Vector2::new(400_000, -400_000));
    assert_eq!(v.over(2 * UNIT), Vector2::new(80_000, -80_000));
    assert_eq!(Vector2::new(UNIT, 0).over(10 * UNIT), Vector2::new(100_000, 0));
}
