use boids::tools::Tools;
use boids::vector::{Point2, Vector2};

/// The fixed-point number that stands for `v`: millionths, rounded toward zero.
fn fx(v: f64) -> i64 {
    (v * 1_000_000.0) as i64
}

fn vector(x: f64, y: f64) -> Vector2 {
    Vector2::new(fx(x), fx(y))
}

fn point(x: f64, y: f64) -> Point2 {
    Point2::new(fx(x), fx(y))
}

#[test]
fn test_normalization() {
    let mut vector1: Vector2 = vector(10.0, 0.0);
    let vector_norm: Vector2 = vector(1.0, 0.0);
    Tools::normalize_vector(&mut vector1);

    assert_eq!(vector1, vector_norm);

    let mut vector2: Vector2 = vector(10.0, 10.0);
    let vector_norm: Vector2 = vector(0.7071067811865475, 0.7071067811865475);
    Tools::normalize_vector(&mut vector2);

    assert_eq!(vector2, vector_norm);
}

#[test]
fn test_get_vec_from_to() {
    let point1: Point2 = point(2.0, 4.0);
    let point2: Point2 = point(1.0, 2.0);
    let vector1_2: Vector2 = Tools::get_vec_from_to(point1, point2);
    let vector1_2_wanted: Vector2 = vector(1.0, 2.0);

    assert_eq!(vector1_2, vector1_2_wanted);

    let vector2_1: Vector2 = Tools::get_vec_from_to(point2, point1);
    let vector2_1_wanted: Vector2 = vector(-1.0, -2.0);

    assert_eq!(vector2_1, vector2_1_wanted);
}

#[test]
fn test_limit_vector() {
    let mut v: Vector2 = vector(10.0, 0.0);
    Tools::limit_vector(&mut v, fx(10.0));
    let limited_vector_wanted: Vector2 = vector(10.0, 0.0);

    assert_eq!(v, limited_vector_wanted);

    let mut v: Vector2 = vector(10.0, 0.0);
    Tools::limit_vector(&mut v, fx(5.0));
    let limited_vector_wanted: Vector2 = vector(5.0, 0.0);

    assert_eq!(v, limited_vector_wanted);

    let mut v: Vector2 = vector(5.0, 5.0);
    Tools::limit_vector(&mut v, fx(5.0));
    let limited_vector_wanted: Vector2 = vector(3.5355339059327375, 3.5355339059327375);

    assert_eq!(v, limited_vector_wanted);
}

#[test]
fn test_vector_length() {
    let v: Vector2 = vector(10.0, 0.0);
    let len: u64 = Tools::vector_length(&v);

    assert_eq!(len, fx(10.0) as u64);

    let v: Vector2 = vector(10.0, 10.0);
    let len: u64 = Tools::vector_length(&v);

    assert_eq!(len, fx(14.142135623730951) as u64);

    let v: Vector2 = vector(-5.0, 5.0);
    let len: u64 = Tools::vector_length(&v);

    assert_eq!(len, fx(7.0710678118654755) as u64);
}
