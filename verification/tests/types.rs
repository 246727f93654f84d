use chariot::aabox::AABox;
use chariot::fixed::Fixed;
use chariot::vector3::{Norm, Vector3};

/// The fixed-point number that a conversion from `f64` gives.
fn fx(v: f64) -> Fixed {
    Fixed::new((v * ((1i64 << 24) as f64)) as i64)
}

fn v3(x: f64, y: f64, z: f64) -> Vector3 {
    Vector3::new(fx(x), fx(y), fx(z))
}

fn to_f32(v: Fixed) -> f32 {
    (v.scaled as f32) / ((1i64 << 24) as f32)
}

fn vec3_string(v: &Vector3) -> String {
    format!("({}, {}, {})", to_f32(v.x), to_f32(v.y), to_f32(v.z))
}

#[test]
fn test_contains() {
    let aabox = AABox::new(v3(0.0, 0.0, 0.0), v3(1.0, 2.0, 3.0));

    assert!(aabox.contains(&v3(0.0, 0.0, 0.0)));
    assert!(aabox.contains(&v3(0.5, 1.0, 0.0)));
    assert!(aabox.contains(&v3(0.5, 1.0, 1.0)));
    assert!(aabox.contains(&v3(1.0, 2.0, 3.0)));

    assert!(!aabox.contains(&v3(-0.1, 0.0, 0.0)));
    assert!(!aabox.contains(&v3(0.0, -0.1, 0.0)));
    assert!(!aabox.contains(&v3(0.0, 0.0, -0.1)));
    assert!(!aabox.contains(&v3(1.1, 2.0, 3.0)));
    assert!(!aabox.contains(&v3(1.0, 2.1, 3.0)));
    assert!(!aabox.contains(&v3(1.0, 2.0, 3.1)));
}

#[test]
fn test_intersects_ray() {
    let aabox = AABox::new(v3(0.0, 0.0, 0.0), v3(1.0, 1.0, 1.0));

    let origin = v3(0.5, 1.2, 1.5);
    let end = v3(0.5, -0.2, 0.5);
    let dir = end - origin;
    assert!(aabox.intersects_ray(&origin, &dir));

    let origin = v3(1.5, 1.2, 1.5);
    let end = v3(1.5, -0.2, 0.5);
    let dir = end - origin;
    assert!(!aabox.intersects_ray(&origin, &dir));
}

#[test]
fn box_corners_are_ordered_whatever_their_order() {
    let aabox = AABox::new(v3(1.0, 0.0, 3.0), v3(0.0, 2.0, 0.0));
    assert_eq!(fx(0.0), aabox.min.x);
    assert_eq!(fx(2.0), aabox.max.y);
    assert!(aabox.contains(&v3(1.0, 0.0, 3.0)));
    assert!(aabox.contains(&v3(0.0, 2.0, 0.0)));
}

#[test]
fn ray_from_inside_meets_the_box() {
    let aabox = AABox::new(v3(0.0, 0.0, 0.0), v3(1.0, 1.0, 1.0));
    let origin = v3(0.5, 0.5, 0.5);
    assert_eq!(Some(true), aabox.intersects_ray_checked(&origin, &v3(0.0, 0.0, 1.0)));
}

#[test]
fn test_typical_normalize_use_case() {
    let position: Vector3 = Vector3::new(Fixed::from(100), Fixed::from(100), Fixed::from(1));
    let velocity: Vector3 = Vector3::new(Fixed::from(1), Fixed::from(2), fx(0.5));
    let time: Fixed = fx(0.0166666667);

    let new_position = position + velocity * time;
    let delta = new_position - position;
    let direction = delta.normalized();
    let direction_length = direction.length();

    assert_eq!("(100.01667, 100.03333, 1.0083333)", &vec3_string(&new_position));
    assert_eq!("(0.01666665, 0.0333333, 0.008333325)", &vec3_string(&delta));
    assert_eq!("(0.4364425, 0.87288505, 0.21822125)", &vec3_string(&direction));
    assert_eq!(Some(1), direction_length.to_i32());
}

#[test]
fn vector3_test_bench_wrapper() {}
