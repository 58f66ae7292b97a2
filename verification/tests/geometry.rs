//! Vector algebra, rays and the reflection/refraction primitives.

use ray_tracer::fixed::FX_ONE;
use ray_tracer::material::{reflect, refract};
use ray_tracer::types::{
    near_zero, random_unit_vector_on_hemisphere, random_unit_vector_on_sphere,
    random_vector_in_cube, random_vector_in_sphere, Ray, Vector3,
};

fn v(x: i64, y: i64, z: i64) -> Vector3 {
    Vector3 { x, y, z }
}

#[test]
fn vector_componentwise_ops() {
    let a = v(FX_ONE, 2 * FX_ONE, -FX_ONE);
    let b = v(FX_ONE, -FX_ONE, 3 * FX_ONE);
    assert_eq!(a.add(&b), v(2 * FX_ONE, FX_ONE, 2 * FX_ONE));
    assert_eq!(a.sub(&b), v(0, 3 * FX_ONE, -4 * FX_ONE));
    assert_eq!(a.neg(), v(-FX_ONE, -2 * FX_ONE, FX_ONE));
    assert_eq!(a.scale(2 * FX_ONE), v(2 * FX_ONE, 4 * FX_ONE, -2 * FX_ONE));
}

#[test]
fn dot_and_cross_products() {
    let a = v(FX_ONE, 0, 0);
    let b = v(0, FX_ONE, 0);
    assert_eq!(a.dot(&b), 0);
    assert_eq!(a.dot(&a), FX_ONE);
    assert_eq!(a.cross(&b), v(0, 0, FX_ONE));
    let c = v(2 * FX_ONE, 3 * FX_ONE, 4 * FX_ONE);
    let d = v(5 * FX_ONE, 6 * FX_ONE, 7 * FX_ONE);
    // (3*7-4*6, 4*5-2*7, 2*6-3*5) = (-3, 6, -3)
    assert_eq!(c.cross(&d), v(-3 * FX_ONE, 6 * FX_ONE, -3 * FX_ONE));
}

#[test]
fn length_of_three_four_five_triangle() {
    let a = v(3 * FX_ONE, 4 * FX_ONE, 0);
    assert_eq!(a.length_squared(), 25 * FX_ONE);
    assert_eq!(a.length(), 5 * FX_ONE);
}

#[test]
fn normalize_axis_is_exact() {
    let a = v(0, 0, -10 * FX_ONE);
    assert_eq!(a.normalize(), v(0, 0, -FX_ONE));
}

#[test]
fn normalize_three_four_truncates_toward_zero() {
    let a = v(3 * FX_ONE, 4 * FX_ONE, 0);
    assert_eq!(a.normalize(), v(39321, 52428, 0));
}

#[test]
fn near_zero_threshold() {
    assert!(near_zero(&v(0, 0, 0)));
    assert!(near_zero(&v(999, -999, 500)));
    assert!(!near_zero(&v(1000, 0, 0)));
    assert!(!near_zero(&v(0, 0, -1000)));
}

#[test]
fn ray_normalizes_direction_and_evaluates_points() {
    let ray = Ray::new(v(0, 0, 0), v(0, 0, -10 * FX_ONE));
    assert_eq!(ray.direction, v(0, 0, -FX_ONE));
    assert_eq!(ray.at(FX_ONE / 2), v(0, 0, -FX_ONE / 2));
    assert_eq!(ray.at(3 * FX_ONE), v(0, 0, -3 * FX_ONE));
}

#[test]
fn reflect_about_axis_normal() {
    let incoming = v(FX_ONE, -FX_ONE, 0);
    let normal = v(0, FX_ONE, 0);
    assert_eq!(reflect(&incoming, &normal), v(FX_ONE, FX_ONE, 0));
}

#[test]
fn reflect_twice_returns_original() {
    // Reflecting twice about the same (axis-aligned, exactly unit) normal
    // recovers the original vector exactly.
    let normal = v(0, FX_ONE, 0);
    for incoming in [
        v(FX_ONE, -FX_ONE, 0),
        v(12345, -54321, 999),
        v(-3 * FX_ONE, 7 * FX_ONE, -FX_ONE / 4),
    ] {
        let once = reflect(&incoming, &normal);
        let twice = reflect(&once, &normal);
        assert_eq!(twice, incoming);
    }
}

#[test]
fn refract_straight_through_is_unchanged_direction() {
    // Normal incidence with ratio one: the refracted ray keeps going down.
    let incoming = v(0, -FX_ONE, 0);
    let normal = v(0, FX_ONE, 0);
    let out = refract(&incoming, &normal, FX_ONE);
    assert_eq!(out, v(0, -FX_ONE, 0));
}

#[test]
fn random_vectors_stay_in_their_volumes() {
    for _ in 0..200 {
        let c = random_vector_in_cube();
        assert!(c.x.abs() <= FX_ONE && c.y.abs() <= FX_ONE && c.z.abs() <= FX_ONE);

        let s = random_vector_in_sphere();
        let l2 = s.length_squared();
        assert!(12 <= l2 && l2 <= FX_ONE);

        let u = random_unit_vector_on_sphere();
        assert!(u.x.abs() <= 2 * FX_ONE && u.y.abs() <= 2 * FX_ONE && u.z.abs() <= 2 * FX_ONE);
        // Near unit length: at least half, at most twice.
        let ul2 = u.length_squared();
        assert!(ul2 >= FX_ONE / 4 && ul2 < 2 * FX_ONE);
    }
}

#[test]
fn hemisphere_vectors_agree_with_normal() {
    let normal = v(0, FX_ONE, 0);
    for _ in 0..100 {
        let u = random_unit_vector_on_hemisphere(&normal);
        assert!(u.dot(&normal) >= 0);
        assert!(u.length_squared() >= FX_ONE / 4);
    }
}
