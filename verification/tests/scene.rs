//! Sphere intersection, scene aggregation and material scattering.

use ray_tracer::fixed::FX_ONE;
use ray_tracer::material::{Dielectric, Lambertian, Material, Metal};
use ray_tracer::object::{Hit, Hittable};
use ray_tracer::sphere::Sphere;
use ray_tracer::types::{Ray, Vector3, T_FAR};
use ray_tracer::types::color::Color;

fn v(x: i64, y: i64, z: i64) -> Vector3 {
    Vector3 { x, y, z }
}

fn grey() -> Material {
    Material::Lambertian(Lambertian::new(Color::new(FX_ONE / 2, FX_ONE / 2, FX_ONE / 2)))
}

#[test]
fn axial_sphere_hit_is_exact() {
    // A sphere of radius one half, one unit in front of the origin: the
    // axial ray meets it at t = 1/2, with outward normal +z.
    let sphere = Sphere::new(v(0, 0, -FX_ONE), FX_ONE / 2, grey());
    let ray = Ray::new(v(0, 0, 0), v(0, 0, -FX_ONE));
    let hit = sphere.hit(&ray, 0, T_FAR).expect("must hit");
    assert_eq!(hit.t, FX_ONE / 2);
    assert_eq!(hit.point, v(0, 0, -FX_ONE / 2));
    assert_eq!(hit.normal, v(0, 0, FX_ONE));
    assert!(hit.front_face);
}

#[test]
fn hit_point_lies_on_sphere_and_normal_points_outward() {
    let center = v(0, 0, -FX_ONE);
    let radius = FX_ONE / 2;
    let sphere = Sphere::new(center, radius, grey());
    let ray = Ray::new(v(0, 0, 0), v(0, 0, -FX_ONE));
    let hit = sphere.hit(&ray, 0, T_FAR).expect("must hit");
    let rel = hit.point.sub(&center);
    // |point - center|^2 equals radius^2 (exactly, on this axial ray).
    assert_eq!(rel.length_squared(), radius * radius / FX_ONE);
    // The outward direction agrees with centre-to-point.
    assert!(rel.normalize().dot(&rel) > 0);
}

#[test]
fn ray_from_inside_hits_far_root_as_back_face() {
    // From the centre of the sphere, the smaller root is behind t_min, so
    // the larger root is taken and the stored normal faces the ray.
    let sphere = Sphere::new(v(0, 0, -FX_ONE), FX_ONE / 2, grey());
    let ray = Ray::new(v(0, 0, -FX_ONE), v(0, 0, -FX_ONE));
    let hit = sphere.hit(&ray, 0, T_FAR).expect("must hit");
    assert_eq!(hit.t, FX_ONE / 2);
    assert!(!hit.front_face);
    assert_eq!(hit.normal, v(0, 0, FX_ONE));
}

#[test]
fn degenerate_sphere_never_hits() {
    let sphere = Sphere::new(v(0, 0, -FX_ONE), 0, grey());
    let ray = Ray::new(v(0, 0, 0), v(0, 0, -FX_ONE));
    assert!(sphere.hit(&ray, 0, T_FAR).is_none());
    let negative = Sphere::new(v(0, 0, -FX_ONE), -FX_ONE, grey());
    assert!(negative.hit(&ray, 0, T_FAR).is_none());
}

#[test]
fn interval_excludes_near_and_far_hits() {
    let sphere = Sphere::new(v(0, 0, -2 * FX_ONE), FX_ONE / 2, grey());
    let ray = Ray::new(v(0, 0, 0), v(0, 0, -FX_ONE));
    // The near intersection is at t = 3/2.
    assert!(sphere.hit(&ray, 0, FX_ONE).is_none());
    let hit = sphere.hit(&ray, 0, 2 * FX_ONE).expect("must hit");
    assert_eq!(hit.t, 3 * FX_ONE / 2);
    // With t_min past both roots there is no hit.
    assert!(sphere.hit(&ray, 3 * FX_ONE, T_FAR).is_none());
}

#[test]
fn scene_returns_nearest_hit_regardless_of_order() {
    let near = Sphere::new(v(0, 0, -2 * FX_ONE), FX_ONE / 2, grey());
    let far = Sphere::new(v(0, 0, -5 * FX_ONE), FX_ONE / 2, grey());
    let ray = Ray::new(v(0, 0, 0), v(0, 0, -FX_ONE));

    let world_a: Vec<Sphere> = vec![near, far];
    let world_b: Vec<Sphere> = vec![far, near];
    let ha = world_a.hit(&ray, 0, T_FAR).expect("must hit");
    let hb = world_b.hit(&ray, 0, T_FAR).expect("must hit");
    assert_eq!(ha.t, 3 * FX_ONE / 2);
    assert_eq!(hb.t, 3 * FX_ONE / 2);

    // The aggregate equals the minimum-by-t over the individual hits.
    let tn = near.hit(&ray, 0, T_FAR).expect("near hits").t;
    let tf = far.hit(&ray, 0, T_FAR).expect("far hits").t;
    assert_eq!(ha.t, tn.min(tf));
}

#[test]
fn empty_scene_misses() {
    let world: Vec<Sphere> = Vec::new();
    let ray = Ray::new(v(0, 0, 0), v(0, 0, -FX_ONE));
    assert!(world.hit(&ray, 0, T_FAR).is_none());
}

#[test]
fn front_face_matches_direction_against_outward_normal() {
    let ray_down = Ray::new(v(0, 0, 0), v(0, -FX_ONE, 0));
    let outward = v(0, FX_ONE, 0);
    let hit = Hit::new(FX_ONE, v(0, -FX_ONE, 0), &ray_down, outward, grey());
    assert!(hit.front_face);
    assert_eq!(hit.normal, outward);
    assert!(ray_down.direction.dot(&hit.normal) <= 0);

    let ray_up = Ray::new(v(0, 0, 0), v(0, FX_ONE, 0));
    let hit2 = Hit::new(FX_ONE, v(0, FX_ONE, 0), &ray_up, outward, grey());
    assert!(!hit2.front_face);
    assert_eq!(hit2.normal, v(0, -FX_ONE, 0));
    assert!(ray_up.direction.dot(&hit2.normal) <= 0);
}

#[test]
fn lambertian_always_scatters_with_albedo_attenuation() {
    let albedo = Color::new(FX_ONE / 4, FX_ONE / 2, FX_ONE);
    let material = Lambertian::new(albedo);
    let ray = Ray::new(v(0, 0, 0), v(0, 0, -FX_ONE));
    let sphere = Sphere::new(v(0, 0, -FX_ONE), FX_ONE / 2, Material::Lambertian(material));
    let hit = sphere.hit(&ray, 0, T_FAR).expect("must hit");
    for _ in 0..50 {
        let (scattered, attenuation) = material.scatter(&ray, &hit).expect("always scatters");
        assert_eq!(attenuation, albedo);
        assert_eq!(scattered.origin, hit.point);
    }
}

#[test]
fn metal_reflects_when_pointing_away_and_absorbs_otherwise() {
    let albedo = Color::new(FX_ONE, FX_ONE, FX_ONE);
    let material = Metal::new(albedo, 0);

    // A head-on hit: the reflection points back along the normal.
    let ray = Ray::new(v(0, 0, 0), v(0, 0, -FX_ONE));
    let sphere = Sphere::new(v(0, 0, -FX_ONE), FX_ONE / 2, Material::Metal(material));
    let hit = sphere.hit(&ray, 0, T_FAR).expect("must hit");
    let (scattered, attenuation) = material.scatter(&ray, &hit).expect("reflects");
    assert_eq!(attenuation, albedo);
    assert_eq!(scattered.direction, v(0, 0, FX_ONE));

    // A hit record whose normal points along the ray: the reflection points
    // into the surface and the sample is absorbed.
    let grazing = Hit {
        t: FX_ONE,
        point: v(0, 0, -FX_ONE),
        normal: v(0, 0, -FX_ONE),
        front_face: true,
        material: Material::Metal(material),
    };
    assert!(material.scatter(&ray, &grazing).is_none());
}

#[test]
fn metal_fuzz_is_clamped_on_construction() {
    let albedo = Color::new(FX_ONE, FX_ONE, FX_ONE);
    assert_eq!(Metal::new(albedo, 3 * FX_ONE).fuzz, FX_ONE);
    assert_eq!(Metal::new(albedo, -FX_ONE).fuzz, 0);
    assert_eq!(Metal::new(albedo, FX_ONE / 4).fuzz, FX_ONE / 4);
}

#[test]
fn dielectric_refracts_head_on_and_reflects_past_critical_angle() {
    let material = Dielectric::new(98304);  // index 1.5

    // Head-on from outside: passes straight through, attenuated white.
    let ray = Ray::new(v(0, 0, 0), v(0, 0, -FX_ONE));
    let sphere = Sphere::new(v(0, 0, -FX_ONE), FX_ONE / 2, Material::Dielectric(material));
    let hit = sphere.hit(&ray, 0, T_FAR).expect("must hit");
    let (scattered, attenuation) = material.scatter(&ray, &hit).expect("always scatters");
    assert_eq!(attenuation, Color::white());
    assert_eq!(scattered.direction, v(0, 0, -FX_ONE));

    // A grazing ray inside the dense medium: total internal reflection
    // sends it back up off the boundary.
    let grazing_ray = Ray::new(v(0, 0, 0), v(FX_ONE, -1000, 0));
    let boundary = Hit {
        t: FX_ONE,
        point: v(FX_ONE, 0, 0),
        normal: v(0, FX_ONE, 0),
        front_face: false,
        material: Material::Dielectric(material),
    };
    let (reflected, white) = material.scatter(&grazing_ray, &boundary).expect("scatters");
    assert_eq!(white, Color::white());
    assert!(reflected.direction.y > 0);
}
