//! Colour transforms, camera derivation and end-to-end renders.

use ray_tracer::camera::Camera;
use ray_tracer::fixed::FX_ONE;
use ray_tracer::material::{Lambertian, Material, Metal};
use ray_tracer::object::Hittable;
use ray_tracer::render::{Fading, Renderer};
use ray_tracer::sphere::Sphere;
use ray_tracer::types::color::Color;
use ray_tracer::types::{Ray, Vector3, T_FAR};
use ray_tracer::utils::{Logger, Timer};

fn v(x: i64, y: i64, z: i64) -> Vector3 {
    Vector3 { x, y, z }
}

fn grey() -> Material {
    Material::Lambertian(Lambertian::new(Color::new(FX_ONE / 2, FX_ONE / 2, FX_ONE / 2)))
}

#[test]
fn clamp_is_idempotent_and_saturating() {
    let c = Color::new(-FX_ONE, FX_ONE / 2, 3 * FX_ONE);
    let once = c.clamp();
    assert_eq!(once, Color::new(0, FX_ONE / 2, FX_ONE));
    assert_eq!(once.clamp(), once);
}

#[test]
fn gamma_of_quarter_is_half_exactly() {
    let c = Color::new(FX_ONE / 4, FX_ONE, 0);
    assert_eq!(c.to_gamma_2_color(), Color::new(FX_ONE / 2, FX_ONE, 0));
}

#[test]
fn gamma_then_square_recovers_channel_within_tolerance() {
    for raw in [0i64, 1, 3, 1000, 16384, 30000, 65535, 65536] {
        let g = Color::new(raw, 0, 0).to_gamma_2_color();
        let back = g.mul(&g);
        let b = back.to_vec().x;
        assert!(b <= raw, "gamma square overshot: {raw} -> {b}");
        assert!(raw - b <= 3, "gamma square too far: {raw} -> {b}");
    }
}

#[test]
fn gamma_round_trip_holds_beyond_the_unit_interval() {
    // For any non-negative channel the recovery error is within
    // 2 * sqrt(channel) / 65536 + 1 raw units.
    for raw in [2 * FX_ONE, 3 * FX_ONE, 100 * FX_ONE, 12345678] {
        let g = Color::new(raw, 0, 0).to_gamma_2_color();
        let back = g.mul(&g).to_vec().x;
        let bound = 2 * g.to_vec().x / 65536 + 1;
        assert!(back <= raw);
        assert!(raw - back <= bound, "{raw} -> {back}, bound {bound}");
    }
}

#[test]
fn gamma_maps_negative_channels_to_zero() {
    let c = Color::new(-FX_ONE, -1, 0);
    assert_eq!(c.to_gamma_2_color(), Color::new(0, 0, 0));
}

#[test]
fn byte_conversion_saturates() {
    assert_eq!(Color::new(FX_ONE, FX_ONE / 2, 0).to_byte(), [255, 128, 0]);
    assert_eq!(Color::new(10 * FX_ONE, -FX_ONE, 65535).to_byte(), [255, 0, 255]);
}

#[test]
fn gradient_endpoints_and_midpoint() {
    // Straight down (-1): pure white.
    assert_eq!(Color::gradient_white_to_blue(-FX_ONE), Color::white());
    // Straight up (+1): pure sky blue.
    assert_eq!(
        Color::gradient_white_to_blue(FX_ONE),
        Color::new(FX_ONE / 2, 45875, FX_ONE)
    );
    // Level (0): the midpoint blend.
    assert_eq!(
        Color::gradient_white_to_blue(0),
        Color::new(49152, 55705, FX_ONE)
    );
}

#[test]
fn camera_default_basis_and_viewport() {
    // 90 degree field of view, focus distance 10, looking down -z.
    let camera = Camera::default().with_viewport_size(2, 1);
    assert_eq!(camera.basis.w, v(0, 0, FX_ONE));
    assert_eq!(camera.basis.u, v(FX_ONE, 0, 0));
    assert_eq!(camera.basis.v, v(0, FX_ONE, 0));
    // tan(45 degrees) is exactly one in this arithmetic: height 20, width 40.
    assert_eq!(camera.viewport.height, 20 * FX_ONE);
    assert_eq!(camera.viewport.width, 40 * FX_ONE);
    assert_eq!(camera.pixel.delta_u, v(20 * FX_ONE, 0, 0));
    assert_eq!(camera.pixel.delta_v, v(0, -20 * FX_ONE, 0));
}

#[test]
fn camera_origin_is_lookfrom_without_defocus() {
    let camera = Camera::default().with_viewport_size(4, 2);
    assert_eq!(camera.origin(), camera.lookfrom());
}

#[test]
fn center_ray_hits_axial_sphere_at_half() {
    // A single sphere of radius 1/2 centred one unit down -z, camera at the
    // origin with a 90 degree field of view over a 2x1 viewport: the ray
    // through the image centre reports t = 1/2 and normal +z.
    let camera = Camera::default().with_viewport_size(2, 1);
    let origin = camera.origin();
    let center = camera.pixel_center(1, 0, Some(v(-FX_ONE / 2, 0, 0)));
    assert_eq!(center, v(0, 0, -10 * FX_ONE));
    let ray = Ray::new(origin, center.sub(&origin));
    assert_eq!(ray.direction, v(0, 0, -FX_ONE));

    let sphere = Sphere::new(v(0, 0, -FX_ONE), FX_ONE / 2, grey());
    let hit = sphere.hit(&ray, 0, T_FAR).expect("must hit");
    assert_eq!(hit.t, FX_ONE / 2);
    assert_eq!(hit.normal, v(0, 0, FX_ONE));
}

fn plain_camera() -> Camera {
    Camera::default()
        .with_defocus_angle(0)
        .with_viewport_size(4, 2)
}

#[test]
fn empty_scene_renders_background_gradient() {
    let world: Vec<Sphere> = Vec::new();
    let mut renderer = Renderer::new(4, 2)
        .with_camera(plain_camera())
        .with_samples_per_pixel(1)
        .with_max_depth(10);
    renderer.render(&world, Fading::<2>::Const(FX_ONE));

    assert_eq!(renderer.frame.len(), 8);
    for j in 0..2usize {
        for i in 0..4usize {
            let ray = renderer.get_ray(i, j);
            let expected = Color::gradient_white_to_blue(ray.direction.y)
                .to_gamma_2_color()
                .clamp();
            assert_eq!(renderer.frame[j * 4 + i], expected);
        }
    }
}

#[test]
fn depth_zero_renders_hit_pixels_black() {
    // A single diffuse sphere lit only by the sky, one sample per pixel and
    // no bounces allowed: every pixel whose ray hits the sphere is black.
    let world: Vec<Sphere> = vec![Sphere::new(v(0, 0, -50 * FX_ONE), 40 * FX_ONE, grey())];
    let mut renderer = Renderer::new(4, 4)
        .with_camera(plain_camera())
        .with_samples_per_pixel(1)
        .with_max_depth(0);
    renderer.render(&world, Fading::<2>::Const(FX_ONE));

    let mut hits = 0;
    for j in 0..4usize {
        for i in 0..4usize {
            let ray = renderer.get_ray(i, j);
            if world.hit(&ray, 66, T_FAR).is_some() {
                hits += 1;
                assert_eq!(renderer.frame[j * 4 + i], Color::black());
            }
        }
    }
    assert!(hits > 0, "the sphere must cover at least one pixel");
}

#[test]
fn trace_never_exceeds_depth_bound() {
    // Two mirrors facing each other: the ray would bounce forever, but the
    // depth bound cuts it off after at most max_depth + 1 scatter steps.
    let mirror = Material::Metal(Metal::new(Color::new(FX_ONE, FX_ONE, FX_ONE), 0));
    let world: Vec<Sphere> = vec![
        Sphere::new(v(0, 0, -4 * FX_ONE), FX_ONE, mirror),
        Sphere::new(v(0, 0, 4 * FX_ONE), FX_ONE, mirror),
    ];
    let renderer = Renderer::new(4, 2)
        .with_camera(plain_camera())
        .with_samples_per_pixel(1)
        .with_max_depth(3);
    let ray = Ray::new(v(0, 0, 0), v(0, 0, -FX_ONE));
    for _ in 0..20 {
        let (color, bounces) = renderer.ray_color_diffuse_random(ray, &world, FX_ONE);
        assert!(bounces <= 4);
        if bounces == 4 {
            assert_eq!(color, Color::black());
        }
        let c = color.to_vec();
        assert!(c.x.abs() <= 4 * FX_ONE && c.y.abs() <= 4 * FX_ONE && c.z.abs() <= 4 * FX_ONE);
    }
}

#[test]
fn trace_of_empty_scene_is_sky_with_no_bounces() {
    let world: Vec<Sphere> = Vec::new();
    let renderer = Renderer::new(4, 2).with_camera(plain_camera());
    let ray = Ray::new(v(0, 0, 0), v(0, FX_ONE, FX_ONE));
    let (color, bounces) = renderer.ray_color_diffuse_random(ray, &world, 64225);
    assert_eq!(bounces, 0);
    assert_eq!(
        color,
        Color::gradient_white_to_blue(ray.direction.y)
    );
}

#[test]
fn render_fills_frame_with_unit_colors() {
    let world: Vec<Sphere> = vec![Sphere::new(v(0, 0, -2 * FX_ONE), FX_ONE, grey())];
    let mut renderer = Renderer::new(3, 3).with_samples_per_pixel(2).with_max_depth(2);
    renderer.render(&world, Fading::<2>::Const(64225));
    assert_eq!(renderer.frame.len(), 9);
    for pixel in renderer.frame.iter() {
        let c = pixel.to_vec();
        assert!(0 <= c.x && c.x <= FX_ONE);
        assert!(0 <= c.y && c.y <= FX_ONE);
        assert!(0 <= c.z && c.z <= FX_ONE);
    }
}

#[test]
fn render_with_fading_ramp_and_five_samples() {
    let world: Vec<Sphere> = vec![Sphere::new(v(0, 0, -2 * FX_ONE), FX_ONE, grey())];
    let mut renderer = Renderer::new(4, 2).with_samples_per_pixel(5).with_max_depth(3);
    renderer.render(&world, Fading::<2>::Ramp([FX_ONE, FX_ONE / 2]));
    assert_eq!(renderer.frame.len(), 8);
    for pixel in renderer.frame.iter() {
        let c = pixel.to_vec();
        assert!(0 <= c.x && c.x <= FX_ONE);
    }
}

#[test]
fn renderer_builders_set_fields() {
    let renderer = Renderer::new(8, 4);
    assert_eq!(renderer.image_width, 8);
    assert_eq!(renderer.image_height, 4);
    assert_eq!(renderer.samples_per_pixel, 5);
    assert_eq!(renderer.max_depth, 10);
    let renderer = renderer.with_samples_per_pixel(7).with_max_depth(2);
    assert_eq!(renderer.samples_per_pixel, 7);
    assert_eq!(renderer.max_depth, 2);
}

#[test]
fn sample_rays_are_normalized() {
    let renderer = Renderer::new(4, 2).with_camera(plain_camera());
    let rays = renderer.get_rays(1, 1);
    for ray in rays.iter() {
        let l2 = ray.direction.length_squared();
        assert!(l2 > FX_ONE / 4 && l2 < 2 * FX_ONE);
    }
    let jittered = renderer.get_random_ray(2, 1);
    let l2 = jittered.direction.length_squared();
    assert!(l2 > FX_ONE / 4 && l2 < 2 * FX_ONE);
}

#[test]
fn sample_rays_are_deterministic_without_defocus() {
    // With no defocus jitter, the five-ray pattern is fully determined:
    // four half-pixel corners around the pixel and its centre.
    let renderer = Renderer::new(4, 2).with_camera(plain_camera());
    let origin = renderer.camera.origin();
    assert_eq!(origin, renderer.camera.lookfrom());
    let rays = renderer.get_rays(1, 1);
    let offsets = [
        v(FX_ONE / 2, FX_ONE / 2, 0),
        v(-FX_ONE / 2, FX_ONE / 2, 0),
        v(FX_ONE / 2, -FX_ONE / 2, 0),
        v(-FX_ONE / 2, -FX_ONE / 2, 0),
    ];
    for (k, off) in offsets.iter().enumerate() {
        let center = renderer.camera.pixel_center(1, 1, Some(*off));
        let expected = Ray::new(origin, center.sub(&origin));
        assert_eq!(rays[k], expected);
    }
    assert_eq!(rays[4], renderer.get_ray(1, 1));

    // The jittered sampler still starts at the look-from point.
    let jittered = renderer.get_random_ray(2, 1);
    assert_eq!(jittered.origin, renderer.camera.lookfrom());
}

#[test]
fn empty_scene_five_sample_render_averages_the_gradients() {
    let world: Vec<Sphere> = Vec::new();
    let mut renderer = Renderer::new(4, 2)
        .with_camera(plain_camera())
        .with_samples_per_pixel(5)
        .with_max_depth(10);
    renderer.render(&world, Fading::<2>::Const(FX_ONE));

    assert_eq!(renderer.frame.len(), 8);
    for j in 0..2usize {
        for i in 0..4usize {
            let rays = renderer.get_rays(i, j);
            let mut sum = Color::black();
            for ray in rays.iter() {
                sum = sum.add(&Color::gradient_white_to_blue(ray.direction.y));
            }
            let expected = Color(sum.to_vec().div_by(5)).to_gamma_2_color().clamp();
            assert_eq!(renderer.frame[j * 4 + i], expected);
        }
    }
}

#[test]
fn trace_of_missed_ray_is_sky_even_in_a_nonempty_scene() {
    let world: Vec<Sphere> = vec![Sphere::new(v(0, 0, -4 * FX_ONE), FX_ONE, grey())];
    let renderer = Renderer::new(4, 2).with_camera(plain_camera());
    // Straight up: misses the sphere entirely.
    let ray = Ray::new(v(0, 0, 0), v(0, FX_ONE, 0));
    let (color, bounces) = renderer.ray_color_diffuse_random(ray, &world, FX_ONE);
    assert_eq!(bounces, 0);
    assert_eq!(color, Color::gradient_white_to_blue(ray.direction.y));
}

#[test]
fn timer_and_logger_run() {
    let mut timer = Timer::start();
    timer.stop();
    let _elapsed = timer.elapsed();
    let mut log = Logger::new();
    log.msg("render check ");
    log.elapsed(&timer);
    log.ln();
    log.flush();
}
