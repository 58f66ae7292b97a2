//! The renderer: camera-ray generation, the bounded light-transport loop
//! and per-pixel accumulation into the framebuffer.

use vstd::prelude::*;

use crate::camera::camera_wf;
use crate::camera::defocus_radius_s;
use crate::camera::pixel_center_v;
use crate::camera::u_axis_s;
use crate::camera::upper_left_s;
use crate::camera::viewport_height_s;
use crate::camera::viewport_width_s;
use crate::camera::w_axis_s;
use crate::camera::Camera;
use crate::fixed::fx_mul;
use crate::fixed::lemma_fx_mul_bound_cap;
use crate::fixed::lemma_fx_mul_nonneg;
use crate::fixed::lemma_tdiv_error;
use crate::fixed::tdiv;
use crate::fixed::FX_HALF;
use crate::fixed::FX_ONE;
use crate::object::scene_hit_spec;
use crate::object::Hittable;
use crate::sphere::Sphere;
use crate::types::bounded_v;
use crate::types::clamp_box_v;
use crate::types::cross_v;
use crate::types::scale_v;
use crate::types::color::clamp_v;
use crate::types::color::color_black;
use crate::types::color::color_white;
use crate::types::color::gamma_v;
use crate::types::color::gradient_v;
use crate::types::color::lemma_gradient_bounded;
use crate::types::color::lemma_mul_color_cap;
use crate::types::color::lemma_mul_color_unit;
use crate::types::color::lemma_mul_color_white;
use crate::types::color::lemma_scale_color_one;
use crate::types::color::unit_color;
use crate::types::color::Color;
use crate::types::div_int_v;
use crate::types::len2_v;
use crate::types::ray_new_v;
use crate::types::ray_wf;
use crate::types::sub_v;
use crate::types::Point3;
use crate::types::Ray;
use crate::types::RayView;
use crate::types::Vec3i;
use crate::types::Vector3;
use crate::utils::Timer;

verus! {

use vstd::arithmetic::div_mod::lemma_fundamental_div_mod_converse;
use vstd::arithmetic::div_mod::lemma_multiply_divide_lt;

/// The lower end of every bounce ray's admissible interval (about 0.001),
/// keeping bounce rays from immediately re-hitting their own surface.
pub const T_MIN_BOUNCE: i64 = 66;

/// How background light fades with each bounce: one constant factor, or a
/// horizontal ramp of factors across the image.
#[derive(Clone, Copy, Debug)]
pub enum Fading<const N: usize> {
    Const(i64),
    Ramp([i64; N]),
}

/// Every fading factor lies in the unit interval.
pub open spec fn fading_wf<const N: usize>(f: Fading<N>) -> bool {
    match f {
        Fading::Const(k) => 0 <= k <= 65536,
        Fading::Ramp(a) => forall|k: int| 0 <= k < a@.len() ==> 0 <= #[trigger] a@[k] <= 65536,
    }
}

/// The renderer: an image size, a camera, sampling parameters and the
/// framebuffer filled by `render`.
pub struct Renderer {
    pub image_width: usize,
    pub image_height: usize,
    pub camera: Camera,
    pub frame: Vec<Color>,
    pub samples_per_pixel: usize,
    pub max_depth: usize,
}

pub open spec fn renderer_wf(r: Renderer) -> bool {
    &&& camera_wf(r.camera)
    &&& 1 <= r.image_width <= 32768
    &&& 1 <= r.image_height <= 32768
    &&& 1 <= r.samples_per_pixel <= 1048576
    &&& r.max_depth <= 1048576
}

/// The camera ray aimed from `origin` at the centre of pixel `(i, j)`
/// shifted by `off` pixels, with a fixed fallback for a degenerate
/// direction. Every sampling mode produces rays of this form; they differ
/// only in where `origin` and `off` are drawn from.
pub open spec fn aimed_ray_v(c: Camera, origin: Vec3i, i: int, j: int, off: Vec3i) -> RayView {
    let dir0 = sub_v(pixel_center_v(c, i, j, off), origin);
    if 12 <= len2_v(dir0) {
        ray_new_v(origin, dir0)
    } else {
        ray_new_v(origin, Vec3i { x: 0, y: 0, z: -65536 })
    }
}

/// The deterministic camera ray for pixel `(i, j)` with sub-pixel offset
/// `off`, when no defocus jitter applies: aimed from the look-from point.
pub open spec fn get_ray_off_v(c: Camera, i: int, j: int, off: Vec3i) -> RayView {
    aimed_ray_v(c, c.lookfrom@, i, j, off)
}

/// The deterministic camera ray through the centre of pixel `(i, j)`.
pub open spec fn get_ray_v(c: Camera, i: int, j: int) -> RayView {
    get_ray_off_v(c, i, j, Vec3i { x: 0, y: 0, z: 0 })
}

/// The display transform applied to an accumulated pixel: average over the
/// samples, gamma-correct, clamp.
pub open spec fn display_transform_v(c: Vec3i, spp: int) -> Vec3i {
    clamp_v(gamma_v(div_int_v(c, spp)))
}

/// The sum of the background gradient over the five deterministic sample
/// rays of a pixel (the four half-pixel corners and the centre).
pub open spec fn five_sample_sky_v(c: Camera, i: int, j: int) -> Vec3i {
    let g0 = gradient_v(get_ray_off_v(c, i, j, Vec3i { x: 32768, y: 32768, z: 0 }).direction.y);
    let g1 = gradient_v(get_ray_off_v(c, i, j, Vec3i { x: -32768, y: 32768, z: 0 }).direction.y);
    let g2 = gradient_v(get_ray_off_v(c, i, j, Vec3i { x: 32768, y: -32768, z: 0 }).direction.y);
    let g3 = gradient_v(get_ray_off_v(c, i, j, Vec3i { x: -32768, y: -32768, z: 0 }).direction.y);
    let g4 = gradient_v(get_ray_v(c, i, j).direction.y);
    Vec3i {
        x: g0.x + g1.x + g2.x + g3.x + g4.x,
        y: g0.y + g1.y + g2.y + g3.y + g4.y,
        z: g0.z + g1.z + g2.z + g3.z + g4.z,
    }
}

impl Renderer {
    /// A renderer over a default close-up camera, five samples per pixel
    /// and a bounce depth of ten.
    pub fn new(image_width: usize, image_height: usize) -> (r: Renderer)
        requires
            1 <= image_width <= 32768,
            1 <= image_height <= 32768,
        ensures
            renderer_wf(r),
            r.image_width == image_width,
            r.image_height == image_height,
            r.samples_per_pixel == 5,
            r.max_depth == 10,
            r.frame@.len() == 0,
            r.camera.lookfrom@ == (Vec3i { x: -131072, y: 131072, z: 65536 }),
            r.camera.lookat@ == (Vec3i { x: 0, y: 0, z: -65536 }),
            r.camera.viewup@ == (Vec3i { x: 0, y: 65536, z: 0 }),
            r.camera.vertical_fov == 1310720,
            r.camera.focus_dist == 222822,
            r.camera.defocus.angle == 655360,
            r.camera.basis.w@ == w_axis_s(r.camera.lookfrom@, r.camera.lookat@),
            r.camera.basis.u@ == u_axis_s(r.camera.viewup@, r.camera.basis.w@),
            r.camera.basis.v@ == cross_v(r.camera.basis.w@, r.camera.basis.u@),
            r.camera.viewport.height == viewport_height_s(1310720, 222822),
            r.camera.viewport.width == viewport_width_s(
                r.camera.viewport.height as int,
                image_width as int,
                image_height as int,
            ),
            r.camera.viewport.u@ == clamp_box_v(
                scale_v(r.camera.viewport.width as int, r.camera.basis.u@),
                0x1000_0000,
            ),
            r.camera.viewport.v@ == clamp_box_v(
                scale_v(-r.camera.viewport.height as int, r.camera.basis.v@),
                0x1000_0000,
            ),
            r.camera.pixel.delta_u@ == clamp_box_v(
                div_int_v(r.camera.viewport.u@, image_width as int),
                0x100_0000,
            ),
            r.camera.pixel.delta_v@ == clamp_box_v(
                div_int_v(r.camera.viewport.v@, image_height as int),
                0x100_0000,
            ),
            r.camera.upper_left_pixel@ == upper_left_s(
                r.camera.lookfrom@,
                222822,
                r.camera.basis.w@,
                r.camera.viewport.u@,
                r.camera.viewport.v@,
                r.camera.pixel.delta_u@,
                r.camera.pixel.delta_v@,
            ),
            r.camera.defocus.disk_u@ == clamp_box_v(
                scale_v(defocus_radius_s(222822, 655360), r.camera.basis.u@),
                0x1000_0000,
            ),
            r.camera.defocus.disk_v@ == clamp_box_v(
                scale_v(defocus_radius_s(222822, 655360), r.camera.basis.v@),
                0x1000_0000,
            ),
    {
        let camera = Camera::new(
            Vector3 { x: -131072, y: 131072, z: 65536 },
            Vector3 { x: 0, y: 0, z: -65536 },
        )
            .with_defocus_angle(655360)
            .with_focus_dist(222822)
            .with_vertical_fov(1310720)
            .with_viewport_size(image_width, image_height);

        Renderer {
            image_width,
            image_height,
            camera,
            frame: Vec::new(),
            samples_per_pixel: 5,
            max_depth: 10,
        }
    }

    /// Replace the camera (reconfigured externally as one atomic value).
    pub fn with_camera(self, camera: Camera) -> (r: Renderer)
        requires
            camera_wf(camera),
        ensures
            r.camera == camera,
            r.image_width == self.image_width,
            r.image_height == self.image_height,
            r.frame == self.frame,
            r.samples_per_pixel == self.samples_per_pixel,
            r.max_depth == self.max_depth,
    {
        Renderer { camera, ..self }
    }

    pub fn with_samples_per_pixel(self, samples_per_pixel: usize) -> (r: Renderer)
        requires
            1 <= samples_per_pixel <= 1048576,
        ensures
            r.samples_per_pixel == samples_per_pixel,
            r.image_width == self.image_width,
            r.image_height == self.image_height,
            r.camera == self.camera,
            r.frame == self.frame,
            r.max_depth == self.max_depth,
    {
        Renderer { samples_per_pixel, ..self }
    }

    pub fn with_max_depth(self, max_depth: usize) -> (r: Renderer)
        requires
            max_depth <= 1048576,
        ensures
            r.max_depth == max_depth,
            r.image_width == self.image_width,
            r.image_height == self.image_height,
            r.camera == self.camera,
            r.frame == self.frame,
            r.samples_per_pixel == self.samples_per_pixel,
    {
        Renderer { max_depth, ..self }
    }

    /// Construct a camera ray originating from the origin and directed at
    /// a randomly sampled point around the pixel location i, j: aimed from
    /// a lens-sampled origin at the pixel centre shifted by a sub-pixel
    /// jitter of at most half a pixel.
    pub fn get_random_ray(&self, i: usize, j: usize) -> (r: Ray)
        requires
            renderer_wf(*self),
            i <= 32768,
            j <= 32768,
        ensures
            ray_wf(r@),
            exists|o: Vec3i, q: Vec3i|
                {
                    &&& bounded_v(o, 0x2000_0000)
                    &&& (self.camera.defocus.angle <= 0 ==> o == self.camera.lookfrom@)
                    &&& bounded_v(q, 32768)
                    &&& q.z == 0
                    &&& r@ == #[trigger] aimed_ray_v(self.camera, o, i as int, j as int, q)
                },
    {
        let origin = self.camera.origin();
        let jitter = sample_square();
        let center = self.camera.pixel_center(i, j, Some(jitter));
        let direction = center.sub(&origin);
        let direction = if direction.length_squared() >= 12 {
            direction
        } else {
            Vector3 { x: 0, y: 0, z: -FX_ONE }
        };
        let r = Ray::new(origin, direction);
        proof {
            assert(bounded_v(jitter@, 32768) && jitter@.z == 0 && r@ == aimed_ray_v(
                self.camera,
                origin@,
                i as int,
                j as int,
                jitter@,
            ));
        }
        r
    }

    /// The camera ray through the centre of pixel `(i, j)`; deterministic
    /// whenever no defocus jitter applies.
    pub fn get_ray(&self, i: usize, j: usize) -> (r: Ray)
        requires
            renderer_wf(*self),
            i <= 32768,
            j <= 32768,
        ensures
            ray_wf(r@),
            self.camera.defocus.angle <= 0 ==> r@ == get_ray_v(
                self.camera,
                i as int,
                j as int,
            ),
            exists|o: Vec3i|
                {
                    &&& bounded_v(o, 0x2000_0000)
                    &&& (self.camera.defocus.angle <= 0 ==> o == self.camera.lookfrom@)
                    &&& r@ == #[trigger] aimed_ray_v(
                        self.camera,
                        o,
                        i as int,
                        j as int,
                        (Vec3i { x: 0, y: 0, z: 0 }),
                    )
                },
    {
        let origin = self.camera.origin();
        let center = self.camera.pixel_center(i, j, None);
        let direction = center.sub(&origin);
        let direction = if direction.length_squared() >= 12 {
            direction
        } else {
            Vector3 { x: 0, y: 0, z: -FX_ONE }
        };
        let r = Ray::new(origin, direction);
        proof {
            assert(r@ == aimed_ray_v(
                self.camera,
                origin@,
                i as int,
                j as int,
                (Vec3i { x: 0, y: 0, z: 0 }),
            ));
        }
        r
    }

    /// Five rays per pixel: the four half-pixel corners and the centre.
    /// The corner rays share one lens-sampled origin; the centre ray draws
    /// its own. With no defocus jitter all five are fully determined.
    pub fn get_rays(&self, i: usize, j: usize) -> (r: [Ray; 5])
        requires
            renderer_wf(*self),
            i <= 32768,
            j <= 32768,
        ensures
            forall|k: int| 0 <= k < 5 ==> ray_wf(#[trigger] r[k]@),
            exists|o: Vec3i|
                {
                    &&& bounded_v(o, 0x2000_0000)
                    &&& (self.camera.defocus.angle <= 0 ==> o == self.camera.lookfrom@)
                    &&& r[0]@ == #[trigger] aimed_ray_v(
                        self.camera,
                        o,
                        i as int,
                        j as int,
                        (Vec3i { x: 32768, y: 32768, z: 0 }),
                    )
                    &&& r[1]@ == aimed_ray_v(
                        self.camera,
                        o,
                        i as int,
                        j as int,
                        (Vec3i { x: -32768, y: 32768, z: 0 }),
                    )
                    &&& r[2]@ == aimed_ray_v(
                        self.camera,
                        o,
                        i as int,
                        j as int,
                        (Vec3i { x: 32768, y: -32768, z: 0 }),
                    )
                    &&& r[3]@ == aimed_ray_v(
                        self.camera,
                        o,
                        i as int,
                        j as int,
                        (Vec3i { x: -32768, y: -32768, z: 0 }),
                    )
                },
            self.camera.defocus.angle <= 0 ==> {
                &&& r[0]@ == get_ray_off_v(
                    self.camera,
                    i as int,
                    j as int,
                    (Vec3i { x: 32768, y: 32768, z: 0 }),
                )
                &&& r[1]@ == get_ray_off_v(
                    self.camera,
                    i as int,
                    j as int,
                    (Vec3i { x: -32768, y: 32768, z: 0 }),
                )
                &&& r[2]@ == get_ray_off_v(
                    self.camera,
                    i as int,
                    j as int,
                    (Vec3i { x: 32768, y: -32768, z: 0 }),
                )
                &&& r[3]@ == get_ray_off_v(
                    self.camera,
                    i as int,
                    j as int,
                    (Vec3i { x: -32768, y: -32768, z: 0 }),
                )
                &&& r[4]@ == get_ray_v(self.camera, i as int, j as int)
            },
    {
        let origin = self.camera.origin();
        let r0 = self.corner_ray(origin, i, j, FX_HALF, FX_HALF);
        let r1 = self.corner_ray(origin, i, j, -FX_HALF, FX_HALF);
        let r2 = self.corner_ray(origin, i, j, FX_HALF, -FX_HALF);
        let r3 = self.corner_ray(origin, i, j, -FX_HALF, -FX_HALF);
        let r4 = self.get_ray(i, j);
        let r = [r0, r1, r2, r3, r4];
        proof {
            assert(r[0]@ == aimed_ray_v(
                self.camera,
                origin@,
                i as int,
                j as int,
                (Vec3i { x: 32768, y: 32768, z: 0 }),
            ));
        }
        r
    }

    /// One sample ray aimed from `origin` at an offset point of pixel
    /// `(i, j)`.
    fn corner_ray(&self, origin: Point3, i: usize, j: usize, ox: i64, oy: i64) -> (r: Ray)
        requires
            renderer_wf(*self),
            bounded_v(origin@, 0x2000_0000),
            i <= 32768,
            j <= 32768,
            -65536 <= ox <= 65536,
            -65536 <= oy <= 65536,
        ensures
            ray_wf(r@),
            r@ == aimed_ray_v(
                self.camera,
                origin@,
                i as int,
                j as int,
                (Vec3i { x: ox as int, y: oy as int, z: 0 }),
            ),
    {
        let center = self.camera.pixel_center(i, j, Some(Vector3 { x: ox, y: oy, z: 0 }));
        let direction = center.sub(&origin);
        let direction = if direction.length_squared() >= 12 {
            direction
        } else {
            Vector3 { x: 0, y: 0, z: -FX_ONE }
        };
        Ray::new(origin, direction)
    }

    fn ray_color(&self, ray: Ray, world: &Vec<Sphere>, fading: i64) -> (r: Color)
        requires
            renderer_wf(*self),
            world.wf(),
            ray_wf(ray@),
            0 <= fading <= 65536,
        ensures
            bounded_v(r@, 262144),
            world@.len() == 0 ==> r@ == gradient_v(ray@.direction.y),
            scene_hit_spec(world@, ray@, 66, 0x1000_0000) is None ==> r@ == gradient_v(
                ray@.direction.y,
            ),
            (self.max_depth == 0 && scene_hit_spec(world@, ray@, 66, 0x1000_0000) is Some)
                ==> r@ == color_black(),
    {
        let traced = self.ray_color_diffuse_random(ray, world, fading);
        traced.0
    }

    /// Trace one ray through the scene: bounce until a miss (the background
    /// gradient shines through), an absorption, or the depth bound. Returns
    /// the gathered colour and how many scatter steps were taken: never
    /// more than `max_depth + 1`, whatever the scene.
    pub fn ray_color_diffuse_random(&self, start_ray: Ray, world: &Vec<Sphere>, fading: i64) -> (r:
        (Color, usize))
        requires
            renderer_wf(*self),
            world.wf(),
            ray_wf(start_ray@),
            0 <= fading <= 65536,
        ensures
            r.1 <= self.max_depth + 1,
            bounded_v(r.0@, 262144),
            world@.len() == 0 ==> r.0@ == gradient_v(start_ray@.direction.y) && r.1 == 0,
            scene_hit_spec(world@, start_ray@, 66, 0x1000_0000) is None ==> r.0@ == gradient_v(
                start_ray@.direction.y,
            ) && r.1 == 0,
            r.1 == self.max_depth + 1 ==> r.0@ == color_black(),
            (self.max_depth == 0 && scene_hit_spec(world@, start_ray@, 66, 0x1000_0000) is Some)
                ==> r.0@ == color_black(),
    {
        let mut ray = start_ray;
        let mut attenuation = Color::white();
        let mut acc_fading: i64 = FX_ONE;
        let mut bounds: usize = 0;
        let mut out = Color::black();

        loop
            invariant_except_break
                renderer_wf(*self),
                world.wf(),
                ray_wf(ray@),
                0 <= fading <= 65536,
                unit_color(attenuation@),
                0 <= acc_fading <= 65536,
                bounds <= self.max_depth + 1,
                bounds == 0 ==> ray == start_ray && attenuation@ == color_white() && acc_fading
                    == 65536,
                world@.len() == 0 ==> bounds == 0,
                scene_hit_spec(world@, start_ray@, 66, 0x1000_0000) is None ==> bounds == 0,
                self.max_depth == 0 ==> bounds <= 1,
            ensures
                bounds <= self.max_depth + 1,
                bounded_v(out@, 262144),
                world@.len() == 0 ==> out@ == gradient_v(start_ray@.direction.y) && bounds == 0,
                scene_hit_spec(world@, start_ray@, 66, 0x1000_0000) is None ==> out@ == gradient_v(
                    start_ray@.direction.y,
                ) && bounds == 0,
                bounds == self.max_depth + 1 ==> out@ == color_black(),
                (self.max_depth == 0 && scene_hit_spec(world@, start_ray@, 66, 0x1000_0000)
                    is Some) ==> out@ == color_black(),
            decreases self.max_depth + 1 - bounds,
        {
            if bounds > self.max_depth {
                out = Color::black();
                break ;
            }
            match world.hit(&ray, T_MIN_BOUNCE, 0x1000_0000) {
                Some(found) => {
                    match found.material.scatter(&ray, &found) {
                        Some((scattered, new_attenuation)) => {
                            proof {
                                lemma_mul_color_unit(attenuation@, new_attenuation@);
                                assert(65536 * 65536 == 65536 * 65536) by (nonlinear_arith);
                                lemma_fx_mul_bound_cap(
                                    acc_fading as int,
                                    fading as int,
                                    65536,
                                    65536,
                                    65536,
                                );
                                crate::fixed::lemma_mul_le(
                                    acc_fading as int,
                                    fading as int,
                                    65536,
                                    65536,
                                );
                                lemma_fx_mul_nonneg(acc_fading as int, fading as int);
                            }
                            ray = scattered;
                            attenuation = attenuation.mul(&new_attenuation);
                            acc_fading = fx_mul(acc_fading, fading);
                            bounds = bounds + 1;
                        },
                        None => {
                            out = Color::black();
                            break ;
                        },
                    }
                },
                None => {
                    let sky = Color::gradient_white_to_blue(ray.direction.y);
                    proof {
                        lemma_gradient_bounded(ray@.direction.y);
                        assert(65536 * 262144 == 262144 * 65536) by (nonlinear_arith);
                        crate::types::lemma_scale_bound(
                            acc_fading as int,
                            sky@,
                            65536,
                            262144,
                            262144,
                        );
                        lemma_mul_color_cap(attenuation@, crate::types::scale_v(
                            acc_fading as int,
                            sky@,
                        ));
                        if bounds == 0 {
                            lemma_scale_color_one(sky@);
                            lemma_mul_color_white(sky@);
                        }
                    }
                    out = attenuation.mul(&sky.scale(acc_fading));
                    break ;
                },
            }
        }
        (out, bounds)
    }

    /// The colour of one pixel: accumulate the configured number of sample
    /// rays, average, gamma-correct and clamp.
    fn render_pixel(&self, world: &Vec<Sphere>, fading: i64, i: usize, j: usize) -> (c: Color)
        requires
            renderer_wf(*self),
            world.wf(),
            0 <= fading <= 65536,
            i < self.image_width,
            j < self.image_height,
        ensures
            unit_color(c@),
            (world@.len() == 0 && self.samples_per_pixel == 1 && self.camera.defocus.angle <= 0)
                ==> c@ == display_transform_v(
                gradient_v(get_ray_v(self.camera, i as int, j as int).direction.y),
                1,
            ),
            (world@.len() == 0 && self.samples_per_pixel == 5 && self.camera.defocus.angle <= 0)
                ==> c@ == display_transform_v(
                five_sample_sky_v(self.camera, i as int, j as int),
                5,
            ),
            (self.samples_per_pixel == 1 && self.camera.defocus.angle <= 0 && self.max_depth == 0
                && scene_hit_spec(
                world@,
                get_ray_v(self.camera, i as int, j as int),
                66,
                0x1000_0000,
            ) is Some) ==> c@ == color_black(),
    {
        let mut pixel_color = Color::black();

        if self.samples_per_pixel == 1 {
            let sampled = self.ray_color(self.get_ray(i, j), world, fading);
            pixel_color = pixel_color.add(&sampled);
        } else if self.samples_per_pixel == 5 {
            let rays = self.get_rays(i, j);
            let s0 = self.ray_color(rays[0], world, fading);
            let s1 = self.ray_color(rays[1], world, fading);
            let s2 = self.ray_color(rays[2], world, fading);
            let s3 = self.ray_color(rays[3], world, fading);
            let s4 = self.ray_color(rays[4], world, fading);
            pixel_color = pixel_color.add(&s0).add(&s1).add(&s2).add(&s3).add(&s4);
            proof {
                if world@.len() == 0 && self.camera.defocus.angle <= 0 {
                    assert(pixel_color@ == five_sample_sky_v(self.camera, i as int, j as int));
                }
            }
        } else {
            let mut s: usize = 0;
            while s < self.samples_per_pixel
                invariant
                    renderer_wf(*self),
                    world.wf(),
                    0 <= fading <= 65536,
                    i <= 32768,
                    j <= 32768,
                    s <= self.samples_per_pixel,
                    bounded_v(pixel_color@, s * 262144),
                decreases self.samples_per_pixel - s,
            {
                let ray = self.get_random_ray(i, j);
                let sampled = self.ray_color(ray, world, fading);
                proof {
                    assert((s + 1) * 262144 == s * 262144 + 262144) by (nonlinear_arith);
                    assert(s * 262144 <= 1048576 * 262144) by (nonlinear_arith)
                        requires 0 <= s <= 1048576;
                }
                pixel_color = pixel_color.add(&sampled);
                s = s + 1;
            }
            proof {
                assert(self.samples_per_pixel * 262144 <= 1048576 * 262144) by (nonlinear_arith)
                    requires 1 <= self.samples_per_pixel <= 1048576;
            }
        }

        proof {
            lemma_tdiv_error(pixel_color@.x, self.samples_per_pixel as int);
            lemma_tdiv_error(pixel_color@.y, self.samples_per_pixel as int);
            lemma_tdiv_error(pixel_color@.z, self.samples_per_pixel as int);
            if self.samples_per_pixel == 1 {
                lemma_tdiv_by_one_v(pixel_color@);
            }
        }
        let averaged = Color(pixel_color.to_vec().div_by(self.samples_per_pixel as i64));
        averaged.to_gamma_2_color().clamp()
    }

    /// Render the whole frame: one colour per pixel, row-major. Every stored
    /// pixel is clamped into the unit colour range; with one deterministic
    /// sample per pixel, an empty scene yields exactly the background
    /// gradient, and a zero depth bound yields black wherever the camera ray
    /// hits the scene.
    pub fn render<const N: usize>(&mut self, world: &Vec<Sphere>, fading: Fading<N>) -> (timer:
        Timer)
        requires
            renderer_wf(*old(self)),
            world.wf(),
            fading_wf(fading),
            0 < N <= 4096,
        ensures
            final(self).image_width == old(self).image_width,
            final(self).image_height == old(self).image_height,
            final(self).camera == old(self).camera,
            final(self).samples_per_pixel == old(self).samples_per_pixel,
            final(self).max_depth == old(self).max_depth,
            final(self).frame@.len() == old(self).image_width * old(self).image_height,
            forall|k: int|
                0 <= k < final(self).frame@.len() ==> unit_color(#[trigger] final(self).frame@[k]@),
            (world@.len() == 0 && old(self).samples_per_pixel == 1 && old(
                self,
            ).camera.defocus.angle <= 0) ==> forall|k: int|
                0 <= k < final(self).frame@.len() ==> #[trigger] final(self).frame@[k]@
                    == display_transform_v(
                    gradient_v(
                        get_ray_v(
                            old(self).camera,
                            k % (old(self).image_width as int),
                            k / (old(self).image_width as int),
                        ).direction.y,
                    ),
                    1,
                ),
            (world@.len() == 0 && old(self).samples_per_pixel == 5 && old(
                self,
            ).camera.defocus.angle <= 0) ==> forall|k: int|
                0 <= k < final(self).frame@.len() ==> #[trigger] final(self).frame@[k]@
                    == display_transform_v(
                    five_sample_sky_v(
                        old(self).camera,
                        k % (old(self).image_width as int),
                        k / (old(self).image_width as int),
                    ),
                    5,
                ),
            (old(self).samples_per_pixel == 1 && old(self).camera.defocus.angle <= 0 && old(
                self,
            ).max_depth == 0) ==> forall|k: int|
                (0 <= k < final(self).frame@.len() && scene_hit_spec(
                    world@,
                    get_ray_v(
                        old(self).camera,
                        k % (old(self).image_width as int),
                        k / (old(self).image_width as int),
                    ),
                    66,
                    0x1000_0000,
                ) is Some) ==> #[trigger] final(self).frame@[k]@ == color_black(),
    {
        let w = self.image_width;
        let h = self.image_height;
        if self.frame.len() > 0 {
            self.frame = Vec::new();
        }

        let mut timer = Timer::start();

        let mut j: usize = 0;
        while j < h
            invariant
                renderer_wf(*self),
                world.wf(),
                fading_wf(fading),
                0 < N <= 4096,
                self.image_width == w,
                self.image_height == h,
                self.camera == old(self).camera,
                self.image_width == old(self).image_width,
                self.image_height == old(self).image_height,
                self.samples_per_pixel == old(self).samples_per_pixel,
                self.max_depth == old(self).max_depth,
                j <= h,
                self.frame@.len() == j * w,
                forall|k: int|
                    0 <= k < self.frame@.len() ==> unit_color(#[trigger] self.frame@[k]@),
                (world@.len() == 0 && self.samples_per_pixel == 1 && self.camera.defocus.angle
                    <= 0) ==> forall|k: int|
                    0 <= k < self.frame@.len() ==> #[trigger] self.frame@[k]@
                        == display_transform_v(
                        gradient_v(get_ray_v(self.camera, k % (w as int), k / (w as int)).direction.y),
                        1,
                    ),
                (world@.len() == 0 && self.samples_per_pixel == 5 && self.camera.defocus.angle
                    <= 0) ==> forall|k: int|
                    0 <= k < self.frame@.len() ==> #[trigger] self.frame@[k]@
                        == display_transform_v(
                        five_sample_sky_v(self.camera, k % (w as int), k / (w as int)),
                        5,
                    ),
                (self.samples_per_pixel == 1 && self.camera.defocus.angle <= 0 && self.max_depth
                    == 0) ==> forall|k: int|
                    (0 <= k < self.frame@.len() && scene_hit_spec(
                        world@,
                        get_ray_v(self.camera, k % (w as int), k / (w as int)),
                        66,
                        0x1000_0000,
                    ) is Some) ==> #[trigger] self.frame@[k]@ == color_black(),
            decreases h - j,
        {
            let mut i: usize = 0;
            while i < w
                invariant
                    renderer_wf(*self),
                    world.wf(),
                    fading_wf(fading),
                    0 < N <= 4096,
                    self.image_width == w,
                    self.image_height == h,
                    self.camera == old(self).camera,
                    self.image_width == old(self).image_width,
                    self.image_height == old(self).image_height,
                    self.samples_per_pixel == old(self).samples_per_pixel,
                    self.max_depth == old(self).max_depth,
                    j < h,
                    i <= w,
                    self.frame@.len() == j * w + i,
                    forall|k: int|
                        0 <= k < self.frame@.len() ==> unit_color(#[trigger] self.frame@[k]@),
                    (world@.len() == 0 && self.samples_per_pixel == 1 && self.camera.defocus.angle
                        <= 0) ==> forall|k: int|
                        0 <= k < self.frame@.len() ==> #[trigger] self.frame@[k]@
                            == display_transform_v(
                            gradient_v(
                                get_ray_v(self.camera, k % (w as int), k / (w as int)).direction.y,
                            ),
                            1,
                        ),
                    (world@.len() == 0 && self.samples_per_pixel == 5 && self.camera.defocus.angle
                        <= 0) ==> forall|k: int|
                        0 <= k < self.frame@.len() ==> #[trigger] self.frame@[k]@
                            == display_transform_v(
                            five_sample_sky_v(self.camera, k % (w as int), k / (w as int)),
                            5,
                        ),
                    (self.samples_per_pixel == 1 && self.camera.defocus.angle <= 0
                        && self.max_depth == 0) ==> forall|k: int|
                        (0 <= k < self.frame@.len() && scene_hit_spec(
                            world@,
                            get_ray_v(self.camera, k % (w as int), k / (w as int)),
                            66,
                            0x1000_0000,
                        ) is Some) ==> #[trigger] self.frame@[k]@ == color_black(),
                decreases w - i,
            {
                let pixel_fading: i64 = match fading {
                    Fading::Const(k) => k,
                    Fading::Ramp(fadings) => {
                        proof {
                            assert((i as int) * (N as int) < (w as int) * (N as int))
                                by (nonlinear_arith)
                                requires
                                    0 <= i as int,
                                    (i as int) < (w as int),
                                    0 < N as int,
                            ;
                            assert((i as int) * (N as int) <= 32768 * 4096) by (nonlinear_arith)
                                requires
                                    0 <= i as int <= 32768,
                                    0 <= N as int <= 4096,
                            ;
                            lemma_multiply_divide_lt(
                                (i as int) * (N as int),
                                w as int,
                                N as int,
                            );
                            lemma_tdiv_error((i as int) * (N as int), w as int);
                        }
                        fadings[(i * N) / w]
                    },
                };
                let px = self.render_pixel(world, pixel_fading, i, j);
                proof {
                    lemma_fundamental_div_mod_converse(
                        (j as int) * (w as int) + (i as int),
                        w as int,
                        j as int,
                        i as int,
                    );
                }
                self.frame.push(px);
                i = i + 1;
            }
            proof {
                assert((j as int + 1) * (w as int) == (j as int) * (w as int) + (w as int))
                    by (nonlinear_arith);
            }
            j = j + 1;
        }
        proof {
            assert((h as int) * (w as int) == (w as int) * (h as int)) by (nonlinear_arith);
        }

        timer.stop();
        timer
    }

    /// Shade by the surface normal where the scene is hit, else by the
    /// background gradient.
    #[allow(dead_code)]
    fn ray_color_normal(&self, ray: Ray, world: &Vec<Sphere>) -> (r: Color)
        requires
            renderer_wf(*self),
            world.wf(),
            ray_wf(ray@),
        ensures
            bounded_v(r@, 262144),
    {
        // Objects normal color
        if let Some(found) = world.hit(&ray, 0, 0x1000_0000) {
            let shifted = Color(found.normal).add(&Color::white());
            proof {
                assert(32768 * 196608 <= 98304 * 65536) by (nonlinear_arith);
                crate::types::lemma_scale_bound(32768, shifted@, 32768, 196608, 98304);
            }
            return Color(shifted.to_vec().scale(FX_HALF));
        }

        // Background gradient
        let sky = Color::gradient_white_to_blue(ray.direction.y);
        proof {
            lemma_gradient_bounded(ray@.direction.y);
        }
        sky
    }
}

/// Dividing a colour by one changes nothing.
proof fn lemma_tdiv_by_one_v(c: Vec3i)
    ensures
        div_int_v(c, 1) == c,
{
    lemma_tdiv_by_one(c.x);
    lemma_tdiv_by_one(c.y);
    lemma_tdiv_by_one(c.z);
}

proof fn lemma_tdiv_by_one(x: int)
    ensures
        tdiv(x, 1) == x,
{
    if x >= 0 {
        vstd::arithmetic::div_mod::lemma_fundamental_div_mod(x, 1);
    } else {
        vstd::arithmetic::div_mod::lemma_fundamental_div_mod(-x, 1);
    }
}

/// The vector to a random point in the [-.5,-.5] - [+.5,+.5] unit square.
fn sample_square() -> (r: Vector3)
    ensures
        bounded_v(r@, 32768),
        r@.z == 0,
{
    Vector3 { x: random_fx_half(), y: random_fx_half(), z: 0 }
}

/// A uniformly drawn fixed-point value in [-1/2, 1/2].
fn random_fx_half() -> (r: i64)
    ensures
        -32768 <= r <= 32768,
{
    let u: u64 = crate::types::random_u64();
    let m: u64 = u % 65537;
    (m as i64) - 32768
}

} // verus!
