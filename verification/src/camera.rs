//! The camera: a viewing frustum derived from look-from/look-at/up,
//! vertical field of view, focus distance and an optional defocus disk.
//!
//! Angles are fixed-point degrees; the trigonometry is a fixed-point Taylor
//! approximation whose exact integer behaviour is mirrored in spec functions.
//! Derived quantities are clamped into the world box, so a well-formed camera
//! stays well-formed whatever its configuration.

use vstd::prelude::*;

use crate::fixed::fx_div;
use crate::fixed::fx_div_s;
use crate::fixed::fx_mul;
use crate::fixed::fx_mul_s;
use crate::fixed::idiv;
use crate::fixed::lemma_fx_mul_bound_cap;
use crate::fixed::lemma_fx_mul_nonneg;
use crate::fixed::lemma_square_nonneg;
use crate::fixed::lemma_tdiv_bound;
use crate::fixed::lemma_tdiv_error;
use crate::fixed::lemma_tdiv_ordered;
use crate::fixed::tdiv;
use crate::fixed::FX_ONE;
use crate::types::add_v;
use crate::types::bounded_v;
use crate::types::clamp_box_v;
use crate::types::cross_v;
use crate::types::div_int_v;
use crate::types::lemma_scale_bound;
use crate::types::len2_v;
use crate::types::scale_v;
use crate::types::sub_v;
use crate::types::unit_v;
use crate::types::Basis;
use crate::types::Point3;
use crate::types::Vec3i;
use crate::types::Vector3;

verus! {

use vstd::arithmetic::div_mod::lemma_div_by_multiple;

/// The viewport: its fixed-point extent and its world-space edge vectors.
#[derive(Clone, Copy, Debug, PartialEq, Eq, Structural)]
pub struct Viewport {
    pub height: i64,
    pub width: i64,
    pub u: Vector3,
    pub v: Vector3,
}

/// The world-space step from one pixel to the next.
#[derive(Clone, Copy, Debug, PartialEq, Eq, Structural)]
pub struct Pixel {
    pub delta_u: Vector3,
    pub delta_v: Vector3,
}

#[derive(Clone, Copy, Debug, PartialEq, Eq, Structural)]
pub struct Defocus {
    // Variation angle of rays through each pixel
    pub angle: i64,
    // Defocus disk horizontal radius
    pub disk_u: Vector3,
    // Defocus disk vertical radius
    pub disk_v: Vector3,
}

#[derive(Clone, Copy, Debug, PartialEq, Eq, Structural)]
pub struct Camera {
    pub viewport: Viewport,
    pub pixel: Pixel,
    pub upper_left_pixel: Point3,
    // Vertical view angle (field of view), fixed-point degrees
    pub vertical_fov: i64,
    // Point camera is looking from
    pub lookfrom: Point3,
    // Point camera is looking at
    pub lookat: Point3,
    // Camera-relative "up" direction
    pub viewup: Vector3,
    pub basis: Basis,
    pub defocus: Defocus,
    // Distance from camera lookfrom point to plane of perfect focus
    pub focus_dist: i64,
}

/// Every camera field lies within the bounds the ray-generation code needs.
pub open spec fn camera_wf(c: Camera) -> bool {
    &&& bounded_v(c.lookfrom@, 0x1000_0000)
    &&& bounded_v(c.lookat@, 0x1000_0000)
    &&& bounded_v(c.viewup@, 0x1000_0000)
    &&& 65536 <= c.vertical_fov <= 11730944
    &&& 4096 <= c.focus_dist <= 0x100_0000
    &&& 0 <= c.defocus.angle <= 11730944
    &&& 0 <= c.viewport.height <= 0x1000_0000
    &&& 0 <= c.viewport.width <= 0x1000_0000
    &&& bounded_v(c.viewport.u@, 0x1000_0000)
    &&& bounded_v(c.viewport.v@, 0x1000_0000)
    &&& bounded_v(c.pixel.delta_u@, 0x100_0000)
    &&& bounded_v(c.pixel.delta_v@, 0x100_0000)
    &&& bounded_v(c.upper_left_pixel@, 0x2000_0000)
    &&& bounded_v(c.basis.u@, 0x8_0000)
    &&& bounded_v(c.basis.v@, 0x8_0000)
    &&& bounded_v(c.basis.w@, 0x8_0000)
    &&& bounded_v(c.defocus.disk_u@, 0x1000_0000)
    &&& bounded_v(c.defocus.disk_v@, 0x1000_0000)
}

/// Fixed-point degrees to fixed-point radians.
pub open spec fn deg_to_rad_s(deg: int) -> int {
    tdiv(deg * 205887, 11796480)
}

/// The fixed-point Taylor approximation of the sine, on [0, pi].
pub open spec fn sin_s(x: int) -> int {
    let x2 = fx_mul_s(x, x);
    let x3 = fx_mul_s(x2, x);
    let x5 = fx_mul_s(x3, x2);
    let x7 = fx_mul_s(x5, x2);
    x - tdiv(x3, 6) + tdiv(x5, 120) - tdiv(x7, 5040)
}

/// The fixed-point Taylor approximation of the cosine, on [0, pi].
pub open spec fn cos_s(x: int) -> int {
    let x2 = fx_mul_s(x, x);
    let x4 = fx_mul_s(x2, x2);
    let x6 = fx_mul_s(x4, x2);
    let x8 = fx_mul_s(x4, x4);
    65536 - tdiv(x2, 2) + tdiv(x4, 24) - tdiv(x6, 720) + tdiv(x8, 40320)
}

/// The tangent as the guarded quotient of the two approximations, clamped
/// to [0, 256]: the quadrant where the cosine vanishes is cut off.
pub open spec fn tan_of_rad_s(x: int) -> int {
    let s = sin_s(x);
    let c = cos_s(x);
    let cc = if c < 1 {
        1
    } else {
        c
    };
    let t = fx_div_s(s, cc);
    if t < 0 {
        0
    } else if t > 0x100_0000 {
        0x100_0000
    } else {
        t
    }
}

/// The tangent of half the field-of-view angle (given in degrees).
pub open spec fn tan_half_fov_s(deg: int) -> int {
    tan_of_rad_s(tdiv(deg_to_rad_s(deg), 2))
}

/// The tangent of half the defocus angle (given in degrees).
pub open spec fn tan_half_defocus_s(deg: int) -> int {
    tan_of_rad_s(deg_to_rad_s(tdiv(deg, 2)))
}

fn deg_to_rad(deg: i64) -> (r: i64)
    requires
        0 <= deg <= 11796480,
    ensures
        r == deg_to_rad_s(deg as int),
        0 <= r <= 205887,
{
    proof {
        lemma_tdiv_error(deg as int * 205887, 11796480);
        lemma_tdiv_ordered(deg as int * 205887, 11796480int * 205887, 11796480);
        lemma_div_by_multiple(205887, 11796480);
        assert(tdiv(11796480int * 205887, 11796480) == 205887);
    }
    idiv(deg * 205887, 11796480)
}

fn sin_fx(x: i64) -> (r: i64)
    requires
        0 <= x <= 205887,
    ensures
        r == sin_s(x as int),
        -800000 <= r <= 800000,
{
    proof {
        lemma_square_nonneg(x as int);
        lemma_fx_mul_nonneg(x as int, x as int);
        assert(205887 * 205887 <= 646812 * 65536) by (nonlinear_arith);
        lemma_fx_mul_bound_cap(x as int, x as int, 205887, 205887, 646812);
    }
    let x2 = fx_mul(x, x);
    proof {
        assert(646812 * 205887 <= 2032016 * 65536) by (nonlinear_arith);
        lemma_fx_mul_bound_cap(x2 as int, x as int, 646812, 205887, 2032016);
    }
    let x3 = fx_mul(x2, x);
    proof {
        assert(2032016 * 646812 <= 20055120 * 65536) by (nonlinear_arith);
        lemma_fx_mul_bound_cap(x3 as int, x2 as int, 2032016, 646812, 20055120);
    }
    let x5 = fx_mul(x3, x2);
    proof {
        assert(20055120 * 646812 <= 197935369 * 65536) by (nonlinear_arith);
        lemma_fx_mul_bound_cap(x5 as int, x2 as int, 20055120, 646812, 197935369);
        lemma_tdiv_bound(x3 as int, 6, 2032016);
        lemma_tdiv_bound(x5 as int, 120, 20055120);
        assert(2032016int / 6 == 338669) by (nonlinear_arith);
        assert(20055120int / 120 == 167126) by (nonlinear_arith);
    }
    let x7 = fx_mul(x5, x2);
    proof {
        lemma_tdiv_bound(x7 as int, 5040, 197935369);
        assert(197935369int / 5040 == 39272) by (nonlinear_arith);
    }
    x - idiv(x3, 6) + idiv(x5, 120) - idiv(x7, 5040)
}

fn cos_fx(x: i64) -> (r: i64)
    requires
        0 <= x <= 205887,
    ensures
        r == cos_s(x as int),
        -800000 <= r <= 800000,
{
    proof {
        lemma_square_nonneg(x as int);
        lemma_fx_mul_nonneg(x as int, x as int);
        assert(205887 * 205887 <= 646812 * 65536) by (nonlinear_arith);
        lemma_fx_mul_bound_cap(x as int, x as int, 205887, 205887, 646812);
    }
    let x2 = fx_mul(x, x);
    proof {
        assert(646812 * 646812 <= 6383755 * 65536) by (nonlinear_arith);
        lemma_fx_mul_bound_cap(x2 as int, x2 as int, 646812, 646812, 6383755);
    }
    let x4 = fx_mul(x2, x2);
    proof {
        assert(6383755 * 646812 <= 63004904 * 65536) by (nonlinear_arith);
        lemma_fx_mul_bound_cap(x4 as int, x2 as int, 6383755, 646812, 63004904);
    }
    let x6 = fx_mul(x4, x2);
    proof {
        assert(6383755 * 6383755 <= 621831176 * 65536) by (nonlinear_arith);
        lemma_fx_mul_bound_cap(x4 as int, x4 as int, 6383755, 6383755, 621831176);
        lemma_tdiv_bound(x2 as int, 2, 646812);
        lemma_tdiv_bound(x4 as int, 24, 6383755);
        lemma_tdiv_bound(x6 as int, 720, 63004904);
        assert(646812int / 2 == 323406) by (nonlinear_arith);
        assert(6383755int / 24 == 265989) by (nonlinear_arith);
        assert(63004904int / 720 == 87506) by (nonlinear_arith);
    }
    let x8 = fx_mul(x4, x4);
    proof {
        lemma_tdiv_bound(x8 as int, 40320, 621831176);
        assert(621831176int / 40320 == 15422) by (nonlinear_arith);
    }
    FX_ONE - idiv(x2, 2) + idiv(x4, 24) - idiv(x6, 720) + idiv(x8, 40320)
}

fn tan_of_rad(x: i64) -> (r: i64)
    requires
        0 <= x <= 205887,
    ensures
        r == tan_of_rad_s(x as int),
        0 <= r <= 0x100_0000,
{
    let s = sin_fx(x);
    let c = cos_fx(x);
    let cc: i64 = if c < 1 {
        1
    } else {
        c
    };
    let t = fx_div(s, cc);
    if t < 0 {
        0
    } else if t > 0x100_0000 {
        0x100_0000
    } else {
        t
    }
}

/// The forward axis: from the look-at point toward the camera; a degenerate
/// configuration falls back to the world z axis.
pub open spec fn w_axis_s(lookfrom: Vec3i, lookat: Vec3i) -> Vec3i {
    let d = sub_v(lookfrom, lookat);
    if 12 <= len2_v(d) {
        unit_v(d)
    } else {
        Vec3i { x: 0, y: 0, z: 65536 }
    }
}

/// The right axis: up crossed with the forward axis; a degenerate (parallel)
/// configuration falls back to the world x axis.
pub open spec fn u_axis_s(viewup: Vec3i, w: Vec3i) -> Vec3i {
    let c = cross_v(viewup, w);
    if 12 <= len2_v(c) {
        unit_v(c)
    } else {
        Vec3i { x: 65536, y: 0, z: 0 }
    }
}

/// The viewport height: twice the half-angle tangent times the focus
/// distance, clamped into the world box.
pub open spec fn viewport_height_s(vfov: int, focus_dist: int) -> int {
    let vh = fx_mul_s(2 * tan_half_fov_s(vfov), focus_dist);
    if vh < 0 {
        0
    } else if vh > 0x1000_0000 {
        0x1000_0000
    } else {
        vh
    }
}

/// The viewport width: the height scaled by the pixel aspect ratio.
pub open spec fn viewport_width_s(vh: int, image_width: int, image_height: int) -> int {
    let vw = tdiv(vh * image_width, image_height);
    if vw > 0x1000_0000 {
        0x1000_0000
    } else {
        vw
    }
}

/// The radius of the defocus disk, clamped into the world box.
pub open spec fn defocus_radius_s(focus_dist: int, angle: int) -> int {
    let r = fx_mul_s(focus_dist, tan_half_defocus_s(angle));
    if r < 0 {
        0
    } else if r > 0x1000_0000 {
        0x1000_0000
    } else {
        r
    }
}

/// The location of the upper-left pixel centre.
pub open spec fn upper_left_s(
    lookfrom: Vec3i,
    focus_dist: int,
    w: Vec3i,
    vpu: Vec3i,
    vpv: Vec3i,
    du: Vec3i,
    dv: Vec3i,
) -> Vec3i {
    let corner = sub_v(
        sub_v(sub_v(lookfrom, scale_v(focus_dist, w)), div_int_v(vpu, 2)),
        div_int_v(vpv, 2),
    );
    clamp_box_v(add_v(corner, div_int_v(add_v(du, dv), 2)), 0x2000_0000)
}

/// The offset carried by an optional sub-pixel jitter.
pub open spec fn offset_v(offset: Option<Vector3>) -> Vec3i {
    match offset {
        Some(o) => o@,
        None => Vec3i { x: 0, y: 0, z: 0 },
    }
}

/// The world-space centre of pixel `(i, j)`, shifted by `off` pixels.
pub open spec fn pixel_center_v(c: Camera, i: int, j: int, off: Vec3i) -> Vec3i {
    clamp_box_v(
        add_v(
            add_v(c.upper_left_pixel@, scale_v(i * 65536 + off.x, c.pixel.delta_u@)),
            scale_v(j * 65536 + off.y, c.pixel.delta_v@),
        ),
        0x2000_0000,
    )
}

impl Default for Camera {
    /// The default camera: at the origin, looking down the negative z axis,
    /// with a vertical field of view of 90 degrees and focus distance 10.
    fn default() -> (r: Camera)
        ensures
            r == Camera::default_spec(),
            camera_wf(r),
    {
        let zero = Vector3 { x: 0, y: 0, z: 0 };
        Camera {
            viewport: Viewport { height: 0, width: 0, u: zero, v: zero },
            pixel: Pixel { delta_u: zero, delta_v: zero },
            upper_left_pixel: zero,
            vertical_fov: 5898240,
            lookfrom: zero,
            lookat: Vector3 { x: 0, y: 0, z: -65536 },
            viewup: Vector3 { x: 0, y: 65536, z: 0 },
            basis: Basis { u: zero, v: zero, w: zero },
            defocus: Defocus { angle: 0, disk_u: zero, disk_v: zero },
            focus_dist: 655360,
        }
    }
}

impl Camera {
    pub fn new(lookfrom: Point3, lookat: Point3) -> (r: Camera)
        requires
            bounded_v(lookfrom@, 0x1000_0000),
            bounded_v(lookat@, 0x1000_0000),
        ensures
            r == (Camera { lookfrom, lookat, ..Camera::default_spec() }),
            camera_wf(r),
    {
        Self::default().with_lookfrom(lookfrom).with_lookat(lookat)
    }

    /// The value `Default::default` returns, as a spec constant.
    pub open spec fn default_spec() -> Camera {
        let zero = Vector3 { x: 0i64, y: 0i64, z: 0i64 };
        Camera {
            viewport: Viewport { height: 0i64, width: 0i64, u: zero, v: zero },
            pixel: Pixel { delta_u: zero, delta_v: zero },
            upper_left_pixel: zero,
            vertical_fov: 5898240i64,
            lookfrom: zero,
            lookat: Vector3 { x: 0i64, y: 0i64, z: -65536i64 },
            viewup: Vector3 { x: 0i64, y: 65536i64, z: 0i64 },
            basis: Basis { u: zero, v: zero, w: zero },
            defocus: Defocus { angle: 0i64, disk_u: zero, disk_v: zero },
            focus_dist: 655360i64,
        }
    }

    pub fn with_vertical_fov(self, vertical_fov: i64) -> (r: Camera)
        requires
            camera_wf(self),
            65536 <= vertical_fov <= 11730944,
        ensures
            r == (Camera { vertical_fov, ..self }),
            camera_wf(r),
    {
        Camera { vertical_fov, ..self }
    }

    pub fn with_lookfrom(self, lookfrom: Point3) -> (r: Camera)
        requires
            camera_wf(self),
            bounded_v(lookfrom@, 0x1000_0000),
        ensures
            r == (Camera { lookfrom, ..self }),
            camera_wf(r),
    {
        Camera { lookfrom, ..self }
    }

    pub fn with_lookat(self, lookat: Point3) -> (r: Camera)
        requires
            camera_wf(self),
            bounded_v(lookat@, 0x1000_0000),
        ensures
            r == (Camera { lookat, ..self }),
            camera_wf(r),
    {
        Camera { lookat, ..self }
    }

    pub fn with_viewup(self, viewup: Vector3) -> (r: Camera)
        requires
            camera_wf(self),
            bounded_v(viewup@, 0x1000_0000),
        ensures
            r == (Camera { viewup, ..self }),
            camera_wf(r),
    {
        Camera { viewup, ..self }
    }

    pub fn with_focus_dist(self, focus_dist: i64) -> (r: Camera)
        requires
            camera_wf(self),
            4096 <= focus_dist <= 0x100_0000,
        ensures
            r == (Camera { focus_dist, ..self }),
            camera_wf(r),
    {
        Camera { focus_dist, ..self }
    }

    pub fn with_defocus_angle(self, angle: i64) -> (r: Camera)
        requires
            camera_wf(self),
            0 <= angle <= 11730944,
        ensures
            r == (Camera { defocus: Defocus { angle, ..self.defocus }, ..self }),
            camera_wf(r),
    {
        Camera { defocus: Defocus { angle, ..self.defocus }, ..self }
    }

    /// Derive the orthonormal camera frame from look-from, look-at and up.
    fn derive_basis(&self) -> (r: Basis)
        requires
            camera_wf(*self),
        ensures
            r.w@ == w_axis_s(self.lookfrom@, self.lookat@),
            r.u@ == u_axis_s(self.viewup@, r.w@),
            r.v@ == cross_v(r.w@, r.u@),
            bounded_v(r.w@, 131072),
            bounded_v(r.u@, 131072),
            bounded_v(r.v@, 0x8_0000),
    {
        let forward = self.lookfrom.sub(&self.lookat);
        let w = if forward.length_squared() >= 12 {
            forward.normalize()
        } else {
            Vector3 { x: 0, y: 0, z: FX_ONE }
        };
        let up_cross = self.viewup.cross(&w);
        proof {
            assert(0x1000_0000 * 131072 <= 0x2000_0000 * 65536) by (nonlinear_arith);
            lemma_fx_mul_bound_cap(self.viewup@.x, w@.y, 0x1000_0000, 131072, 0x2000_0000);
            lemma_fx_mul_bound_cap(self.viewup@.y, w@.x, 0x1000_0000, 131072, 0x2000_0000);
            lemma_fx_mul_bound_cap(self.viewup@.y, w@.z, 0x1000_0000, 131072, 0x2000_0000);
            lemma_fx_mul_bound_cap(self.viewup@.z, w@.y, 0x1000_0000, 131072, 0x2000_0000);
            lemma_fx_mul_bound_cap(self.viewup@.z, w@.x, 0x1000_0000, 131072, 0x2000_0000);
            lemma_fx_mul_bound_cap(self.viewup@.x, w@.z, 0x1000_0000, 131072, 0x2000_0000);
        }
        let u = if up_cross.length_squared() >= 12 {
            up_cross.normalize()
        } else {
            Vector3 { x: FX_ONE, y: 0, z: 0 }
        };
        let v = w.cross(&u);
        proof {
            assert(131072 * 131072 <= 0x4_0000 * 65536) by (nonlinear_arith);
            lemma_fx_mul_bound_cap(w@.y, u@.z, 131072, 131072, 0x4_0000);
            lemma_fx_mul_bound_cap(w@.z, u@.y, 131072, 131072, 0x4_0000);
            lemma_fx_mul_bound_cap(w@.z, u@.x, 131072, 131072, 0x4_0000);
            lemma_fx_mul_bound_cap(w@.x, u@.z, 131072, 131072, 0x4_0000);
            lemma_fx_mul_bound_cap(w@.x, u@.y, 131072, 131072, 0x4_0000);
            lemma_fx_mul_bound_cap(w@.y, u@.x, 131072, 131072, 0x4_0000);
        }
        Basis { u, v, w }
    }

    /// The viewport height and width for the given image size.
    fn viewport_extent(&self, image_width: usize, image_height: usize) -> (r: (i64, i64))
        requires
            camera_wf(*self),
            1 <= image_width <= 32768,
            1 <= image_height <= 32768,
        ensures
            r.0 == viewport_height_s(self.vertical_fov as int, self.focus_dist as int),
            r.1 == viewport_width_s(r.0 as int, image_width as int, image_height as int),
            0 <= r.0 <= 0x1000_0000,
            0 <= r.1 <= 0x1000_0000,
    {
        let tan_half = tan_of_rad(idiv(deg_to_rad(self.vertical_fov), 2));
        proof {
            assert(0x200_0000 * 0x100_0000 <= 0x200_0000_0000 * 65536) by (nonlinear_arith);
            lemma_fx_mul_bound_cap(
                2 * tan_half as int,
                self.focus_dist as int,
                0x200_0000,
                0x100_0000,
                0x200_0000_0000,
            );
        }
        let vh0 = fx_mul(2 * tan_half, self.focus_dist);
        let viewport_height: i64 = if vh0 < 0 {
            0
        } else if vh0 > 0x1000_0000 {
            0x1000_0000
        } else {
            vh0
        };
        proof {
            assert(viewport_height as int * (image_width as int) <= 0x1000_0000int * 32768)
                by (nonlinear_arith)
                requires
                    0 <= viewport_height as int <= 0x1000_0000,
                    0 <= image_width as int <= 32768,
            ;
            assert(viewport_height as int * (image_width as int) >= 0) by (nonlinear_arith)
                requires
                    0 <= viewport_height as int,
                    0 <= image_width as int,
            ;
            lemma_tdiv_error(viewport_height as int * (image_width as int), image_height as int);
        }
        let vw0 = idiv(viewport_height * (image_width as i64), image_height as i64);
        let viewport_width: i64 = if vw0 > 0x1000_0000 {
            0x1000_0000
        } else {
            vw0
        };
        (viewport_height, viewport_width)
    }

    /// The defocus disk radius from the focus distance and defocus angle.
    fn defocus_disk_radius(&self) -> (r: i64)
        requires
            camera_wf(*self),
        ensures
            r == defocus_radius_s(self.focus_dist as int, self.defocus.angle as int),
            0 <= r <= 0x1000_0000,
    {
        let tan_half = tan_of_rad(deg_to_rad(idiv(self.defocus.angle, 2)));
        proof {
            assert(0x100_0000 * 0x100_0000 <= 0x100_0000_0000 * 65536) by (nonlinear_arith);
            lemma_fx_mul_bound_cap(
                self.focus_dist as int,
                tan_half as int,
                0x100_0000,
                0x100_0000,
                0x100_0000_0000,
            );
        }
        let defocus_radius0 = fx_mul(self.focus_dist, tan_half);
        if defocus_radius0 < 0 {
            0
        } else if defocus_radius0 > 0x1000_0000 {
            0x1000_0000
        } else {
            defocus_radius0
        }
    }

    /// The location of the upper-left pixel centre, from the derived fields.
    fn calc_upper_left_pixel_loc(&self) -> (r: Point3)
        requires
            camera_wf(*self),
        ensures
            r@ == upper_left_s(
                self.lookfrom@,
                self.focus_dist as int,
                self.basis.w@,
                self.viewport.u@,
                self.viewport.v@,
                self.pixel.delta_u@,
                self.pixel.delta_v@,
            ),
            bounded_v(r@, 0x2000_0000),
    {
        proof {
            assert(0x100_0000 * 0x8_0000 <= 0x1000_0000 * 65536) by (nonlinear_arith);
            lemma_scale_bound(self.focus_dist as int, self.basis.w@, 0x100_0000, 0x8_0000, 0x1000_0000);
            lemma_tdiv_error(self.viewport.u@.x, 2);
            lemma_tdiv_error(self.viewport.u@.y, 2);
            lemma_tdiv_error(self.viewport.u@.z, 2);
            lemma_tdiv_error(self.viewport.v@.x, 2);
            lemma_tdiv_error(self.viewport.v@.y, 2);
            lemma_tdiv_error(self.viewport.v@.z, 2);
            lemma_tdiv_error(self.pixel.delta_u@.x + self.pixel.delta_v@.x, 2);
            lemma_tdiv_error(self.pixel.delta_u@.y + self.pixel.delta_v@.y, 2);
            lemma_tdiv_error(self.pixel.delta_u@.z + self.pixel.delta_v@.z, 2);
        }
        let viewport_upper_left = self
            .lookfrom
            .sub(&self.basis.w.scale(self.focus_dist))
            .sub(&self.viewport.u.div_by(2))
            .sub(&self.viewport.v.div_by(2));
        viewport_upper_left.add(&self.pixel.delta_u.add(&self.pixel.delta_v).div_by(2)).clamp_box(
            0x2000_0000,
        )
    }

    /// Recompute every derived quantity for the given image size: the basis,
    /// the viewport, the pixel deltas, the upper-left pixel and the defocus
    /// disk, in one atomic step.
    #[verifier::rlimit(100)]
    pub fn with_viewport_size(self, image_width: usize, image_height: usize) -> (r: Camera)
        requires
            camera_wf(self),
            1 <= image_width <= 32768,
            1 <= image_height <= 32768,
        ensures
            camera_wf(r),
            r.vertical_fov == self.vertical_fov,
            r.lookfrom == self.lookfrom,
            r.lookat == self.lookat,
            r.viewup == self.viewup,
            r.focus_dist == self.focus_dist,
            r.defocus.angle == self.defocus.angle,
            r.basis.w@ == w_axis_s(self.lookfrom@, self.lookat@),
            r.basis.u@ == u_axis_s(self.viewup@, w_axis_s(self.lookfrom@, self.lookat@)),
            r.basis.v@ == cross_v(r.basis.w@, r.basis.u@),
            r.viewport.height == viewport_height_s(self.vertical_fov as int, self.focus_dist as int),
            r.viewport.width == viewport_width_s(
                r.viewport.height as int,
                image_width as int,
                image_height as int,
            ),
            r.viewport.u@ == clamp_box_v(
                scale_v(r.viewport.width as int, r.basis.u@),
                0x1000_0000,
            ),
            r.viewport.v@ == clamp_box_v(
                scale_v(-r.viewport.height as int, r.basis.v@),
                0x1000_0000,
            ),
            r.pixel.delta_u@ == clamp_box_v(
                div_int_v(r.viewport.u@, image_width as int),
                0x100_0000,
            ),
            r.pixel.delta_v@ == clamp_box_v(
                div_int_v(r.viewport.v@, image_height as int),
                0x100_0000,
            ),
            r.upper_left_pixel@ == upper_left_s(
                self.lookfrom@,
                self.focus_dist as int,
                r.basis.w@,
                r.viewport.u@,
                r.viewport.v@,
                r.pixel.delta_u@,
                r.pixel.delta_v@,
            ),
            r.defocus.disk_u@ == clamp_box_v(
                scale_v(
                    defocus_radius_s(self.focus_dist as int, self.defocus.angle as int),
                    r.basis.u@,
                ),
                0x1000_0000,
            ),
            r.defocus.disk_v@ == clamp_box_v(
                scale_v(
                    defocus_radius_s(self.focus_dist as int, self.defocus.angle as int),
                    r.basis.v@,
                ),
                0x1000_0000,
            ),
    {
        let basis = self.derive_basis();
        let extent = self.viewport_extent(image_width, image_height);
        let viewport_height = extent.0;
        let viewport_width = extent.1;
        proof {
            assert(0x1000_0000 * 131072 <= 0x2000_0000_0000 * 65536) by (nonlinear_arith);
            lemma_scale_bound(viewport_width as int, basis.u@, 0x1000_0000, 131072, 0x2000_0000_0000);
            lemma_scale_bound(
                -viewport_height as int,
                basis.v@,
                0x1000_0000,
                0x8_0000,
                0x2000_0000_0000,
            );
        }
        let viewport_u = basis.u.scale(viewport_width).clamp_box(0x1000_0000);
        let viewport_v = basis.v.scale(-viewport_height).clamp_box(0x1000_0000);
        let delta_u = viewport_u.div_by(image_width as i64).clamp_box(0x100_0000);
        let delta_v = viewport_v.div_by(image_height as i64).clamp_box(0x100_0000);
        let mid = Camera {
            viewport: Viewport {
                height: viewport_height,
                width: viewport_width,
                u: viewport_u,
                v: viewport_v,
            },
            pixel: Pixel { delta_u, delta_v },
            basis,
            ..self
        };
        let upper_left_pixel = mid.calc_upper_left_pixel_loc();
        let defocus_radius = self.defocus_disk_radius();
        proof {
            assert(0x1000_0000 * 131072 <= 0x2000_0000_0000 * 65536) by (nonlinear_arith);
            lemma_scale_bound(defocus_radius as int, basis.u@, 0x1000_0000, 131072, 0x2000_0000_0000);
            lemma_scale_bound(defocus_radius as int, basis.v@, 0x1000_0000, 0x8_0000, 0x2000_0000_0000);
        }
        let disk_u = basis.u.scale(defocus_radius).clamp_box(0x1000_0000);
        let disk_v = basis.v.scale(defocus_radius).clamp_box(0x1000_0000);
        Camera {
            upper_left_pixel,
            defocus: Defocus { angle: self.defocus.angle, disk_u, disk_v },
            ..mid
        }
    }

    /// The world-space centre of pixel `(i, j)`, with an optional sub-pixel
    /// offset measured in pixels.
    pub fn pixel_center(&self, i: usize, j: usize, offset: Option<Vector3>) -> (r: Point3)
        requires
            camera_wf(*self),
            i <= 32768,
            j <= 32768,
            offset matches Some(o) ==> bounded_v(o@, 131072),
        ensures
            r@ == pixel_center_v(*self, i as int, j as int, offset_v(offset)),
            bounded_v(r@, 0x2000_0000),
    {
        let off = match offset {
            Some(o) => o,
            None => Vector3 { x: 0, y: 0, z: 0 },
        };
        let ku: i64 = (i as i64) * FX_ONE + off.x;
        let kv: i64 = (j as i64) * FX_ONE + off.y;
        proof {
            assert(2147614720 * 0x100_0000 <= 549789368320 * 65536) by (nonlinear_arith);
            lemma_scale_bound(ku as int, self.pixel.delta_u@, 2147614720, 0x100_0000, 549789368320);
            lemma_scale_bound(kv as int, self.pixel.delta_v@, 2147614720, 0x100_0000, 549789368320);
        }
        self
            .upper_left_pixel
            .add(&self.pixel.delta_u.scale(ku))
            .add(&self.pixel.delta_v.scale(kv))
            .clamp_box(0x2000_0000)
    }

    pub fn lookfrom(&self) -> (r: Point3)
        ensures
            r == self.lookfrom,
    {
        self.lookfrom
    }

    /// The origin of the next camera ray: the look-from point, jittered
    /// across the defocus disk when a defocus angle is set.
    pub fn origin(&self) -> (r: Point3)
        requires
            camera_wf(*self),
        ensures
            bounded_v(r@, 0x2000_0000),
            self.defocus.angle <= 0 ==> r@ == self.lookfrom@,
            self.defocus.angle > 0 ==> exists|p: Vec3i|
                in_unit_disk(p) && r@ == #[trigger] defocus_sample_v(*self, p),
    {
        if self.defocus.angle > 0 {
            self.defocus_disk_sample()
        } else {
            self.lookfrom()
        }
    }

    fn defocus_disk_sample(&self) -> (r: Vector3)
        requires
            camera_wf(*self),
        ensures
            bounded_v(r@, 0x2000_0000),
            exists|p: Vec3i| in_unit_disk(p) && r@ == #[trigger] defocus_sample_v(*self, p),
    {
        // Returns a random point in the camera defocus disk.
        let p = random_in_unit_disk();
        proof {
            assert(65536 * 0x1000_0000 == 0x1000_0000 * 65536) by (nonlinear_arith);
            lemma_scale_bound(p@.x, self.defocus.disk_u@, 65536, 0x1000_0000, 0x1000_0000);
            lemma_scale_bound(p@.y, self.defocus.disk_v@, 65536, 0x1000_0000, 0x1000_0000);
        }
        let r = self
            .lookfrom
            .add(&self.defocus.disk_u.scale(p.x))
            .add(&self.defocus.disk_v.scale(p.y))
            .clamp_box(0x2000_0000);
        proof {
            assert(in_unit_disk(p@) && r@ == defocus_sample_v(*self, p@));
        }
        r
    }
}

/// A sample point of the unit disk in the xy plane.
pub open spec fn in_unit_disk(p: Vec3i) -> bool {
    &&& bounded_v(p, 65536)
    &&& p.z == 0
    &&& len2_v(p) < 65536
}

/// The ray origin produced by the lens sample `p`: the look-from point
/// shifted along the defocus disk's axes.
pub open spec fn defocus_sample_v(c: Camera, p: Vec3i) -> Vec3i {
    clamp_box_v(
        add_v(
            add_v(c.lookfrom@, scale_v(p.x, c.defocus.disk_u@)),
            scale_v(p.y, c.defocus.disk_v@),
        ),
        0x2000_0000,
    )
}

/// A random point in the unit disk of the xy plane, by rejection sampling
/// with a bounded number of tries (the fallback is the disk's centre).
fn random_in_unit_disk() -> (r: Vector3)
    ensures
        in_unit_disk(r@),
{
    let mut k: usize = 0;
    while k < 64
        invariant
            k <= 64,
        decreases 64 - k,
    {
        let cube = crate::types::random_vector_in_cube();
        let p = Vector3 { x: cube.x, y: cube.y, z: 0 };
        let lensq = p.length_squared();
        if lensq < FX_ONE {
            return p;
        }
        k = k + 1;
    }
    Vector3 { x: 0, y: 0, z: 0 }
}

} // verus!
