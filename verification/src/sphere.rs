//! The sphere surface: closed-form quadratic ray intersection.

use vstd::prelude::*;

use crate::fixed::fx_div;
use crate::fixed::fx_div_s;
use crate::fixed::fx_mul;
use crate::fixed::fx_mul_s;
use crate::fixed::fx_sqrt;
use crate::fixed::fx_sqrt_s;
use crate::fixed::lemma_fx_mul_bound_cap;
use crate::fixed::lemma_isqrt_bracket;
use crate::material::Material;
use crate::object::hit_new_v;
use crate::object::hit_wf;
use crate::object::Hit;
use crate::object::HitView;
use crate::object::Hittable;
use crate::types::at_v;
use crate::types::bounded_v;
use crate::types::dot_v;
use crate::types::lemma_dot_bound;
use crate::types::lemma_len2_neg;
use crate::types::lemma_len2_nonneg;
use crate::types::len2_v;
use crate::types::ray_wf;
use crate::types::sub_v;
use crate::types::unit_v;
use crate::types::Point3;
use crate::types::Ray;
use crate::types::RayView;

verus! {

/// A sphere bound to a material.
#[derive(Clone, Copy, Debug, PartialEq, Eq, Structural)]
pub struct Sphere {
    pub center: Point3,
    pub radius: i64,
    pub material: Material,
}

/// Whether the ray parameter `t` yields an admissible intersection: it lies
/// in `[t_min, t_max)`, the point stays inside the world box, and the point
/// is far enough from the centre to carry a usable normal. Points that fail
/// the latter two degenerate checks count as misses.
pub open spec fn sphere_acceptable(s: Sphere, ray: RayView, t: int, t_min: int, t_max: int) -> bool {
    &&& t_min <= t < t_max
    &&& bounded_v(at_v(ray, t), 0x4000_0000)
    &&& 12 <= len2_v(sub_v(at_v(ray, t), s.center@))
}

/// The hit record built for an admissible root: the outward normal is the
/// normalized vector from the centre to the hit point.
pub open spec fn sphere_mk_hit(s: Sphere, ray: RayView, t: int) -> HitView {
    let point = at_v(ray, t);
    hit_new_v(t, point, ray, unit_v(sub_v(point, s.center@)), s.material)
}

/// The exact description of the sphere intersection routine: solve the
/// quadratic, then accept the smaller root if admissible, else the larger.
pub open spec fn sphere_hit_spec(s: Sphere, ray: RayView, t_min: int, t_max: int) -> Option<
    HitView,
> {
    let oc = sub_v(s.center@, ray.origin);
    let a = dot_v(ray.direction, ray.direction);
    let h = dot_v(ray.direction, oc);
    let c = len2_v(oc) - fx_mul_s(s.radius as int, s.radius as int);
    let disc = fx_mul_s(h, h) - fx_mul_s(a, c);
    if s.radius <= 0 {
        None
    } else if disc < 0 {
        None
    } else {
        let sd = fx_sqrt_s(disc);
        let root1 = fx_div_s(h - sd, a);
        let root2 = fx_div_s(h + sd, a);
        if sphere_acceptable(s, ray, root1, t_min, t_max) {
            Some(sphere_mk_hit(s, ray, root1))
        } else if sphere_acceptable(s, ray, root2, t_min, t_max) {
            Some(sphere_mk_hit(s, ray, root2))
        } else {
            None
        }
    }
}

/// A reported intersection lies inside the requested interval.
pub proof fn lemma_sphere_hit_in_range(s: Sphere, ray: RayView, t_min: int, t_max: int)
    ensures
        sphere_hit_spec(s, ray, t_min, t_max) matches Some(h) ==> t_min <= h.t < t_max,
{
}

/// Law: at any reported intersection the outward normal agrees with the
/// centre-to-point direction: their dot product is strictly positive.
pub proof fn lemma_hit_normal_outward(s: Sphere, ray: RayView, t_min: int, t_max: int)
    requires
        s.wf(),
        ray_wf(ray),
    ensures
        sphere_hit_spec(s, ray, t_min, t_max) matches Some(h) ==> dot_v(
            unit_v(sub_v(h.point, s.center@)),
            sub_v(h.point, s.center@),
        ) > 0,
{
    if let Some(h) = sphere_hit_spec(s, ray, t_min, t_max) {
        let rel = sub_v(h.point, s.center@);
        crate::types::lemma_unit_dot_pos(rel);
    }
}

/// Shrinking the upper end of the interval keeps a nearer hit unchanged and
/// turns everything else into a miss.
pub proof fn lemma_sphere_hit_narrow(s: Sphere, ray: RayView, t_min: int, t1: int, t2: int)
    requires
        ray_wf(ray),
        t1 <= t2,
    ensures
        match sphere_hit_spec(s, ray, t_min, t2) {
            Some(h) => if h.t < t1 {
                sphere_hit_spec(s, ray, t_min, t1) == Some(h)
            } else {
                sphere_hit_spec(s, ray, t_min, t1) is None
            },
            None => sphere_hit_spec(s, ray, t_min, t1) is None,
        },
{
    let oc = sub_v(s.center@, ray.origin);
    let a = dot_v(ray.direction, ray.direction);
    let h = dot_v(ray.direction, oc);
    let c = len2_v(oc) - fx_mul_s(s.radius as int, s.radius as int);
    let disc = fx_mul_s(h, h) - fx_mul_s(a, c);
    if s.radius > 0 && disc >= 0 {
        let sd = fx_sqrt_s(disc);
        lemma_isqrt_bracket(disc * 65536);
        let root1 = fx_div_s(h - sd, a);
        let root2 = fx_div_s(h + sd, a);
        assert((h - sd) * 65536 <= (h + sd) * 65536);
        crate::fixed::lemma_tdiv_mono((h - sd) * 65536, (h + sd) * 65536, a);
        assert(root1 <= root2);
    }
}

impl Sphere {
    /// A negative radius is clamped to zero; a zero-radius sphere never
    /// intersects anything.
    pub fn new(center: Point3, radius: i64, material: Material) -> (r: Sphere)
        requires
            bounded_v(center@, 0x1000_0000),
            -0x1000_0000 <= radius <= 0x1000_0000,
            material.wf(),
        ensures
            r.center == center,
            r.radius == (if radius >= 0 { radius } else { 0 }),
            r.material == material,
            r.wf(),
    {
        let radius = if radius >= 0 { radius } else { 0 };
        Sphere { center, radius, material }
    }

    /// Test one candidate root; `None` when it is not admissible.
    fn check_root(&self, ray: &Ray, root: i64, t_min: i64, t_max: i64) -> (r: Option<Hit>)
        requires
            self.wf(),
            ray_wf(ray@),
            0 <= t_min,
            t_max <= 0x1000_0000,
        ensures
            r matches Some(hh) ==> sphere_acceptable(
                *self,
                ray@,
                root as int,
                t_min as int,
                t_max as int,
            ) && hh@ == sphere_mk_hit(*self, ray@, root as int) && t_min <= hh.t < t_max && hit_wf(
                hh@,
            ) && hh.material == self.material,
            r is None ==> !sphere_acceptable(*self, ray@, root as int, t_min as int, t_max as int),
    {
        if !(t_min <= root && root < t_max) {
            return None;
        }
        let point = ray.at(root);
        if point.x < -0x4000_0000 || point.x > 0x4000_0000 || point.y < -0x4000_0000 || point.y
            > 0x4000_0000 || point.z < -0x4000_0000 || point.z > 0x4000_0000 {
            return None;
        }
        let rel = point.sub(&self.center);
        if rel.length_squared() < 12 {
            return None;
        }
        let outward = rel.normalize();
        proof {
            if dot_v(ray@.direction, outward@) >= 0 {
                lemma_len2_neg(outward@);
            }
        }
        Some(Hit::new(root, point, ray, outward, self.material))
    }
}

impl Hittable for Sphere {
    open spec fn wf(&self) -> bool {
        &&& bounded_v(self.center@, 0x1000_0000)
        &&& 0 <= self.radius <= 0x1000_0000
        &&& self.material.wf()
    }

    open spec fn hit_spec(&self, ray: RayView, t_min: int, t_max: int) -> Option<HitView> {
        sphere_hit_spec(*self, ray, t_min, t_max)
    }

    fn hit(&self, ray: &Ray, t_min: i64, t_max: i64) -> (r: Option<Hit>) {
        if self.radius <= 0 {
            return None;
        }
        let oc = self.center.sub(&ray.origin);
        let a = ray.direction.length_squared();
        let h = ray.direction.dot(&oc);
        proof {
            lemma_len2_nonneg(ray@.direction);
            assert(131072 * 131072 == 262144 * 65536) by (nonlinear_arith);
            lemma_dot_bound(ray@.direction, ray@.direction, 131072, 131072, 262144);
            assert(131072 * 0x5000_0000 == 0xa000_0000 * 65536) by (nonlinear_arith);
            lemma_dot_bound(ray@.direction, sub_v(self.center@, ray@.origin), 131072, 0x5000_0000, 0xa000_0000);
            assert(0x5000_0000 * 0x5000_0000 == 27487790694400 * 65536) by (nonlinear_arith);
            lemma_dot_bound(
                sub_v(self.center@, ray@.origin),
                sub_v(self.center@, ray@.origin),
                0x5000_0000,
                0x5000_0000,
                27487790694400,
            );
            assert(0x1000_0000 * 0x1000_0000 == 1099511627776 * 65536) by (nonlinear_arith);
            lemma_fx_mul_bound_cap(
                self.radius as int,
                self.radius as int,
                0x1000_0000,
                0x1000_0000,
                1099511627776,
            );
        }
        let c = oc.length_squared() - fx_mul(self.radius, self.radius);
        proof {
            assert(0x1_e000_0000 * 0x1_e000_0000 <= 989560464998400 * 65536) by (nonlinear_arith);
            lemma_fx_mul_bound_cap(
                h as int,
                h as int,
                0x1_e000_0000,
                0x1_e000_0000,
                989560464998400,
            );
            assert(786432 * 83562883710976 <= 1002754604531712 * 65536) by (nonlinear_arith);
            lemma_fx_mul_bound_cap(a as int, c as int, 786432, 83562883710976, 1002754604531712);
        }
        let disc = fx_mul(h, h) - fx_mul(a, c);

        if disc >= 0 {
            let sqrt_d = fx_sqrt(disc);
            proof {
                lemma_isqrt_bracket(disc as int * 65536);
                assert(fx_sqrt_s(disc as int) <= 0x10_0000_0000) by {
                    assert(0x10_0000_0000 * 0x10_0000_0000 == 0x100_0000_0000_0000_0000)
                        by (nonlinear_arith);
                    assert(disc as int * 65536 < 0x100_0000_0000_0000_0000);
                    if fx_sqrt_s(disc as int) > 0x10_0000_0000 {
                        assert(fx_sqrt_s(disc as int) * fx_sqrt_s(disc as int)
                            > 0x10_0000_0000 * 0x10_0000_0000) by (nonlinear_arith)
                            requires fx_sqrt_s(disc as int) > 0x10_0000_0000;
                    }
                }
            }
            // Find the nearest root that lies in the acceptable range.
            let root1 = fx_div(h - sqrt_d, a);
            if let Some(found) = self.check_root(ray, root1, t_min, t_max) {
                return Some(found);
            }
            let root2 = fx_div(h + sqrt_d, a);
            if let Some(found) = self.check_root(ray, root2, t_min, t_max) {
                return Some(found);
            }
        }
        None
    }
}

} // verus!
