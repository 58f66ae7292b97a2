//! The intersection record and the polymorphic surface contract.

use vstd::prelude::*;

use crate::material::Material;
use crate::sphere::sphere_hit_spec;
use crate::sphere::Sphere;
use crate::types::bounded_v;
use crate::types::dot_v;
use crate::types::lemma_dot_neg_right;
use crate::types::len2_v;
use crate::types::neg_v;
use crate::types::ray_wf;
use crate::types::Point3;
use crate::types::Ray;
use crate::types::RayView;
use crate::types::Vec3i;
use crate::types::Vector3;

verus! {

/// Mathematical model of an intersection record.
pub struct HitView {
    pub t: int,
    pub point: Vec3i,
    pub normal: Vec3i,
    pub front_face: bool,
    pub material: Material,
}

/// The record of the nearest intersection of a ray with a surface.
#[derive(Clone, Copy, Debug, PartialEq, Eq, Structural)]
pub struct Hit {
    pub t: i64,
    pub point: Point3,
    pub normal: Vector3,
    pub front_face: bool,
    pub material: Material,
}

impl View for Hit {
    type V = HitView;

    open spec fn view(&self) -> HitView {
        HitView {
            t: self.t as int,
            point: self.point@,
            normal: self.normal@,
            front_face: self.front_face,
            material: self.material,
        }
    }
}

/// Well-formedness of an intersection record: the point lies in the world
/// box, the ray parameter is admissible, and the normal is a usable unit
/// direction.
pub open spec fn hit_wf(h: HitView) -> bool {
    &&& bounded_v(h.point, 0x4000_0000)
    &&& bounded_v(h.normal, 131072)
    &&& 16384 <= len2_v(h.normal)
    &&& 0 <= h.t <= 0x1000_0000
}

/// The model of building a hit record: `front_face` records whether the ray
/// runs against the outward normal, and the stored normal is flipped to face
/// the ray when it does not.
pub open spec fn hit_new_v(
    t: int,
    point: Vec3i,
    ray: RayView,
    outward_normal: Vec3i,
    material: Material,
) -> HitView {
    let ff = dot_v(ray.direction, outward_normal) < 0;
    HitView {
        t: t,
        point: point,
        normal: if ff {
            outward_normal
        } else {
            neg_v(outward_normal)
        },
        front_face: ff,
        material: material,
    }
}

impl Hit {
    /// NOTE: the parameter `outward_normal` is assumed to have unit length.
    pub fn new(
        t: i64,
        point: Point3,
        ray: &Ray,
        outward_normal: Vector3,
        material: Material,
    ) -> (r: Hit)
        requires
            bounded_v(ray@.direction, 131072),
            bounded_v(outward_normal@, 131072),
        ensures
            r@ == hit_new_v(t as int, point@, ray@, outward_normal@, material),
            dot_v(ray@.direction, r@.normal) <= 0,
    {
        proof {
            lemma_hit_normal_orientation(t as int, point@, ray@, outward_normal@, material);
        }
        let front_face = ray.direction.dot(&outward_normal) < 0;
        let normal = if front_face {
            outward_normal
        } else {
            outward_normal.neg()
        };
        Hit { t, point, normal, front_face, material }
    }
}

/// Law: a hit record is front-facing exactly when the ray direction opposes
/// the outward normal, and the stored normal never points along the ray.
pub proof fn lemma_hit_normal_orientation(
    t: int,
    point: Vec3i,
    ray: RayView,
    outward_normal: Vec3i,
    material: Material,
)
    ensures
        hit_new_v(t, point, ray, outward_normal, material).front_face <==> dot_v(
            ray.direction,
            outward_normal,
        ) < 0,
        dot_v(ray.direction, hit_new_v(t, point, ray, outward_normal, material).normal) <= 0,
{
    if dot_v(ray.direction, outward_normal) >= 0 {
        lemma_dot_neg_right(ray.direction, outward_normal);
    }
}

/// The view of an optional hit record.
pub open spec fn hit_opt_view(r: Option<Hit>) -> Option<HitView> {
    match r {
        Some(h) => Some(h@),
        None => None,
    }
}

/// The contract every surface honours: report the nearest intersection with
/// ray parameter inside `[t_min, t_max)`, or none.
pub trait Hittable {
    /// The surface's structural invariant.
    spec fn wf(&self) -> bool;

    /// The exact mathematical description of what `hit` returns.
    spec fn hit_spec(&self, ray: RayView, t_min: int, t_max: int) -> Option<HitView>;

    /// Report the nearest intersection in `[t_min, t_max)`, or none.
    fn hit(&self, ray: &Ray, t_min: i64, t_max: i64) -> (r: Option<Hit>)
        requires
            self.wf(),
            ray_wf(ray@),
            0 <= t_min,
            t_max <= 0x1000_0000,
        ensures
            hit_opt_view(r) == self.hit_spec(ray@, t_min as int, t_max as int),
            r matches Some(h) ==> t_min <= h.t < t_max && hit_wf(h@) && h.material.wf(),
    ;
}

/// A scene: the aggregate hit over an ordered collection of spheres, found by
/// narrowing the admissible interval to the closest hit so far.
pub open spec fn scene_hit_spec(
    objects: Seq<Sphere>,
    ray: RayView,
    t_min: int,
    t_max: int,
) -> Option<HitView>
    decreases objects.len(),
{
    if objects.len() == 0 {
        None
    } else {
        let rest = scene_hit_spec(objects.drop_last(), ray, t_min, t_max);
        let closest = match rest {
            Some(h) => h.t,
            None => t_max,
        };
        match sphere_hit_spec(objects.last(), ray, t_min, closest) {
            Some(h2) => Some(h2),
            None => rest,
        }
    }
}

/// Law: the scene's aggregate hit is the minimum-by-t over each surface's
/// individual hit in the same interval. When the scene misses, every surface
/// misses; when it hits, the hit is one surface's own hit in the full
/// interval, and no surface's own hit is nearer.
#[verifier::rlimit(100)]
pub proof fn lemma_scene_hit_is_nearest(
    objects: Seq<Sphere>,
    ray: RayView,
    t_min: int,
    t_max: int,
)
    requires
        ray_wf(ray),
    ensures
        scene_hit_spec(objects, ray, t_min, t_max) is None ==> forall|i: int|
            0 <= i < objects.len() ==> (#[trigger] sphere_hit_spec(
                objects[i],
                ray,
                t_min,
                t_max,
            )) is None,
        scene_hit_spec(objects, ray, t_min, t_max) matches Some(best) ==> {
            &&& exists|i: int|
                0 <= i < objects.len() && (#[trigger] sphere_hit_spec(
                    objects[i],
                    ray,
                    t_min,
                    t_max,
                )) == Some(best)
            &&& forall|i: int|
                0 <= i < objects.len() ==> match #[trigger] sphere_hit_spec(
                    objects[i],
                    ray,
                    t_min,
                    t_max,
                ) {
                    Some(hi) => best.t <= hi.t,
                    None => true,
                }
        },
    decreases objects.len(),
{
    if objects.len() == 0 {
    } else {
        let prefix = objects.drop_last();
        let last = objects.last();
        lemma_scene_hit_is_nearest(prefix, ray, t_min, t_max);
        let rest = scene_hit_spec(prefix, ray, t_min, t_max);
        let closest = match rest {
            Some(b) => b.t,
            None => t_max,
        };
        if rest is Some {
            let i0 = choose|i: int|
                0 <= i < prefix.len() && (#[trigger] sphere_hit_spec(
                    prefix[i],
                    ray,
                    t_min,
                    t_max,
                )) == Some(rest->Some_0);
            crate::sphere::lemma_sphere_hit_in_range(prefix[i0], ray, t_min, t_max);
        }
        crate::sphere::lemma_sphere_hit_narrow(last, ray, t_min, closest, t_max);
        crate::sphere::lemma_sphere_hit_in_range(last, ray, t_min, t_max);
        assert forall|i: int| 0 <= i < prefix.len() implies #[trigger] sphere_hit_spec(
            objects[i],
            ray,
            t_min,
            t_max,
        ) == sphere_hit_spec(prefix[i], ray, t_min, t_max) by {
            assert(prefix[i] == objects[i]);
        }
        assert(last == objects[objects.len() - 1]);
        let narrowed = sphere_hit_spec(last, ray, t_min, closest);
        let full = sphere_hit_spec(last, ray, t_min, t_max);
        if narrowed is Some {
            let h2 = narrowed->Some_0;
            assert(full == Some(h2) && h2.t < closest);
            assert(sphere_hit_spec(objects[objects.len() - 1], ray, t_min, t_max) == Some(h2));
        } else {
            if rest is Some {
                let b = rest->Some_0;
                assert(full matches Some(hf) ==> hf.t >= closest);
                assert(scene_hit_spec(objects, ray, t_min, t_max) == rest);
                let i0 = choose|i: int|
                    0 <= i < prefix.len() && (#[trigger] sphere_hit_spec(
                        prefix[i],
                        ray,
                        t_min,
                        t_max,
                    )) == Some(b);
                assert(0 <= i0 < objects.len() && sphere_hit_spec(objects[i0], ray, t_min, t_max)
                    == Some(b));
            } else {
                assert(full is Some ==> (full->Some_0).t < t_max);
                assert(full is None);
            }
        }
    }
}

impl Hittable for Vec<Sphere> {
    open spec fn wf(&self) -> bool {
        forall|i: int| 0 <= i < self@.len() ==> (#[trigger] self@[i]).wf()
    }

    open spec fn hit_spec(&self, ray: RayView, t_min: int, t_max: int) -> Option<HitView> {
        scene_hit_spec(self@, ray, t_min, t_max)
    }

    fn hit(&self, ray: &Ray, t_min: i64, t_max: i64) -> (r: Option<Hit>) {
        let mut nearest_hit: Option<Hit> = None;
        let mut closest_so_far: i64 = t_max;
        let n = self.len();
        let mut i: usize = 0;
        while i < n
            invariant
                n == self@.len(),
                0 <= i <= n,
                self.wf(),
                ray_wf(ray@),
                0 <= t_min,
                t_max <= 0x1000_0000,
                hit_opt_view(nearest_hit) == scene_hit_spec(
                    self@.take(i as int),
                    ray@,
                    t_min as int,
                    t_max as int,
                ),
                closest_so_far == (match nearest_hit {
                    Some(h) => h.t,
                    None => t_max,
                }),
                nearest_hit matches Some(h) ==> t_min <= h.t < t_max && hit_wf(h@)
                    && h.material.wf(),
            decreases n - i,
        {
            proof {
                assert(self@.take(i as int + 1).drop_last() =~= self@.take(i as int));
                assert(self@.take(i as int + 1).last() == self@[i as int]);
            }
            if let Some(hit) = (&self[i]).hit(ray, t_min, closest_so_far) {
                closest_so_far = hit.t;
                nearest_hit = Some(hit);
            }
            i = i + 1;
        }
        proof {
            assert(self@.take(n as int) =~= self@);
        }
        nearest_hit
    }
}

} // verus!
