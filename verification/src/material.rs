//! Materials and their scattering rules.
//!
//! The three material kinds form a closed sum type. Scattering consumes an
//! incoming ray and a hit record and either produces an outgoing ray with an
//! attenuation colour, or absorbs the ray.

use vstd::prelude::*;

use crate::fixed::fx_clamp01_s;
use crate::fixed::fx_div;
use crate::fixed::fx_div_s;
use crate::fixed::fx_mul;
use crate::fixed::fx_mul_s;
use crate::fixed::fx_sqrt;
use crate::fixed::fx_sqrt_s;
use crate::fixed::lemma_fx_mul_nonneg;
use crate::fixed::lemma_isqrt_ordered;
use crate::fixed::lemma_isqrt_unique;
use crate::fixed::lemma_mul_le;
use crate::fixed::lemma_square_nonneg;
use crate::fixed::FX_ONE;
use crate::object::hit_wf;
use crate::object::Hit;
use crate::object::HitView;
use crate::types::add_v;
use crate::types::bounded_v;
use crate::types::color::color_white;
use crate::types::color::unit_color;
use crate::types::color::Color;
use crate::types::dot_v;
use crate::types::lemma_dot_bound;
use crate::types::lemma_dot_unit_bound;
use crate::types::lemma_not_near_zero_len2;
use crate::types::lemma_scale_bound;
use crate::types::len2_v;
use crate::types::near_zero;
use crate::types::near_zero_s;
use crate::types::neg_v;
use crate::types::random_unit_vector_on_sphere;
use crate::types::ray_wf;
use crate::types::scale_v;
use crate::types::sub_v;
use crate::types::unit_v;
use crate::types::Ray;
use crate::types::RayView;
use crate::types::Vec3i;
use crate::types::Vector3;

verus! {

use vstd::arithmetic::div_mod::lemma_div_is_ordered_by_denominator;
use vstd::arithmetic::div_mod::lemma_div_pos_is_pos;

/// A diffuse surface: scatters in a random direction around the normal.
#[derive(Clone, Copy, Debug, PartialEq, Eq, Structural)]
pub struct Lambertian {
    pub albedo: Color,
}

/// A reflective surface with an optional fuzz perturbation.
#[derive(Clone, Copy, Debug, PartialEq, Eq, Structural)]
pub struct Metal {
    pub albedo: Color,
    pub fuzz: i64,
}

/// A transparent surface that refracts or, past the critical angle, reflects.
#[derive(Clone, Copy, Debug, PartialEq, Eq, Structural)]
pub struct Dielectric {
    // Refractive index in vacuum or air, or the ratio of the material's
    // refractive index over the refractive index of the enclosing media.
    pub refraction_index: i64,
}

/// The closed set of materials a surface can be bound to.
#[derive(Clone, Copy, Debug, PartialEq, Eq, Structural)]
pub enum Material {
    Lambertian(Lambertian),
    Metal(Metal),
    Dielectric(Dielectric),
}

impl Lambertian {
    pub open spec fn wf(self) -> bool {
        unit_color(self.albedo@)
    }

    pub fn new(albedo: Color) -> (r: Lambertian)
        requires
            unit_color(albedo@),
        ensures
            r.albedo == albedo,
            r.wf(),
    {
        Lambertian { albedo }
    }
}

impl Metal {
    pub open spec fn wf(self) -> bool {
        &&& unit_color(self.albedo@)
        &&& 0 <= self.fuzz <= 65536
    }

    /// The fuzz factor is clamped to the unit interval on construction.
    pub fn new(albedo: Color, fuzz: i64) -> (r: Metal)
        requires
            unit_color(albedo@),
        ensures
            r.albedo == albedo,
            r.fuzz == fx_clamp01_s(fuzz as int),
            r.wf(),
    {
        Metal { albedo, fuzz: crate::fixed::fx_clamp01(fuzz) }
    }
}

impl Dielectric {
    pub open spec fn wf(self) -> bool {
        6554 <= self.refraction_index <= 655360
    }

    /// The supported refractive range runs from a tenth to ten.
    pub fn new(refraction_index: i64) -> (r: Dielectric)
        requires
            6554 <= refraction_index <= 655360,
        ensures
            r.refraction_index == refraction_index,
            r.wf(),
    {
        Dielectric { refraction_index }
    }
}

/// Mirror reflection of `vector` about `normal`.
pub open spec fn reflect_v(v: Vec3i, n: Vec3i) -> Vec3i {
    sub_v(v, scale_v(2 * dot_v(v, n), n))
}

/// Snell refraction of the unit vector `v` at a surface with unit normal `n`
/// and refraction ratio `eta`, decomposed into perpendicular and parallel
/// components.
pub open spec fn refract_v(v: Vec3i, n: Vec3i, eta: int) -> Vec3i {
    let d = dot_v(neg_v(v), n);
    let cos = if d > 65536 {
        65536
    } else {
        d
    };
    let perp = scale_v(eta, add_v(v, scale_v(cos, n)));
    let k = 65536 - len2_v(perp);
    let a = if k >= 0 {
        k
    } else {
        -k
    };
    add_v(perp, scale_v(-fx_sqrt_s(a), n))
}

pub fn reflect(vector: &Vector3, normal: &Vector3) -> (r: Vector3)
    requires
        bounded_v(vector@, 131072),
        bounded_v(normal@, 131072),
    ensures
        r@ == reflect_v(vector@, normal@),
        bounded_v(r@, 0x400_0000),
{
    let d = vector.dot(normal);
    proof {
        lemma_dot_unit_bound(vector@, normal@);
        assert(1572864 * 131072 <= 3145728 * 65536) by (nonlinear_arith);
        lemma_scale_bound(2 * d as int, normal@, 1572864, 131072, 3145728);
    }
    vector.sub(&normal.scale(2 * d))
}

pub fn refract(vector: &Vector3, normal: &Vector3, etai_over_etat: i64) -> (r: Vector3)
    requires
        bounded_v(vector@, 131072),
        bounded_v(normal@, 131072),
        0 <= etai_over_etat <= 1048576,
    ensures
        r@ == refract_v(vector@, normal@, etai_over_etat as int),
        bounded_v(r@, 0x1000_0000),
{
    let d = vector.neg().dot(normal);
    proof {
        lemma_dot_unit_bound(neg_v(vector@), normal@);
    }
    let cos_theta = if d > FX_ONE {
        FX_ONE
    } else {
        d
    };
    proof {
        assert(786432 * 131072 <= 1572864 * 65536) by (nonlinear_arith);
        lemma_scale_bound(cos_theta as int, normal@, 786432, 131072, 1572864);
    }
    let shifted = vector.add(&normal.scale(cos_theta));
    proof {
        assert(1048576 * 1703936 <= 27262976 * 65536) by (nonlinear_arith);
        lemma_scale_bound(etai_over_etat as int, shifted@, 1048576, 1703936, 27262976);
        assert(27262976 * 27262976 <= 11341398016 * 65536) by (nonlinear_arith);
        lemma_dot_bound(
            scale_v(etai_over_etat as int, shifted@),
            scale_v(etai_over_etat as int, shifted@),
            27262976,
            27262976,
            11341398016,
        );
    }
    let r_out_perp = shifted.scale(etai_over_etat);
    let k = FX_ONE - r_out_perp.length_squared();
    let a = if k >= 0 {
        k
    } else {
        -k
    };
    let s = fx_sqrt(a);
    proof {
        crate::fixed::lemma_isqrt_bracket(a as int * 65536);
        assert(fx_sqrt_s(a as int) <= 67108864) by {
            assert(67108864 * 67108864 == 4503599627370496) by (nonlinear_arith);
            assert(a as int * 65536 < 4503599627370496);
            lemma_isqrt_unique(4503599627370495, 67108863);
            assert((67108863 + 1) * (67108863 + 1) == 4503599627370496) by (nonlinear_arith);
            assert(67108863 * 67108863 <= 4503599627370495) by (nonlinear_arith);
            lemma_isqrt_ordered(a as int * 65536, 4503599627370495);
        }
        assert(67108864 * 131072 <= 134217728 * 65536) by (nonlinear_arith);
        lemma_scale_bound(-(s as int), normal@, 67108864, 131072, 134217728);
    }
    let r_out_parallel = normal.scale(-s);
    r_out_perp.add(&r_out_parallel)
}

/// The fixed-point products taking part in a reflection about the unit
/// normal `n` lose nothing to truncation.
pub open spec fn reflect_exact(v: Vec3i, n: Vec3i) -> bool {
    &&& (v.x * n.x) % 65536 == 0
    &&& (v.y * n.y) % 65536 == 0
    &&& (v.z * n.z) % 65536 == 0
    &&& (n.x * n.x) % 65536 == 0
    &&& (n.y * n.y) % 65536 == 0
    &&& (n.z * n.z) % 65536 == 0
    &&& dot_v(n, n) == 65536
    &&& (2 * dot_v(v, n) * n.x) % 65536 == 0
    &&& (2 * dot_v(v, n) * n.y) % 65536 == 0
    &&& (2 * dot_v(v, n) * n.z) % 65536 == 0
    &&& (2 * dot_v(v, n) * fx_mul_s(n.x, n.x)) % 65536 == 0
    &&& (2 * dot_v(v, n) * fx_mul_s(n.y, n.y)) % 65536 == 0
    &&& (2 * dot_v(v, n) * fx_mul_s(n.z, n.z)) % 65536 == 0
}

/// Law: reflecting a vector twice about the same unit normal returns the
/// original vector, whenever the fixed-point products involved are exact.
/// (Truncation can otherwise perturb the round trip by a few raw units.)
pub proof fn lemma_reflect_involution(v: Vec3i, n: Vec3i)
    requires
        reflect_exact(v, n),
    ensures
        reflect_v(reflect_v(v, n), n) == v,
{
    let d = dot_v(v, n);
    let r = reflect_v(v, n);
    // Exact component products of v with n.
    crate::fixed::lemma_fx_mul_exact(v.x, n.x);
    crate::fixed::lemma_fx_mul_exact(v.y, n.y);
    crate::fixed::lemma_fx_mul_exact(v.z, n.z);
    // Exact squares of n's components.
    crate::fixed::lemma_fx_mul_exact(n.x, n.x);
    crate::fixed::lemma_fx_mul_exact(n.y, n.y);
    crate::fixed::lemma_fx_mul_exact(n.z, n.z);
    // Exact scaling of n by twice the projection.
    crate::fixed::lemma_fx_mul_exact(2 * d, n.x);
    crate::fixed::lemma_fx_mul_exact(2 * d, n.y);
    crate::fixed::lemma_fx_mul_exact(2 * d, n.z);
    let sx = fx_mul_s(2 * d, n.x);
    let sy = fx_mul_s(2 * d, n.y);
    let sz = fx_mul_s(2 * d, n.z);
    let kx = fx_mul_s(n.x, n.x);
    let ky = fx_mul_s(n.y, n.y);
    let kz = fx_mul_s(n.z, n.z);
    // s_i * n_i == 2 * d * k_i, by cancelling one factor of the scale.
    assert(65536 * (sx * n.x) == 2 * d * (65536 * kx)) by (nonlinear_arith)
        requires
            65536 * sx == 2 * d * n.x,
            65536 * kx == n.x * n.x,
    ;
    assert(65536 * (sy * n.y) == 2 * d * (65536 * ky)) by (nonlinear_arith)
        requires
            65536 * sy == 2 * d * n.y,
            65536 * ky == n.y * n.y,
    ;
    assert(65536 * (sz * n.z) == 2 * d * (65536 * kz)) by (nonlinear_arith)
        requires
            65536 * sz == 2 * d * n.z,
            65536 * kz == n.z * n.z,
    ;
    assert(sx * n.x == 2 * d * kx) by (nonlinear_arith)
        requires 65536 * (sx * n.x) == 2 * d * (65536 * kx);
    assert(sy * n.y == 2 * d * ky) by (nonlinear_arith)
        requires 65536 * (sy * n.y) == 2 * d * (65536 * ky);
    assert(sz * n.z == 2 * d * kz) by (nonlinear_arith)
        requires 65536 * (sz * n.z) == 2 * d * (65536 * kz);
    // The reflected vector's products with n are exact as well.
    assert((r.x * n.x) % 65536 == 0 && r.x * n.x == v.x * n.x - 2 * d * kx) by (nonlinear_arith)
        requires
            r.x == v.x - sx,
            sx * n.x == 2 * d * kx,
            (v.x * n.x) % 65536 == 0,
            (2 * d * kx) % 65536 == 0,
    ;
    assert((r.y * n.y) % 65536 == 0 && r.y * n.y == v.y * n.y - 2 * d * ky) by (nonlinear_arith)
        requires
            r.y == v.y - sy,
            sy * n.y == 2 * d * ky,
            (v.y * n.y) % 65536 == 0,
            (2 * d * ky) % 65536 == 0,
    ;
    assert((r.z * n.z) % 65536 == 0 && r.z * n.z == v.z * n.z - 2 * d * kz) by (nonlinear_arith)
        requires
            r.z == v.z - sz,
            sz * n.z == 2 * d * kz,
            (v.z * n.z) % 65536 == 0,
            (2 * d * kz) % 65536 == 0,
    ;
    crate::fixed::lemma_fx_mul_exact(r.x, n.x);
    crate::fixed::lemma_fx_mul_exact(r.y, n.y);
    crate::fixed::lemma_fx_mul_exact(r.z, n.z);
    crate::fixed::lemma_fx_mul_exact(2 * d, kx);
    crate::fixed::lemma_fx_mul_exact(2 * d, ky);
    crate::fixed::lemma_fx_mul_exact(2 * d, kz);
    let d2 = dot_v(r, n);
    // The projection is exactly negated: d2 == -d, since k sums to one.
    assert(65536 * d2 == 65536 * (-d)) by {
        assert(65536 * d2 == 65536 * fx_mul_s(r.x, n.x) + 65536 * fx_mul_s(r.y, n.y) + 65536
            * fx_mul_s(r.z, n.z));
        assert(65536 * fx_mul_s(2 * d, kx) + 65536 * fx_mul_s(2 * d, ky) + 65536 * fx_mul_s(
            2 * d,
            kz,
        ) == 2 * d * (kx + ky + kz)) by (nonlinear_arith)
            requires
                65536 * fx_mul_s(2 * d, kx) == 2 * d * kx,
                65536 * fx_mul_s(2 * d, ky) == 2 * d * ky,
                65536 * fx_mul_s(2 * d, kz) == 2 * d * kz,
        ;
        assert(2 * d * (kx + ky + kz) == 2 * d * 65536) by (nonlinear_arith)
            requires kx + ky + kz == 65536;
        assert(65536 * fx_mul_s(r.x, n.x) == v.x * n.x - 2 * d * kx);
        assert(65536 * fx_mul_s(r.y, n.y) == v.y * n.y - 2 * d * ky);
        assert(65536 * fx_mul_s(r.z, n.z) == v.z * n.z - 2 * d * kz);
        assert(65536 * d == v.x * n.x + v.y * n.y + v.z * n.z);
        assert(2 * d * kx + 2 * d * ky + 2 * d * kz == 2 * d * (kx + ky + kz)) by (nonlinear_arith);
    }
    assert(d2 == -d);
    // Scaling n by the negated projection exactly undoes the first shift.
    assert((2 * d2 * n.x) % 65536 == 0 && 2 * d2 * n.x == -(2 * d * n.x)) by (nonlinear_arith)
        requires d2 == -d, (2 * d * n.x) % 65536 == 0;
    assert((2 * d2 * n.y) % 65536 == 0 && 2 * d2 * n.y == -(2 * d * n.y)) by (nonlinear_arith)
        requires d2 == -d, (2 * d * n.y) % 65536 == 0;
    assert((2 * d2 * n.z) % 65536 == 0 && 2 * d2 * n.z == -(2 * d * n.z)) by (nonlinear_arith)
        requires d2 == -d, (2 * d * n.z) % 65536 == 0;
    crate::fixed::lemma_fx_mul_exact(2 * d2, n.x);
    crate::fixed::lemma_fx_mul_exact(2 * d2, n.y);
    crate::fixed::lemma_fx_mul_exact(2 * d2, n.z);
    assert(fx_mul_s(2 * d2, n.x) == -sx);
    assert(fx_mul_s(2 * d2, n.y) == -sy);
    assert(fx_mul_s(2 * d2, n.z) == -sz);
    assert(reflect_v(r, n).x == v.x);
    assert(reflect_v(r, n).y == v.y);
    assert(reflect_v(r, n).z == v.z);
}

/// The diffuse scatter direction: the normal plus a random unit vector,
/// falling back to the normal itself when the sum is degenerate.
pub open spec fn lambertian_dir(normal: Vec3i, u: Vec3i) -> Vec3i {
    if near_zero_s(add_v(normal, u)) {
        normal
    } else {
        add_v(normal, u)
    }
}

/// The fuzzed metallic scatter direction built from a random unit vector.
pub open spec fn metal_dir(v: Vec3i, n: Vec3i, fuzz: int, u: Vec3i) -> Vec3i {
    add_v(unit_v(reflect_v(v, n)), scale_v(fuzz, u))
}

/// Whether a metallic scatter attempt is kept rather than absorbed.
pub open spec fn metal_accepts(v: Vec3i, n: Vec3i, fuzz: int, u: Vec3i) -> bool {
    &&& 1 <= len2_v(reflect_v(v, n))
    &&& dot_v(metal_dir(v, n, fuzz, u), n) > 0
    &&& 12 <= len2_v(metal_dir(v, n, fuzz, u))
}

/// The deterministic dielectric scatter direction: refract, unless total
/// internal reflection (or a degenerate result) forces a reflection.
pub open spec fn dielectric_dir(dir: Vec3i, hit: HitView, ri: int) -> Vec3i {
    let ratio = if hit.front_face {
        fx_div_s(65536, ri)
    } else {
        ri
    };
    let ud = unit_v(dir);
    let d0 = dot_v(neg_v(ud), hit.normal);
    let cos = if d0 > 65536 {
        65536
    } else {
        d0
    };
    let c2 = fx_mul_s(cos, cos);
    let s2 = if c2 > 65536 {
        0
    } else {
        65536 - c2
    };
    let sin = fx_sqrt_s(s2);
    if fx_mul_s(ratio, sin) > 65536 {
        reflect_v(ud, hit.normal)
    } else {
        refract_v(ud, hit.normal, ratio)
    }
}

/// The dielectric direction actually used: a degenerate result falls back to
/// the surface normal.
pub open spec fn dielectric_scatter_dir(dir: Vec3i, hit: HitView, ri: int) -> Vec3i {
    let d = dielectric_dir(dir, hit, ri);
    if 12 <= len2_v(d) {
        d
    } else {
        hit.normal
    }
}

/// What a diffuse scatter guarantees: it always scatters, from the hit
/// point, attenuated by the albedo, along some randomly perturbed normal.
pub open spec fn lambertian_scatter_post(
    l: Lambertian,
    hit: HitView,
    r: Option<(Ray, Color)>,
) -> bool {
    &&& r is Some
    &&& (r matches Some((sray, att)) ==> {
        &&& att == l.albedo
        &&& sray@.origin == hit.point
        &&& ray_wf(sray@)
        &&& exists|u: Vec3i|
            bounded_v(u, 131072) && sray@.direction == unit_v(
                #[trigger] lambertian_dir(hit.normal, u),
            )
    })
}

/// What a metallic scatter guarantees: scattered exactly when some random
/// perturbation of the mirror reflection is accepted, absorbed otherwise.
pub open spec fn metal_scatter_post(
    m: Metal,
    ray: RayView,
    hit: HitView,
    r: Option<(Ray, Color)>,
) -> bool {
    &&& (r matches Some((sray, att)) ==> {
        &&& att == m.albedo
        &&& sray@.origin == hit.point
        &&& ray_wf(sray@)
        &&& exists|u: Vec3i|
            bounded_v(u, 131072) && metal_accepts(ray.direction, hit.normal, m.fuzz as int, u)
                && sray@.direction == unit_v(
                #[trigger] metal_dir(ray.direction, hit.normal, m.fuzz as int, u),
            )
    })
    &&& (r is None ==> exists|u: Vec3i|
        bounded_v(u, 131072) && !(#[trigger] metal_accepts(
            ray.direction,
            hit.normal,
            m.fuzz as int,
            u,
        )))
}

/// What a dielectric scatter guarantees: it always scatters, from the hit
/// point, with white attenuation, along the deterministic Snell direction.
pub open spec fn dielectric_scatter_post(
    d: Dielectric,
    ray: RayView,
    hit: HitView,
    r: Option<(Ray, Color)>,
) -> bool {
    &&& r is Some
    &&& (r matches Some((sray, att)) ==> {
        &&& att@ == color_white()
        &&& sray@.origin == hit.point
        &&& ray_wf(sray@)
        &&& sray@.direction == unit_v(
            dielectric_scatter_dir(ray.direction, hit, d.refraction_index as int),
        )
    })
}

/// What each material's scatter guarantees about its result.
pub open spec fn scatter_post(
    m: Material,
    ray: RayView,
    hit: HitView,
    r: Option<(Ray, Color)>,
) -> bool {
    match m {
        Material::Lambertian(l) => lambertian_scatter_post(l, hit, r),
        Material::Metal(mt) => metal_scatter_post(mt, ray, hit, r),
        Material::Dielectric(d) => dielectric_scatter_post(d, ray, hit, r),
    }
}

impl Lambertian {
    /// Diffuse scattering: always scatters, attenuated by the albedo.
    pub fn scatter(&self, _ray: &Ray, hit: &Hit) -> (r: Option<(Ray, Color)>)
        requires
            self.wf(),
            hit_wf(hit@),
        ensures
            lambertian_scatter_post(*self, hit@, r),
    {
        let u = random_unit_vector_on_sphere();
        let mut scatter_direction = hit.normal.add(&u);

        // Catch degenerate scatter direction
        if near_zero(&scatter_direction) {
            scatter_direction = hit.normal;
        } else {
            proof {
                lemma_not_near_zero_len2(scatter_direction@);
            }
        }

        let scattered = Ray::new(hit.point, scatter_direction);
        let attenuation = self.albedo;
        proof {
            assert(bounded_v(u@, 131072) && scattered@.direction == unit_v(
                lambertian_dir(hit@.normal, u@),
            ));
        }
        Some((scattered, attenuation))
    }
}

impl Metal {
    /// Mirror reflection with fuzz; absorbed when the perturbed reflection
    /// no longer points away from the surface or degenerates.
    #[verifier::rlimit(60)]
    pub fn scatter(&self, ray: &Ray, hit: &Hit) -> (r: Option<(Ray, Color)>)
        requires
            self.wf(),
            ray_wf(ray@),
            hit_wf(hit@),
        ensures
            metal_scatter_post(*self, ray@, hit@, r),
    {
        let reflected = reflect(&ray.direction, &hit.normal);
        if reflected.length_squared() < 1 {
            proof {
                let w = Vec3i { x: 0, y: 0, z: 0 };
                assert(bounded_v(w, 131072) && !metal_accepts(
                    ray@.direction,
                    hit@.normal,
                    self.fuzz as int,
                    w,
                ));
            }
            return None;
        }
        let u = random_unit_vector_on_sphere();
        proof {
            assert(65536 * 131072 <= 131072 * 65536) by (nonlinear_arith);
            lemma_scale_bound(self.fuzz as int, u@, 65536, 131072, 131072);
        }
        let reflected = reflected.normalize().add(&u.scale(self.fuzz));

        if reflected.dot(&hit.normal) > 0 && reflected.length_squared() >= 12 {
            let scattered = Ray::new(hit.point, reflected);
            let attenuation = self.albedo;
            proof {
                assert(bounded_v(u@, 131072) && metal_accepts(
                    ray@.direction,
                    hit@.normal,
                    self.fuzz as int,
                    u@,
                ) && scattered@.direction == unit_v(
                    metal_dir(ray@.direction, hit@.normal, self.fuzz as int, u@),
                ));
            }
            Some((scattered, attenuation))
        } else {
            proof {
                assert(bounded_v(u@, 131072) && !metal_accepts(
                    ray@.direction,
                    hit@.normal,
                    self.fuzz as int,
                    u@,
                ));
            }
            None
        }
    }
}

impl Dielectric {
    /// Refraction by Snell's law, or reflection past the critical angle.
    /// Always scatters; the attenuation is white.
    pub fn scatter(&self, ray: &Ray, hit: &Hit) -> (r: Option<(Ray, Color)>)
        requires
            self.wf(),
            ray_wf(ray@),
            hit_wf(hit@),
        ensures
            dielectric_scatter_post(*self, ray@, hit@, r),
    {
        let attenuation = Color::white();
        let refraction_ratio: i64 = if hit.front_face {
            proof {
                lemma_div_pos_is_pos(4294967296, self.refraction_index as int);
                lemma_div_is_ordered_by_denominator(4294967296, 6554, self.refraction_index as int);
                assert(4294967296int / 6554 <= 655360) by (nonlinear_arith);
                assert(65536 * 65536 == 4294967296) by (nonlinear_arith);
            }
            fx_div(FX_ONE, self.refraction_index)
        } else {
            self.refraction_index
        };

        let unit_direction = ray.direction.normalize();
        let d0 = unit_direction.neg().dot(&hit.normal);
        proof {
            lemma_dot_unit_bound(neg_v(unit_v(ray@.direction)), hit@.normal);
        }
        let cos_theta = if d0 > FX_ONE {
            FX_ONE
        } else {
            d0
        };
        proof {
            lemma_mul_le(cos_theta as int, cos_theta as int, 786432, 786432);
            lemma_square_nonneg(cos_theta as int);
            lemma_fx_mul_nonneg(cos_theta as int, cos_theta as int);
        }
        let c2 = fx_mul(cos_theta, cos_theta);
        let s2: i64 = if c2 > FX_ONE {
            0
        } else {
            FX_ONE - c2
        };
        let sin_theta = fx_sqrt(s2);
        proof {
            assert(65536 * 65536 == 4294967296) by (nonlinear_arith);
            lemma_isqrt_unique(4294967296, 65536);
            lemma_isqrt_ordered(s2 as int * 65536, 4294967296);
            lemma_mul_le(refraction_ratio as int, sin_theta as int, 655360, 65536);
        }

        let cannot_refract = fx_mul(refraction_ratio, sin_theta) > FX_ONE;
        let direction = if cannot_refract {
            reflect(&unit_direction, &hit.normal)
        } else {
            refract(&unit_direction, &hit.normal, refraction_ratio)
        };

        let direction = if direction.length_squared() >= 12 {
            direction
        } else {
            hit.normal
        };

        let scattered = Ray::new(hit.point, direction);

        Some((scattered, attenuation))
    }
}

impl Material {
    /// The structural invariant of whichever material this is.
    pub open spec fn wf(self) -> bool {
        match self {
            Material::Lambertian(l) => l.wf(),
            Material::Metal(m) => m.wf(),
            Material::Dielectric(d) => d.wf(),
        }
    }

    /// Scatter the incoming ray at `hit`, or absorb it.
    pub fn scatter(&self, ray: &Ray, hit: &Hit) -> (r: Option<(Ray, Color)>)
        requires
            self.wf(),
            ray_wf(ray@),
            hit_wf(hit@),
        ensures
            scatter_post(*self, ray@, hit@, r),
            r matches Some((sray, att)) ==> ray_wf(sray@) && sray@.origin == hit@.point
                && unit_color(att@),
    {
        match self {
            Material::Lambertian(l) => l.scatter(ray, hit),
            Material::Metal(m) => m.scatter(ray, hit),
            Material::Dielectric(d) => d.scatter(ray, hit),
        }
    }
}

} // verus!
