//! Core geometric types: vectors, points and rays.
//!
//! Executable values hold fixed-point `i64` components (see `fixed`); every
//! operation is specified exactly against a mathematical model (`Vec3i`,
//! `RayView`) with unbounded integer components.

use vstd::prelude::*;

pub mod color;

use crate::fixed::fx_div;
use crate::fixed::fx_div_s;
use crate::fixed::fx_mul;
use crate::fixed::fx_mul_s;
use crate::fixed::fx_sqrt;
use crate::fixed::fx_sqrt_s;
use crate::fixed::lemma_fx_mul_bound;
use crate::fixed::lemma_fx_mul_neg;
use crate::fixed::lemma_fx_mul_nonneg;
use crate::fixed::lemma_isqrt_bracket;
use crate::fixed::lemma_isqrt_ordered;
use crate::fixed::lemma_isqrt_unique;
use crate::fixed::lemma_mul_le;
use crate::fixed::lemma_square_nonneg;
use crate::fixed::lemma_tdiv_bound;
use crate::fixed::lemma_tdiv_error;
use crate::fixed::lemma_tdiv_neg;
use crate::fixed::tdiv;
use crate::fixed::FX_HALF;

verus! {

use vstd::arithmetic::div_mod::lemma_div_by_multiple;
use vstd::arithmetic::div_mod::lemma_div_is_ordered_by_denominator;

/// Bound on the components of scene and camera input coordinates (4096 units).
pub const COORD_BOUND: i64 = 0x1000_0000;

/// Bound on the components of any point the engine produces along a ray.
pub const POINT_BOUND: i64 = 0x4000_0000;

/// Bound on the components of a normalized direction.
pub const DIR_BOUND: i64 = 131072;

/// The far limit of every ray parameter interval (the world is a finite box).
pub const T_FAR: i64 = 0x1000_0000;

/// Raw magnitude below which a vector component counts as zero (about 0.015).
pub const NEAR_ZERO_RAW: i64 = 1000;

/// Mathematical model of a three-component vector: unbounded integers.
pub struct Vec3i {
    pub x: int,
    pub y: int,
    pub z: int,
}

/// A vector of three fixed-point components.
#[derive(Clone, Copy, Debug, PartialEq, Eq, Structural)]
pub struct Vector3 {
    pub x: i64,
    pub y: i64,
    pub z: i64,
}

/// A position is represented like a displacement.
pub type Point3 = Vector3;

impl View for Vector3 {
    type V = Vec3i;

    open spec fn view(&self) -> Vec3i {
        Vec3i { x: self.x as int, y: self.y as int, z: self.z as int }
    }
}

pub open spec fn bounded_v(v: Vec3i, b: int) -> bool {
    &&& -b <= v.x <= b
    &&& -b <= v.y <= b
    &&& -b <= v.z <= b
}

pub open spec fn add_v(a: Vec3i, b: Vec3i) -> Vec3i {
    Vec3i { x: a.x + b.x, y: a.y + b.y, z: a.z + b.z }
}

pub open spec fn sub_v(a: Vec3i, b: Vec3i) -> Vec3i {
    Vec3i { x: a.x - b.x, y: a.y - b.y, z: a.z - b.z }
}

pub open spec fn neg_v(a: Vec3i) -> Vec3i {
    Vec3i { x: -a.x, y: -a.y, z: -a.z }
}

pub open spec fn scale_v(k: int, v: Vec3i) -> Vec3i {
    Vec3i { x: fx_mul_s(k, v.x), y: fx_mul_s(k, v.y), z: fx_mul_s(k, v.z) }
}

pub open spec fn dot_v(a: Vec3i, b: Vec3i) -> int {
    fx_mul_s(a.x, b.x) + fx_mul_s(a.y, b.y) + fx_mul_s(a.z, b.z)
}

pub open spec fn cross_v(a: Vec3i, b: Vec3i) -> Vec3i {
    Vec3i {
        x: fx_mul_s(a.y, b.z) - fx_mul_s(a.z, b.y),
        y: fx_mul_s(a.z, b.x) - fx_mul_s(a.x, b.z),
        z: fx_mul_s(a.x, b.y) - fx_mul_s(a.y, b.x),
    }
}

pub open spec fn len2_v(v: Vec3i) -> int {
    dot_v(v, v)
}

/// The normalized form of `v`: each component divided by the length.
pub open spec fn unit_v(v: Vec3i) -> Vec3i {
    let len = fx_sqrt_s(len2_v(v));
    Vec3i {
        x: fx_div_s(v.x, len),
        y: fx_div_s(v.y, len),
        z: fx_div_s(v.z, len),
    }
}

pub open spec fn near_zero_s(v: Vec3i) -> bool {
    &&& -1000 < v.x < 1000
    &&& -1000 < v.y < 1000
    &&& -1000 < v.z < 1000
}

/// Negation preserves squared length exactly.
pub proof fn lemma_len2_neg(v: Vec3i)
    ensures
        len2_v(neg_v(v)) == len2_v(v),
{
    assert((-v.x) * (-v.x) == v.x * v.x) by (nonlinear_arith);
    assert((-v.y) * (-v.y) == v.y * v.y) by (nonlinear_arith);
    assert((-v.z) * (-v.z) == v.z * v.z) by (nonlinear_arith);
}

/// Bound on a scaled vector against a chosen cap.
pub proof fn lemma_scale_bound(k: int, v: Vec3i, xk: int, xv: int, cap: int)
    requires
        -xk <= k <= xk,
        bounded_v(v, xv),
        0 <= xk,
        0 <= xv,
        xk * xv <= cap * 65536,
    ensures
        bounded_v(scale_v(k, v), cap),
{
    crate::fixed::lemma_fx_mul_bound_cap(k, v.x, xk, xv, cap);
    crate::fixed::lemma_fx_mul_bound_cap(k, v.y, xk, xv, cap);
    crate::fixed::lemma_fx_mul_bound_cap(k, v.z, xk, xv, cap);
}

/// Bound on a dot product against a chosen cap on each summand.
pub proof fn lemma_dot_bound(a: Vec3i, b: Vec3i, xa: int, xb: int, cap: int)
    requires
        bounded_v(a, xa),
        bounded_v(b, xb),
        0 <= xa,
        0 <= xb,
        xa * xb <= cap * 65536,
    ensures
        -3 * cap <= dot_v(a, b) <= 3 * cap,
{
    crate::fixed::lemma_fx_mul_bound_cap(a.x, b.x, xa, xb, cap);
    crate::fixed::lemma_fx_mul_bound_cap(a.y, b.y, xa, xb, cap);
    crate::fixed::lemma_fx_mul_bound_cap(a.z, b.z, xa, xb, cap);
}

/// Negating the right argument negates a dot product exactly.
pub proof fn lemma_dot_neg_right(a: Vec3i, b: Vec3i)
    ensures
        dot_v(a, neg_v(b)) == -dot_v(a, b),
{
    assert(a.x * (-b.x) == -(a.x * b.x)) by (nonlinear_arith);
    assert(a.y * (-b.y) == -(a.y * b.y)) by (nonlinear_arith);
    assert(a.z * (-b.z) == -(a.z * b.z)) by (nonlinear_arith);
    lemma_tdiv_neg(a.x * b.x, 65536);
    lemma_tdiv_neg(a.y * b.y, 65536);
    lemma_tdiv_neg(a.z * b.z, 65536);
}

/// The dot product of two direction-sized vectors is bounded by twelve.
pub proof fn lemma_dot_unit_bound(a: Vec3i, b: Vec3i)
    requires
        bounded_v(a, 131072),
        bounded_v(b, 131072),
    ensures
        -786432 <= dot_v(a, b) <= 786432,
{
    assert(131072 * 131072 == 17179869184) by (nonlinear_arith);
    assert(17179869184int / 65536 == 262144) by (nonlinear_arith);
    lemma_fx_mul_bound(a.x, b.x, 131072, 131072);
    lemma_fx_mul_bound(a.y, b.y, 131072, 131072);
    lemma_fx_mul_bound(a.z, b.z, 131072, 131072);
}

/// A vector that is not near zero has a squared length of at least twelve.
pub proof fn lemma_not_near_zero_len2(v: Vec3i)
    requires
        !near_zero_s(v),
        bounded_v(v, 0x8000_0000),
    ensures
        12 <= len2_v(v),
{
    lemma_len2_nonneg(v);
    if v.x >= 1000 || v.x <= -1000 {
        lemma_big_comp(v.x);
    } else if v.y >= 1000 || v.y <= -1000 {
        lemma_big_comp(v.y);
    } else {
        lemma_big_comp(v.z);
    }
}

/// A component of magnitude at least 1000 squares to at least twelve raw units.
proof fn lemma_big_comp(c: int)
    requires
        c >= 1000 || c <= -1000,
    ensures
        fx_mul_s(c, c) >= 12,
{
    let a = if c >= 0 { c } else { -c };
    assert(a * a == c * c) by (nonlinear_arith)
        requires a == c || a == -c;
    assert(a * a >= 1000000) by (nonlinear_arith)
        requires a >= 1000;
    lemma_tdiv_error(c * c, 65536);
    assert(65536 * tdiv(c * c, 65536) > c * c - 65536);
    if tdiv(c * c, 65536) < 12 {
        assert(65536 * tdiv(c * c, 65536) <= 65536 * 11);
    }
}

/// Every summand of a squared length is non-negative.
pub proof fn lemma_len2_nonneg(v: Vec3i)
    ensures
        len2_v(v) >= 0,
        fx_mul_s(v.x, v.x) >= 0,
        fx_mul_s(v.y, v.y) >= 0,
        fx_mul_s(v.z, v.z) >= 0,
        fx_mul_s(v.x, v.x) <= len2_v(v),
        fx_mul_s(v.y, v.y) <= len2_v(v),
        fx_mul_s(v.z, v.z) <= len2_v(v),
{
    lemma_square_nonneg(v.x);
    lemma_square_nonneg(v.y);
    lemma_square_nonneg(v.z);
    lemma_fx_mul_nonneg(v.x, v.x);
    lemma_fx_mul_nonneg(v.y, v.y);
    lemma_fx_mul_nonneg(v.z, v.z);
}

/// The square root of a squared length of at least one is at least 256.
pub proof fn lemma_len_lower(l2: int)
    requires
        1 <= l2,
    ensures
        256 <= fx_sqrt_s(l2),
{
    lemma_isqrt_unique(65536, 256);
    lemma_isqrt_ordered(65536, l2 * 65536);
}

/// One component of a normalized vector is at most twice the fixed-point one.
proof fn lemma_unit_comp_upper(c: int, l2: int)
    requires
        0 <= fx_mul_s(c, c) <= l2,
        1 <= l2,
        -0x8000_0000 <= c <= 0x8000_0000,
    ensures
        -131072 <= fx_div_s(c, fx_sqrt_s(l2)) <= 131072,
{
    let ll = l2 * 65536;
    let len = fx_sqrt_s(l2);
    lemma_isqrt_bracket(ll);
    lemma_len_lower(l2);
    lemma_square_nonneg(c);
    lemma_tdiv_error(c * c, 65536);
    assert(c * c < 65536 * (l2 + 1));
    assert(c * c < (len + 1) * (len + 1) + 65536);
    assert(-2 * len <= c <= 2 * len) by (nonlinear_arith)
        requires
            256 <= len,
            c * c < (len + 1) * (len + 1) + 65536,
    ;
    lemma_tdiv_bound(c * 65536, len, 2 * len * 65536);
    assert(2 * len * 65536 == 131072 * len) by (nonlinear_arith);
    lemma_div_by_multiple(131072, len);
    assert(tdiv(2 * len * 65536, len) == 131072);
}

/// A normalized vector has components within twice the fixed-point one.
pub proof fn lemma_unit_bounded(v: Vec3i)
    requires
        bounded_v(v, 0x8000_0000),
        1 <= len2_v(v),
    ensures
        bounded_v(unit_v(v), 131072),
{
    lemma_len2_nonneg(v);
    lemma_unit_comp_upper(v.x, len2_v(v));
    lemma_unit_comp_upper(v.y, len2_v(v));
    lemma_unit_comp_upper(v.z, len2_v(v));
}

/// One component of a normalized vector is at least half the fixed-point one,
/// provided its own square carries at least four raw units of the length.
pub proof fn lemma_unit_comp_lower(c: int, l2: int)
    requires
        4 <= fx_mul_s(c, c),
        fx_mul_s(c, c) <= l2,
        l2 <= 3 * fx_mul_s(c, c),
        1 <= l2,
    ensures
        fx_div_s(c, fx_sqrt_s(l2)) >= 32768 || fx_div_s(c, fx_sqrt_s(l2)) <= -32768,
{
    let ll = l2 * 65536;
    let len = fx_sqrt_s(l2);
    let m = fx_mul_s(c, c);
    lemma_isqrt_bracket(ll);
    lemma_len_lower(l2);
    lemma_square_nonneg(c);
    lemma_tdiv_error(c * c, 65536);
    // c * c >= 65536 * m >= 262144, so |c| >= 512.
    assert(65536 * m <= c * c);
    let a = if c >= 0 { c } else { -c };
    assert(a * a == c * c) by (nonlinear_arith)
        requires a == c || a == -c;
    assert(a >= 512) by (nonlinear_arith)
        requires
            0 <= a,
            a * a >= 262144,
    ;
    // len * len <= l2 * 65536 <= 3 * (c * c), so len <= 2 * a.
    assert(65536 * l2 <= 65536 * (3 * m));
    assert(65536 * (3 * m) == 3 * (65536 * m));
    assert(len * len <= 3 * (c * c));
    assert(len <= 2 * a) by (nonlinear_arith)
        requires
            0 <= len,
            0 <= a,
            len * len <= 3 * (c * c),
            a * a == c * c,
    ;
    // tdiv(a * 65536, len) >= tdiv(a * 65536, 2 * a) == 32768.
    assert(a * 65536 >= 0) by (nonlinear_arith)
        requires 0 <= a;
    lemma_div_is_ordered_by_denominator(a * 65536, len, 2 * a);
    assert(a * 65536 == 32768 * (2 * a)) by (nonlinear_arith);
    lemma_div_by_multiple(32768, 2 * a);
    assert((a * 65536) / (2 * a) == 32768);
    assert(tdiv(a * 65536, len) >= 32768);
    if c >= 0 {
        assert(fx_div_s(c, len) >= 32768);
    } else {
        assert(c * 65536 == -(a * 65536)) by (nonlinear_arith)
            requires a == -c;
        lemma_tdiv_neg(a * 65536, len);
        assert(fx_div_s(c, len) <= -32768);
    }
}

/// A vector of squared length at least 12 normalizes to a vector whose
/// squared length is at least a quarter of the fixed-point one.
pub proof fn lemma_unit_len2_lower(v: Vec3i)
    requires
        bounded_v(v, 0x8000_0000),
        12 <= len2_v(v),
    ensures
        16384 <= len2_v(unit_v(v)),
{
    lemma_len2_nonneg(v);
    let l2 = len2_v(v);
    let u = unit_v(v);
    lemma_len2_nonneg(u);
    let mx = fx_mul_s(v.x, v.x);
    let my = fx_mul_s(v.y, v.y);
    let mz = fx_mul_s(v.z, v.z);
    if mx >= my && mx >= mz {
        lemma_unit_comp_lower(v.x, l2);
        lemma_comp_square_lower(u.x);
        assert(fx_mul_s(u.x, u.x) <= len2_v(u));
    } else if my >= mz {
        lemma_unit_comp_lower(v.y, l2);
        lemma_comp_square_lower(u.y);
        assert(fx_mul_s(u.y, u.y) <= len2_v(u));
    } else {
        lemma_unit_comp_lower(v.z, l2);
        lemma_comp_square_lower(u.z);
        assert(fx_mul_s(u.z, u.z) <= len2_v(u));
    }
}

/// One summand of a dot product of a vector with its own normalized form:
/// truncation preserves sign, so the summand is never negative.
proof fn lemma_div_dot_term_nonneg(c: int, len: int)
    requires
        1 <= len,
    ensures
        fx_mul_s(fx_div_s(c, len), c) >= 0,
{
    lemma_tdiv_error(c * 65536, len);
    let u = fx_div_s(c, len);
    if c >= 0 {
        assert(c * 65536 >= 0) by (nonlinear_arith)
            requires c >= 0;
        assert(u * c >= 0) by (nonlinear_arith)
            requires u >= 0, c >= 0;
    } else {
        assert(c * 65536 < 0) by (nonlinear_arith)
            requires c < 0;
        assert(u * c >= 0) by (nonlinear_arith)
            requires u <= 0, c < 0;
    }
    lemma_fx_mul_nonneg(u, c);
}

/// The dot product of a vector of squared length at least twelve with its
/// own normalized form is strictly positive.
pub proof fn lemma_unit_dot_pos(v: Vec3i)
    requires
        bounded_v(v, 0x8000_0000),
        12 <= len2_v(v),
    ensures
        dot_v(unit_v(v), v) > 0,
{
    lemma_len2_nonneg(v);
    let l2 = len2_v(v);
    let len = fx_sqrt_s(l2);
    lemma_len_lower(l2);
    let mx = fx_mul_s(v.x, v.x);
    let my = fx_mul_s(v.y, v.y);
    let mz = fx_mul_s(v.z, v.z);
    lemma_div_dot_term_nonneg(v.x, len);
    lemma_div_dot_term_nonneg(v.y, len);
    lemma_div_dot_term_nonneg(v.z, len);
    if mx >= my && mx >= mz {
        lemma_big_term_pos(v.x, l2);
    } else if my >= mz {
        lemma_big_term_pos(v.y, l2);
    } else {
        lemma_big_term_pos(v.z, l2);
    }
}

/// The dominant component's summand in such a dot product is at least one.
proof fn lemma_big_term_pos(c: int, l2: int)
    requires
        4 <= fx_mul_s(c, c),
        fx_mul_s(c, c) <= l2,
        l2 <= 3 * fx_mul_s(c, c),
        12 <= l2,
    ensures
        fx_mul_s(fx_div_s(c, fx_sqrt_s(l2)), c) >= 1,
{
    let len = fx_sqrt_s(l2);
    lemma_len_lower(l2);
    lemma_unit_comp_lower(c, l2);
    let u = fx_div_s(c, len);
    lemma_tdiv_error(c * c, 65536);
    assert(c * c >= 4 * 65536);
    let a = if c >= 0 { c } else { -c };
    assert(a * a == c * c) by (nonlinear_arith)
        requires a == c || a == -c;
    assert(a >= 512) by (nonlinear_arith)
        requires 0 <= a, a * a >= 262144;
    lemma_tdiv_error(c * 65536, len);
    if c >= 0 {
        assert(c * 65536 >= 0) by (nonlinear_arith)
            requires c >= 0;
        assert(u >= 32768);
        assert(u * c >= 16777216) by (nonlinear_arith)
            requires u >= 32768, c >= 512;
    } else {
        assert(c * 65536 < 0) by (nonlinear_arith)
            requires c < 0;
        assert(u <= -32768);
        assert(u * c >= 16777216) by (nonlinear_arith)
            requires u <= -32768, c <= -512;
    }
    crate::fixed::lemma_tdiv_mono(16777216, u * c, 65536);
    assert(16777216int / 65536 == 256) by (nonlinear_arith);
}

/// A component of magnitude at least half contributes at least a quarter.
proof fn lemma_comp_square_lower(c: int)
    requires
        c >= 32768 || c <= -32768,
    ensures
        fx_mul_s(c, c) >= 16384,
{
    let a = if c >= 0 { c } else { -c };
    assert(a * a == c * c) by (nonlinear_arith)
        requires a == c || a == -c;
    assert(a * a >= 1073741824) by (nonlinear_arith)
        requires a >= 32768;
    lemma_tdiv_error(c * c, 65536);
    assert(65536 * tdiv(c * c, 65536) > c * c - 65536);
    assert(65536 * 16384 <= 1073741824 - 65536 + 65536);
    if tdiv(c * c, 65536) < 16384 {
        assert(65536 * tdiv(c * c, 65536) <= 65536 * 16383);
    }
}

impl Vector3 {
    /// Build a vector from raw fixed-point components.
    pub fn new(x: i64, y: i64, z: i64) -> (r: Vector3)
        ensures
            r@ == (Vec3i { x: x as int, y: y as int, z: z as int }),
    {
        Vector3 { x, y, z }
    }

    /// Component-wise sum.
    pub fn add(&self, rhs: &Vector3) -> (r: Vector3)
        requires
            bounded_v(self@, 0x3fff_ffff_ffff_ffff),
            bounded_v(rhs@, 0x3fff_ffff_ffff_ffff),
        ensures
            r@ == add_v(self@, rhs@),
    {
        Vector3 { x: self.x + rhs.x, y: self.y + rhs.y, z: self.z + rhs.z }
    }

    /// Component-wise difference.
    pub fn sub(&self, rhs: &Vector3) -> (r: Vector3)
        requires
            bounded_v(self@, 0x3fff_ffff_ffff_ffff),
            bounded_v(rhs@, 0x3fff_ffff_ffff_ffff),
        ensures
            r@ == sub_v(self@, rhs@),
    {
        Vector3 { x: self.x - rhs.x, y: self.y - rhs.y, z: self.z - rhs.z }
    }

    /// Component-wise negation.
    pub fn neg(&self) -> (r: Vector3)
        requires
            bounded_v(self@, 0x7fff_ffff_ffff_ffff),
        ensures
            r@ == neg_v(self@),
    {
        Vector3 { x: -self.x, y: -self.y, z: -self.z }
    }

    /// Multiply every component by the fixed-point scalar `k`.
    pub fn scale(&self, k: i64) -> (r: Vector3)
        requires
            -0x80_0000_0000 <= k <= 0x80_0000_0000,
            bounded_v(self@, 0x80_0000_0000),
        ensures
            r@ == scale_v(k as int, self@),
    {
        proof {
            lemma_mul_le(k as int, self@.x, 0x80_0000_0000, 0x80_0000_0000);
            lemma_mul_le(k as int, self@.y, 0x80_0000_0000, 0x80_0000_0000);
            lemma_mul_le(k as int, self@.z, 0x80_0000_0000, 0x80_0000_0000);
        }
        Vector3 { x: fx_mul(k, self.x), y: fx_mul(k, self.y), z: fx_mul(k, self.z) }
    }

    /// Fixed-point dot product.
    pub fn dot(&self, rhs: &Vector3) -> (r: i64)
        requires
            bounded_v(self@, 0x8000_0000),
            bounded_v(rhs@, 0x8000_0000),
        ensures
            r == dot_v(self@, rhs@),
            -0xc000_0000_0000 <= r <= 0xc000_0000_0000,
    {
        proof {
            lemma_mul_le(self@.x, rhs@.x, 0x8000_0000, 0x8000_0000);
            lemma_mul_le(self@.y, rhs@.y, 0x8000_0000, 0x8000_0000);
            lemma_mul_le(self@.z, rhs@.z, 0x8000_0000, 0x8000_0000);
            lemma_fx_mul_bound(self@.x, rhs@.x, 0x8000_0000, 0x8000_0000);
            lemma_fx_mul_bound(self@.y, rhs@.y, 0x8000_0000, 0x8000_0000);
            lemma_fx_mul_bound(self@.z, rhs@.z, 0x8000_0000, 0x8000_0000);
        }
        fx_mul(self.x, rhs.x) + fx_mul(self.y, rhs.y) + fx_mul(self.z, rhs.z)
    }

    /// Fixed-point cross product.
    pub fn cross(&self, rhs: &Vector3) -> (r: Vector3)
        requires
            bounded_v(self@, 0x8000_0000),
            bounded_v(rhs@, 0x8000_0000),
        ensures
            r@ == cross_v(self@, rhs@),
    {
        proof {
            lemma_mul_le(self@.y, rhs@.z, 0x8000_0000, 0x8000_0000);
            lemma_mul_le(self@.z, rhs@.y, 0x8000_0000, 0x8000_0000);
            lemma_mul_le(self@.z, rhs@.x, 0x8000_0000, 0x8000_0000);
            lemma_mul_le(self@.x, rhs@.z, 0x8000_0000, 0x8000_0000);
            lemma_mul_le(self@.x, rhs@.y, 0x8000_0000, 0x8000_0000);
            lemma_mul_le(self@.y, rhs@.x, 0x8000_0000, 0x8000_0000);
            lemma_fx_mul_bound(self@.y, rhs@.z, 0x8000_0000, 0x8000_0000);
            lemma_fx_mul_bound(self@.z, rhs@.y, 0x8000_0000, 0x8000_0000);
            lemma_fx_mul_bound(self@.z, rhs@.x, 0x8000_0000, 0x8000_0000);
            lemma_fx_mul_bound(self@.x, rhs@.z, 0x8000_0000, 0x8000_0000);
            lemma_fx_mul_bound(self@.x, rhs@.y, 0x8000_0000, 0x8000_0000);
            lemma_fx_mul_bound(self@.y, rhs@.x, 0x8000_0000, 0x8000_0000);
        }
        Vector3 {
            x: fx_mul(self.y, rhs.z) - fx_mul(self.z, rhs.y),
            y: fx_mul(self.z, rhs.x) - fx_mul(self.x, rhs.z),
            z: fx_mul(self.x, rhs.y) - fx_mul(self.y, rhs.x),
        }
    }

    /// Fixed-point squared length.
    pub fn length_squared(&self) -> (r: i64)
        requires
            bounded_v(self@, 0x8000_0000),
        ensures
            r == len2_v(self@),
            r >= 0,
    {
        proof {
            lemma_len2_nonneg(self@);
        }
        self.dot(self)
    }

    /// Fixed-point length.
    pub fn length(&self) -> (r: i64)
        requires
            bounded_v(self@, 0x8000_0000),
        ensures
            r == fx_sqrt_s(len2_v(self@)),
            r >= 0,
    {
        let l2 = self.length_squared();
        fx_sqrt(l2)
    }

    /// Normalize to (approximately) unit length.
    pub fn normalize(&self) -> (r: Vector3)
        requires
            bounded_v(self@, 0x8000_0000),
            1 <= len2_v(self@),
        ensures
            r@ == unit_v(self@),
            bounded_v(r@, 131072),
            len2_v(self@) >= 12 ==> len2_v(r@) >= 16384,
    {
        let l2 = self.length_squared();
        let len = fx_sqrt(l2);
        proof {
            lemma_len_lower(l2 as int);
            lemma_unit_bounded(self@);
            if len2_v(self@) >= 12 {
                lemma_unit_len2_lower(self@);
            }
        }
        Vector3 {
            x: fx_div(self.x, len),
            y: fx_div(self.y, len),
            z: fx_div(self.z, len),
        }
    }
}

/// One component clamped to the symmetric box `[-b, b]`.
pub open spec fn clamp_sym_s(c: int, b: int) -> int {
    if c < -b {
        -b
    } else if c > b {
        b
    } else {
        c
    }
}

/// A vector clamped componentwise to the symmetric box `[-b, b]`.
pub open spec fn clamp_box_v(v: Vec3i, b: int) -> Vec3i {
    Vec3i { x: clamp_sym_s(v.x, b), y: clamp_sym_s(v.y, b), z: clamp_sym_s(v.z, b) }
}

/// A vector divided componentwise by a positive plain integer.
pub open spec fn div_int_v(v: Vec3i, k: int) -> Vec3i {
    Vec3i { x: tdiv(v.x, k), y: tdiv(v.y, k), z: tdiv(v.z, k) }
}

impl Vector3 {
    /// Clamp every component to the symmetric box `[-b, b]`.
    pub fn clamp_box(&self, b: i64) -> (r: Vector3)
        requires
            0 <= b,
        ensures
            r@ == clamp_box_v(self@, b as int),
            bounded_v(r@, b as int),
    {
        let x = if self.x < -b { -b } else if self.x > b { b } else { self.x };
        let y = if self.y < -b { -b } else if self.y > b { b } else { self.y };
        let z = if self.z < -b { -b } else if self.z > b { b } else { self.z };
        Vector3 { x, y, z }
    }

    /// Divide every component by the positive plain integer `k`.
    pub fn div_by(&self, k: i64) -> (r: Vector3)
        requires
            0 < k,
            bounded_v(self@, 0x7fff_ffff_ffff_ffff),
        ensures
            r@ == div_int_v(self@, k as int),
    {
        proof {
            lemma_tdiv_error(self@.x, k as int);
            lemma_tdiv_error(self@.y, k as int);
            lemma_tdiv_error(self@.z, k as int);
        }
        Vector3 {
            x: crate::fixed::idiv(self.x, k),
            y: crate::fixed::idiv(self.y, k),
            z: crate::fixed::idiv(self.z, k),
        }
    }
}

/// An orthonormal camera frame.
#[derive(Clone, Copy, Debug, PartialEq, Eq, Structural)]
pub struct Basis {
    pub u: Vector3,
    pub v: Vector3,
    pub w: Vector3,
}

/// Mathematical model of a ray.
pub struct RayView {
    pub origin: Vec3i,
    pub direction: Vec3i,
}

/// A ray: an origin point and a normalized direction.
#[derive(Clone, Copy, Debug, PartialEq, Eq, Structural)]
pub struct Ray {
    pub origin: Point3,
    pub direction: Vector3,
}

impl View for Ray {
    type V = RayView;

    open spec fn view(&self) -> RayView {
        RayView { origin: self.origin@, direction: self.direction@ }
    }
}

/// Well-formedness of a constructed ray: the origin lies in the world box and
/// the direction is a normalized vector of reasonable quality.
pub open spec fn ray_wf(r: RayView) -> bool {
    &&& bounded_v(r.origin, 0x4000_0000)
    &&& bounded_v(r.direction, 131072)
    &&& 16384 <= len2_v(r.direction)
}

/// The model of ray construction: the direction is normalized.
pub open spec fn ray_new_v(origin: Vec3i, direction: Vec3i) -> RayView {
    RayView { origin: origin, direction: unit_v(direction) }
}

/// The point at parameter `t` along the ray.
pub open spec fn at_v(r: RayView, t: int) -> Vec3i {
    add_v(r.origin, scale_v(t, r.direction))
}

impl Ray {
    /// Build a ray; the direction is normalized on construction.
    /// A degenerate (near zero-length) direction is a caller error.
    pub fn new(origin: Point3, direction: Vector3) -> (r: Ray)
        requires
            bounded_v(origin@, 0x4000_0000),
            bounded_v(direction@, 0x4000_0000),
            12 <= len2_v(direction@),
        ensures
            r@ == ray_new_v(origin@, direction@),
            ray_wf(r@),
    {
        Ray { origin, direction: direction.normalize() }
    }

    /// The point reached after travelling `t` along the direction.
    pub fn at(&self, t: i64) -> (r: Point3)
        requires
            ray_wf(self@),
            -0x1000_0000 <= t <= 0x1000_0000,
        ensures
            r@ == at_v(self@, t as int),
            bounded_v(r@, 0x6000_0000),
    {
        proof {
            lemma_mul_le(t as int, self@.direction.x, 0x1000_0000, 131072);
            lemma_mul_le(t as int, self@.direction.y, 0x1000_0000, 131072);
            lemma_mul_le(t as int, self@.direction.z, 0x1000_0000, 131072);
            lemma_fx_mul_bound(t as int, self@.direction.x, 0x1000_0000, 131072);
            lemma_fx_mul_bound(t as int, self@.direction.y, 0x1000_0000, 131072);
            lemma_fx_mul_bound(t as int, self@.direction.z, 0x1000_0000, 131072);
        }
        self.origin.add(&self.direction.scale(t))
    }
}

/// Relies on rand::random::<u64>: a freshly drawn value; nothing is assumed
/// about it beyond its type.
#[verifier::external_body]
pub(crate) fn random_u64() -> u64 {
    rand::random::<u64>()
}

/// A uniformly drawn fixed-point value in [-1, 1].
fn random_fx_symmetric() -> (r: i64)
    ensures
        -65536 <= r <= 65536,
{
    let u: u64 = random_u64();
    let m: u64 = u % 131073;
    (m as i64) - 65536
}

/// A random vector with every component in [-1, 1].
pub fn random_vector_in_cube() -> (r: Vector3)
    ensures
        bounded_v(r@, 65536),
{
    Vector3 {
        x: random_fx_symmetric(),
        y: random_fx_symmetric(),
        z: random_fx_symmetric(),
    }
}

/// A random vector inside the unit sphere, excluding the degenerate core
/// (squared length in [12, 1] raw: below the library's resolution threshold
/// a direction carries no usable information). Rejection sampling, with a
/// fixed fallback after a bounded number of tries.
pub fn random_vector_in_sphere() -> (r: Vector3)
    ensures
        bounded_v(r@, 65536),
        12 <= len2_v(r@) <= 65536,
{
    let mut k: usize = 0;
    while k < 64
        invariant
            k <= 64,
        decreases 64 - k,
    {
        let vector = random_vector_in_cube();
        let lensq = vector.length_squared();
        if 12 <= lensq && lensq <= 65536 {
            return vector;
        }
        k = k + 1;
    }
    let fallback = Vector3 { x: FX_HALF, y: 0, z: 0 };
    proof {
        lemma_len2_nonneg(fallback@);
        assert(32768 * 32768 == 1073741824) by (nonlinear_arith);
        assert(1073741824int / 65536 == 16384) by (nonlinear_arith);
        assert(0int * 0 == 0) by (nonlinear_arith);
        assert(0int / 65536 == 0) by (nonlinear_arith);
        assert(len2_v(fallback@) == 16384);
    }
    fallback
}

/// A random direction of (approximately) unit length: its squared length
/// is at least a quarter and its components at most twice the unit.
pub fn random_unit_vector_on_sphere() -> (r: Vector3)
    ensures
        bounded_v(r@, 131072),
        16384 <= len2_v(r@),
{
    random_vector_in_sphere().normalize()
}

/// A random unit direction in the hemisphere around `normal`: of the same
/// near-unit quality as the sphere sampler, and never against the normal.
pub fn random_unit_vector_on_hemisphere(normal: &Vector3) -> (r: Vector3)
    requires
        bounded_v(normal@, 131072),
    ensures
        bounded_v(r@, 131072),
        16384 <= len2_v(r@),
        dot_v(r@, normal@) >= 0,
{
    let vector = random_unit_vector_on_sphere();
    // In the same hemisphere as the normal
    if vector.dot(normal) > 0 {
        vector
    } else {
        proof {
            lemma_fx_mul_neg(vector@.x, normal@.x);
            lemma_fx_mul_neg(vector@.y, normal@.y);
            lemma_fx_mul_neg(vector@.z, normal@.z);
            lemma_len2_neg(vector@);
        }
        vector.neg()
    }
}

/// Return true if the vector is close to zero in all dimensions.
pub fn near_zero(vector: &Vector3) -> (r: bool)
    ensures
        r == near_zero_s(vector@),
{
    -NEAR_ZERO_RAW < vector.x && vector.x < NEAR_ZERO_RAW && -NEAR_ZERO_RAW < vector.y
        && vector.y < NEAR_ZERO_RAW && -NEAR_ZERO_RAW < vector.z && vector.z < NEAR_ZERO_RAW
}

} // verus!
