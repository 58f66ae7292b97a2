//! Colours: three fixed-point channels, attenuation products and the
//! display transforms (gamma and clamping).

use vstd::prelude::*;

use crate::fixed::fx_clamp01;
use crate::fixed::fx_clamp01_s;
use crate::fixed::fx_mul;
use crate::fixed::fx_mul_s;
use crate::fixed::fx_sqrt;
use crate::fixed::fx_sqrt_s;
use crate::fixed::lemma_fx_mul_bound;
use crate::fixed::lemma_isqrt_bracket;
use crate::fixed::lemma_isqrt_ordered;
use crate::fixed::lemma_isqrt_unique;
use crate::fixed::lemma_mul_le;
use crate::fixed::lemma_square_nonneg;
use crate::fixed::lemma_tdiv_error;
use crate::fixed::lemma_tdiv_ordered;
use crate::fixed::tdiv;
use crate::fixed::FX_ONE;
use crate::types::bounded_v;
use crate::types::Vec3i;
use crate::types::Vector3;

verus! {

use vstd::arithmetic::div_mod::lemma_div_by_multiple;

/// Channels of a physically meaningful colour lie in the unit interval.
pub open spec fn unit_color(c: Vec3i) -> bool {
    &&& 0 <= c.x <= 65536
    &&& 0 <= c.y <= 65536
    &&& 0 <= c.z <= 65536
}

/// A colour with fixed-point red, green and blue channels.
#[derive(Clone, Copy, Debug, PartialEq, Eq, Structural)]
pub struct Color(pub Vector3);

impl View for Color {
    type V = Vec3i;

    open spec fn view(&self) -> Vec3i {
        self.0@
    }
}

pub open spec fn color_black() -> Vec3i {
    Vec3i { x: 0, y: 0, z: 0 }
}

pub open spec fn color_white() -> Vec3i {
    Vec3i { x: 65536, y: 65536, z: 65536 }
}

/// Component-wise product: attenuation of one colour by another.
pub open spec fn mul_color_v(a: Vec3i, b: Vec3i) -> Vec3i {
    Vec3i {
        x: fx_mul_s(a.x, b.x),
        y: fx_mul_s(a.y, b.y),
        z: fx_mul_s(a.z, b.z),
    }
}

/// Component-wise clamp to the unit interval.
pub open spec fn clamp_v(c: Vec3i) -> Vec3i {
    Vec3i {
        x: fx_clamp01_s(c.x),
        y: fx_clamp01_s(c.y),
        z: fx_clamp01_s(c.z),
    }
}

/// The gamma-2 display transform: the square root of each non-negative
/// channel; negative channels map to zero.
pub open spec fn gamma_s(c: int) -> int {
    if c >= 0 {
        fx_sqrt_s(c)
    } else {
        0
    }
}

pub open spec fn gamma_v(c: Vec3i) -> Vec3i {
    Vec3i { x: gamma_s(c.x), y: gamma_s(c.y), z: gamma_s(c.z) }
}

/// The background: a vertical blend from white down to sky blue, driven by
/// the direction's vertical component in [-1, 1].
pub open spec fn gradient_v(point: int) -> Vec3i {
    let a = tdiv(point + 65536, 2);
    let na = 65536 - a;
    Vec3i {
        x: fx_mul_s(na, 65536) + fx_mul_s(a, 32768),
        y: fx_mul_s(na, 65536) + fx_mul_s(a, 45875),
        z: fx_mul_s(na, 65536) + fx_mul_s(a, 65536),
    }
}

/// The byte value of one clamped channel: 0..=255.
pub open spec fn byte_s(c: int) -> int {
    let cl = fx_clamp01_s(c);
    if tdiv(cl, 256) > 255 {
        255
    } else {
        tdiv(cl, 256)
    }
}

impl Color {
    /// The background gradient evaluated at a direction's vertical component.
    pub fn gradient_white_to_blue(point: i64) -> (r: Color)
        requires
            -131072 <= point <= 131072,
        ensures
            r@ == gradient_v(point as int),
    {
        let a: i64 = crate::fixed::idiv(point + FX_ONE, 2);
        let na: i64 = FX_ONE - a;
        proof {
            lemma_mul_le(na as int, 65536, 196608, 65536);
            lemma_mul_le(a as int, 65536, 196608, 65536);
            lemma_fx_mul_bound(na as int, 65536, 196608, 65536);
            lemma_fx_mul_bound(a as int, 32768, 196608, 65536);
            lemma_fx_mul_bound(a as int, 45875, 196608, 65536);
            lemma_fx_mul_bound(a as int, 65536, 196608, 65536);
        }
        Color(Vector3 {
            x: fx_mul(na, FX_ONE) + fx_mul(a, 32768),
            y: fx_mul(na, FX_ONE) + fx_mul(a, 45875),
            z: fx_mul(na, FX_ONE) + fx_mul(a, FX_ONE),
        })
    }

    /// Build a colour from raw fixed-point channels.
    pub fn new(r: i64, g: i64, b: i64) -> (c: Color)
        ensures
            c@ == (Vec3i { x: r as int, y: g as int, z: b as int }),
    {
        Color(Vector3 { x: r, y: g, z: b })
    }

    /// Pure black.
    pub fn black() -> (c: Color)
        ensures
            c@ == color_black(),
    {
        Color(Vector3 { x: 0, y: 0, z: 0 })
    }

    /// Pure white.
    pub fn white() -> (c: Color)
        ensures
            c@ == color_white(),
    {
        Color(Vector3 { x: FX_ONE, y: FX_ONE, z: FX_ONE })
    }

    /// Map each channel to a byte, saturating outside the unit interval.
    pub fn to_byte(&self) -> (r: [u8; 3])
        ensures
            r[0] == byte_s(self@.x),
            r[1] == byte_s(self@.y),
            r[2] == byte_s(self@.z),
    {
        let c = self.clamp();
        let b0: i64 = crate::fixed::idiv(c.0.x, 256);
        let b1: i64 = crate::fixed::idiv(c.0.y, 256);
        let b2: i64 = crate::fixed::idiv(c.0.z, 256);
        let b0: u8 = if b0 > 255 { 255 } else { b0 as u8 };
        let b1: u8 = if b1 > 255 { 255 } else { b1 as u8 };
        let b2: u8 = if b2 > 255 { 255 } else { b2 as u8 };
        [b0, b1, b2]
    }

    /// The underlying vector of channels.
    pub fn to_vec(&self) -> (r: Vector3)
        ensures
            r@ == self@,
    {
        self.0
    }

    /// Clamp every channel to the unit interval.
    pub fn clamp(&self) -> (r: Color)
        ensures
            r@ == clamp_v(self@),
    {
        Color(Vector3 {
            x: fx_clamp01(self.0.x),
            y: fx_clamp01(self.0.y),
            z: fx_clamp01(self.0.z),
        })
    }

    /// Apply the gamma-2 display transform to every channel.
    pub fn to_gamma_2_color(&self) -> (r: Color)
        ensures
            r@ == gamma_v(self@),
    {
        let x = if self.0.x >= 0 { fx_sqrt(self.0.x) } else { 0 };
        let y = if self.0.y >= 0 { fx_sqrt(self.0.y) } else { 0 };
        let z = if self.0.z >= 0 { fx_sqrt(self.0.z) } else { 0 };
        Color(Vector3 { x, y, z })
    }

    /// Component-wise sum of two colours.
    pub fn add(&self, rhs: &Color) -> (r: Color)
        requires
            bounded_v(self@, 0x3fff_ffff_ffff_ffff),
            bounded_v(rhs@, 0x3fff_ffff_ffff_ffff),
        ensures
            r@ == (Vec3i {
                x: self@.x + rhs@.x,
                y: self@.y + rhs@.y,
                z: self@.z + rhs@.z,
            }),
    {
        Color(self.0.add(&rhs.0))
    }

    /// Component-wise product of two colours (attenuation chaining).
    pub fn mul(&self, rhs: &Color) -> (r: Color)
        requires
            bounded_v(self@, 0x8000_0000),
            bounded_v(rhs@, 0x8000_0000),
        ensures
            r@ == mul_color_v(self@, rhs@),
    {
        proof {
            lemma_mul_le(self@.x, rhs@.x, 0x8000_0000, 0x8000_0000);
            lemma_mul_le(self@.y, rhs@.y, 0x8000_0000, 0x8000_0000);
            lemma_mul_le(self@.z, rhs@.z, 0x8000_0000, 0x8000_0000);
        }
        Color(Vector3 {
            x: fx_mul(self.0.x, rhs.0.x),
            y: fx_mul(self.0.y, rhs.0.y),
            z: fx_mul(self.0.z, rhs.0.z),
        })
    }

    /// Scale every channel by the fixed-point factor `k`.
    pub fn scale(&self, k: i64) -> (r: Color)
        requires
            -0x80_0000_0000 <= k <= 0x80_0000_0000,
            bounded_v(self@, 0x80_0000_0000),
        ensures
            r@ == (Vec3i {
                x: fx_mul_s(k as int, self@.x),
                y: fx_mul_s(k as int, self@.y),
                z: fx_mul_s(k as int, self@.z),
            }),
    {
        Color(self.0.scale(k))
    }
}

/// The product of two unit colours is a unit colour.
pub proof fn lemma_mul_color_unit(a: Vec3i, b: Vec3i)
    requires
        unit_color(a),
        unit_color(b),
    ensures
        unit_color(mul_color_v(a, b)),
{
    lemma_mul_unit_comp(a.x, b.x);
    lemma_mul_unit_comp(a.y, b.y);
    lemma_mul_unit_comp(a.z, b.z);
}

proof fn lemma_mul_unit_comp(a: int, b: int)
    requires
        0 <= a <= 65536,
        0 <= b <= 65536,
    ensures
        0 <= fx_mul_s(a, b) <= 65536,
{
    assert(a * b >= 0) by (nonlinear_arith)
        requires 0 <= a, 0 <= b;
    crate::fixed::lemma_fx_mul_nonneg(a, b);
    assert(65536 * 65536 == 65536 * 65536) by (nonlinear_arith);
    crate::fixed::lemma_fx_mul_bound_cap(a, b, 65536, 65536, 65536);
}

/// Attenuating a bounded colour by a unit colour keeps the bound.
pub proof fn lemma_mul_color_cap(a: Vec3i, b: Vec3i)
    requires
        unit_color(a),
        bounded_v(b, 262144),
    ensures
        bounded_v(mul_color_v(a, b), 262144),
{
    assert(65536 * 262144 == 262144 * 65536) by (nonlinear_arith);
    crate::fixed::lemma_fx_mul_bound_cap(a.x, b.x, 65536, 262144, 262144);
    crate::fixed::lemma_fx_mul_bound_cap(a.y, b.y, 65536, 262144, 262144);
    crate::fixed::lemma_fx_mul_bound_cap(a.z, b.z, 65536, 262144, 262144);
}

/// Attenuating by pure white changes nothing.
pub proof fn lemma_mul_color_white(c: Vec3i)
    ensures
        mul_color_v(color_white(), c) == c,
{
    crate::fixed::lemma_fx_mul_one(c.x);
    crate::fixed::lemma_fx_mul_one(c.y);
    crate::fixed::lemma_fx_mul_one(c.z);
}

/// Scaling by the fixed-point one changes nothing.
pub proof fn lemma_scale_color_one(c: Vec3i)
    ensures
        crate::types::scale_v(65536, c) == c,
{
    crate::fixed::lemma_fx_mul_one(c.x);
    crate::fixed::lemma_fx_mul_one(c.y);
    crate::fixed::lemma_fx_mul_one(c.z);
}

/// The background gradient stays within twice-direction-sized bounds.
pub proof fn lemma_gradient_bounded(point: int)
    requires
        -131072 <= point <= 131072,
    ensures
        bounded_v(gradient_v(point), 262144),
{
    lemma_tdiv_error(point + 65536, 2);
    let a = tdiv(point + 65536, 2);
    assert(-32768 <= a <= 98304);
    let na = 65536 - a;
    crate::fixed::lemma_fx_mul_one(na);
    crate::fixed::lemma_fx_mul_one(a);
    assert(98304 * 32768 == 49152 * 65536) by (nonlinear_arith);
    crate::fixed::lemma_fx_mul_bound_cap(a, 32768, 98304, 32768, 49152);
    assert(98304 * 45875 <= 68813 * 65536) by (nonlinear_arith);
    crate::fixed::lemma_fx_mul_bound_cap(a, 45875, 98304, 45875, 68813);
}

/// Clamping an already clamped colour changes nothing.
pub proof fn lemma_clamp_idempotent(c: Vec3i)
    ensures
        clamp_v(clamp_v(c)) == clamp_v(c),
{
}

/// The gamma transform of a unit-interval channel, squared again, recovers
/// the channel to within three raw fixed-point units.
pub proof fn lemma_gamma_square_close(c: int)
    requires
        0 <= c <= 65536,
    ensures
        fx_mul_s(gamma_s(c), gamma_s(c)) <= c,
        c - fx_mul_s(gamma_s(c), gamma_s(c)) <= 3,
{
    let g = fx_sqrt_s(c);
    lemma_isqrt_bracket(c * 65536);
    assert(65536 * 65536 == 4294967296) by (nonlinear_arith);
    lemma_isqrt_unique(4294967296, 65536);
    lemma_isqrt_ordered(c * 65536, 4294967296);
    lemma_square_nonneg(g);
    lemma_tdiv_error(g * g, 65536);
    let sq = fx_mul_s(g, g);
    // sq <= c because g * g <= c * 65536.
    lemma_tdiv_ordered(g * g, c * 65536, 65536);
    lemma_div_by_multiple(c, 65536);
    assert(tdiv(c * 65536, 65536) == c);
    // c - sq <= 3 because c * 65536 < (g + 1)^2 and g <= 65536.
    assert((g + 1) * (g + 1) == g * g + 2 * g + 1) by (nonlinear_arith);
    assert(c * 65536 < g * g + 2 * g + 1);
    assert(65536 * sq > g * g - 65536);
    assert(65536 * sq > c * 65536 - 2 * g - 1 - 65536);
    assert(65536 * (c - sq) < 2 * 65536 + 1 + 65536);
}

/// The gamma transform of any non-negative channel, squared again,
/// recovers the channel to within two raw units per unit of its root:
/// the recovery error is at most `2 * sqrt(c) / 65536 + 1`.
pub proof fn lemma_gamma_square_close_any(c: int)
    requires
        0 <= c,
    ensures
        fx_mul_s(gamma_s(c), gamma_s(c)) <= c,
        c - fx_mul_s(gamma_s(c), gamma_s(c)) <= tdiv(2 * fx_sqrt_s(c), 65536) + 1,
{
    let g = fx_sqrt_s(c);
    lemma_isqrt_bracket(c * 65536);
    lemma_square_nonneg(g);
    lemma_tdiv_error(g * g, 65536);
    let sq = fx_mul_s(g, g);
    // sq <= c because g * g <= c * 65536.
    lemma_tdiv_ordered(g * g, c * 65536, 65536);
    lemma_div_by_multiple(c, 65536);
    assert(tdiv(c * 65536, 65536) == c);
    // 65536 * (c - sq) <= 2 * g + 65535, and the floor of 2g/65536 loses
    // less than one unit.
    assert((g + 1) * (g + 1) == g * g + 2 * g + 1) by (nonlinear_arith);
    assert(c * 65536 < g * g + 2 * g + 1);
    assert(65536 * sq > g * g - 65536);
    lemma_tdiv_error(2 * g, 65536);
    let t = tdiv(2 * g, 65536);
    assert(65536 * t > 2 * g - 65536);
    assert(65536 * (c - sq) < 65536 * t + 2 * 65536);
}

/// The gamma transform of a clamped colour, squared channel by channel,
/// recovers the clamped colour to within three raw units per channel.
pub proof fn lemma_gamma_roundtrip(c: Vec3i)
    requires
        bounded_v(c, 65536),
        0 <= c.x && 0 <= c.y && 0 <= c.z,
    ensures
        mul_color_v(gamma_v(c), gamma_v(c)).x <= c.x,
        mul_color_v(gamma_v(c), gamma_v(c)).y <= c.y,
        mul_color_v(gamma_v(c), gamma_v(c)).z <= c.z,
        c.x - mul_color_v(gamma_v(c), gamma_v(c)).x <= 3,
        c.y - mul_color_v(gamma_v(c), gamma_v(c)).y <= 3,
        c.z - mul_color_v(gamma_v(c), gamma_v(c)).z <= 3,
{
    lemma_gamma_square_close(c.x);
    lemma_gamma_square_close(c.y);
    lemma_gamma_square_close(c.z);
}

/// The gamma transform of any non-negative colour, squared channel by
/// channel, recovers each channel to within `2 * sqrt(channel) / 65536 + 1`
/// raw units.
pub proof fn lemma_gamma_roundtrip_any(c: Vec3i)
    requires
        0 <= c.x,
        0 <= c.y,
        0 <= c.z,
    ensures
        mul_color_v(gamma_v(c), gamma_v(c)).x <= c.x,
        mul_color_v(gamma_v(c), gamma_v(c)).y <= c.y,
        mul_color_v(gamma_v(c), gamma_v(c)).z <= c.z,
        c.x - mul_color_v(gamma_v(c), gamma_v(c)).x <= tdiv(2 * fx_sqrt_s(c.x), 65536) + 1,
        c.y - mul_color_v(gamma_v(c), gamma_v(c)).y <= tdiv(2 * fx_sqrt_s(c.y), 65536) + 1,
        c.z - mul_color_v(gamma_v(c), gamma_v(c)).z <= tdiv(2 * fx_sqrt_s(c.z), 65536) + 1,
{
    lemma_gamma_square_close_any(c.x);
    lemma_gamma_square_close_any(c.y);
    lemma_gamma_square_close_any(c.z);
}

} // verus!
