//! Fixed-point scalar arithmetic.
//!
//! Every scalar quantity in the engine (coordinate, colour channel, ray
//! parameter) is an `i64` holding a real value scaled by `FX_ONE` (2^16).
//! All operations round toward zero and have exact integer contracts, so
//! every geometric routine built on top of them can be verified precisely.

use vstd::prelude::*;

verus! {

use vstd::arithmetic::div_mod::lemma_div_is_ordered;
use vstd::arithmetic::div_mod::lemma_div_pos_is_pos;
use vstd::arithmetic::div_mod::lemma_fundamental_div_mod;

/// The fixed-point scale: raw value `FX_ONE` represents the real number 1.
pub const FX_ONE: i64 = 65536;

/// Raw value representing one half.
pub const FX_HALF: i64 = 32768;

/// Truncating division (rounds toward zero), defined for positive divisors.
pub open spec fn tdiv(n: int, d: int) -> int {
    if n >= 0 {
        n / d
    } else {
        -((-n) / d)
    }
}

/// Fixed-point product: the real product, scaled back down, rounded toward zero.
pub open spec fn fx_mul_s(a: int, b: int) -> int {
    tdiv(a * b, 65536)
}

/// Fixed-point quotient: `a / b` as a fixed-point value, rounded toward zero.
pub open spec fn fx_div_s(a: int, b: int) -> int {
    tdiv(a * 65536, b)
}

/// Integer square root (floor of the real square root).
pub open spec fn isqrt_s(n: int) -> int
    decreases n,
{
    if n <= 0 {
        0
    } else {
        let p = isqrt_s(n - 1);
        if (p + 1) * (p + 1) <= n {
            p + 1
        } else {
            p
        }
    }
}

/// Fixed-point square root: `isqrt(a * 2^16)` so the scale is preserved.
pub open spec fn fx_sqrt_s(a: int) -> int {
    isqrt_s(a * 65536)
}

/// Clamp a fixed-point value to the unit interval [0, 1].
pub open spec fn fx_clamp01_s(a: int) -> int {
    if a < 0 {
        0
    } else if a > 65536 {
        65536
    } else {
        a
    }
}

pub proof fn lemma_tdiv_neg(n: int, d: int)
    requires
        0 < d,
    ensures
        tdiv(-n, d) == -tdiv(n, d),
{
    if n == 0 {
        assert(0int / d == 0) by (nonlinear_arith)
            requires 0 < d;
    }
}

/// The truncation error of `tdiv` is strictly less than one divisor unit,
/// and truncation never increases magnitude.
pub proof fn lemma_tdiv_error(n: int, d: int)
    requires
        0 < d,
    ensures
        n >= 0 ==> 0 <= n - d * tdiv(n, d) < d && 0 <= tdiv(n, d) <= n,
        n < 0 ==> -d < n - d * tdiv(n, d) <= 0 && n <= tdiv(n, d) <= 0,
{
    if n >= 0 {
        lemma_fundamental_div_mod(n, d);
        lemma_div_pos_is_pos(n, d);
        vstd::arithmetic::div_mod::lemma_mod_bound(n, d);
        assert(n - d * (n / d) == n % d) by (nonlinear_arith)
            requires 0 < d, n == d * (n / d) + n % d;
        assert(d * (n / d) >= n / d) by (nonlinear_arith)
            requires 0 < d, 0 <= n / d;
    } else {
        lemma_fundamental_div_mod(-n, d);
        lemma_div_pos_is_pos(-n, d);
        vstd::arithmetic::div_mod::lemma_mod_bound(-n, d);
        assert((-n) - d * ((-n) / d) == (-n) % d) by (nonlinear_arith)
            requires 0 < d, -n == d * ((-n) / d) + (-n) % d;
        assert(d * ((-n) / d) >= (-n) / d) by (nonlinear_arith)
            requires 0 < d, 0 <= (-n) / d;
        assert(d * (-((-n) / d)) == -(d * ((-n) / d))) by (nonlinear_arith);
    }
}

/// `tdiv` is bounded by the scaled magnitude bound of its numerator.
pub proof fn lemma_tdiv_bound(n: int, d: int, x: int)
    requires
        0 < d,
        -x <= n <= x,
    ensures
        -tdiv(x, d) <= tdiv(n, d) <= tdiv(x, d),
{
    if n >= 0 {
        lemma_div_is_ordered(n, x, d);
        lemma_div_pos_is_pos(n, d);
        lemma_div_pos_is_pos(x, d);
    } else {
        lemma_div_is_ordered(-n, x, d);
        lemma_div_pos_is_pos(-n, d);
        lemma_div_pos_is_pos(x, d);
    }
}

/// `tdiv` is monotone in its numerator.
pub proof fn lemma_tdiv_mono(a: int, b: int, d: int)
    requires
        0 < d,
        a <= b,
    ensures
        tdiv(a, d) <= tdiv(b, d),
{
    if a >= 0 {
        lemma_div_is_ordered(a, b, d);
    } else if b < 0 {
        lemma_div_is_ordered(-b, -a, d);
    } else {
        lemma_div_pos_is_pos(-a, d);
        lemma_div_pos_is_pos(b, d);
    }
}

/// `tdiv` is monotone on non-negative numerators.
pub proof fn lemma_tdiv_ordered(a: int, b: int, d: int)
    requires
        0 < d,
        0 <= a <= b,
    ensures
        tdiv(a, d) <= tdiv(b, d),
{
    lemma_div_is_ordered(a, b, d);
}

/// Bound on the magnitude of a product from bounds on its factors.
pub proof fn lemma_mul_le(a: int, b: int, xa: int, xb: int)
    by (nonlinear_arith)
    requires
        -xa <= a <= xa,
        -xb <= b <= xb,
    ensures
        -(xa * xb) <= a * b <= xa * xb,
{
}

/// Bound on a fixed-point product from bounds on its factors.
pub proof fn lemma_fx_mul_bound(a: int, b: int, xa: int, xb: int)
    requires
        -xa <= a <= xa,
        -xb <= b <= xb,
    ensures
        -tdiv(xa * xb, 65536) <= fx_mul_s(a, b) <= tdiv(xa * xb, 65536),
{
    lemma_mul_le(a, b, xa, xb);
    lemma_tdiv_bound(a * b, 65536, xa * xb);
}

/// Bound on a fixed-point product against a chosen cap: if the raw product
/// bound is below `cap * 65536`, the product is within `cap`.
pub proof fn lemma_fx_mul_bound_cap(a: int, b: int, xa: int, xb: int, cap: int)
    requires
        -xa <= a <= xa,
        -xb <= b <= xb,
        0 <= xa,
        0 <= xb,
        xa * xb <= cap * 65536,
    ensures
        -cap <= fx_mul_s(a, b) <= cap,
{
    lemma_mul_le(a, b, xa, xb);
    lemma_tdiv_bound(a * b, 65536, xa * xb);
    lemma_tdiv_ordered(xa * xb, cap * 65536, 65536);
    lemma_div_pos_is_pos(xa * xb, 65536);
    vstd::arithmetic::div_mod::lemma_div_by_multiple(cap, 65536);
    assert(tdiv(cap * 65536, 65536) == cap);
}

/// Negating one factor negates the fixed-point product exactly.
pub proof fn lemma_fx_mul_neg(a: int, b: int)
    ensures
        fx_mul_s(-a, b) == -fx_mul_s(a, b),
{
    assert((-a) * b == -(a * b)) by (nonlinear_arith);
    lemma_tdiv_neg(a * b, 65536);
}

/// Multiplying by the fixed-point one is exact.
pub proof fn lemma_fx_mul_one(a: int)
    ensures
        fx_mul_s(a, 65536) == a,
        fx_mul_s(65536, a) == a,
{
    assert(a * 65536 == 65536 * a) by (nonlinear_arith);
    if a >= 0 {
        assert((a * 65536) / 65536 == a) by (nonlinear_arith)
            requires a >= 0;
    } else {
        assert((-(a * 65536)) / 65536 == -a) by (nonlinear_arith)
            requires a < 0;
    }
}

/// A fixed-point product whose raw product is a multiple of the scale is
/// exact: no truncation occurs.
pub proof fn lemma_fx_mul_exact(a: int, b: int)
    requires
        (a * b) % 65536 == 0,
    ensures
        65536 * fx_mul_s(a, b) == a * b,
{
    let n = a * b;
    lemma_fundamental_div_mod(n, 65536);
    if n >= 0 {
    } else {
        assert(n == 65536 * (n / 65536));
        assert(-n == (-(n / 65536)) * 65536 + 0);
        vstd::arithmetic::div_mod::lemma_fundamental_div_mod_converse(
            -n,
            65536,
            -(n / 65536),
            0,
        );
        assert((-n) / 65536 == -(n / 65536));
    }
}

/// A square is never negative.
pub proof fn lemma_square_nonneg(a: int)
    by (nonlinear_arith)
    ensures
        a * a >= 0,
{
}

/// A fixed-point product of values of like sign is non-negative.
pub proof fn lemma_fx_mul_nonneg(a: int, b: int)
    requires
        a * b >= 0,
    ensures
        fx_mul_s(a, b) >= 0,
{
    lemma_div_pos_is_pos(a * b, 65536);
}

pub proof fn lemma_isqrt_bracket(n: int)
    requires
        0 <= n,
    ensures
        0 <= isqrt_s(n),
        isqrt_s(n) * isqrt_s(n) <= n,
        n < (isqrt_s(n) + 1) * (isqrt_s(n) + 1),
    decreases n,
{
    if n == 0 {
    } else {
        lemma_isqrt_bracket(n - 1);
        let p = isqrt_s(n - 1);
        if (p + 1) * (p + 1) <= n {
            assert(n - 1 < (p + 1) * (p + 1));
            assert(n < (p + 2) * (p + 2)) by (nonlinear_arith)
                requires 0 <= p, n <= (p + 1) * (p + 1);
        }
    }
}

/// Any value with the square-root bracketing property is the integer square root.
pub proof fn lemma_isqrt_unique(n: int, r: int)
    requires
        0 <= n,
        0 <= r,
        r * r <= n,
        n < (r + 1) * (r + 1),
    ensures
        r == isqrt_s(n),
{
    lemma_isqrt_bracket(n);
    let s = isqrt_s(n);
    if r < s {
        assert((r + 1) * (r + 1) <= s * s) by (nonlinear_arith)
            requires 0 <= r, r + 1 <= s;
    }
    if s < r {
        assert((s + 1) * (s + 1) <= r * r) by (nonlinear_arith)
            requires 0 <= s, s + 1 <= r;
    }
}

pub proof fn lemma_isqrt_ordered(a: int, b: int)
    requires
        0 <= a <= b,
    ensures
        isqrt_s(a) <= isqrt_s(b),
{
    lemma_isqrt_bracket(a);
    lemma_isqrt_bracket(b);
    let ra = isqrt_s(a);
    let rb = isqrt_s(b);
    if rb < ra {
        assert((rb + 1) * (rb + 1) <= ra * ra) by (nonlinear_arith)
            requires 0 <= rb, rb + 1 <= ra;
    }
}

/// Fixed-point multiply. Rounds toward zero.
pub fn fx_mul(a: i64, b: i64) -> (r: i64)
    requires
        -302231454903657293676544 <= (a as int) * (b as int) <= 302231454903657293676544,
    ensures
        r == fx_mul_s(a as int, b as int),
{
    proof {
        assert(302231454903657293676544int / 65536 == 4611686018427387904)
            by (nonlinear_arith);
    }
    let p: i128 = (a as i128) * (b as i128);
    if p >= 0 {
        let q: u128 = (p as u128) / 65536;
        proof {
            lemma_div_is_ordered(p as int, 302231454903657293676544, 65536);
            lemma_div_pos_is_pos(p as int, 65536);
        }
        q as i64
    } else {
        let m: u128 = ((-p) as u128) / 65536;
        proof {
            lemma_div_is_ordered(-(p as int), 302231454903657293676544, 65536);
            lemma_div_pos_is_pos(-(p as int), 65536);
        }
        -(m as i64)
    }
}

/// Fixed-point divide by a positive divisor. Rounds toward zero.
pub fn fx_div(a: i64, b: i64) -> (r: i64)
    requires
        0 < b,
        -0x4000_0000_0000 <= a <= 0x4000_0000_0000,
    ensures
        r == fx_div_s(a as int, b as int),
{
    let n: i128 = (a as i128) * 65536;
    if n >= 0 {
        let q: u128 = (n as u128) / (b as u128);
        proof {
            lemma_div_is_ordered(n as int, 0x4000_0000_0000int * 65536, b as int);
            lemma_tdiv_error(n as int, b as int);
            lemma_div_is_ordered((n as int) / (b as int), n as int, 1);
        }
        q as i64
    } else {
        let m: u128 = ((-n) as u128) / (b as u128);
        proof {
            lemma_div_is_ordered(-(n as int), 0x4000_0000_0000int * 65536, b as int);
            lemma_tdiv_error(-(n as int), b as int);
        }
        -(m as i64)
    }
}

/// Plain truncating integer divide by a positive divisor.
pub fn idiv(a: i64, b: i64) -> (r: i64)
    requires
        0 < b,
        -0x7fff_ffff_ffff_ffff <= a,
    ensures
        r == tdiv(a as int, b as int),
{
    if a >= 0 {
        let q: u64 = (a as u64) / (b as u64);
        proof {
            lemma_tdiv_error(a as int, b as int);
        }
        q as i64
    } else {
        let m: u64 = ((-a) as u64) / (b as u64);
        proof {
            lemma_tdiv_error(-(a as int), b as int);
        }
        -(m as i64)
    }
}

/// Integer square root by bisection.
fn isqrt128(n: u128) -> (r: u64)
    requires
        (n as int) < 0x1_0000_0000_0000_0000_0000_0000,
    ensures
        r as int == isqrt_s(n as int),
{
    let mut lo: u128 = 0;
    let mut hi: u128 = 0x1_0000_0000_0000;
    assert((0x1_0000_0000_0000 as int) * 0x1_0000_0000_0000 == 0x1_0000_0000_0000_0000_0000_0000)
        by (nonlinear_arith);
    while hi - lo > 1
        invariant
            (lo as int) * (lo as int) <= n as int,
            (n as int) < (hi as int) * (hi as int),
            lo < hi,
            hi <= 0x1_0000_0000_0000,
        decreases hi - lo,
    {
        let mid: u128 = lo + (hi - lo) / 2;
        proof {
            assert((mid as int) * (mid as int) <= 0x1_0000_0000_0000_0000_0000_0000)
                by (nonlinear_arith)
                requires (mid as int) <= 0x1_0000_0000_0000;
        }
        if mid * mid <= n {
            lo = mid;
        } else {
            hi = mid;
        }
    }
    proof {
        lemma_isqrt_unique(n as int, lo as int);
    }
    lo as u64
}

/// Fixed-point square root of a non-negative value.
pub fn fx_sqrt(a: i64) -> (r: i64)
    requires
        0 <= a,
    ensures
        r == fx_sqrt_s(a as int),
        0 <= r,
{
    let n: u128 = (a as u128) * 65536;
    let r: u64 = isqrt128(n);
    proof {
        lemma_isqrt_bracket(n as int);
        assert(isqrt_s(n as int) < 0x1_0000_0000_0000) by (nonlinear_arith)
            requires
                0 <= isqrt_s(n as int),
                isqrt_s(n as int) * isqrt_s(n as int) <= n as int,
                (n as int) < 0x1_0000_0000_0000_0000_0000_0000;
    }
    r as i64
}

/// Clamp a fixed-point value to the unit interval.
pub fn fx_clamp01(a: i64) -> (r: i64)
    ensures
        r == fx_clamp01_s(a as int),
{
    if a < 0 {
        0
    } else if a > FX_ONE {
        FX_ONE
    } else {
        a
    }
}

} // verus!
