//! Fixed-point scalars and 3-vectors.
//!
//! A scalar is an `i64` counting steps of `1/SCALE`. Every arithmetic
//! operation saturates at the `i64` bounds and rounds quotients toward zero,
//! and each executable operation is proved to return exactly the value of its
//! specification mirror, so geometry built on these operations is pinned down
//! completely.

use vstd::prelude::*;

verus! {

/// Number of fixed-point steps per unit: a scalar `s` stands for `s / SCALE`.
pub const SCALE: i64 = 65536;

/// Clamp a mathematical integer into the `i64` range.
pub open spec fn sat64(x: int) -> int {
    if x > i64::MAX {
        i64::MAX as int
    } else if x < i64::MIN {
        i64::MIN as int
    } else {
        x
    }
}

pub open spec fn abs_int(x: int) -> int {
    if x >= 0 {
        x
    } else {
        -x
    }
}

/// Division rounding toward zero, as the hardware divides.
pub open spec fn div_trunc(p: int, q: int) -> int
    recommends
        q != 0,
{
    if (p >= 0) == (q >= 0) {
        abs_int(p) / abs_int(q)
    } else {
        -(abs_int(p) / abs_int(q))
    }
}

/// Floor of the square root of a natural number.
pub open spec fn isqrt(n: nat) -> nat
    decreases n,
{
    if n == 0 {
        0
    } else {
        let r: nat = 2 * isqrt(n / 4);
        if (r + 1) * (r + 1) <= n {
            r + 1
        } else {
            r
        }
    }
}

pub proof fn lemma_isqrt(n: nat)
    ensures
        isqrt(n) * isqrt(n) <= n,
        n < (isqrt(n) + 1) * (isqrt(n) + 1),
    decreases n,
{
    if n == 0 {
        assert(isqrt(n) == 0);
        assert((isqrt(n) + 1) * (isqrt(n) + 1) == 1) by (nonlinear_arith)
            requires
                isqrt(n) == 0,
        ;
    } else {
        let s: nat = isqrt(n / 4);
        lemma_isqrt(n / 4);
        let r: nat = 2 * s;
        assert(n == 4 * (n / 4) + n % 4) by {
            vstd::arithmetic::div_mod::lemma_fundamental_div_mod(n as int, 4);
        }
        assert(0 <= n % 4 < 4) by {
            vstd::arithmetic::div_mod::lemma_mod_bound(n as int, 4);
        }
        assert(r * r == 4 * (s * s)) by (nonlinear_arith)
            requires
                r == 2 * s,
        ;
        assert(4 * (s * s) <= 4 * (n / 4)) by (nonlinear_arith)
            requires
                s * s <= n / 4,
        ;
        assert((r + 2) * (r + 2) == 4 * ((s + 1) * (s + 1))) by (nonlinear_arith)
            requires
                r == 2 * s,
        ;
        assert(4 * ((s + 1) * (s + 1)) >= 4 * (n / 4) + 4) by (nonlinear_arith)
            requires
                n / 4 < (s + 1) * (s + 1),
        ;
        if (r + 1) * (r + 1) <= n {
            assert(isqrt(n) == r + 1);
            assert(isqrt(n) * isqrt(n) <= n);
            assert(n < (r + 2) * (r + 2));
            assert(n < (isqrt(n) + 1) * (isqrt(n) + 1));
        } else {
            assert(isqrt(n) == r);
            assert(r * r <= n);
            assert(isqrt(n) * isqrt(n) <= n);
            assert(n < (isqrt(n) + 1) * (isqrt(n) + 1));
        }
        assert(isqrt(n) * isqrt(n) <= n);
        assert(n < (isqrt(n) + 1) * (isqrt(n) + 1));
    }
}

/// The square root is pinned by its characteristic bracketing.
pub proof fn lemma_isqrt_unique(n: nat, r: nat)
    requires
        r * r <= n,
        n < (r + 1) * (r + 1),
    ensures
        r == isqrt(n),
{
    let s: nat = isqrt(n);
    lemma_isqrt(n);
    if r < s {
        assert((r + 1) * (r + 1) <= s * s) by (nonlinear_arith)
            requires
                r + 1 <= s,
        ;
    }
    if s < r {
        assert((s + 1) * (s + 1) <= r * r) by (nonlinear_arith)
            requires
                s + 1 <= r,
        ;
    }
}

/// A product of two `i64` values stays well inside the `i128` range.
proof fn lemma_prod_in_i128(a: int, b: int)
    requires
        -0x8000000000000000 <= a <= 0x7fffffffffffffff,
        -0x8000000000000000 <= b <= 0x7fffffffffffffff,
    ensures
        -0x40000000000000000000000000000000 <= a * b <= 0x40000000000000000000000000000000,
{
    assert(-0x40000000000000000000000000000000 <= a * b <= 0x40000000000000000000000000000000)
        by (nonlinear_arith)
        requires
            -0x8000000000000000 <= a <= 0x7fffffffffffffff,
            -0x8000000000000000 <= b <= 0x7fffffffffffffff,
    ;
}

/// Saturating clamp of a wide intermediate into `i64`.
fn sat_to_i64(x: i128) -> (r: i64)
    ensures
        r as int == sat64(x as int),
{
    if x > i64::MAX as i128 {
        i64::MAX
    } else if x < i64::MIN as i128 {
        i64::MIN
    } else {
        x as i64
    }
}

/// Truncating division on wide intermediates.
fn div_trunc_i128(p: i128, q: i128) -> (r: i128)
    requires
        q != 0,
        p != i128::MIN,
        q != i128::MIN,
    ensures
        r as int == div_trunc(p as int, q as int),
{
    let pa: u128 = if p < 0 {
        (-p) as u128
    } else {
        p as u128
    };
    let qa: u128 = if q < 0 {
        (-q) as u128
    } else {
        q as u128
    };
    let m: u128 = pa / qa;
    assert(pa as int == abs_int(p as int));
    assert(qa as int == abs_int(q as int));
    assert(m <= pa) by {
        vstd::arithmetic::div_mod::lemma_div_nonincreasing(pa as int, qa as int);
    }
    if (p < 0) != (q < 0) {
        -(m as i128)
    } else {
        m as i128
    }
}

/// Saturating fixed-point addition.
pub fn fx_add(a: i64, b: i64) -> (r: i64)
    ensures
        r as int == sat64(a + b),
{
    sat_to_i64(a as i128 + b as i128)
}

/// Saturating fixed-point subtraction.
pub fn fx_sub(a: i64, b: i64) -> (r: i64)
    ensures
        r as int == sat64(a - b),
{
    sat_to_i64(a as i128 - b as i128)
}

/// Saturating fixed-point negation.
pub fn fx_neg(a: i64) -> (r: i64)
    ensures
        r as int == sat64(-a),
{
    sat_to_i64(-(a as i128))
}

pub open spec fn fxs_mul(a: int, b: int) -> int {
    sat64(div_trunc(a * b, SCALE as int))
}

/// Saturating fixed-point multiplication: `a * b / SCALE`, truncated.
pub fn fx_mul(a: i64, b: i64) -> (r: i64)
    ensures
        r as int == fxs_mul(a as int, b as int),
{
    proof {
        lemma_prod_in_i128(a as int, b as int);
    }
    let p: i128 = (a as i128) * (b as i128);
    let d: i128 = div_trunc_i128(p, SCALE as i128);
    sat_to_i64(d)
}

pub open spec fn fxs_div(a: int, b: int) -> int
    recommends
        b != 0,
{
    sat64(div_trunc(a * (SCALE as int), b))
}

/// Saturating fixed-point division: `a * SCALE / b`, truncated.
pub fn fx_div(a: i64, b: i64) -> (r: i64)
    requires
        b != 0,
    ensures
        r as int == fxs_div(a as int, b as int),
{
    proof {
        lemma_prod_in_i128(a as int, SCALE as int);
    }
    let p: i128 = (a as i128) * (SCALE as i128);
    let d: i128 = div_trunc_i128(p, b as i128);
    sat_to_i64(d)
}

pub open spec fn fxs_sqrt(a: int) -> int
    recommends
        a >= 0,
{
    isqrt((a * (SCALE as int)) as nat) as int
}

/// Any value below `2^80` has a square root below `2^40`.
proof fn lemma_isqrt_small(n: nat)
    requires
        n < 0x100000000000000000000,
    ensures
        isqrt(n) < 0x10000000000,
{
    lemma_isqrt(n);
    let r: nat = isqrt(n);
    if r >= 0x10000000000 {
        assert(r * r >= 0x100000000000000000000) by (nonlinear_arith)
            requires
                r >= 0x10000000000,
        ;
    }
}

/// Fixed-point square root: floor of the root of `a`, in `1/SCALE` units.
pub fn fx_sqrt(a: i64) -> (r: i64)
    requires
        a >= 0,
    ensures
        r as int == fxs_sqrt(a as int),
        0 <= r < 0x10000000000,
{
    assert((a as int) * (SCALE as int) < 0x100000000000000000000) by (nonlinear_arith)
        requires
            0 <= a as int <= 0x8000000000000000,
            0 < SCALE as int <= 65536,
    ;
    let n: u128 = (a as u128) * (SCALE as u128);
    let mut lo: u128 = 0;
    let mut hi: u128 = 0x10000000000;
    assert(n < hi * hi) by (nonlinear_arith)
        requires
            hi == 0x10000000000,
            n < 0x100000000000000000000,
    ;
    while hi - lo > 1
        invariant
            lo < hi,
            hi <= 0x10000000000,
            lo * lo <= n,
            n < hi * hi,
        decreases hi - lo,
    {
        let mid: u128 = lo + (hi - lo) / 2;
        assert(mid * mid <= 0x100000000000000000000) by (nonlinear_arith)
            requires
                mid <= 0x10000000000,
        ;
        if mid * mid <= n {
            lo = mid;
        } else {
            hi = mid;
        }
    }
    proof {
        assert(hi == lo + 1);
        lemma_isqrt_unique(n as nat, lo as nat);
        lemma_isqrt_small(n as nat);
    }
    lo as i64
}

/// Scalar specification mirrors, stated directly over `i64` values.
pub open spec fn s_add(a: i64, b: i64) -> i64 {
    sat64(a + b) as i64
}

pub open spec fn s_sub(a: i64, b: i64) -> i64 {
    sat64(a - b) as i64
}

pub open spec fn s_neg(a: i64) -> i64 {
    sat64(-a) as i64
}

pub open spec fn s_mul(a: i64, b: i64) -> i64 {
    fxs_mul(a as int, b as int) as i64
}

pub open spec fn s_div(a: i64, b: i64) -> i64
    recommends
        b != 0,
{
    fxs_div(a as int, b as int) as i64
}

pub open spec fn s_sqrt(a: i64) -> i64
    recommends
        a >= 0,
{
    fxs_sqrt(a as int) as i64
}

/// A point or vector in space, in fixed-point coordinates.
#[derive(Clone, Copy, Debug, PartialEq, Eq, Structural)]
pub struct Vec3 {
    pub x: i64,
    pub y: i64,
    pub z: i64,
}

pub open spec fn v3_add(a: Vec3, b: Vec3) -> Vec3 {
    Vec3 { x: s_add(a.x, b.x), y: s_add(a.y, b.y), z: s_add(a.z, b.z) }
}

pub open spec fn v3_sub(a: Vec3, b: Vec3) -> Vec3 {
    Vec3 { x: s_sub(a.x, b.x), y: s_sub(a.y, b.y), z: s_sub(a.z, b.z) }
}

pub open spec fn v3_scale(v: Vec3, s: i64) -> Vec3 {
    Vec3 { x: s_mul(v.x, s), y: s_mul(v.y, s), z: s_mul(v.z, s) }
}

pub open spec fn v3_dot(a: Vec3, b: Vec3) -> i64 {
    s_add(s_add(s_mul(a.x, b.x), s_mul(a.y, b.y)), s_mul(a.z, b.z))
}

pub open spec fn v3_magsq(v: Vec3) -> i64 {
    v3_dot(v, v)
}

pub open spec fn v3_mag(v: Vec3) -> i64 {
    s_sqrt(v3_magsq(v))
}

/// Squared distance between two points.
pub open spec fn dist_sq(a: Vec3, b: Vec3) -> i64 {
    v3_magsq(v3_sub(a, b))
}

/// Direction scaled to unit length; the zero vector stays zero.
pub open spec fn v3_normalize(v: Vec3) -> Vec3 {
    let m = v3_mag(v);
    if m == 0 {
        Vec3 { x: 0, y: 0, z: 0 }
    } else {
        Vec3 { x: s_div(v.x, m), y: s_div(v.y, m), z: s_div(v.z, m) }
    }
}

/// Point a fraction `t` of the way from `a` to `b`: `a + (b - a) * t`.
pub open spec fn v3_lerp(a: Vec3, b: Vec3, t: i64) -> Vec3 {
    v3_add(a, v3_scale(v3_sub(b, a), t))
}

pub fn vec3_add(a: Vec3, b: Vec3) -> (r: Vec3)
    ensures
        r == v3_add(a, b),
{
    Vec3 { x: fx_add(a.x, b.x), y: fx_add(a.y, b.y), z: fx_add(a.z, b.z) }
}

pub fn vec3_sub(a: Vec3, b: Vec3) -> (r: Vec3)
    ensures
        r == v3_sub(a, b),
{
    Vec3 { x: fx_sub(a.x, b.x), y: fx_sub(a.y, b.y), z: fx_sub(a.z, b.z) }
}

pub fn vec3_scale(v: Vec3, s: i64) -> (r: Vec3)
    ensures
        r == v3_scale(v, s),
{
    Vec3 { x: fx_mul(v.x, s), y: fx_mul(v.y, s), z: fx_mul(v.z, s) }
}

pub fn vec3_dot(a: Vec3, b: Vec3) -> (r: i64)
    ensures
        r == v3_dot(a, b),
{
    fx_add(fx_add(fx_mul(a.x, b.x), fx_mul(a.y, b.y)), fx_mul(a.z, b.z))
}

/// A square never comes out negative, even after scaling and saturation.
pub proof fn lemma_s_mul_self_nonneg(a: i64)
    ensures
        s_mul(a, a) >= 0,
{
    assert(a * a >= 0) by (nonlinear_arith);
    assert(abs_int(a * a) / abs_int(SCALE as int) >= 0) by {
        vstd::arithmetic::div_mod::lemma_div_pos_is_pos(abs_int(a * a), SCALE as int);
    }
}

/// The squared magnitude of any vector is non-negative.
pub proof fn lemma_magsq_nonneg(v: Vec3)
    ensures
        v3_magsq(v) >= 0,
{
    lemma_s_mul_self_nonneg(v.x);
    lemma_s_mul_self_nonneg(v.y);
    lemma_s_mul_self_nonneg(v.z);
}

pub fn vec3_magsq(v: Vec3) -> (r: i64)
    ensures
        r == v3_magsq(v),
        r >= 0,
{
    proof {
        lemma_magsq_nonneg(v);
    }
    vec3_dot(v, v)
}

pub fn vec3_mag(v: Vec3) -> (r: i64)
    ensures
        r == v3_mag(v),
        r >= 0,
{
    let m: i64 = vec3_magsq(v);
    fx_sqrt(m)
}

pub fn vec3_normalize(v: Vec3) -> (r: Vec3)
    ensures
        r == v3_normalize(v),
{
    let m: i64 = vec3_mag(v);
    if m == 0 {
        Vec3 { x: 0, y: 0, z: 0 }
    } else {
        Vec3 { x: fx_div(v.x, m), y: fx_div(v.y, m), z: fx_div(v.z, m) }
    }
}

pub fn vec3_lerp(a: Vec3, b: Vec3, t: i64) -> (r: Vec3)
    ensures
        r == v3_lerp(a, b, t),
{
    vec3_add(a, vec3_scale(vec3_sub(b, a), t))
}

/// Dividing a positive scalar by itself gives exactly one.
pub proof fn lemma_s_div_self(a: i64)
    requires
        a > 0,
    ensures
        s_div(a, a) == SCALE,
{
    assert((a as int) * (SCALE as int) == (a as int) * (SCALE as int));
    vstd::arithmetic::div_mod::lemma_div_multiples_vanish(SCALE as int, a as int);
    assert(abs_int((a as int) * (SCALE as int)) == (a as int) * (SCALE as int)) by (nonlinear_arith)
        requires
            a as int > 0,
    ;
    assert(((a as int) * (SCALE as int)) / (a as int) == SCALE as int);
}

/// Multiplying by one is exact.
pub proof fn lemma_s_mul_scale(a: i64)
    ensures
        s_mul(a, SCALE) == a,
{
    if a >= 0 {
        vstd::arithmetic::div_mod::lemma_div_multiples_vanish(a as int, SCALE as int);
        assert(abs_int((a as int) * (SCALE as int)) == (SCALE as int) * (a as int))
            by (nonlinear_arith)
            requires
                a as int >= 0,
        ;
    } else {
        vstd::arithmetic::div_mod::lemma_div_multiples_vanish(-(a as int), SCALE as int);
        assert(abs_int((a as int) * (SCALE as int)) == (SCALE as int) * (-(a as int)))
            by (nonlinear_arith)
            requires
                (a as int) < 0,
        ;
    }
}

/// Multiplying by zero is zero.
pub proof fn lemma_s_mul_zero(a: i64)
    ensures
        s_mul(a, 0) == 0,
{
    assert((a as int) * 0 == 0) by (nonlinear_arith);
    vstd::arithmetic::div_mod::lemma_div_of0(SCALE as int);
}

/// Interpolating at zero returns the first endpoint exactly.
pub proof fn lemma_v3_lerp_zero(a: Vec3, b: Vec3)
    ensures
        v3_lerp(a, b, 0) == a,
{
    lemma_s_mul_zero(s_sub(b.x, a.x));
    lemma_s_mul_zero(s_sub(b.y, a.y));
    lemma_s_mul_zero(s_sub(b.z, a.z));
}

/// Coordinates no larger than half the representable range, where one
/// subtraction and one addition cannot saturate.
pub open spec fn coord_in_half_range(v: Vec3) -> bool {
    &&& -0x3fffffffffffffff <= v.x <= 0x3fffffffffffffff
    &&& -0x3fffffffffffffff <= v.y <= 0x3fffffffffffffff
    &&& -0x3fffffffffffffff <= v.z <= 0x3fffffffffffffff
}

/// Interpolating at one returns the second endpoint exactly, as long as
/// the endpoints leave the difference `b - a` representable.
pub proof fn lemma_v3_lerp_one(a: Vec3, b: Vec3)
    requires
        coord_in_half_range(a),
        coord_in_half_range(b),
    ensures
        v3_lerp(a, b, SCALE) == b,
{
    lemma_s_mul_scale(s_sub(b.x, a.x));
    lemma_s_mul_scale(s_sub(b.y, a.y));
    lemma_s_mul_scale(s_sub(b.z, a.z));
}

} // verus!
