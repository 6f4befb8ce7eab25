//! Fixed-point arithmetic: every quantity of the renderer is an `i64` holding
//! `value * FP_ONE`, so that all computation stays in exact integer arithmetic.
use vstd::prelude::*;

verus! {

/// The fixed-point scale: 1.0 is represented by this many units.
pub const FP_ONE: i64 = 65536;

/// Truncating division (round toward zero), for a positive divisor.
pub open spec fn div_trunc(x: int, d: int) -> int
    recommends
        d > 0,
{
    if x >= 0 {
        x / d
    } else {
        -((-x) / d)
    }
}

/// Flooring division (round toward negative infinity), for a positive divisor.
/// Spec-level `/` on `int` is Euclidean division, which floors when `d > 0`.
pub open spec fn div_floor(x: int, d: int) -> int
    recommends
        d > 0,
{
    x / d
}

/// Ceiling division (round toward positive infinity), for a positive
/// divisor.
pub open spec fn div_ceil(x: int, d: int) -> int
    recommends
        d > 0,
{
    -((-x) / d)
}

/// The product of two fixed-point values, rounded toward zero.
pub open spec fn fp_mul_spec(a: int, b: int) -> int {
    div_trunc(a * b, FP_ONE as int)
}

/// The quotient of two fixed-point values, rounded toward zero.
pub open spec fn fp_div_spec(a: int, b: int) -> int
    recommends
        b != 0,
{
    if b > 0 {
        div_trunc(a * FP_ONE, b)
    } else {
        div_trunc(-(a * FP_ONE), -b)
    }
}

/// Truncating division of an `i128` by a positive `i128`, the executable
/// counterpart of `div_trunc`.
pub fn i128_div_trunc(x: i128, d: i128) -> (r: i128)
    requires
        d > 0,
    ensures
        r == div_trunc(x as int, d as int),
{
    let q = x.checked_div(d);
    match q {
        Some(r) => r,
        None => {
            proof {
                assert(false);
            }
            0
        },
    }
}

/// Flooring division of an `i128` by a positive `i128`, the executable
/// counterpart of `div_floor`.
pub fn i128_div_floor(x: i128, d: i128) -> (r: i128)
    requires
        d > 0,
        div_floor(x as int, d as int) > i128::MIN,
    ensures
        r == div_floor(x as int, d as int),
{
    let q = i128_div_trunc(x, d);
    proof {
        if x >= 0 {
            vstd::arithmetic::div_mod::lemma_fundamental_div_mod(x as int, d as int);
            assert(q * d == x as int - (x as int) % (d as int)) by (nonlinear_arith)
                requires
                    x as int == d * ((x as int) / (d as int)) + (x as int) % (d as int),
                    q == (x as int) / (d as int),
            ;
        } else {
            let qe = (x as int) / (d as int);
            let re = (x as int) % (d as int);
            let qt = (-(x as int)) / (d as int);
            let rt = (-(x as int)) % (d as int);
            vstd::arithmetic::div_mod::lemma_fundamental_div_mod(x as int, d as int);
            vstd::arithmetic::div_mod::lemma_fundamental_div_mod(-(x as int), d as int);
            assert(d * (qe + qt) == -(re + rt)) by (nonlinear_arith)
                requires
                    x as int == d * qe + re,
                    -(x as int) == d * qt + rt,
            ;
            assert(-2 < qe + qt <= 0) by (nonlinear_arith)
                requires
                    d > 0,
                    d * (qe + qt) == -(re + rt),
                    0 <= re + rt < 2 * (d as int),
            ;
            assert(q * d == x as int + rt) by (nonlinear_arith)
                requires
                    q == -qt,
                    -(x as int) == d * qt + rt,
            ;
            assert(qe + qt == 0 || qe + qt == -1);
            if qe + qt == 0 {
                assert(re + rt == 0) by (nonlinear_arith)
                    requires
                        d * (qe + qt) == -(re + rt),
                        qe + qt == 0,
                ;
            } else {
                assert(re + rt == d) by (nonlinear_arith)
                    requires
                        d * (qe + qt) == -(re + rt),
                        qe + qt == -1,
                ;
                assert(rt != 0);
            }
        }
    }
    if x < 0 && q * d != x {
        q - 1
    } else {
        q
    }
}

/// Fixed-point multiply, rounding toward zero.
pub fn fp_mul(a: i64, b: i64) -> (r: i64)
    requires
        i64::MIN <= fp_mul_spec(a as int, b as int) <= i64::MAX,
    ensures
        r == fp_mul_spec(a as int, b as int),
{
    let p: i128 = (a as i128) * (b as i128);
    let q = i128_div_trunc(p, FP_ONE as i128);
    q as i64
}

/// Ceiling division of an `i128` by a positive `i128`, the executable
/// counterpart of `div_ceil`.
pub fn i128_div_ceil(x: i128, d: i128) -> (r: i128)
    requires
        d > 0,
        x > i128::MIN,
        div_floor(-(x as int), d as int) > i128::MIN,
        div_ceil(x as int, d as int) < i128::MAX,
    ensures
        r == div_ceil(x as int, d as int),
{
    let q = i128_div_floor(-x, d);
    -q
}

/// Fixed-point divide, rounding toward zero.
pub fn fp_div(a: i64, b: i64) -> (r: i64)
    requires
        b != 0,
        i64::MIN <= fp_div_spec(a as int, b as int) <= i64::MAX,
    ensures
        r == fp_div_spec(a as int, b as int),
{
    proof {
        assert(i64::MIN as int * FP_ONE as int <= a as int * FP_ONE as int <= i64::MAX as int
            * FP_ONE as int) by (nonlinear_arith)
            requires
                i64::MIN <= a <= i64::MAX,
                FP_ONE == 65536,
        ;
    }
    let p: i128 = (a as i128) * (FP_ONE as i128);
    let q = if b > 0 {
        i128_div_trunc(p, b as i128)
    } else {
        i128_div_trunc(-p, -(b as i128))
    };
    q as i64
}

/// The fixed-point representation of a small integer.
pub fn fp_from_int(v: i32) -> (r: i64)
    ensures
        r == v as int * FP_ONE as int,
{
    (v as i64) * FP_ONE
}

/// Truncating division of an `i64` by a positive constant.
pub fn i64_div_trunc(x: i64, d: i64) -> (r: i64)
    requires
        d > 0,
    ensures
        r == div_trunc(x as int, d as int),
{
    let q = i128_div_trunc(x as i128, d as i128);
    proof {
        if x >= 0 {
            vstd::arithmetic::div_mod::lemma_div_nonincreasing(x as int, d as int);
            vstd::arithmetic::div_mod::lemma_div_pos_is_pos(x as int, d as int);
        } else {
            vstd::arithmetic::div_mod::lemma_div_nonincreasing(-(x as int), d as int);
            vstd::arithmetic::div_mod::lemma_div_pos_is_pos(-(x as int), d as int);
        }
    }
    q as i64
}

/// Truncation never grows magnitude: a bound on both factors bounds the
/// rounded fixed-point product.
pub proof fn lemma_fp_mul_bound(a: int, b: int, ba: int, bb: int)
    requires
        -ba <= a <= ba,
        -bb <= b <= bb,
        0 <= ba,
        0 <= bb,
    ensures
        -div_trunc(ba * bb, FP_ONE as int) <= fp_mul_spec(a, b) <= div_trunc(
            ba * bb,
            FP_ONE as int,
        ),
        -(ba * bb) <= a * b <= ba * bb,
{
    assert(-(ba * bb) <= a * b <= ba * bb) by (nonlinear_arith)
        requires
            -ba <= a <= ba,
            -bb <= b <= bb,
            0 <= ba,
            0 <= bb,
    ;
    if a * b >= 0 {
        vstd::arithmetic::div_mod::lemma_div_is_ordered(a * b, ba * bb, FP_ONE as int);
        vstd::arithmetic::div_mod::lemma_div_pos_is_pos(a * b, FP_ONE as int);
    } else {
        vstd::arithmetic::div_mod::lemma_div_is_ordered(-(a * b), ba * bb, FP_ONE as int);
        vstd::arithmetic::div_mod::lemma_div_pos_is_pos(-(a * b), FP_ONE as int);
    }
}

/// Fixed-point pi and pi/2.
pub const FP_PI: i64 = 205887;

pub const FP_HALF_PI: i64 = 102944;

/// Argument reduction for the trigonometric functions: the quadrant count
/// and a remainder no larger than a quarter turn in magnitude.
pub open spec fn trig_reduce_spec(a: int) -> (int, int) {
    let n0 = div_trunc(a, FP_HALF_PI as int);
    let r0 = a - n0 * FP_HALF_PI;
    if r0 > FP_HALF_PI / 2 {
        (n0 + 1, r0 - FP_HALF_PI)
    } else if r0 < -(FP_HALF_PI / 2) {
        (n0 - 1, r0 + FP_HALF_PI)
    } else {
        (n0, r0)
    }
}

/// Taylor polynomial for sine on the reduced range, in fixed point.
pub open spec fn sin_poly_spec(r: int) -> int {
    let r2 = fp_mul_spec(r, r);
    let r3 = fp_mul_spec(r2, r);
    let r5 = fp_mul_spec(r3, r2);
    let r7 = fp_mul_spec(r5, r2);
    r - div_trunc(r3, 6) + div_trunc(r5, 120) - div_trunc(r7, 5040)
}

/// Taylor polynomial for cosine on the reduced range, in fixed point.
pub open spec fn cos_poly_spec(r: int) -> int {
    let r2 = fp_mul_spec(r, r);
    let r4 = fp_mul_spec(r2, r2);
    let r6 = fp_mul_spec(r4, r2);
    FP_ONE - div_trunc(r2, 2) + div_trunc(r4, 24) - div_trunc(r6, 720)
}

/// Fixed-point sine: quadrant reduction followed by the Taylor polynomial.
pub open spec fn fp_sin_spec(a: int) -> int {
    let (n, r) = trig_reduce_spec(a);
    let q = n % 4;
    if q == 0 {
        sin_poly_spec(r)
    } else if q == 1 {
        cos_poly_spec(r)
    } else if q == 2 {
        -sin_poly_spec(r)
    } else {
        -cos_poly_spec(r)
    }
}

/// Fixed-point cosine.
pub open spec fn fp_cos_spec(a: int) -> int {
    let (n, r) = trig_reduce_spec(a);
    let q = n % 4;
    if q == 0 {
        cos_poly_spec(r)
    } else if q == 1 {
        -sin_poly_spec(r)
    } else if q == 2 {
        -cos_poly_spec(r)
    } else {
        sin_poly_spec(r)
    }
}

/// The largest angle magnitude the trigonometric functions accept.
pub const FP_ANGLE_MAX: i64 = 0x100_0000_0000;

proof fn lemma_trig_reduce_range(a: int)
    requires
        -FP_ANGLE_MAX <= a <= FP_ANGLE_MAX,
    ensures
        ({
            let (n, r) = trig_reduce_spec(a);
            &&& -(FP_HALF_PI as int) <= r <= FP_HALF_PI as int
            &&& -FP_ANGLE_MAX <= n <= FP_ANGLE_MAX
            &&& a == n * FP_HALF_PI + r
        }),
{
    let n0 = div_trunc(a, FP_HALF_PI as int);
    let r0 = a - n0 * FP_HALF_PI;
    if a >= 0 {
        vstd::arithmetic::div_mod::lemma_fundamental_div_mod(a, FP_HALF_PI as int);
        vstd::arithmetic::div_mod::lemma_div_nonincreasing(a, FP_HALF_PI as int);
        vstd::arithmetic::div_mod::lemma_div_pos_is_pos(a, FP_HALF_PI as int);
        assert(a == FP_HALF_PI * (a / (FP_HALF_PI as int)) + a % (FP_HALF_PI as int));
        assert(n0 * FP_HALF_PI == FP_HALF_PI * n0) by (nonlinear_arith);
    } else {
        vstd::arithmetic::div_mod::lemma_fundamental_div_mod(-a, FP_HALF_PI as int);
        vstd::arithmetic::div_mod::lemma_div_nonincreasing(-a, FP_HALF_PI as int);
        vstd::arithmetic::div_mod::lemma_div_pos_is_pos(-a, FP_HALF_PI as int);
        assert(n0 * FP_HALF_PI == -((-a) / (FP_HALF_PI as int)) * FP_HALF_PI);
        assert(-((-a) / (FP_HALF_PI as int)) * FP_HALF_PI == -(FP_HALF_PI * ((-a) / (
        FP_HALF_PI as int)))) by (nonlinear_arith);
    }
}

/// Fixed-point sine of an angle in radians.
pub fn fp_sin(a: i64) -> (r: i64)
    requires
        -FP_ANGLE_MAX <= a <= FP_ANGLE_MAX,
    ensures
        r == fp_sin_spec(a as int),
        -(4 * FP_ONE as int) <= r as int <= 4 * FP_ONE as int,
{
    let (q, red) = trig_reduce(a);
    if q == 0 {
        sin_poly(red)
    } else if q == 1 {
        cos_poly(red)
    } else if q == 2 {
        -sin_poly(red)
    } else {
        -cos_poly(red)
    }
}

/// Fixed-point cosine of an angle in radians.
pub fn fp_cos(a: i64) -> (r: i64)
    requires
        -FP_ANGLE_MAX <= a <= FP_ANGLE_MAX,
    ensures
        r == fp_cos_spec(a as int),
        -(4 * FP_ONE as int) <= r as int <= 4 * FP_ONE as int,
{
    let (q, red) = trig_reduce(a);
    if q == 0 {
        cos_poly(red)
    } else if q == 1 {
        -sin_poly(red)
    } else if q == 2 {
        -cos_poly(red)
    } else {
        sin_poly(red)
    }
}

/// Quadrant (already reduced modulo four, nonnegative) and remainder.
fn trig_reduce(a: i64) -> (res: (i64, i64))
    requires
        -FP_ANGLE_MAX <= a <= FP_ANGLE_MAX,
    ensures
        ({
            let (n, r) = trig_reduce_spec(a as int);
            &&& res.1 == r
            &&& res.0 == n % 4
            &&& -(FP_HALF_PI as int) <= r <= FP_HALF_PI as int
        }),
{
    proof {
        lemma_trig_reduce_range(a as int);
    }
    let n0 = i64_div_trunc(a, FP_HALF_PI);
    let r0 = a - n0 * FP_HALF_PI;
    let (n, r): (i64, i64) = if r0 > 51472 {
        (n0 + 1, r0 - FP_HALF_PI)
    } else if r0 < -51472 {
        (n0 - 1, r0 + FP_HALF_PI)
    } else {
        (n0, r0)
    };
    let nf = i128_div_floor(n as i128, 4);
    proof {
        vstd::arithmetic::div_mod::lemma_fundamental_div_mod(n as int, 4);
    }
    let q: i64 = (n as i128 - 4 * nf) as i64;
    (q, r)
}

/// Sine Taylor polynomial on the reduced range.
fn sin_poly(r: i64) -> (s: i64)
    requires
        -(FP_HALF_PI as int) <= r as int <= FP_HALF_PI as int,
    ensures
        s == sin_poly_spec(r as int),
        -(4 * FP_ONE as int) <= s as int <= 4 * FP_ONE as int,
{
    proof {
        let ri = r as int;
        let r2i = fp_mul_spec(ri, ri);
        let r3i = fp_mul_spec(r2i, ri);
        let r5i = fp_mul_spec(r3i, r2i);
        lemma_fp_mul_bound(ri, ri, 131072, 131072);
        lemma_fp_mul_bound(r2i, ri, 262144, 131072);
        lemma_fp_mul_bound(r3i, r2i, 524288, 262144);
        lemma_fp_mul_bound(r5i, r2i, 2097152, 262144);
    }
    let r2 = fp_mul(r, r);
    let r3 = fp_mul(r2, r);
    let r5 = fp_mul(r3, r2);
    let r7 = fp_mul(r5, r2);
    r - i64_div_trunc(r3, 6) + i64_div_trunc(r5, 120) - i64_div_trunc(r7, 5040)
}

/// Cosine Taylor polynomial on the reduced range.
fn cos_poly(r: i64) -> (s: i64)
    requires
        -(FP_HALF_PI as int) <= r as int <= FP_HALF_PI as int,
    ensures
        s == cos_poly_spec(r as int),
        -(4 * FP_ONE as int) <= s as int <= 4 * FP_ONE as int,
{
    proof {
        let ri = r as int;
        let r2i = fp_mul_spec(ri, ri);
        let r4i = fp_mul_spec(r2i, r2i);
        lemma_fp_mul_bound(ri, ri, 131072, 131072);
        lemma_fp_mul_bound(r2i, r2i, 262144, 262144);
        lemma_fp_mul_bound(r4i, r2i, 1048576, 262144);
    }
    let r2 = fp_mul(r, r);
    let r4 = fp_mul(r2, r2);
    let r6 = fp_mul(r4, r2);
    FP_ONE - i64_div_trunc(r2, 2) + i64_div_trunc(r4, 24) - i64_div_trunc(r6, 720)
}

/// `r` is the integer square root of `n` rounded down.
pub open spec fn is_sqrt_floor(n: int, r: int) -> bool {
    &&& 0 <= r
    &&& r * r <= n
    &&& n < (r + 1) * (r + 1)
}

/// The integer square root is unique.
pub proof fn lemma_sqrt_floor_unique(n: int, r1: int, r2: int)
    requires
        is_sqrt_floor(n, r1),
        is_sqrt_floor(n, r2),
    ensures
        r1 == r2,
{
    if r1 < r2 {
        vstd::arithmetic::mul::lemma_mul_inequality(r1 + 1, r2, r1 + 1);
        vstd::arithmetic::mul::lemma_mul_inequality(r1 + 1, r2, r2);
        assert((r1 + 1) * (r1 + 1) <= r2 * r2) by (nonlinear_arith)
            requires
                0 <= r1,
                r1 + 1 <= r2,
        ;
    }
    if r2 < r1 {
        assert((r2 + 1) * (r2 + 1) <= r1 * r1) by (nonlinear_arith)
            requires
                0 <= r2,
                r2 + 1 <= r1,
        ;
    }
}

/// Integer square root of a `u128`, rounded down.
pub fn isqrt(n: u128) -> (r: u64)
    ensures
        is_sqrt_floor(n as int, r as int),
{
    let mut lo: u128 = 0;
    let mut hi: u128 = 0xFFFF_FFFF_FFFF_FFFF;
    proof {
        assert((hi + 1) * (hi + 1) > n as int) by (nonlinear_arith)
            requires
                hi == 0xFFFF_FFFF_FFFF_FFFFu128,
                n <= u128::MAX,
        ;
    }
    while lo < hi
        invariant
            lo <= hi <= 0xFFFF_FFFF_FFFF_FFFF,
            lo * lo <= n,
            n < (hi + 1) * (hi + 1),
        decreases hi - lo,
    {
        let mid = lo + (hi - lo + 1) / 2;
        proof {
            assert(mid * mid <= u128::MAX) by (nonlinear_arith)
                requires
                    0 <= mid <= 0xFFFF_FFFF_FFFF_FFFFu128,
            ;
        }
        let sq = mid * mid;
        if sq <= n {
            lo = mid;
        } else {
            hi = mid - 1;
        }
    }
    lo as u64
}

/// Fixed-point square root of a nonnegative fixed-point value, rounded down.
pub fn fp_sqrt(a: i64) -> (r: i64)
    requires
        a >= 0,
    ensures
        is_sqrt_floor(a as int * FP_ONE as int, r as int),
        r >= 0,
{
    proof {
        assert(a as int * FP_ONE as int <= 0x8000_0000_0000_0000_0000i128 as int)
            by (nonlinear_arith)
            requires
                0 <= a <= i64::MAX,
                FP_ONE == 65536,
        ;
    }
    let n: u128 = (a as u128) * (FP_ONE as u128);
    let r = isqrt(n);
    proof {
        if r as int > 0x8000_0000_0000i64 as int {
            assert(r as int * r as int > n as int) by (nonlinear_arith)
                requires
                    r as int > 0x8000_0000_0000i64 as int,
                    n as int <= 0x8000_0000_0000_0000_0000i128 as int,
            ;
        }
    }
    r as i64
}

} // verus!
