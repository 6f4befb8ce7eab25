//! Ray/triangle intersection by the Moller-Trumbore algorithm. The
//! determinant, barycentric numerators and distance numerator are computed
//! exactly in wide integers; only the returned distance and barycentric
//! coordinates are rounded, once, to fixed point.
use crate::fixed::{div_trunc, i128_div_trunc, FP_ONE};
use crate::vecmath::{lemma_abs_mul_le, mul_wide, v3_bounded, Ray, Vec3};
use vstd::prelude::*;

verus! {

/// The coordinate bound the renderer keeps all scene points, camera
/// positions and ray directions within.
pub const COORD_ABS_MAX: i64 = 0x8000_0000;

/// A triple of unbounded integers, used for the exact intermediate vectors.
pub open spec fn subr(a: Vec3, b: Vec3) -> (int, int, int) {
    ((a.x - b.x) as int, (a.y - b.y) as int, (a.z - b.z) as int)
}

/// Exact cross product of integer triples.
pub open spec fn crossr(a: (int, int, int), b: (int, int, int)) -> (int, int, int) {
    (a.1 * b.2 - a.2 * b.1, a.2 * b.0 - a.0 * b.2, a.0 * b.1 - a.1 * b.0)
}

/// Exact dot product of integer triples.
pub open spec fn dotr(a: (int, int, int), b: (int, int, int)) -> int {
    a.0 * b.0 + a.1 * b.1 + a.2 * b.2
}

/// A `Vec3` as an integer triple.
pub open spec fn iv(v: Vec3) -> (int, int, int) {
    (v.x as int, v.y as int, v.z as int)
}

/// The Moller-Trumbore determinant: zero exactly when the ray is parallel
/// to the triangle plane or the triangle is degenerate.
pub open spec fn mt_det(ray: Ray, v0: Vec3, v1: Vec3, v2: Vec3) -> int {
    dotr(subr(v1, v0), crossr(iv(ray.dir), subr(v2, v0)))
}

/// Numerator of the first barycentric coordinate.
pub open spec fn mt_u_num(ray: Ray, v0: Vec3, v1: Vec3, v2: Vec3) -> int {
    dotr(subr(ray.pos, v0), crossr(iv(ray.dir), subr(v2, v0)))
}

/// Numerator of the second barycentric coordinate.
pub open spec fn mt_v_num(ray: Ray, v0: Vec3, v1: Vec3, v2: Vec3) -> int {
    dotr(iv(ray.dir), crossr(subr(ray.pos, v0), subr(v1, v0)))
}

/// Numerator of the hit distance.
pub open spec fn mt_t_num(ray: Ray, v0: Vec3, v1: Vec3, v2: Vec3) -> int {
    dotr(subr(v2, v0), crossr(subr(ray.pos, v0), subr(v1, v0)))
}

/// The hit record in exact form: the sign-adjusted numerators and the
/// magnitude of the determinant. A hit exists if and only if the exact
/// rationals `u = a/d`, `v = b/d`, `t = c/d` satisfy `0 <= u`, `u <= 1`,
/// `0 <= v`, `u + v <= 1` and `0 <= t`.
pub open spec fn mt_accepts(ray: Ray, v0: Vec3, v1: Vec3, v2: Vec3) -> bool {
    let det = mt_det(ray, v0, v1, v2);
    let a = if det > 0 {
        mt_u_num(ray, v0, v1, v2)
    } else {
        -mt_u_num(ray, v0, v1, v2)
    };
    let b = if det > 0 {
        mt_v_num(ray, v0, v1, v2)
    } else {
        -mt_v_num(ray, v0, v1, v2)
    };
    let c = if det > 0 {
        mt_t_num(ray, v0, v1, v2)
    } else {
        -mt_t_num(ray, v0, v1, v2)
    };
    let d = if det > 0 {
        det
    } else {
        -det
    };
    &&& det != 0
    &&& 0 <= a
    &&& a <= d
    &&& 0 <= b
    &&& a + b <= d
    &&& 0 <= c
}

/// The rounded fixed-point results `(t, u, v)` of an accepted hit, with the
/// distance saturating at the largest representable value.
pub open spec fn mt_result(ray: Ray, v0: Vec3, v1: Vec3, v2: Vec3) -> (int, int, int)
    recommends
        mt_accepts(ray, v0, v1, v2),
{
    let det = mt_det(ray, v0, v1, v2);
    let a = if det > 0 {
        mt_u_num(ray, v0, v1, v2)
    } else {
        -mt_u_num(ray, v0, v1, v2)
    };
    let b = if det > 0 {
        mt_v_num(ray, v0, v1, v2)
    } else {
        -mt_v_num(ray, v0, v1, v2)
    };
    let c = if det > 0 {
        mt_t_num(ray, v0, v1, v2)
    } else {
        -mt_t_num(ray, v0, v1, v2)
    };
    let d = if det > 0 {
        det
    } else {
        -det
    };
    let t = div_trunc(c * FP_ONE, d);
    let u = div_trunc(a * FP_ONE, d);
    let v = div_trunc(b * FP_ONE, d);
    ((if t > i64::MAX { i64::MAX as int } else { t }), u, v)
}

/// Distance along the ray and barycentric coordinates of a hit, in fixed
/// point.
#[derive(Clone, Copy, Debug, PartialEq, Eq, Structural)]
pub struct HitInfo {
    pub t: i64,
    pub u: i64,
    pub v: i64,
}

impl HitInfo {
    pub fn new(t: i64, u: i64, v: i64) -> (r: HitInfo)
        ensures
            r == (HitInfo { t, u, v }),
    {
        HitInfo { t, u, v }
    }
}

/// All inputs to an intersection query are within the world bound.
pub open spec fn mt_inputs_ok(ray: Ray, v0: Vec3, v1: Vec3, v2: Vec3) -> bool {
    &&& v3_bounded(ray.pos, COORD_ABS_MAX as int)
    &&& v3_bounded(ray.dir, COORD_ABS_MAX as int)
    &&& v3_bounded(v0, COORD_ABS_MAX as int)
    &&& v3_bounded(v1, COORD_ABS_MAX as int)
    &&& v3_bounded(v2, COORD_ABS_MAX as int)
}

/// Moller-Trumbore ray/triangle intersection. Returns the hit exactly when
/// the exact barycentric conditions hold; a zero determinant (parallel ray
/// or degenerate triangle) yields no hit. The three rejection tests run
/// only after all three quotient numerators are known; reordering them is
/// a performance matter, not a correctness one.
pub fn intersect(ray: &Ray, v0: &Vec3, v1: &Vec3, v2: &Vec3) -> (r: Option<HitInfo>)
    requires
        mt_inputs_ok(*ray, *v0, *v1, *v2),
    ensures
        r is Some <==> mt_accepts(*ray, *v0, *v1, *v2),
        r matches Some(h) ==> (h.t as int, h.u as int, h.v as int) == mt_result(
            *ray,
            *v0,
            *v1,
            *v2,
        ),
        r matches Some(h) ==> 0 <= h.t && 0 <= h.u <= FP_ONE && 0 <= h.v <= FP_ONE,
{
    let e1x = v1.x - v0.x;
    let e1y = v1.y - v0.y;
    let e1z = v1.z - v0.z;
    let e2x = v2.x - v0.x;
    let e2y = v2.y - v0.y;
    let e2z = v2.z - v0.z;
    let tx = ray.pos.x - v0.x;
    let ty = ray.pos.y - v0.y;
    let tz = ray.pos.z - v0.z;

    // pvec = dir x e2, exact
    let px = mul_wide(ray.dir.y, e2z) - mul_wide(ray.dir.z, e2y);
    let py = mul_wide(ray.dir.z, e2x) - mul_wide(ray.dir.x, e2z);
    let pz = mul_wide(ray.dir.x, e2y) - mul_wide(ray.dir.y, e2x);
    // qvec = tvec x e1, exact
    let qx = mul_wide(ty, e1z) - mul_wide(tz, e1y);
    let qy = mul_wide(tz, e1x) - mul_wide(tx, e1z);
    let qz = mul_wide(tx, e1y) - mul_wide(ty, e1x);

    proof {
        lemma_abs_mul_le(ray.dir.y as int, e2z as int, 0x8000_0000, 0x1_0000_0000);
        lemma_abs_mul_le(ray.dir.z as int, e2y as int, 0x8000_0000, 0x1_0000_0000);
        lemma_abs_mul_le(ray.dir.z as int, e2x as int, 0x8000_0000, 0x1_0000_0000);
        lemma_abs_mul_le(ray.dir.x as int, e2z as int, 0x8000_0000, 0x1_0000_0000);
        lemma_abs_mul_le(ray.dir.x as int, e2y as int, 0x8000_0000, 0x1_0000_0000);
        lemma_abs_mul_le(ray.dir.y as int, e2x as int, 0x8000_0000, 0x1_0000_0000);
        lemma_abs_mul_le(ty as int, e1z as int, 0x1_0000_0000, 0x1_0000_0000);
        lemma_abs_mul_le(tz as int, e1y as int, 0x1_0000_0000, 0x1_0000_0000);
        lemma_abs_mul_le(tz as int, e1x as int, 0x1_0000_0000, 0x1_0000_0000);
        lemma_abs_mul_le(tx as int, e1z as int, 0x1_0000_0000, 0x1_0000_0000);
        lemma_abs_mul_le(tx as int, e1y as int, 0x1_0000_0000, 0x1_0000_0000);
        lemma_abs_mul_le(ty as int, e1x as int, 0x1_0000_0000, 0x1_0000_0000);
    }
    // det = e1 . pvec; u_num = tvec . pvec; v_num = dir . qvec; t_num = e2 . qvec
    let det = mul_q(e1x, px) + mul_q(e1y, py) + mul_q(e1z, pz);
    let u_num = mul_q(tx, px) + mul_q(ty, py) + mul_q(tz, pz);
    let v_num = mul_q(ray.dir.x, qx) + mul_q(ray.dir.y, qy) + mul_q(ray.dir.z, qz);
    let t_num = mul_q(e2x, qx) + mul_q(e2y, qy) + mul_q(e2z, qz);

    if det == 0 {
        return None;
    }
    let (a, b, c, d): (i128, i128, i128, i128) = if det > 0 {
        (u_num, v_num, t_num, det)
    } else {
        (-u_num, -v_num, -t_num, -det)
    };

    // reject only after u, v and t numerators are all known
    if a < 0 || a > d {
        return None;
    }
    if b < 0 || a + b > d {
        return None;
    }
    if c < 0 {
        return None;
    }

    proof {
        assert(a * FP_ONE <= d * FP_ONE && 0 <= a * FP_ONE && b * FP_ONE <= d * FP_ONE && 0 <= b
            * FP_ONE && 0 <= c * FP_ONE && c * FP_ONE
            <= 0x0800_0000_0000_0000_0000_0000_0000_0000i128) by (nonlinear_arith)
            requires
                0 <= a <= d,
                0 <= b <= d,
                0 <= c <= 0x8_0000_0000_0000_0000_0000_0000i128,
                FP_ONE == 65536i64,
        ;
        vstd::arithmetic::div_mod::lemma_div_is_ordered(
            a * FP_ONE,
            d * FP_ONE,
            d as int,
        );
        vstd::arithmetic::div_mod::lemma_div_is_ordered(
            b * FP_ONE,
            d * FP_ONE,
            d as int,
        );
        vstd::arithmetic::div_mod::lemma_div_multiples_vanish(FP_ONE as int, d as int);
        assert(d * FP_ONE == FP_ONE * d) by (nonlinear_arith);
        vstd::arithmetic::div_mod::lemma_div_pos_is_pos(a * FP_ONE, d as int);
        vstd::arithmetic::div_mod::lemma_div_pos_is_pos(b * FP_ONE, d as int);
        vstd::arithmetic::div_mod::lemma_div_pos_is_pos(c * FP_ONE, d as int);
    }
    let t_fx = i128_div_trunc(c * (FP_ONE as i128), d);
    let u_fx = i128_div_trunc(a * (FP_ONE as i128), d);
    let v_fx = i128_div_trunc(b * (FP_ONE as i128), d);
    let t_out: i64 = if t_fx > i64::MAX as i128 {
        i64::MAX
    } else {
        t_fx as i64
    };
    Some(HitInfo { t: t_out, u: u_fx as i64, v: v_fx as i64 })
}

/// The scalar triple product is antisymmetric in its first two vectors.
#[verifier::rlimit(100)]
proof fn lemma_triple_swap_12(a: (int, int, int), b: (int, int, int), c: (int, int, int))
    ensures
        dotr(a, crossr(b, c)) == -dotr(b, crossr(a, c)),
{
    let a0 = a.0;
    let a1 = a.1;
    let a2 = a.2;
    let b0 = b.0;
    let b1 = b.1;
    let b2 = b.2;
    let c0 = c.0;
    let c1 = c.1;
    let c2 = c.2;
    let lhs = dotr(a, crossr(b, c));
    let rhs = dotr(b, crossr(a, c));
    assert(lhs == a0 * (b1 * c2 - b2 * c1) + a1 * (b2 * c0 - b0 * c2) + a2 * (b0 * c1 - b1 * c0));
    assert(a0 * (b1 * c2 - b2 * c1) == a0 * b1 * c2 - a0 * b2 * c1) by (nonlinear_arith);
    assert(a1 * (b2 * c0 - b0 * c2) == a1 * b2 * c0 - a1 * b0 * c2) by (nonlinear_arith);
    assert(a2 * (b0 * c1 - b1 * c0) == a2 * b0 * c1 - a2 * b1 * c0) by (nonlinear_arith);
    assert(lhs == a0 * b1 * c2 - a0 * b2 * c1 + a1 * b2 * c0 - a1 * b0 * c2 + a2 * b0 * c1 - a2 * b1 * c0);
    assert(rhs == b0 * (a1 * c2 - a2 * c1) + b1 * (a2 * c0 - a0 * c2) + b2 * (a0 * c1 - a1 * c0));
    assert(b0 * (a1 * c2 - a2 * c1) == a1 * b0 * c2 - a2 * b0 * c1) by (nonlinear_arith);
    assert(b1 * (a2 * c0 - a0 * c2) == a2 * b1 * c0 - a0 * b1 * c2) by (nonlinear_arith);
    assert(b2 * (a0 * c1 - a1 * c0) == a0 * b2 * c1 - a1 * b2 * c0) by (nonlinear_arith);
    assert(rhs == a1 * b0 * c2 - a2 * b0 * c1 + a2 * b1 * c0 - a0 * b1 * c2 + a0 * b2 * c1 - a1 * b2 * c0);
    assert(lhs == -rhs);
}

/// The scalar triple product is antisymmetric in its first and third vectors.
#[verifier::rlimit(100)]
proof fn lemma_triple_swap_13(a: (int, int, int), b: (int, int, int), c: (int, int, int))
    ensures
        dotr(a, crossr(b, c)) == -dotr(c, crossr(b, a)),
{
    let a0 = a.0;
    let a1 = a.1;
    let a2 = a.2;
    let b0 = b.0;
    let b1 = b.1;
    let b2 = b.2;
    let c0 = c.0;
    let c1 = c.1;
    let c2 = c.2;
    let lhs = dotr(a, crossr(b, c));
    let rhs = dotr(c, crossr(b, a));
    assert(lhs == a0 * (b1 * c2 - b2 * c1) + a1 * (b2 * c0 - b0 * c2) + a2 * (b0 * c1 - b1 * c0));
    assert(a0 * (b1 * c2 - b2 * c1) == a0 * b1 * c2 - a0 * b2 * c1) by (nonlinear_arith);
    assert(a1 * (b2 * c0 - b0 * c2) == a1 * b2 * c0 - a1 * b0 * c2) by (nonlinear_arith);
    assert(a2 * (b0 * c1 - b1 * c0) == a2 * b0 * c1 - a2 * b1 * c0) by (nonlinear_arith);
    assert(lhs == a0 * b1 * c2 - a0 * b2 * c1 + a1 * b2 * c0 - a1 * b0 * c2 + a2 * b0 * c1 - a2 * b1 * c0);
    assert(rhs == c0 * (b1 * a2 - b2 * a1) + c1 * (b2 * a0 - b0 * a2) + c2 * (b0 * a1 - b1 * a0));
    assert(c0 * (b1 * a2 - b2 * a1) == a2 * b1 * c0 - a1 * b2 * c0) by (nonlinear_arith);
    assert(c1 * (b2 * a0 - b0 * a2) == a0 * b2 * c1 - a2 * b0 * c1) by (nonlinear_arith);
    assert(c2 * (b0 * a1 - b1 * a0) == a1 * b0 * c2 - a0 * b1 * c2) by (nonlinear_arith);
    assert(rhs == a2 * b1 * c0 - a1 * b2 * c0 + a0 * b2 * c1 - a2 * b0 * c1 + a1 * b0 * c2 - a0 * b1 * c2);
    assert(lhs == -rhs);
}

/// Winding order only flips the sign of the determinant: swapping the second
/// and third vertex of a non-degenerate triangle never changes whether a ray
/// hits, nor the hit distance; the barycentric coordinates trade places.
pub proof fn lemma_winding_symmetry(ray: Ray, v0: Vec3, v1: Vec3, v2: Vec3)
    ensures
        mt_det(ray, v0, v2, v1) == -mt_det(ray, v0, v1, v2),
        mt_accepts(ray, v0, v2, v1) == mt_accepts(ray, v0, v1, v2),
        mt_accepts(ray, v0, v1, v2) ==> mt_result(ray, v0, v2, v1) == (
            mt_result(ray, v0, v1, v2).0,
            mt_result(ray, v0, v1, v2).2,
            mt_result(ray, v0, v1, v2).1,
        ),
{
    let e1 = subr(v1, v0);
    let e2 = subr(v2, v0);
    let tv = subr(ray.pos, v0);
    let d = iv(ray.dir);
    lemma_triple_swap_13(e1, d, e2);
    lemma_triple_swap_12(tv, d, e1);
    lemma_triple_swap_12(tv, d, e2);
    lemma_triple_swap_13(e1, tv, e2);
}

/// The exact intersection point lies on the triangle: scaled by the
/// determinant, `pos + t * dir` equals `v0 + u * e1 + v * e2` componentwise,
/// where `t`, `u`, `v` are the exact rational solutions. Together with the
/// acceptance conditions `0 <= u`, `0 <= v`, `u + v <= 1` this places the
/// recovered point inside the triangle, in its plane.
#[verifier::rlimit(100)]
pub proof fn lemma_hit_point_on_triangle(ray: Ray, v0: Vec3, v1: Vec3, v2: Vec3)
    ensures
        ({
            let det = mt_det(ray, v0, v1, v2);
            let un = mt_u_num(ray, v0, v1, v2);
            let vn = mt_v_num(ray, v0, v1, v2);
            let tn = mt_t_num(ray, v0, v1, v2);
            &&& det * (ray.pos.x - v0.x) + tn * ray.dir.x == un * (v1.x - v0.x) + vn * (v2.x
                - v0.x)
            &&& det * (ray.pos.y - v0.y) + tn * ray.dir.y == un * (v1.y - v0.y) + vn * (v2.y
                - v0.y)
            &&& det * (ray.pos.z - v0.z) + tn * ray.dir.z == un * (v1.z - v0.z) + vn * (v2.z
                - v0.z)
        }),
{
    let d0 = ray.dir.x as int;
    let d1 = ray.dir.y as int;
    let d2 = ray.dir.z as int;
    let f0 = (v1.x - v0.x) as int;
    let f1 = (v1.y - v0.y) as int;
    let f2 = (v1.z - v0.z) as int;
    let g0 = (v2.x - v0.x) as int;
    let g1 = (v2.y - v0.y) as int;
    let g2 = (v2.z - v0.z) as int;
    let t0 = (ray.pos.x - v0.x) as int;
    let t1 = (ray.pos.y - v0.y) as int;
    let t2 = (ray.pos.z - v0.z) as int;
    let det = mt_det(ray, v0, v1, v2);
    let un = mt_u_num(ray, v0, v1, v2);
    let vn = mt_v_num(ray, v0, v1, v2);
    let tn = mt_t_num(ray, v0, v1, v2);
    assert(det == f0 * (d1 * g2 - d2 * g1) + f1 * (d2 * g0 - d0 * g2) + f2 * (d0 * g1 - d1 * g0));
    assert(f0 * (d1 * g2 - d2 * g1) == d1 * f0 * g2 - d2 * f0 * g1) by (nonlinear_arith);
    assert(f1 * (d2 * g0 - d0 * g2) == d2 * f1 * g0 - d0 * f1 * g2) by (nonlinear_arith);
    assert(f2 * (d0 * g1 - d1 * g0) == d0 * f2 * g1 - d1 * f2 * g0) by (nonlinear_arith);
    assert(det == d1 * f0 * g2 - d2 * f0 * g1 + d2 * f1 * g0 - d0 * f1 * g2 + d0 * f2 * g1 - d1 * f2 * g0);
    assert(un == t0 * (d1 * g2 - d2 * g1) + t1 * (d2 * g0 - d0 * g2) + t2 * (d0 * g1 - d1 * g0));
    assert(t0 * (d1 * g2 - d2 * g1) == d1 * g2 * t0 - d2 * g1 * t0) by (nonlinear_arith);
    assert(t1 * (d2 * g0 - d0 * g2) == d2 * g0 * t1 - d0 * g2 * t1) by (nonlinear_arith);
    assert(t2 * (d0 * g1 - d1 * g0) == d0 * g1 * t2 - d1 * g0 * t2) by (nonlinear_arith);
    assert(un == d1 * g2 * t0 - d2 * g1 * t0 + d2 * g0 * t1 - d0 * g2 * t1 + d0 * g1 * t2 - d1 * g0 * t2);
    assert(vn == d0 * (t1 * f2 - t2 * f1) + d1 * (t2 * f0 - t0 * f2) + d2 * (t0 * f1 - t1 * f0));
    assert(d0 * (t1 * f2 - t2 * f1) == d0 * f2 * t1 - d0 * f1 * t2) by (nonlinear_arith);
    assert(d1 * (t2 * f0 - t0 * f2) == d1 * f0 * t2 - d1 * f2 * t0) by (nonlinear_arith);
    assert(d2 * (t0 * f1 - t1 * f0) == d2 * f1 * t0 - d2 * f0 * t1) by (nonlinear_arith);
    assert(vn == d0 * f2 * t1 - d0 * f1 * t2 + d1 * f0 * t2 - d1 * f2 * t0 + d2 * f1 * t0 - d2 * f0 * t1);
    assert(tn == g0 * (t1 * f2 - t2 * f1) + g1 * (t2 * f0 - t0 * f2) + g2 * (t0 * f1 - t1 * f0));
    assert(g0 * (t1 * f2 - t2 * f1) == f2 * g0 * t1 - f1 * g0 * t2) by (nonlinear_arith);
    assert(g1 * (t2 * f0 - t0 * f2) == f0 * g1 * t2 - f2 * g1 * t0) by (nonlinear_arith);
    assert(g2 * (t0 * f1 - t1 * f0) == f1 * g2 * t0 - f0 * g2 * t1) by (nonlinear_arith);
    assert(tn == f2 * g0 * t1 - f1 * g0 * t2 + f0 * g1 * t2 - f2 * g1 * t0 + f1 * g2 * t0 - f0 * g2 * t1);
    assert(det * t0 == d1 * f0 * g2 * t0 - d2 * f0 * g1 * t0 + d2 * f1 * g0 * t0 - d0 * f1 * g2 * t0 + d0 * f2 * g1 * t0 - d1 * f2 * g0 * t0) by (nonlinear_arith)
        requires
            det == d1 * f0 * g2 - d2 * f0 * g1 + d2 * f1 * g0 - d0 * f1 * g2 + d0 * f2 * g1 - d1 * f2 * g0,
    ;
    assert(tn * d0 == f2 * g0 * t1 * d0 - f1 * g0 * t2 * d0 + f0 * g1 * t2 * d0 - f2 * g1 * t0 * d0 + f1 * g2 * t0 * d0 - f0 * g2 * t1 * d0) by (nonlinear_arith)
        requires
            tn == f2 * g0 * t1 - f1 * g0 * t2 + f0 * g1 * t2 - f2 * g1 * t0 + f1 * g2 * t0 - f0 * g2 * t1,
    ;
    assert(f2 * g0 * t1 * d0 == d0 * f2 * g0 * t1) by (nonlinear_arith);
    assert(f1 * g0 * t2 * d0 == d0 * f1 * g0 * t2) by (nonlinear_arith);
    assert(f0 * g1 * t2 * d0 == d0 * f0 * g1 * t2) by (nonlinear_arith);
    assert(f2 * g1 * t0 * d0 == d0 * f2 * g1 * t0) by (nonlinear_arith);
    assert(f1 * g2 * t0 * d0 == d0 * f1 * g2 * t0) by (nonlinear_arith);
    assert(f0 * g2 * t1 * d0 == d0 * f0 * g2 * t1) by (nonlinear_arith);
    assert(un * f0 == d1 * g2 * t0 * f0 - d2 * g1 * t0 * f0 + d2 * g0 * t1 * f0 - d0 * g2 * t1 * f0 + d0 * g1 * t2 * f0 - d1 * g0 * t2 * f0) by (nonlinear_arith)
        requires
            un == d1 * g2 * t0 - d2 * g1 * t0 + d2 * g0 * t1 - d0 * g2 * t1 + d0 * g1 * t2 - d1 * g0 * t2,
    ;
    assert(d1 * g2 * t0 * f0 == d1 * f0 * g2 * t0) by (nonlinear_arith);
    assert(d2 * g1 * t0 * f0 == d2 * f0 * g1 * t0) by (nonlinear_arith);
    assert(d2 * g0 * t1 * f0 == d2 * f0 * g0 * t1) by (nonlinear_arith);
    assert(d0 * g2 * t1 * f0 == d0 * f0 * g2 * t1) by (nonlinear_arith);
    assert(d0 * g1 * t2 * f0 == d0 * f0 * g1 * t2) by (nonlinear_arith);
    assert(d1 * g0 * t2 * f0 == d1 * f0 * g0 * t2) by (nonlinear_arith);
    assert(vn * g0 == d0 * f2 * t1 * g0 - d0 * f1 * t2 * g0 + d1 * f0 * t2 * g0 - d1 * f2 * t0 * g0 + d2 * f1 * t0 * g0 - d2 * f0 * t1 * g0) by (nonlinear_arith)
        requires
            vn == d0 * f2 * t1 - d0 * f1 * t2 + d1 * f0 * t2 - d1 * f2 * t0 + d2 * f1 * t0 - d2 * f0 * t1,
    ;
    assert(d0 * f2 * t1 * g0 == d0 * f2 * g0 * t1) by (nonlinear_arith);
    assert(d0 * f1 * t2 * g0 == d0 * f1 * g0 * t2) by (nonlinear_arith);
    assert(d1 * f0 * t2 * g0 == d1 * f0 * g0 * t2) by (nonlinear_arith);
    assert(d1 * f2 * t0 * g0 == d1 * f2 * g0 * t0) by (nonlinear_arith);
    assert(d2 * f1 * t0 * g0 == d2 * f1 * g0 * t0) by (nonlinear_arith);
    assert(d2 * f0 * t1 * g0 == d2 * f0 * g0 * t1) by (nonlinear_arith);
    assert(det * t0 + tn * d0 == un * f0 + vn * g0);
    assert(det * t1 == d1 * f0 * g2 * t1 - d2 * f0 * g1 * t1 + d2 * f1 * g0 * t1 - d0 * f1 * g2 * t1 + d0 * f2 * g1 * t1 - d1 * f2 * g0 * t1) by (nonlinear_arith)
        requires
            det == d1 * f0 * g2 - d2 * f0 * g1 + d2 * f1 * g0 - d0 * f1 * g2 + d0 * f2 * g1 - d1 * f2 * g0,
    ;
    assert(tn * d1 == f2 * g0 * t1 * d1 - f1 * g0 * t2 * d1 + f0 * g1 * t2 * d1 - f2 * g1 * t0 * d1 + f1 * g2 * t0 * d1 - f0 * g2 * t1 * d1) by (nonlinear_arith)
        requires
            tn == f2 * g0 * t1 - f1 * g0 * t2 + f0 * g1 * t2 - f2 * g1 * t0 + f1 * g2 * t0 - f0 * g2 * t1,
    ;
    assert(f2 * g0 * t1 * d1 == d1 * f2 * g0 * t1) by (nonlinear_arith);
    assert(f1 * g0 * t2 * d1 == d1 * f1 * g0 * t2) by (nonlinear_arith);
    assert(f0 * g1 * t2 * d1 == d1 * f0 * g1 * t2) by (nonlinear_arith);
    assert(f2 * g1 * t0 * d1 == d1 * f2 * g1 * t0) by (nonlinear_arith);
    assert(f1 * g2 * t0 * d1 == d1 * f1 * g2 * t0) by (nonlinear_arith);
    assert(f0 * g2 * t1 * d1 == d1 * f0 * g2 * t1) by (nonlinear_arith);
    assert(un * f1 == d1 * g2 * t0 * f1 - d2 * g1 * t0 * f1 + d2 * g0 * t1 * f1 - d0 * g2 * t1 * f1 + d0 * g1 * t2 * f1 - d1 * g0 * t2 * f1) by (nonlinear_arith)
        requires
            un == d1 * g2 * t0 - d2 * g1 * t0 + d2 * g0 * t1 - d0 * g2 * t1 + d0 * g1 * t2 - d1 * g0 * t2,
    ;
    assert(d1 * g2 * t0 * f1 == d1 * f1 * g2 * t0) by (nonlinear_arith);
    assert(d2 * g1 * t0 * f1 == d2 * f1 * g1 * t0) by (nonlinear_arith);
    assert(d2 * g0 * t1 * f1 == d2 * f1 * g0 * t1) by (nonlinear_arith);
    assert(d0 * g2 * t1 * f1 == d0 * f1 * g2 * t1) by (nonlinear_arith);
    assert(d0 * g1 * t2 * f1 == d0 * f1 * g1 * t2) by (nonlinear_arith);
    assert(d1 * g0 * t2 * f1 == d1 * f1 * g0 * t2) by (nonlinear_arith);
    assert(vn * g1 == d0 * f2 * t1 * g1 - d0 * f1 * t2 * g1 + d1 * f0 * t2 * g1 - d1 * f2 * t0 * g1 + d2 * f1 * t0 * g1 - d2 * f0 * t1 * g1) by (nonlinear_arith)
        requires
            vn == d0 * f2 * t1 - d0 * f1 * t2 + d1 * f0 * t2 - d1 * f2 * t0 + d2 * f1 * t0 - d2 * f0 * t1,
    ;
    assert(d0 * f2 * t1 * g1 == d0 * f2 * g1 * t1) by (nonlinear_arith);
    assert(d0 * f1 * t2 * g1 == d0 * f1 * g1 * t2) by (nonlinear_arith);
    assert(d1 * f0 * t2 * g1 == d1 * f0 * g1 * t2) by (nonlinear_arith);
    assert(d1 * f2 * t0 * g1 == d1 * f2 * g1 * t0) by (nonlinear_arith);
    assert(d2 * f1 * t0 * g1 == d2 * f1 * g1 * t0) by (nonlinear_arith);
    assert(d2 * f0 * t1 * g1 == d2 * f0 * g1 * t1) by (nonlinear_arith);
    assert(det * t1 + tn * d1 == un * f1 + vn * g1);
    assert(det * t2 == d1 * f0 * g2 * t2 - d2 * f0 * g1 * t2 + d2 * f1 * g0 * t2 - d0 * f1 * g2 * t2 + d0 * f2 * g1 * t2 - d1 * f2 * g0 * t2) by (nonlinear_arith)
        requires
            det == d1 * f0 * g2 - d2 * f0 * g1 + d2 * f1 * g0 - d0 * f1 * g2 + d0 * f2 * g1 - d1 * f2 * g0,
    ;
    assert(tn * d2 == f2 * g0 * t1 * d2 - f1 * g0 * t2 * d2 + f0 * g1 * t2 * d2 - f2 * g1 * t0 * d2 + f1 * g2 * t0 * d2 - f0 * g2 * t1 * d2) by (nonlinear_arith)
        requires
            tn == f2 * g0 * t1 - f1 * g0 * t2 + f0 * g1 * t2 - f2 * g1 * t0 + f1 * g2 * t0 - f0 * g2 * t1,
    ;
    assert(f2 * g0 * t1 * d2 == d2 * f2 * g0 * t1) by (nonlinear_arith);
    assert(f1 * g0 * t2 * d2 == d2 * f1 * g0 * t2) by (nonlinear_arith);
    assert(f0 * g1 * t2 * d2 == d2 * f0 * g1 * t2) by (nonlinear_arith);
    assert(f2 * g1 * t0 * d2 == d2 * f2 * g1 * t0) by (nonlinear_arith);
    assert(f1 * g2 * t0 * d2 == d2 * f1 * g2 * t0) by (nonlinear_arith);
    assert(f0 * g2 * t1 * d2 == d2 * f0 * g2 * t1) by (nonlinear_arith);
    assert(un * f2 == d1 * g2 * t0 * f2 - d2 * g1 * t0 * f2 + d2 * g0 * t1 * f2 - d0 * g2 * t1 * f2 + d0 * g1 * t2 * f2 - d1 * g0 * t2 * f2) by (nonlinear_arith)
        requires
            un == d1 * g2 * t0 - d2 * g1 * t0 + d2 * g0 * t1 - d0 * g2 * t1 + d0 * g1 * t2 - d1 * g0 * t2,
    ;
    assert(d1 * g2 * t0 * f2 == d1 * f2 * g2 * t0) by (nonlinear_arith);
    assert(d2 * g1 * t0 * f2 == d2 * f2 * g1 * t0) by (nonlinear_arith);
    assert(d2 * g0 * t1 * f2 == d2 * f2 * g0 * t1) by (nonlinear_arith);
    assert(d0 * g2 * t1 * f2 == d0 * f2 * g2 * t1) by (nonlinear_arith);
    assert(d0 * g1 * t2 * f2 == d0 * f2 * g1 * t2) by (nonlinear_arith);
    assert(d1 * g0 * t2 * f2 == d1 * f2 * g0 * t2) by (nonlinear_arith);
    assert(vn * g2 == d0 * f2 * t1 * g2 - d0 * f1 * t2 * g2 + d1 * f0 * t2 * g2 - d1 * f2 * t0 * g2 + d2 * f1 * t0 * g2 - d2 * f0 * t1 * g2) by (nonlinear_arith)
        requires
            vn == d0 * f2 * t1 - d0 * f1 * t2 + d1 * f0 * t2 - d1 * f2 * t0 + d2 * f1 * t0 - d2 * f0 * t1,
    ;
    assert(d0 * f2 * t1 * g2 == d0 * f2 * g2 * t1) by (nonlinear_arith);
    assert(d0 * f1 * t2 * g2 == d0 * f1 * g2 * t2) by (nonlinear_arith);
    assert(d1 * f0 * t2 * g2 == d1 * f0 * g2 * t2) by (nonlinear_arith);
    assert(d1 * f2 * t0 * g2 == d1 * f2 * g2 * t0) by (nonlinear_arith);
    assert(d2 * f1 * t0 * g2 == d2 * f1 * g2 * t0) by (nonlinear_arith);
    assert(d2 * f0 * t1 * g2 == d2 * f0 * g2 * t1) by (nonlinear_arith);
    assert(det * t2 + tn * d2 == un * f2 + vn * g2);
}

/// Product of one small factor (an edge or direction component) and one
/// exact cross-product component, with the bounds the sums stay within.
pub(crate) fn mul_q(a: i64, b: i128) -> (r: i128)
    requires
        -0x1_0000_0000i64 as int <= a as int <= 0x1_0000_0000i64 as int,
        -0x2_0000_0000_0000_0000i128 <= b <= 0x2_0000_0000_0000_0000i128,
    ensures
        r == a as int * b as int,
        -0x2_0000_0000_0000_0000_0000_0000i128 <= r <= 0x2_0000_0000_0000_0000_0000_0000i128,
{
    proof {
        lemma_abs_mul_le(a as int, b as int, 0x1_0000_0000, 0x2_0000_0000_0000_0000);
    }
    (a as i128) * b
}

} // verus!
