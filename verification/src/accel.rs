//! Intersection strategies over a scene: a brute-force scan and an octree.
//! The cube/ray slab test works on a precomputed inverse ray; an axis with
//! a zero direction component carries no inverse and is handled as the
//! parallel case instead of relying on infinities.
use crate::fixed::{div_floor, div_trunc, fp_div, i128_div_floor, i128_div_trunc, FP_ONE};
use crate::intersect::{intersect, mt_accepts, mt_result, mul_q, HitInfo, COORD_ABS_MAX};
use crate::scene::{geometry_wf, scene_wf, Scene};
use crate::vecmath::{lemma_abs_mul_le, mul_wide, v3_bounded, Ray, Vec3};
use vstd::prelude::*;

verus! {

/// A hit against a concrete triangle of the scene: the intersection record
/// plus which geometry and which first-vertex index it struck.
#[derive(Clone, Copy, Debug, PartialEq, Eq, Structural)]
pub struct Hit {
    pub hit_info: HitInfo,
    pub geometry_index: usize,
    pub vertex_index: usize,
}

impl Hit {
    pub fn new(hit_info: HitInfo, geometry_index: usize, vertex_index: usize) -> (h: Hit)
        ensures
            h == (Hit { hit_info, geometry_index, vertex_index }),
    {
        Hit { hit_info, geometry_index, vertex_index }
    }
}

/// The triangle `(g, v)` exists in the scene: geometry `g` holds vertices
/// `v`, `v + 1`, `v + 2` in world space.
pub open spec fn tri_valid(s: Scene, g: int, v: int) -> bool {
    &&& 0 <= g < s.geometries.len()
    &&& 0 <= v
    &&& v + 3 <= s.geometries[g].transformed_vertices.len()
    &&& v % 3 == 0
}

/// The world-space vertices of triangle `(g, v)`.
pub open spec fn tri_at(s: Scene, g: int, v: int) -> (Vec3, Vec3, Vec3) {
    let tv = s.geometries[g].transformed_vertices;
    (tv[v], tv[v + 1], tv[v + 2])
}

/// `h` records a genuine intersection of `ray` with a triangle of `s`.
pub open spec fn hit_genuine(s: Scene, ray: Ray, h: Hit) -> bool {
    &&& tri_valid(s, h.geometry_index as int, h.vertex_index as int)
    &&& 0 <= h.hit_info.t
    &&& 0 <= h.hit_info.u <= FP_ONE
    &&& 0 <= h.hit_info.v <= FP_ONE
    &&& ({
        let (v0, v1, v2) = tri_at(s, h.geometry_index as int, h.vertex_index as int);
        &&& mt_accepts(ray, v0, v1, v2)
        &&& (h.hit_info.t as int, h.hit_info.u as int, h.hit_info.v as int) == mt_result(
            ray,
            v0,
            v1,
            v2,
        )
    })
}

/// The closest-hit scan over all triangles from position `(g, v)` on,
/// carrying the best hit so far: exactly what the brute-force intersector
/// computes. A later triangle replaces the carried hit only when strictly
/// closer.
pub open spec fn scan_hits(s: Scene, ray: Ray, g: int, v: int, acc: Option<Hit>) -> Option<Hit>
    decreases s.geometries.len() - g, s.geometries[g].transformed_vertices.len() - v + 3,
{
    if g < 0 || v < 0 || g >= s.geometries.len() {
        acc
    } else if v + 3 > s.geometries[g].transformed_vertices.len() {
        scan_hits(s, ray, g + 1, 0, acc)
    } else {
        let (v0, v1, v2) = tri_at(s, g, v);
        let acc2 = if mt_accepts(ray, v0, v1, v2) {
            let (t, u, vv) = mt_result(ray, v0, v1, v2);
            match acc {
                None => Some(
                    Hit {
                        hit_info: HitInfo { t: t as i64, u: u as i64, v: vv as i64 },
                        geometry_index: g as usize,
                        vertex_index: v as usize,
                    },
                ),
                Some(h) => if t < h.hit_info.t {
                    Some(
                        Hit {
                            hit_info: HitInfo { t: t as i64, u: u as i64, v: vv as i64 },
                            geometry_index: g as usize,
                            vertex_index: v as usize,
                        },
                    )
                } else {
                    Some(h)
                },
            }
        } else {
            acc
        };
        scan_hits(s, ray, g, v + 3, acc2)
    }
}

/// One strategy for finding the closest hit of a ray against a scene.
/// Each strategy pins its answer with a spec function of its own, and
/// every returned hit is a genuine triangle hit.
pub trait Intersector: Sized {
    /// The structural soundness the strategy needs over a scene.
    spec fn inv(&self, scene: &Scene) -> bool;

    /// Exactly which hit the strategy reports for this ray.
    spec fn result_of(&self, scene: &Scene, ray: &Ray) -> Option<Hit>;

    /// Build the strategy for a scene.
    fn new(scene: &Scene) -> (r: Self)
        requires
            scene_wf(*scene),
        ensures
            r.inv(scene),
    ;

    /// The hit the strategy reports for this ray, if any.
    fn intersect_ray(&self, scene: &Scene, ray: &Ray) -> (r: Option<Hit>)
        requires
            scene_wf(*scene),
            self.inv(scene),
            v3_bounded(ray.pos, COORD_ABS_MAX as int),
            v3_bounded(ray.dir, COORD_ABS_MAX as int),
        ensures
            r == self.result_of(scene, ray),
            r matches Some(h) ==> hit_genuine(*scene, *ray, h),
    ;
}

/// The brute-force intersector: every triangle of every geometry is tested.
pub struct NoAccelerationIntersector {}

impl Intersector for NoAccelerationIntersector {
    open spec fn inv(&self, scene: &Scene) -> bool {
        true
    }

    /// The closest hit over every triangle, as the forward scan computes
    /// it.
    open spec fn result_of(&self, scene: &Scene, ray: &Ray) -> Option<Hit> {
        scan_hits(*scene, *ray, 0, 0, None::<Hit>)
    }

    fn new(_scene: &Scene) -> (r: NoAccelerationIntersector) {
        NoAccelerationIntersector {  }
    }

    /// The closest hit of `ray` against the whole scene, exactly the
    /// forward scan `scan_hits` starting with nothing.
    fn intersect_ray(&self, scene: &Scene, ray: &Ray) -> (r: Option<Hit>) {
        let mut acc: Option<Hit> = None;
        let num_geoms = scene.geometries.len();
        let mut g: usize = 0;
        while g < num_geoms
            invariant
                scene_wf(*scene),
                v3_bounded(ray.pos, COORD_ABS_MAX as int),
                v3_bounded(ray.dir, COORD_ABS_MAX as int),
                num_geoms == scene.geometries.len(),
                g <= num_geoms,
                scan_hits(*scene, *ray, 0, 0, None::<Hit>) == scan_hits(
                    *scene,
                    *ray,
                    g as int,
                    0,
                    acc,
                ),
                acc matches Some(h) ==> hit_genuine(*scene, *ray, h),
            decreases num_geoms - g,
        {
            let num_verts = scene.geometries[g].transformed_vertices.len();
            let mut v: usize = 0;
            proof {
                assert(num_verts % 3 == 0);
            }
            while v < num_verts
                invariant
                    scene_wf(*scene),
                    v3_bounded(ray.pos, COORD_ABS_MAX as int),
                    v3_bounded(ray.dir, COORD_ABS_MAX as int),
                    g < scene.geometries.len(),
                    num_verts == scene.geometries[g as int].transformed_vertices.len(),
                    num_verts % 3 == 0,
                    v % 3 == 0,
                    v <= num_verts,
                    scan_hits(*scene, *ray, 0, 0, None::<Hit>) == scan_hits(
                        *scene,
                        *ray,
                        g as int,
                        v as int,
                        acc,
                    ),
                    acc matches Some(h) ==> hit_genuine(*scene, *ray, h),
                decreases num_verts - v,
            {
                let v0 = scene.geometries[g].transformed_vertices[v];
                let v1 = scene.geometries[g].transformed_vertices[v + 1];
                let v2 = scene.geometries[g].transformed_vertices[v + 2];
                let res = intersect(ray, &v0, &v1, &v2);
                match res {
                    None => {},
                    Some(hi) => {
                        let replace = match &acc {
                            None => true,
                            Some(h) => hi.t < h.hit_info.t,
                        };
                        if replace {
                            acc = Some(
                                Hit { hit_info: hi, geometry_index: g, vertex_index: v },
                            );
                        }
                    },
                }
                v = v + 3;
            }
            proof {
                assert(v == num_verts);
            }
            g = g + 1;
        }
        acc
    }
}

/// An axis-aligned box.
#[derive(Clone, Copy, Debug, PartialEq, Eq, Structural)]
pub struct Cube {
    pub min: Vec3,
    pub max: Vec3,
}

impl Cube {
    pub fn new(min: Vec3, max: Vec3) -> (c: Cube)
        ensures
            c == (Cube { min, max }),
    {
        Cube { min, max }
    }
}

/// The box is within the world and not inverted.
pub open spec fn cube_wf(c: Cube) -> bool {
    &&& v3_bounded(c.min, COORD_ABS_MAX as int)
    &&& v3_bounded(c.max, COORD_ABS_MAX as int)
    &&& c.min.x <= c.max.x
    &&& c.min.y <= c.max.y
    &&& c.min.z <= c.max.z
}

/// A ray with its direction inverted per axis for the slab test. A zero
/// direction component has no inverse.
#[derive(Clone, Copy, Debug, PartialEq, Eq, Structural)]
pub struct InvRay {
    pub pos: Vec3,
    pub inv_x: Option<i64>,
    pub inv_y: Option<i64>,
    pub inv_z: Option<i64>,
}

/// The inverse of one direction component.
pub open spec fn inv_of(d: int) -> Option<i64> {
    if d == 0 {
        None
    } else {
        Some(crate::fixed::fp_div_spec(FP_ONE as int, d) as i64)
    }
}

/// The inverse ray of `ray`.
pub open spec fn inv_ray_spec(ray: Ray) -> InvRay {
    InvRay {
        pos: ray.pos,
        inv_x: inv_of(ray.dir.x as int),
        inv_y: inv_of(ray.dir.y as int),
        inv_z: inv_of(ray.dir.z as int),
    }
}

impl InvRay {
    /// Precompute `1 / dir` per axis.
    pub fn new(ray: &Ray) -> (r: InvRay)
        requires
            v3_bounded(ray.pos, COORD_ABS_MAX as int),
            v3_bounded(ray.dir, COORD_ABS_MAX as int),
        ensures
            r == inv_ray_spec(*ray),
            inv_ray_ok(r),
    {
        InvRay {
            pos: ray.pos,
            inv_x: Self::inv_comp(ray.dir.x),
            inv_y: Self::inv_comp(ray.dir.y),
            inv_z: Self::inv_comp(ray.dir.z),
        }
    }

    fn inv_comp(d: i64) -> (r: Option<i64>)
        requires
            -COORD_ABS_MAX <= d <= COORD_ABS_MAX,
        ensures
            r == inv_of(d as int),
            r matches Some(v) ==> -0x1_0000_0000 <= v <= 0x1_0000_0000 && v != 0,
    {
        if d == 0 {
            None
        } else {
            proof {
                lemma_inv_of_bounds(d as int);
                if d > 0 {
                    vstd::arithmetic::div_mod::lemma_div_nonincreasing(
                        FP_ONE as int * FP_ONE as int,
                        d as int,
                    );
                    vstd::arithmetic::div_mod::lemma_div_pos_is_pos(
                        FP_ONE as int * FP_ONE as int,
                        d as int,
                    );
                } else {
                    vstd::arithmetic::div_mod::lemma_div_nonincreasing(
                        FP_ONE as int * FP_ONE as int,
                        -(d as int),
                    );
                    vstd::arithmetic::div_mod::lemma_div_pos_is_pos(
                        FP_ONE as int * FP_ONE as int,
                        -(d as int),
                    );
                }
            }
            Some(fp_div(FP_ONE, d))
        }
    }
}

/// One axis of the slab test: the parametric interval in which the ray is
/// inside the slab, or `None` when the ray is parallel and outside. The
/// products are exact; the near bound rounds toward negative infinity and
/// the far bound toward positive infinity, so rounding only widens the
/// interval. A missing constraint is the full line.
pub open spec fn slab_axis(pos: int, inv: Option<i64>, lo: int, hi: int) -> Option<(int, int)> {
    match inv {
        None => if lo <= pos <= hi {
            Some((i64::MIN as int, i64::MAX as int))
        } else {
            None
        },
        Some(iv) => {
            let p1 = (lo - pos) * iv;
            let p2 = (hi - pos) * iv;
            let near = crate::vecmath::min_i(p1, p2);
            let far = crate::vecmath::max_i(p1, p2);
            Some((div_floor(near, FP_ONE as int), crate::fixed::div_ceil(far, FP_ONE as int)))
        },
    }
}

/// The slab test: intersect the three per-axis intervals; a hit exists when
/// the merged interval is nonempty with a positive far bound, and the
/// reported distance is the near bound, negative when the origin is inside
/// the box.
pub open spec fn slab_spec(ir: InvRay, c: Cube) -> Option<int> {
    let ix = slab_axis(ir.pos.x as int, ir.inv_x, c.min.x as int, c.max.x as int);
    let iy = slab_axis(ir.pos.y as int, ir.inv_y, c.min.y as int, c.max.y as int);
    let iz = slab_axis(ir.pos.z as int, ir.inv_z, c.min.z as int, c.max.z as int);
    match (ix, iy, iz) {
        (Some(bx), Some(by), Some(bz)) => {
            let tmin = crate::vecmath::max_i(bx.0, crate::vecmath::max_i(by.0, bz.0));
            let tmax = crate::vecmath::min_i(bx.1, crate::vecmath::min_i(by.1, bz.1));
            if tmax >= tmin && tmax > 0 {
                Some(tmin)
            } else {
                None
            }
        },
        _ => None,
    }
}

/// The inverse-ray components the slab test accepts: what `InvRay::new`
/// produces for a world-bounded ray.
pub open spec fn inv_ray_ok(ir: InvRay) -> bool {
    &&& v3_bounded(ir.pos, COORD_ABS_MAX as int)
    &&& (ir.inv_x matches Some(v) ==> -0x1_0000_0000 <= v <= 0x1_0000_0000 && v != 0)
    &&& (ir.inv_y matches Some(v) ==> -0x1_0000_0000 <= v <= 0x1_0000_0000 && v != 0)
    &&& (ir.inv_z matches Some(v) ==> -0x1_0000_0000 <= v <= 0x1_0000_0000 && v != 0)
}

/// Slab test between a precomputed inverse ray and a box. Returns the
/// entry distance along the closest axis, negative when the origin starts
/// inside the box, `None` when there is no intersection.
pub fn intersect_cube_inverse_ray(inv_ray: &InvRay, cube: &Cube) -> (r: Option<i64>)
    requires
        inv_ray_ok(*inv_ray),
        cube_wf(*cube),
    ensures
        r matches Some(t) ==> slab_spec(*inv_ray, *cube) == Some(t as int),
        r is None ==> slab_spec(*inv_ray, *cube) is None,
{
    let bx = slab_axis_exec(inv_ray.pos.x, inv_ray.inv_x, cube.min.x, cube.max.x);
    let by = slab_axis_exec(inv_ray.pos.y, inv_ray.inv_y, cube.min.y, cube.max.y);
    let bz = slab_axis_exec(inv_ray.pos.z, inv_ray.inv_z, cube.min.z, cube.max.z);
    match (bx, by, bz) {
        (Some(bx), Some(by), Some(bz)) => {
            let mut tmin = bx.0;
            if by.0 > tmin {
                tmin = by.0;
            }
            if bz.0 > tmin {
                tmin = bz.0;
            }
            let mut tmax = bx.1;
            if by.1 < tmax {
                tmax = by.1;
            }
            if bz.1 < tmax {
                tmax = bz.1;
            }
            if tmax >= tmin && tmax > 0 {
                Some(tmin)
            } else {
                None
            }
        },
        _ => None,
    }
}

/// One axis of the slab test.
fn slab_axis_exec(pos: i64, inv: Option<i64>, lo: i64, hi: i64) -> (r: Option<(i64, i64)>)
    requires
        -COORD_ABS_MAX <= pos <= COORD_ABS_MAX,
        -COORD_ABS_MAX <= lo <= COORD_ABS_MAX,
        -COORD_ABS_MAX <= hi <= COORD_ABS_MAX,
        inv matches Some(v) ==> -0x1_0000_0000 <= v <= 0x1_0000_0000,
    ensures
        ({
            let s = slab_axis(pos as int, inv, lo as int, hi as int);
            match r {
                None => s is None,
                Some(b) => s == Some((b.0 as int, b.1 as int)),
            }
        }),
{
    match inv {
        None => {
            if lo <= pos && pos <= hi {
                Some((i64::MIN, i64::MAX))
            } else {
                None
            }
        },
        Some(iv) => {
            proof {
                lemma_abs_mul_le(lo as int - pos as int, iv as int, 0x1_0000_0000, 0x1_0000_0000);
                lemma_abs_mul_le(hi as int - pos as int, iv as int, 0x1_0000_0000, 0x1_0000_0000);
            }
            let p1 = mul_wide(lo - pos, iv);
            let p2 = mul_wide(hi - pos, iv);
            let near = if p1 <= p2 {
                p1
            } else {
                p2
            };
            let far = if p1 <= p2 {
                p2
            } else {
                p1
            };
            proof {
                vstd::arithmetic::div_mod::lemma_div_is_ordered(
                    -0x1_0000_0000_0000_0000,
                    near as int,
                    FP_ONE as int,
                );
                vstd::arithmetic::div_mod::lemma_div_is_ordered(
                    near as int,
                    0x1_0000_0000_0000_0000,
                    FP_ONE as int,
                );
                vstd::arithmetic::div_mod::lemma_div_is_ordered(
                    -0x1_0000_0000_0000_0000,
                    -(far as int),
                    FP_ONE as int,
                );
                vstd::arithmetic::div_mod::lemma_div_is_ordered(
                    -(far as int),
                    0x1_0000_0000_0000_0000,
                    FP_ONE as int,
                );
            }
            let lo_b = i128_div_floor(near, FP_ONE as i128) as i64;
            let hi_b = crate::fixed::i128_div_ceil(far, FP_ONE as i128) as i64;
            Some((lo_b, hi_b))
        },
    }
}

/// The inverse of a nonzero direction component within the world bound has
/// the same sign and magnitude at least two.
proof fn lemma_inv_of_bounds(d: int)
    requires
        -COORD_ABS_MAX <= d <= COORD_ABS_MAX,
        d != 0,
    ensures
        d > 0 ==> 2 <= crate::fixed::fp_div_spec(FP_ONE as int, d) <= 0x1_0000_0000,
        d < 0 ==> -0x1_0000_0000 <= crate::fixed::fp_div_spec(FP_ONE as int, d) <= -2,
{
    let n = FP_ONE as int * FP_ONE as int;
    if d > 0 {
        vstd::arithmetic::div_mod::lemma_div_is_ordered(2 * d, n, d);
        vstd::arithmetic::div_mod::lemma_div_multiples_vanish(2, d);
        assert(2 * d == d * 2) by (nonlinear_arith);
        vstd::arithmetic::div_mod::lemma_div_is_ordered_by_denominator(n, 1, d);
        assert(n / 1 == n);
        assert(n / d <= n);
    } else {
        let e = -d;
        vstd::arithmetic::div_mod::lemma_div_is_ordered(2 * e, n, e);
        vstd::arithmetic::div_mod::lemma_div_multiples_vanish(2, e);
        assert(2 * e == e * 2) by (nonlinear_arith);
        vstd::arithmetic::div_mod::lemma_div_is_ordered_by_denominator(n, 1, e);
        assert(n / 1 == n);
        assert(n / e <= n);
    }
}

/// A slab whose ray points away from it contributes an interval that is
/// already over: the far bound is not positive.
proof fn lemma_axis_away(pos: int, d: int, lo: int, hi: int)
    requires
        -COORD_ABS_MAX <= pos <= COORD_ABS_MAX,
        -COORD_ABS_MAX <= d <= COORD_ABS_MAX,
        -COORD_ABS_MAX <= lo <= COORD_ABS_MAX,
        -COORD_ABS_MAX <= hi <= COORD_ABS_MAX,
        lo <= hi,
        (pos < lo && d <= 0) || (pos > hi && d >= 0),
    ensures
        ({
            let s = slab_axis(pos, inv_of(d), lo, hi);
            s is None || (s matches Some(b) && b.1 <= 0)
        }),
{
    if d == 0 {
    } else {
        lemma_inv_of_bounds(d);
        let iv = crate::fixed::fp_div_spec(FP_ONE as int, d);
        let p1 = (lo - pos) * iv;
        let p2 = (hi - pos) * iv;
        if pos < lo && d < 0 {
            assert(p1 <= -2 && p2 <= -2) by (nonlinear_arith)
                requires
                    p1 == (lo - pos) * iv,
                    p2 == (hi - pos) * iv,
                    lo - pos >= 1,
                    hi - pos >= 1,
                    iv <= -2,
            ;
        } else {
            assert(p1 <= -2 && p2 <= -2) by (nonlinear_arith)
                requires
                    p1 == (lo - pos) * iv,
                    p2 == (hi - pos) * iv,
                    lo - pos <= -1,
                    hi - pos <= -1,
                    iv >= 2,
            ;
        }
        lemma_ceil_nonpos(crate::vecmath::max_i(p1, p2));
    }
}

/// The ceiling-scaled value of a negative product is not positive.
proof fn lemma_ceil_nonpos(p: int)
    requires
        p <= -1,
    ensures
        crate::fixed::div_ceil(p, FP_ONE as int) <= 0,
{
    vstd::arithmetic::div_mod::lemma_div_pos_is_pos(-p, FP_ONE as int);
}

/// The ceiling-scaled value of a positive product stays positive.
proof fn lemma_ceil_pos(p: int)
    requires
        p >= 1,
    ensures
        crate::fixed::div_ceil(p, FP_ONE as int) >= 1,
{
    vstd::arithmetic::div_mod::lemma_div_is_ordered(-p, -1, FP_ONE as int);
    assert((-1) / (FP_ONE as int) == -1) by {
        vstd::arithmetic::div_mod::lemma_fundamental_div_mod_converse(
            -1,
            FP_ONE as int,
            -1,
            FP_ONE as int - 1,
        );
    }
}

/// The floor-scaled value of a negative product stays negative.
proof fn lemma_floor_neg(p: int)
    requires
        p <= -1,
    ensures
        div_floor(p, FP_ONE as int) <= -1,
{
    vstd::arithmetic::div_mod::lemma_div_is_ordered(p, -1, FP_ONE as int);
    assert((-1) / (FP_ONE as int) == -1) by {
        vstd::arithmetic::div_mod::lemma_fundamental_div_mod_converse(
            -1,
            FP_ONE as int,
            -1,
            FP_ONE as int - 1,
        );
    }
}

/// A ray whose origin is outside the box on some axis and pointed away on
/// that axis never intersects the box.
pub proof fn lemma_slab_pointed_away(ray: Ray, c: Cube)
    requires
        v3_bounded(ray.pos, COORD_ABS_MAX as int),
        v3_bounded(ray.dir, COORD_ABS_MAX as int),
        cube_wf(c),
        (ray.pos.x < c.min.x && ray.dir.x <= 0) || (ray.pos.x > c.max.x && ray.dir.x >= 0) || (
        ray.pos.y < c.min.y && ray.dir.y <= 0) || (ray.pos.y > c.max.y && ray.dir.y >= 0) || (
        ray.pos.z < c.min.z && ray.dir.z <= 0) || (ray.pos.z > c.max.z && ray.dir.z >= 0),
    ensures
        slab_spec(inv_ray_spec(ray), c) is None,
{
    if (ray.pos.x < c.min.x && ray.dir.x <= 0) || (ray.pos.x > c.max.x && ray.dir.x >= 0) {
        lemma_axis_away(ray.pos.x as int, ray.dir.x as int, c.min.x as int, c.max.x as int);
    } else if (ray.pos.y < c.min.y && ray.dir.y <= 0) || (ray.pos.y > c.max.y && ray.dir.y >= 0) {
        lemma_axis_away(ray.pos.y as int, ray.dir.y as int, c.min.y as int, c.max.y as int);
    } else {
        lemma_axis_away(ray.pos.z as int, ray.dir.z as int, c.min.z as int, c.max.z as int);
    }
}

/// A slab whose ray starts strictly inside contributes an interval that
/// opens strictly before zero and closes strictly after it.
proof fn lemma_axis_inside(pos: int, d: int, lo: int, hi: int)
    requires
        -COORD_ABS_MAX <= pos <= COORD_ABS_MAX,
        -COORD_ABS_MAX <= d <= COORD_ABS_MAX,
        -COORD_ABS_MAX <= lo <= COORD_ABS_MAX,
        -COORD_ABS_MAX <= hi <= COORD_ABS_MAX,
        lo <= hi,
        d == 0 ==> lo <= pos <= hi,
        d != 0 ==> lo < pos < hi,
    ensures
        ({
            let s = slab_axis(pos, inv_of(d), lo, hi);
            s matches Some(b) && b.0 < 0 && b.1 > 0
        }),
{
    if d == 0 {
    } else {
        lemma_inv_of_bounds(d);
        let iv = crate::fixed::fp_div_spec(FP_ONE as int, d);
        let p1 = (lo - pos) * iv;
        let p2 = (hi - pos) * iv;
        if d > 0 {
            assert(p1 <= -2 && p2 >= 2) by (nonlinear_arith)
                requires
                    p1 == (lo - pos) * iv,
                    p2 == (hi - pos) * iv,
                    lo - pos <= -1,
                    hi - pos >= 1,
                    iv >= 2,
            ;
        } else {
            assert(p1 >= 2 && p2 <= -2) by (nonlinear_arith)
                requires
                    p1 == (lo - pos) * iv,
                    p2 == (hi - pos) * iv,
                    lo - pos <= -1,
                    hi - pos >= 1,
                    iv <= -2,
            ;
        }
        lemma_floor_neg(crate::vecmath::min_i(p1, p2));
        lemma_ceil_pos(crate::vecmath::max_i(p1, p2));
    }
}

/// A ray whose origin is strictly inside the box (and within any parallel
/// slab) intersects it at a negative entry distance.
pub proof fn lemma_slab_inside_negative(ray: Ray, c: Cube)
    requires
        v3_bounded(ray.pos, COORD_ABS_MAX as int),
        v3_bounded(ray.dir, COORD_ABS_MAX as int),
        cube_wf(c),
        ray.dir.x == 0 ==> c.min.x <= ray.pos.x <= c.max.x,
        ray.dir.y == 0 ==> c.min.y <= ray.pos.y <= c.max.y,
        ray.dir.z == 0 ==> c.min.z <= ray.pos.z <= c.max.z,
        ray.dir.x != 0 ==> c.min.x < ray.pos.x < c.max.x,
        ray.dir.y != 0 ==> c.min.y < ray.pos.y < c.max.y,
        ray.dir.z != 0 ==> c.min.z < ray.pos.z < c.max.z,
    ensures
        ({
            let s = slab_spec(inv_ray_spec(ray), c);
            s matches Some(t) && t < 0
        }),
{
    lemma_axis_inside(ray.pos.x as int, ray.dir.x as int, c.min.x as int, c.max.x as int);
    lemma_axis_inside(ray.pos.y as int, ray.dir.y as int, c.min.y as int, c.max.y as int);
    lemma_axis_inside(ray.pos.z as int, ray.dir.z as int, c.min.z as int, c.max.z as int);
}

// -- the octree -------------------------------------------------------------

/// Which triangle of which geometry a leaf entry points at.
#[derive(Clone, Copy, Debug, PartialEq, Eq, Structural)]
pub struct TriangleIndex {
    pub geom_idx: usize,
    pub tri_idx: usize,
}

impl TriangleIndex {
    pub fn new(geom_idx: usize, tri_idx: usize) -> (t: TriangleIndex)
        ensures
            t == (TriangleIndex { geom_idx, tri_idx }),
    {
        TriangleIndex { geom_idx, tri_idx }
    }
}

/// A leaf: its bounding cube and the triangles overlapping it.
pub struct Leaf {
    pub cube_index: usize,
    pub triangle_indices: Vec<TriangleIndex>,
}

impl Leaf {
    pub fn new(cube_index: usize, triangle_indices: Vec<TriangleIndex>) -> (l: Leaf)
        ensures
            l.cube_index == cube_index,
            l.triangle_indices == triangle_indices,
    {
        Leaf { cube_index, triangle_indices }
    }
}

/// A node of the arena: a leaf, or eight children by index.
pub enum OctNode {
    Leaf(Leaf),
    Node([usize; 8]),
}

/// The octree intersector: a node arena with cubes on the side.
pub struct OctTreeAccelerationIntersector {
    pub cubes: Vec<Cube>,
    pub nodes: Vec<OctNode>,
    pub trunk: usize,
}

/// Every entry of a leaf list names a real triangle that intersects the
/// leaf's cube by the separating-axis test.
pub open spec fn leaf_entries_ok(s: Scene, c: Cube, tris: Seq<TriangleIndex>) -> bool {
    forall|j: int|
        0 <= j < tris.len() ==> (tri_valid(
            s,
            (#[trigger] tris[j]).geom_idx as int,
            tris[j].tri_idx as int,
        ) && ({
            let (v0, v1, v2) = tri_at(s, tris[j].geom_idx as int, tris[j].tri_idx as int);
            sat_intersects(c, v0, v1, v2)
        }))
}

/// Structural soundness of the arena against a scene: every leaf's entries
/// are real triangles intersecting the leaf's cube by the separating-axis
/// test, every cube is well formed, and every branch's children sit
/// strictly later in the arena.
pub open spec fn octree_wf(o: OctTreeAccelerationIntersector, s: Scene) -> bool {
    &&& o.trunk == 0
    &&& 0 < o.nodes.len()
    &&& o.nodes.len() == o.cubes.len()
    &&& forall|i: int|
        0 <= i < o.nodes.len() ==> match #[trigger] o.nodes[i] {
            OctNode::Leaf(l) => l.cube_index < o.cubes.len() && leaf_entries_ok(
                s,
                o.cubes[l.cube_index as int],
                l.triangle_indices@,
            ),
            OctNode::Node(ch) => forall|k: int| 0 <= k < 8 ==> i < (#[trigger] ch[k]) < o.nodes.len(),
        }
    &&& forall|i: int| 0 <= i < o.cubes.len() ==> cube_wf(#[trigger] o.cubes[i])
}

/// The hard backstop on subdivision depth.
pub const MAX_SPLIT_DEPTH: u32 = 12;

/// The default leaf threshold.
pub const DEFAULT_TRIANGLES_PER_LEAF: usize = 64;

/// The closer of two optional hits: a challenger replaces the holder only
/// when strictly closer.
pub open spec fn closer_hit(acc: Option<Hit>, sub: Option<Hit>) -> Option<Hit> {
    match sub {
        None => acc,
        Some(h) => match acc {
            None => Some(h),
            Some(g) => if h.hit_info.t < g.hit_info.t {
                Some(h)
            } else {
                Some(g)
            },
        },
    }
}

/// The closest-hit fold over a leaf's triangle list from position `i`,
/// carrying the best hit so far.
pub open spec fn leaf_fold(
    s: Scene,
    ray: Ray,
    tris: Seq<TriangleIndex>,
    i: int,
    acc: Option<Hit>,
) -> Option<Hit>
    decreases tris.len() - i,
{
    if i < 0 || i >= tris.len() {
        acc
    } else {
        let ti = tris[i];
        let (v0, v1, v2) = tri_at(s, ti.geom_idx as int, ti.tri_idx as int);
        let acc2 = if mt_accepts(ray, v0, v1, v2) {
            let (t, u, vv) = mt_result(ray, v0, v1, v2);
            let cand = Hit {
                hit_info: HitInfo { t: t as i64, u: u as i64, v: vv as i64 },
                geometry_index: ti.geom_idx,
                vertex_index: ti.tri_idx,
            };
            match acc {
                None => Some(cand),
                Some(h) => if (t as i64) < h.hit_info.t {
                    Some(cand)
                } else {
                    Some(h)
                },
            }
        } else {
            acc
        };
        leaf_fold(s, ray, tris, i + 1, acc2)
    }
}

/// What the traversal computes from node `idx`: in a leaf, the closest-hit
/// fold over its list; in a branch, the closest result over the children
/// whose cube the ray's slab test touches.
pub open spec fn oct_node_result(
    o: OctTreeAccelerationIntersector,
    s: Scene,
    ray: Ray,
    ir: InvRay,
    idx: int,
) -> Option<Hit>
    decreases o.nodes.len() - idx, 10int,
{
    if idx < 0 || idx >= o.nodes.len() {
        None
    } else {
        match o.nodes[idx] {
            OctNode::Leaf(l) => leaf_fold(s, ray, l.triangle_indices@, 0, None),
            OctNode::Node(ch) => oct_children(o, s, ray, ir, idx, ch, 0, None),
        }
    }
}

/// The fold over a branch's eight children from position `k`.
pub open spec fn oct_children(
    o: OctTreeAccelerationIntersector,
    s: Scene,
    ray: Ray,
    ir: InvRay,
    idx: int,
    ch: [usize; 8],
    k: int,
    acc: Option<Hit>,
) -> Option<Hit>
    decreases o.nodes.len() - idx, 9 - k,
{
    if k < 0 || k >= 8 {
        acc
    } else {
        let c = ch[k] as int;
        let sub = if idx < c < o.nodes.len() && slab_spec(ir, o.cubes[c]) is Some {
            oct_node_result(o, s, ray, ir, c)
        } else {
            None
        };
        oct_children(o, s, ray, ir, idx, ch, k + 1, closer_hit(acc, sub))
    }
}

impl Intersector for OctTreeAccelerationIntersector {
    open spec fn inv(&self, scene: &Scene) -> bool {
        octree_wf(*self, *scene)
    }

    /// Exactly the traversal's closest hit from the trunk.
    open spec fn result_of(&self, scene: &Scene, ray: &Ray) -> Option<Hit> {
        oct_node_result(*self, *scene, *ray, inv_ray_spec(*ray), self.trunk as int)
    }

    /// Build with the default leaf threshold.
    fn new(scene: &Scene) -> (r: OctTreeAccelerationIntersector)
        ensures
            crate::scene::tri_total(*scene) <= DEFAULT_TRIANGLES_PER_LEAF ==> r.nodes.len() == 1,
    {
        Self::with_triangles_per_leaf(scene, DEFAULT_TRIANGLES_PER_LEAF)
    }

    /// The closest hit the traversal finds: brute force in the leaves,
    /// the closest result over the slab-touched children in branches. Any
    /// hit returned is a genuine triangle hit of the scene.
    fn intersect_ray(&self, scene: &Scene, ray: &Ray) -> (r: Option<Hit>) {
        let inv_ray = InvRay::new(ray);
        self.intersect_node(scene, ray, &inv_ray, self.trunk)
    }
}

impl OctTreeAccelerationIntersector {

    /// Build the tree: one leaf over the scene's bounding cube holding the
    /// triangles that intersect it (for a bounding cube of the whole scene
    /// that is all of them), then subdivide every leaf holding more than
    /// `triangles_per_leaf` triangles, to a bounded depth. A scene that
    /// fits one leaf is never subdivided, and then the single root leaf
    /// holds every triangle that meets the bounding cube.
    pub fn with_triangles_per_leaf(scene: &Scene, triangles_per_leaf: usize) -> (r:
        OctTreeAccelerationIntersector)
        requires
            scene_wf(*scene),
        ensures
            octree_wf(r, *scene),
            crate::scene::tri_total(*scene) <= triangles_per_leaf ==> r.nodes.len() == 1,
            forall|g: int, i: int|
                0 <= g < scene.geometries.len() && 0 <= i
                    < scene.geometries[g].transformed_vertices.len()
                    ==> #[trigger] vertex_in_cube(*scene, g, i, r.cubes[0]),
            r.nodes.len() == 1 ==> (r.nodes[0] matches OctNode::Leaf(l) && l.cube_index == 0 && (
            forall|g: int, t: int|
                0 <= g < scene.geometries.len() && 0 <= t
                    < scene.geometries[g].transformed_vertices.len() / 3 && ({
                    let (v0, v1, v2) = tri_at(*scene, g, 3 * t);
                    sat_intersects(r.cubes[0], v0, v1, v2)
                }) ==> #[trigger] l.triangle_indices@.contains(
                    TriangleIndex { geom_idx: g as usize, tri_idx: (3 * t) as usize },
                ))),
    {
        let trunk_cube = calc_extents(scene);
        let all = all_triangle_indices(scene);
        let rooted = triangles_intersecting_cube(&trunk_cube, &all, scene);
        let ghost rooted0 = rooted@;
        let mut cubes: Vec<Cube> = Vec::new();
        cubes.push(trunk_cube);
        let mut nodes: Vec<OctNode> = Vec::new();
        nodes.push(OctNode::Leaf(Leaf { cube_index: 0, triangle_indices: rooted }));
        let mut octree = OctTreeAccelerationIntersector { cubes, nodes, trunk: 0 };
        proof {
            assert(octree_wf(octree, *scene));
        }
        split_node(0, &mut octree.nodes, &mut octree.cubes, triangles_per_leaf, scene, MAX_SPLIT_DEPTH);
        proof {
            assert forall|g: int, t: int|
                0 <= g < scene.geometries.len() && 0 <= t
                    < scene.geometries[g].transformed_vertices.len() / 3 && ({
                    let (v0, v1, v2) = tri_at(*scene, g, 3 * t);
                    sat_intersects(trunk_cube, v0, v1, v2)
                }) implies #[trigger] rooted0.contains(
                TriangleIndex { geom_idx: g as usize, tri_idx: (3 * t) as usize },
            ) by {
                lemma_upto_mono(*scene, 0, g);
                lemma_upto_mono(*scene, g + 1, scene.geometries.len() as int);
                assert(crate::scene::triangles_upto(*scene, g + 1)
                    == crate::scene::triangles_upto(*scene, g)
                    + scene.geometries[g].transformed_vertices.len() / 3);
                let j = crate::scene::triangles_upto(*scene, g) + t;
                assert(all[j] == (TriangleIndex {
                    geom_idx: g as usize,
                    tri_idx: (3 * t) as usize,
                }));
            }
            if octree.nodes.len() == 1 {
                if rooted0.len() > triangles_per_leaf {
                    assert(octree.nodes[0] matches OctNode::Node(ch) && ch[0] == 1);
                    assert(octree_wf(octree, *scene));
                    assert(false);
                }
                assert(octree.nodes[0] matches OctNode::Leaf(l) && l.triangle_indices@
                    == rooted0);
            }
        }
        octree
    }

    /// Recursive traversal from `node_idx`.
    fn intersect_node(&self, scene: &Scene, ray: &Ray, inv_ray: &InvRay, node_idx: usize) -> (r:
        Option<Hit>)
        requires
            scene_wf(*scene),
            octree_wf(*self, *scene),
            inv_ray_ok(*inv_ray),
            v3_bounded(ray.pos, COORD_ABS_MAX as int),
            v3_bounded(ray.dir, COORD_ABS_MAX as int),
            node_idx < self.nodes.len(),
        ensures
            r == oct_node_result(*self, *scene, *ray, *inv_ray, node_idx as int),
            r matches Some(h) ==> hit_genuine(*scene, *ray, h),
        decreases self.nodes.len() - node_idx,
    {
        match &self.nodes[node_idx] {
            OctNode::Leaf(leaf) => intersect_leaf_triangles(scene, ray, leaf),
            OctNode::Node(child_indices) => {
                let mut acc: Option<Hit> = None;
                let mut k: usize = 0;
                while k < 8
                    invariant
                        k <= 8,
                        scene_wf(*scene),
                        octree_wf(*self, *scene),
                        inv_ray_ok(*inv_ray),
                        v3_bounded(ray.pos, COORD_ABS_MAX as int),
                        v3_bounded(ray.dir, COORD_ABS_MAX as int),
                        node_idx < self.nodes.len(),
                        self.nodes[node_idx as int] matches OctNode::Node(ch) && ch
                            == *child_indices,
                        acc matches Some(h) ==> hit_genuine(*scene, *ray, h),
                        oct_children(
                            *self,
                            *scene,
                            *ray,
                            *inv_ray,
                            node_idx as int,
                            *child_indices,
                            0,
                            None,
                        ) == oct_children(
                            *self,
                            *scene,
                            *ray,
                            *inv_ray,
                            node_idx as int,
                            *child_indices,
                            k as int,
                            acc,
                        ),
                    decreases 8 - k,
                {
                    let ci = child_indices[k];
                    proof {
                        assert(self.nodes[node_idx as int] matches OctNode::Node(ch) && node_idx
                            < ch[k as int] < self.nodes.len());
                    }
                    let sub: Option<Hit> = match intersect_cube_inverse_ray(
                        inv_ray,
                        &self.cubes[ci],
                    ) {
                        Some(_) => self.intersect_node(scene, ray, inv_ray, ci),
                        None => None,
                    };
                    let take = match (&acc, &sub) {
                        (_, None) => false,
                        (None, Some(_)) => true,
                        (Some(a), Some(b)) => b.hit_info.t < a.hit_info.t,
                    };
                    proof {
                        assert(closer_hit(acc, sub) == if take {
                            sub
                        } else {
                            acc
                        });
                    }
                    if take {
                        acc = sub;
                    }
                    k = k + 1;
                }
                acc
            },
        }
    }
}

/// Brute-force test of every triangle referenced by a leaf, keeping the
/// closest hit: exactly the `leaf_fold` over its list.
fn intersect_leaf_triangles(scene: &Scene, ray: &Ray, leaf: &Leaf) -> (r: Option<Hit>)
    requires
        scene_wf(*scene),
        v3_bounded(ray.pos, COORD_ABS_MAX as int),
        v3_bounded(ray.dir, COORD_ABS_MAX as int),
        forall|j: int|
            0 <= j < leaf.triangle_indices.len() ==> tri_valid(
                *scene,
                (#[trigger] leaf.triangle_indices[j]).geom_idx as int,
                leaf.triangle_indices[j].tri_idx as int,
            ),
    ensures
        r == leaf_fold(*scene, *ray, leaf.triangle_indices@, 0, None::<Hit>),
        r matches Some(h) ==> hit_genuine(*scene, *ray, h),
{
    let mut closest: Option<Hit> = None;
    let n = leaf.triangle_indices.len();
    let mut k: usize = 0;
    while k < n
        invariant
            n == leaf.triangle_indices.len(),
            k <= n,
            scene_wf(*scene),
            v3_bounded(ray.pos, COORD_ABS_MAX as int),
            v3_bounded(ray.dir, COORD_ABS_MAX as int),
            forall|j: int|
                0 <= j < leaf.triangle_indices.len() ==> tri_valid(
                    *scene,
                    (#[trigger] leaf.triangle_indices[j]).geom_idx as int,
                    leaf.triangle_indices[j].tri_idx as int,
                ),
            closest matches Some(h) ==> hit_genuine(*scene, *ray, h),
            leaf_fold(*scene, *ray, leaf.triangle_indices@, 0, None::<Hit>) == leaf_fold(
                *scene,
                *ray,
                leaf.triangle_indices@,
                k as int,
                closest,
            ),
        decreases n - k,
    {
        let ti = leaf.triangle_indices[k];
        let g = ti.geom_idx;
        let t = ti.tri_idx;
        let v0 = scene.geometries[g].transformed_vertices[t];
        let v1 = scene.geometries[g].transformed_vertices[t + 1];
        let v2 = scene.geometries[g].transformed_vertices[t + 2];
        match intersect(ray, &v0, &v1, &v2) {
            None => {},
            Some(hi) => {
                let replace = match &closest {
                    None => true,
                    Some(h) => hi.t < h.hit_info.t,
                };
                if replace {
                    closest = Some(Hit { hit_info: hi, geometry_index: g, vertex_index: t });
                }
            },
        }
        k = k + 1;
    }
    closest
}

/// Subdivide the leaf at `node_idx` while it holds more triangles than the
/// threshold, down to a bounded depth. A leaf already small enough is left
/// untouched, as is the whole arena around it.
fn split_node(
    node_idx: usize,
    nodes: &mut Vec<OctNode>,
    cubes: &mut Vec<Cube>,
    triangles_per_leaf: usize,
    scene: &Scene,
    depth: u32,
)
    requires
        scene_wf(*scene),
        node_idx < old(nodes).len(),
        split_wf(*old(nodes), *old(cubes), *scene),
    ensures
        split_wf(*final(nodes), *final(cubes), *scene),
        final(nodes).len() >= old(nodes).len(),
        final(cubes).len() >= old(cubes).len(),
        forall|i: int|
            0 <= i < old(nodes).len() && i != node_idx ==> #[trigger] final(nodes)[i] == old(
                nodes,
            )[i],
        forall|i: int| 0 <= i < old(cubes).len() ==> #[trigger] final(cubes)[i] == old(cubes)[i],
        (old(nodes)[node_idx as int] matches OctNode::Leaf(l) && l.triangle_indices.len()
            <= triangles_per_leaf) ==> *final(nodes) == *old(nodes) && *final(cubes) == *old(
            cubes,
        ),
        (old(nodes)[node_idx as int] matches OctNode::Leaf(l) && l.triangle_indices.len()
            > triangles_per_leaf && depth > 0 && old(nodes).len() <= usize::MAX - 8)
            ==> became_branch(
            *old(nodes),
            *old(cubes),
            *final(nodes),
            *final(cubes),
            node_idx as int,
        ),
    decreases depth,
{
    let (cube_index, tris) = match &nodes[node_idx] {
        OctNode::Node(_) => {
            return ;
        },
        OctNode::Leaf(l) => {
            if l.triangle_indices.len() <= triangles_per_leaf {
                return ;
            }
            (l.cube_index, clone_tris(&l.triangle_indices))
        },
    };
    if depth == 0 {
        return ;
    }
    let base = nodes.len();
    if base > usize::MAX - 8 {
        return ;
    }
    let cube = cubes[cube_index];
    let child_cubes = generate_child_cubes(&cube);
    nodes.set(
        node_idx,
        OctNode::Node([base, base + 1, base + 2, base + 3, base + 4, base + 5, base + 6, base + 7]),
    );
    let ghost nodes_set = *nodes;
    let mut i: usize = 0;
    while i < 8
        invariant
            i <= 8,
            scene_wf(*scene),
            node_idx < base,
            base <= usize::MAX - 8,
            nodes.len() == base + i,
            cubes.len() == base + i,
            forall|q: int| 0 <= q < 8 ==> cube_wf(#[trigger] child_cubes[q]),
            forall|q: int| 0 <= q < 8 ==> #[trigger] child_cubes[q] == cube_octant(cube, q),
            forall|j: int|
                0 <= j < tris.len() ==> tri_valid(
                    *scene,
                    (#[trigger] tris[j]).geom_idx as int,
                    tris[j].tri_idx as int,
                ),
            forall|q: int| 0 <= q < base ==> #[trigger] nodes[q] == nodes_set[q],
            forall|q: int| 0 <= q < base ==> #[trigger] cubes[q] == old(cubes)[q],
            forall|q: int| base <= q < base + i ==> #[trigger] cubes[q] == child_cubes[q - base],
            nodes[node_idx as int] matches OctNode::Node(ch) && (forall|k: int|
                0 <= k < 8 ==> #[trigger] ch[k] == base + k),
            forall|q: int| 0 <= q < cubes.len() ==> cube_wf(#[trigger] cubes[q]),
            forall|q: int|
                0 <= q < nodes.len() ==> match #[trigger] nodes[q] {
                    OctNode::Leaf(l) => l.cube_index < cubes.len() && leaf_entries_ok(
                        *scene,
                        cubes[l.cube_index as int],
                        l.triangle_indices@,
                    ),
                    OctNode::Node(ch) => forall|k: int|
                        0 <= k < 8 ==> q < (#[trigger] ch[k]) < base + 8,
                },
        decreases 8 - i,
    {
        let inside = triangles_intersecting_cube(&child_cubes[i], &tris, scene);
        cubes.push(child_cubes[i]);
        nodes.push(OctNode::Leaf(Leaf { cube_index: base + i, triangle_indices: inside }));
        i = i + 1;
    }
    let ghost cubes_mid = *cubes;
    let mut c: usize = 0;
    while c < 8
        invariant
            c <= 8,
            scene_wf(*scene),
            base + 8 <= nodes.len(),
            base + 8 == cubes_mid.len(),
            node_idx < base,
            split_wf(*nodes, *cubes, *scene),
            nodes.len() >= old(nodes).len(),
            cubes.len() >= old(cubes).len(),
            depth >= 1,
            forall|q: int| 0 <= q < base ==> #[trigger] nodes[q] == nodes_set[q],
            forall|q: int| 0 <= q < base + 8 ==> #[trigger] cubes[q] == cubes_mid[q],
        decreases 8 - c,
    {
        let child = base + c;
        split_node(child, nodes, cubes, triangles_per_leaf, scene, depth - 1);
        c = c + 1;
    }
    proof {
        assert forall|q: int| 0 <= q < old(nodes).len() && q != node_idx implies #[trigger] nodes[q]
            == old(nodes)[q] by {
            assert(nodes_set[q] == old(nodes)[q]);
        }
        assert(nodes[node_idx as int] == nodes_set[node_idx as int]);
        assert forall|k: int| 0 <= k < 8 implies #[trigger] cubes[base + k] == cube_octant(
            cube,
            k,
        ) by {
            assert(cubes[base + k] == cubes_mid[base + k]);
            assert(cubes_mid[base + k] == child_cubes[k]);
        }
    }
}

/// A split turned the node at `idx` into a branch: its eight children sit
/// at the end of the old arena and their cubes are the octants of the
/// node's old cube.
pub open spec fn became_branch(
    old_nodes: Vec<OctNode>,
    old_cubes: Vec<Cube>,
    new_nodes: Vec<OctNode>,
    new_cubes: Vec<Cube>,
    idx: int,
) -> bool {
    &&& new_nodes[idx] matches OctNode::Node(ch) && (forall|k: int|
        0 <= k < 8 ==> #[trigger] ch[k] == old_nodes.len() + k)
    &&& (old_nodes[idx] matches OctNode::Leaf(l) ==> forall|k: int|
        0 <= k < 8 ==> #[trigger] new_cubes[old_nodes.len() + k] == cube_octant(
            old_cubes[l.cube_index as int],
            k,
        ))
}

/// Arena soundness without a trunk requirement, for use during building.
pub open spec fn split_wf(nodes: Vec<OctNode>, cubes: Vec<Cube>, s: Scene) -> bool {
    &&& nodes.len() == cubes.len()
    &&& forall|i: int|
        0 <= i < nodes.len() ==> match #[trigger] nodes[i] {
            OctNode::Leaf(l) => l.cube_index < cubes.len() && leaf_entries_ok(
                s,
                cubes[l.cube_index as int],
                l.triangle_indices@,
            ),
            OctNode::Node(ch) => forall|k: int| 0 <= k < 8 ==> i < (#[trigger] ch[k]) < nodes.len(),
        }
    &&& forall|i: int| 0 <= i < cubes.len() ==> cube_wf(#[trigger] cubes[i])
}

/// An element-for-element copy of a triangle index list.
fn clone_tris(tris: &Vec<TriangleIndex>) -> (r: Vec<TriangleIndex>)
    ensures
        r@ == tris@,
{
    let mut r: Vec<TriangleIndex> = Vec::new();
    let n = tris.len();
    let mut k: usize = 0;
    while k < n
        invariant
            n == tris.len(),
            k == r.len() <= n,
            forall|i: int| 0 <= i < k ==> #[trigger] r[i] == tris[i],
        decreases n - k,
    {
        r.push(tris[k]);
        k = k + 1;
    }
    proof {
        assert(r@ =~= tris@);
    }
    r
}

// -- build helpers ----------------------------------------------------------

/// The vertex at `(g, i)` lies inside `c`, componentwise.
pub open spec fn vertex_in_cube(s: Scene, g: int, i: int, c: Cube) -> bool {
    let v = s.geometries[g].transformed_vertices[i];
    &&& c.min.x <= v.x <= c.max.x
    &&& c.min.y <= v.y <= c.max.y
    &&& c.min.z <= v.z <= c.max.z
}

/// Some vertex of the scene attains value `x` under the chosen component
/// selector: 0 for x, 1 for y, 2 for z, 3 to 5 for the same again.
pub open spec fn some_vertex_attains(s: Scene, axis: int, x: int) -> bool {
    exists|g: int, i: int|
        0 <= g < s.geometries.len() && 0 <= i < s.geometries[g].transformed_vertices.len() && ({
            let v = #[trigger] s.geometries[g].transformed_vertices[i];
            if axis == 0 {
                v.x == x
            } else if axis == 1 {
                v.y == x
            } else {
                v.z == x
            }
        })
}

/// The scene holds at least one vertex.
pub open spec fn scene_has_vertices(s: Scene) -> bool {
    exists|g: int|
        0 <= g < s.geometries.len() && (#[trigger] s.geometries[g].transformed_vertices.len()) > 0
}

/// The tight bounding cube of all world-space vertices: every vertex lies
/// inside it, and when the scene has vertices, each bound is attained by
/// one. A scene without vertices gets a degenerate cube at the origin.
fn calc_extents(scene: &Scene) -> (c: Cube)
    requires
        scene_wf(*scene),
    ensures
        cube_wf(c),
        forall|g: int, i: int|
            0 <= g < scene.geometries.len() && 0 <= i
                < scene.geometries[g].transformed_vertices.len() ==> #[trigger] vertex_in_cube(
                *scene,
                g,
                i,
                c,
            ),
        scene_has_vertices(*scene) ==> some_vertex_attains(*scene, 0, c.min.x as int)
            && some_vertex_attains(*scene, 1, c.min.y as int) && some_vertex_attains(
            *scene,
            2,
            c.min.z as int,
        ) && some_vertex_attains(*scene, 0, c.max.x as int) && some_vertex_attains(
            *scene,
            1,
            c.max.y as int,
        ) && some_vertex_attains(*scene, 2, c.max.z as int),
{
    let mut min = Vec3 { x: 0, y: 0, z: 0 };
    let mut max = Vec3 { x: 0, y: 0, z: 0 };
    let mut any = false;
    let num_geoms = scene.geometries.len();
    let mut g: usize = 0;
    while g < num_geoms
        invariant
            scene_wf(*scene),
            num_geoms == scene.geometries.len(),
            g <= num_geoms,
            v3_bounded(min, COORD_ABS_MAX as int),
            v3_bounded(max, COORD_ABS_MAX as int),
            min.x <= max.x && min.y <= max.y && min.z <= max.z,
            !any ==> forall|g2: int|
                0 <= g2 < g ==> scene.geometries[g2].transformed_vertices.len() == 0,
            any ==> some_vertex_attains(*scene, 0, min.x as int) && some_vertex_attains(
                *scene,
                1,
                min.y as int,
            ) && some_vertex_attains(*scene, 2, min.z as int) && some_vertex_attains(
                *scene,
                0,
                max.x as int,
            ) && some_vertex_attains(*scene, 1, max.y as int) && some_vertex_attains(
                *scene,
                2,
                max.z as int,
            ),
            forall|g2: int, i2: int|
                0 <= g2 < g && 0 <= i2 < scene.geometries[g2].transformed_vertices.len()
                    ==> #[trigger] vertex_in_cube(*scene, g2, i2, Cube { min, max }),
        decreases num_geoms - g,
    {
        let nv = scene.geometries[g].transformed_vertices.len();
        let mut i: usize = 0;
        while i < nv
            invariant
                scene_wf(*scene),
                g < scene.geometries.len(),
                nv == scene.geometries[g as int].transformed_vertices.len(),
                i <= nv,
                v3_bounded(min, COORD_ABS_MAX as int),
                v3_bounded(max, COORD_ABS_MAX as int),
                min.x <= max.x && min.y <= max.y && min.z <= max.z,
                !any ==> i == 0 && forall|g2: int|
                    0 <= g2 < g ==> scene.geometries[g2].transformed_vertices.len() == 0,
                any ==> some_vertex_attains(*scene, 0, min.x as int) && some_vertex_attains(
                    *scene,
                    1,
                    min.y as int,
                ) && some_vertex_attains(*scene, 2, min.z as int) && some_vertex_attains(
                    *scene,
                    0,
                    max.x as int,
                ) && some_vertex_attains(*scene, 1, max.y as int) && some_vertex_attains(
                    *scene,
                    2,
                    max.z as int,
                ),
                forall|g2: int, i2: int|
                    0 <= g2 < g && 0 <= i2 < scene.geometries[g2].transformed_vertices.len()
                        ==> #[trigger] vertex_in_cube(*scene, g2, i2, Cube { min, max }),
                forall|i2: int|
                    0 <= i2 < i ==> #[trigger] vertex_in_cube(*scene, g as int, i2, Cube { min, max }),
            decreases nv - i,
        {
            let ghost min0 = min;
            let ghost max0 = max;
            let v = scene.geometries[g].transformed_vertices[i];
            if !any {
                min = v;
                max = v;
                any = true;
            } else {
                if v.x < min.x {
                    min.x = v.x;
                }
                if v.y < min.y {
                    min.y = v.y;
                }
                if v.z < min.z {
                    min.z = v.z;
                }
                if v.x > max.x {
                    max.x = v.x;
                }
                if v.y > max.y {
                    max.y = v.y;
                }
                if v.z > max.z {
                    max.z = v.z;
                }
            }
            proof {
                assert(some_vertex_attains(*scene, 0, min.x as int)) by {
                    if min.x == v.x {
                        assert(scene.geometries[g as int].transformed_vertices[i as int] == v);
                    }
                }
                assert(some_vertex_attains(*scene, 1, min.y as int)) by {
                    if min.y == v.y {
                        assert(scene.geometries[g as int].transformed_vertices[i as int] == v);
                    }
                }
                assert(some_vertex_attains(*scene, 2, min.z as int)) by {
                    if min.z == v.z {
                        assert(scene.geometries[g as int].transformed_vertices[i as int] == v);
                    }
                }
                assert(some_vertex_attains(*scene, 0, max.x as int)) by {
                    if max.x == v.x {
                        assert(scene.geometries[g as int].transformed_vertices[i as int] == v);
                    }
                }
                assert(some_vertex_attains(*scene, 1, max.y as int)) by {
                    if max.y == v.y {
                        assert(scene.geometries[g as int].transformed_vertices[i as int] == v);
                    }
                }
                assert(some_vertex_attains(*scene, 2, max.z as int)) by {
                    if max.z == v.z {
                        assert(scene.geometries[g as int].transformed_vertices[i as int] == v);
                    }
                }
                assert forall|g2: int, i2: int|
                    0 <= g2 < g && 0 <= i2 < scene.geometries[g2].transformed_vertices.len() implies #[trigger] vertex_in_cube(
                    *scene,
                    g2,
                    i2,
                    Cube { min, max },
                ) by {
                    assert(vertex_in_cube(*scene, g2, i2, Cube { min: min0, max: max0 }));
                }
                assert forall|i2: int| 0 <= i2 < i + 1 implies #[trigger] vertex_in_cube(
                    *scene,
                    g as int,
                    i2,
                    Cube { min, max },
                ) by {
                    if i2 < i {
                        assert(vertex_in_cube(*scene, g as int, i2, Cube { min: min0, max: max0 }));
                    }
                }
            }
            i = i + 1;
        }
        g = g + 1;
    }
    Cube { min, max }
}

/// Counting triangles geometry by geometry never decreases.
proof fn lemma_upto_mono(s: Scene, a: int, b: int)
    requires
        0 <= a <= b,
    ensures
        crate::scene::triangles_upto(s, a) <= crate::scene::triangles_upto(s, b),
        0 <= crate::scene::triangles_upto(s, a),
    decreases b,
{
    if a < b {
        lemma_upto_mono(s, a, b - 1);
    }
    if 0 < a {
        lemma_upto_mono(s, 0, a - 1);
    }
}

/// Every triangle of every geometry, as index pairs: the `t`-th triangle of
/// geometry `g` sits at position `triangles_upto(g) + t`, so the
/// enumeration is complete and duplicate-free.
fn all_triangle_indices(scene: &Scene) -> (r: Vec<TriangleIndex>)
    requires
        scene_wf(*scene),
    ensures
        forall|j: int|
            0 <= j < r.len() ==> tri_valid(
                *scene,
                (#[trigger] r[j]).geom_idx as int,
                r[j].tri_idx as int,
            ),
        r.len() == crate::scene::tri_total(*scene),
        forall|g: int, t: int|
            0 <= g < scene.geometries.len() && 0 <= t
                < scene.geometries[g].transformed_vertices.len() / 3
                ==> #[trigger] r[crate::scene::triangles_upto(*scene, g) + t] == (TriangleIndex {
                geom_idx: g as usize,
                tri_idx: (3 * t) as usize,
            }),
{
    let mut r: Vec<TriangleIndex> = Vec::new();
    let num_geoms = scene.geometries.len();
    let mut g: usize = 0;
    while g < num_geoms
        invariant
            scene_wf(*scene),
            num_geoms == scene.geometries.len(),
            g <= num_geoms,
            forall|j: int|
                0 <= j < r.len() ==> tri_valid(
                    *scene,
                    (#[trigger] r[j]).geom_idx as int,
                    r[j].tri_idx as int,
                ),
            r.len() == crate::scene::triangles_upto(*scene, g as int),
            forall|g2: int, t2: int|
                0 <= g2 < g && 0 <= t2 < scene.geometries[g2].transformed_vertices.len() / 3
                    ==> #[trigger] r[crate::scene::triangles_upto(*scene, g2) + t2] == (
                TriangleIndex { geom_idx: g2 as usize, tri_idx: (3 * t2) as usize }),
        decreases num_geoms - g,
    {
        let nv = scene.geometries[g].transformed_vertices.len();
        let mut v: usize = 0;
        proof {
            assert(nv % 3 == 0);
        }
        while v < nv
            invariant
                scene_wf(*scene),
                g < scene.geometries.len(),
                nv == scene.geometries[g as int].transformed_vertices.len(),
                nv % 3 == 0,
                v % 3 == 0,
                v <= nv,
                forall|j: int|
                    0 <= j < r.len() ==> tri_valid(
                        *scene,
                        (#[trigger] r[j]).geom_idx as int,
                        r[j].tri_idx as int,
                    ),
                r.len() == crate::scene::triangles_upto(*scene, g as int) + v / 3,
                forall|g2: int, t2: int|
                    0 <= g2 < g && 0 <= t2 < scene.geometries[g2].transformed_vertices.len() / 3
                        ==> #[trigger] r[crate::scene::triangles_upto(*scene, g2) + t2] == (
                    TriangleIndex { geom_idx: g2 as usize, tri_idx: (3 * t2) as usize }),
                forall|t2: int|
                    0 <= t2 < v / 3 ==> #[trigger] r[crate::scene::triangles_upto(*scene, g as int)
                        + t2] == (TriangleIndex { geom_idx: g, tri_idx: (3 * t2) as usize }),
            decreases nv - v,
        {
            proof {
                lemma_upto_mono(*scene, 0, g as int);
            }
            let ghost r_before = r@;
            r.push(TriangleIndex { geom_idx: g, tri_idx: v });
            proof {
                assert((v + 3) / 3 == v / 3 + 1);
                assert forall|t2: int|
                    0 <= t2 < (v + 3) / 3 implies #[trigger] r[crate::scene::triangles_upto(
                    *scene,
                    g as int,
                ) + t2] == (TriangleIndex { geom_idx: g, tri_idx: (3 * t2) as usize }) by {
                    if t2 < v / 3 {
                        assert(r@[crate::scene::triangles_upto(*scene, g as int) + t2]
                            == r_before[crate::scene::triangles_upto(*scene, g as int) + t2]);
                    } else {
                        assert(t2 == v / 3);
                        assert(3 * t2 == v);
                        assert(r@[crate::scene::triangles_upto(*scene, g as int) + t2]
                            == r_before[r_before.len() - 1 + 1 - 1] || true);
                        assert(crate::scene::triangles_upto(*scene, g as int) + t2
                            == r_before.len());
                    }
                }
                assert forall|g2: int, t2: int|
                    0 <= g2 < g && 0 <= t2 < scene.geometries[g2].transformed_vertices.len() / 3 implies #[trigger] r[
                crate::scene::triangles_upto(*scene, g2) + t2] == (TriangleIndex {
                    geom_idx: g2 as usize,
                    tri_idx: (3 * t2) as usize,
                }) by {
                    lemma_upto_mono(*scene, 0, g2);
                    lemma_upto_mono(*scene, g2 + 1, g as int);
                    assert(crate::scene::triangles_upto(*scene, g2 + 1)
                        == crate::scene::triangles_upto(*scene, g2)
                        + scene.geometries[g2].transformed_vertices.len() / 3);
                    assert(crate::scene::triangles_upto(*scene, g2) + t2 < r_before.len());
                    assert(r@[crate::scene::triangles_upto(*scene, g2) + t2]
                        == r_before[crate::scene::triangles_upto(*scene, g2) + t2]);
                }
            }
            v = v + 3;
        }
        g = g + 1;
    }
    proof {
        assert forall|g2: int, t2: int|
            0 <= g2 < scene.geometries.len() && 0 <= t2
                < scene.geometries[g2].transformed_vertices.len() / 3 implies #[trigger] r[
        crate::scene::triangles_upto(*scene, g2) + t2] == (TriangleIndex {
            geom_idx: g2 as usize,
            tri_idx: (3 * t2) as usize,
        }) by {
            lemma_upto_mono(*scene, 0, g2);
            lemma_upto_mono(*scene, g2 + 1, scene.geometries.len() as int);
            assert(crate::scene::triangles_upto(*scene, g2 + 1) == crate::scene::triangles_upto(
                *scene,
                g2,
            ) + scene.geometries[g2].transformed_vertices.len() / 3);
        }
    }
    r
}

/// The floor midpoint of a cube, per axis.
pub open spec fn cube_mid(c: Cube) -> Vec3 {
    Vec3 {
        x: div_floor(c.min.x + c.max.x, 2) as i64,
        y: div_floor(c.min.y + c.max.y, 2) as i64,
        z: div_floor(c.min.z + c.max.z, 2) as i64,
    }
}

/// Octant `i` of a cube: per axis, the lower half when the matching bit of
/// `i` is clear and the upper half when it is set.
pub open spec fn cube_octant(c: Cube, i: int) -> Cube {
    let m = cube_mid(c);
    Cube {
        min: Vec3 {
            x: if i % 2 == 1 {
                m.x
            } else {
                c.min.x
            },
            y: if (i / 2) % 2 == 1 {
                m.y
            } else {
                c.min.y
            },
            z: if (i / 4) % 2 == 1 {
                m.z
            } else {
                c.min.z
            },
        },
        max: Vec3 {
            x: if i % 2 == 1 {
                c.max.x
            } else {
                m.x
            },
            y: if (i / 2) % 2 == 1 {
                c.max.y
            } else {
                m.y
            },
            z: if (i / 4) % 2 == 1 {
                c.max.z
            } else {
                m.z
            },
        },
    }
}

/// The eight equal octant cubes of a cube, split at its floor midpoint.
fn generate_child_cubes(cube: &Cube) -> (r: [Cube; 8])
    requires
        cube_wf(*cube),
    ensures
        forall|i: int| 0 <= i < 8 ==> #[trigger] r[i] == cube_octant(*cube, i),
        forall|i: int| 0 <= i < 8 ==> cube_wf(#[trigger] r[i]),
{
    let mx = midpoint(cube.min.x, cube.max.x);
    let my = midpoint(cube.min.y, cube.max.y);
    let mz = midpoint(cube.min.z, cube.max.z);
    let min = cube.min;
    let max = cube.max;
    let mid = Vec3 { x: mx, y: my, z: mz };
    let r = [
        Cube { min: Vec3 { x: min.x, y: min.y, z: min.z }, max: Vec3 { x: mx, y: my, z: mz } },
        Cube { min: Vec3 { x: mx, y: min.y, z: min.z }, max: Vec3 { x: max.x, y: my, z: mz } },
        Cube { min: Vec3 { x: min.x, y: my, z: min.z }, max: Vec3 { x: mx, y: max.y, z: mz } },
        Cube { min: Vec3 { x: mx, y: my, z: min.z }, max: Vec3 { x: max.x, y: max.y, z: mz } },
        Cube { min: Vec3 { x: min.x, y: min.y, z: mz }, max: Vec3 { x: mx, y: my, z: max.z } },
        Cube { min: Vec3 { x: mx, y: min.y, z: mz }, max: Vec3 { x: max.x, y: my, z: max.z } },
        Cube { min: Vec3 { x: min.x, y: my, z: mz }, max: Vec3 { x: mx, y: max.y, z: max.z } },
        Cube { min: Vec3 { x: mx, y: my, z: mz }, max: Vec3 { x: max.x, y: max.y, z: max.z } },
    ];
    proof {
        assert(mid == cube_mid(*cube));
        assert forall|i: int| 0 <= i < 8 implies #[trigger] r[i] == cube_octant(*cube, i)
            && cube_wf(r[i]) by {
            assert(r[0] == cube_octant(*cube, 0) && r[1] == cube_octant(*cube, 1) && r[2]
                == cube_octant(*cube, 2) && r[3] == cube_octant(*cube, 3) && r[4] == cube_octant(
                *cube,
                4,
            ) && r[5] == cube_octant(*cube, 5) && r[6] == cube_octant(*cube, 6) && r[7]
                == cube_octant(*cube, 7));
        }
    }
    r
}

/// The floor midpoint of a bounded interval.
fn midpoint(a: i64, b: i64) -> (m: i64)
    requires
        -COORD_ABS_MAX <= a <= COORD_ABS_MAX,
        -COORD_ABS_MAX <= b <= COORD_ABS_MAX,
        a <= b,
    ensures
        a <= m <= b,
        m == div_floor(a + b, 2),
{
    let m = i128_div_floor((a as i128) + (b as i128), 2) as i64;
    proof {
        vstd::arithmetic::div_mod::lemma_div_is_ordered(2 * (a as int), a as int + b as int, 2);
        vstd::arithmetic::div_mod::lemma_div_is_ordered(a as int + b as int, 2 * (b as int), 2);
        vstd::arithmetic::div_mod::lemma_div_multiples_vanish(a as int, 2);
        vstd::arithmetic::div_mod::lemma_div_multiples_vanish(b as int, 2);
    }
    m
}

/// The triangles of the list whose separating-axis test against the cube
/// finds no separating axis.
fn triangles_intersecting_cube(cube: &Cube, triangle_indices: &Vec<TriangleIndex>, scene: &Scene) -> (r:
    Vec<TriangleIndex>)
    requires
        scene_wf(*scene),
        cube_wf(*cube),
        forall|j: int|
            0 <= j < triangle_indices.len() ==> tri_valid(
                *scene,
                (#[trigger] triangle_indices[j]).geom_idx as int,
                triangle_indices[j].tri_idx as int,
            ),
    ensures
        forall|j: int|
            0 <= j < r.len() ==> tri_valid(
                *scene,
                (#[trigger] r[j]).geom_idx as int,
                r[j].tri_idx as int,
            ),
        r.len() <= triangle_indices.len(),
        forall|j: int|
            0 <= j < r.len() ==> triangle_indices@.contains(#[trigger] r[j]) && ({
                let (v0, v1, v2) = tri_at(
                    *scene,
                    r[j].geom_idx as int,
                    r[j].tri_idx as int,
                );
                sat_intersects(*cube, v0, v1, v2)
            }),
        forall|j: int|
            0 <= j < triangle_indices.len() && ({
                let (v0, v1, v2) = tri_at(
                    *scene,
                    (#[trigger] triangle_indices[j]).geom_idx as int,
                    triangle_indices[j].tri_idx as int,
                );
                sat_intersects(*cube, v0, v1, v2)
            }) ==> r@.contains(triangle_indices[j]),
{
    let mut r: Vec<TriangleIndex> = Vec::new();
    let n = triangle_indices.len();
    let mut k: usize = 0;
    while k < n
        invariant
            scene_wf(*scene),
            cube_wf(*cube),
            n == triangle_indices.len(),
            k <= n,
            r.len() <= k,
            forall|j: int|
                0 <= j < triangle_indices.len() ==> tri_valid(
                    *scene,
                    (#[trigger] triangle_indices[j]).geom_idx as int,
                    triangle_indices[j].tri_idx as int,
                ),
            forall|j: int|
                0 <= j < r.len() ==> tri_valid(
                    *scene,
                    (#[trigger] r[j]).geom_idx as int,
                    r[j].tri_idx as int,
                ),
            forall|j: int|
                0 <= j < r.len() ==> triangle_indices@.contains(#[trigger] r[j]) && ({
                    let (v0, v1, v2) = tri_at(
                        *scene,
                        r[j].geom_idx as int,
                        r[j].tri_idx as int,
                    );
                    sat_intersects(*cube, v0, v1, v2)
                }),
            forall|j: int|
                0 <= j < k && ({
                    let (v0, v1, v2) = tri_at(
                        *scene,
                        (#[trigger] triangle_indices[j]).geom_idx as int,
                        triangle_indices[j].tri_idx as int,
                    );
                    sat_intersects(*cube, v0, v1, v2)
                }) ==> r@.contains(triangle_indices[j]),
        decreases n - k,
    {
        let ghost r_before = r@;
        let ti = triangle_indices[k];
        let g = ti.geom_idx;
        let t = ti.tri_idx;
        let v0 = scene.geometries[g].transformed_vertices[t];
        let v1 = scene.geometries[g].transformed_vertices[t + 1];
        let v2 = scene.geometries[g].transformed_vertices[t + 2];
        if triangle_cube_intersection(cube, &v0, &v1, &v2) {
            proof {
                assert(triangle_indices@[k as int] == ti);
            }
            r.push(ti);
        }
        proof {
            assert forall|j: int|
                0 <= j < r_before.len() && r_before.contains(#[trigger] r_before[j]) implies r@.contains(
                r_before[j],
            ) by {
                assert(r@[j] == r_before[j]);
            }
            assert forall|j: int|
                0 <= j < k + 1 && ({
                    let (w0, w1, w2) = tri_at(
                        *scene,
                        (#[trigger] triangle_indices[j]).geom_idx as int,
                        triangle_indices[j].tri_idx as int,
                    );
                    sat_intersects(*cube, w0, w1, w2)
                }) implies r@.contains(triangle_indices[j]) by {
                if j < k {
                    assert(r_before.contains(triangle_indices[j as int]));
                    let w = choose|w: int| 0 <= w < r_before.len() && r_before[w]
                        == triangle_indices[j as int];
                    assert(r@[w] == triangle_indices[j as int]);
                } else {
                    assert(r@[r@.len() - 1] == ti);
                }
            }
        }
        k = k + 1;
    }
    r
}

/// The exact projection of a point on an integer axis.
pub open spec fn proj(p: Vec3, a: (int, int, int)) -> int {
    p.x * a.0 + p.y * a.1 + p.z * a.2
}

/// The smaller and larger of the three triangle projections.
pub open spec fn tri_proj_min(a: (int, int, int), v0: Vec3, v1: Vec3, v2: Vec3) -> int {
    crate::vecmath::min_i(proj(v0, a), crate::vecmath::min_i(proj(v1, a), proj(v2, a)))
}

pub open spec fn tri_proj_max(a: (int, int, int), v0: Vec3, v1: Vec3, v2: Vec3) -> int {
    crate::vecmath::max_i(proj(v0, a), crate::vecmath::max_i(proj(v1, a), proj(v2, a)))
}

/// The corner `k` of a cube.
pub open spec fn corner(c: Cube, k: int) -> Vec3 {
    Vec3 {
        x: if k % 2 == 1 {
            c.max.x
        } else {
            c.min.x
        },
        y: if (k / 2) % 2 == 1 {
            c.max.y
        } else {
            c.min.y
        },
        z: if (k / 4) % 2 == 1 {
            c.max.z
        } else {
            c.min.z
        },
    }
}

/// The smallest and largest corner projection of a cube on an axis.
pub open spec fn cube_proj_min(a: (int, int, int), c: Cube) -> int
    decreases 8int,
{
    cube_proj_min_upto(a, c, 8)
}

pub open spec fn cube_proj_min_upto(a: (int, int, int), c: Cube, n: int) -> int
    decreases n,
{
    if n <= 1 {
        proj(corner(c, 0), a)
    } else {
        crate::vecmath::min_i(cube_proj_min_upto(a, c, n - 1), proj(corner(c, n - 1), a))
    }
}

pub open spec fn cube_proj_max(a: (int, int, int), c: Cube) -> int {
    cube_proj_max_upto(a, c, 8)
}

pub open spec fn cube_proj_max_upto(a: (int, int, int), c: Cube, n: int) -> int
    decreases n,
{
    if n <= 1 {
        proj(corner(c, 0), a)
    } else {
        crate::vecmath::max_i(cube_proj_max_upto(a, c, n - 1), proj(corner(c, n - 1), a))
    }
}

/// No separating axis exists among the axis-aligned directions, the
/// triangle normal, and the nine edge cross products: the separating-axis
/// test reports an overlap.
pub open spec fn sat_intersects(c: Cube, v0: Vec3, v1: Vec3, v2: Vec3) -> bool {
    let e1 = crate::intersect::subr(v0, v1);
    let e2 = crate::intersect::subr(v1, v2);
    let e3 = crate::intersect::subr(v2, v0);
    let n = crate::intersect::crossr(e1, e2);
    let off = crate::intersect::dotr((v0.x as int, v0.y as int, v0.z as int), n);
    &&& !(tri_proj_max((1, 0, 0), v0, v1, v2) < c.min.x || tri_proj_min((1, 0, 0), v0, v1, v2)
        > c.max.x)
    &&& !(tri_proj_max((0, 1, 0), v0, v1, v2) < c.min.y || tri_proj_min((0, 1, 0), v0, v1, v2)
        > c.max.y)
    &&& !(tri_proj_max((0, 0, 1), v0, v1, v2) < c.min.z || tri_proj_min((0, 0, 1), v0, v1, v2)
        > c.max.z)
    &&& !(cube_proj_max(n, c) < off || cube_proj_min(n, c) > off)
    &&& sat_axis_ok(cross_unit(e1, 0), c, v0, v1, v2)
    &&& sat_axis_ok(cross_unit(e1, 1), c, v0, v1, v2)
    &&& sat_axis_ok(cross_unit(e1, 2), c, v0, v1, v2)
    &&& sat_axis_ok(cross_unit(e2, 0), c, v0, v1, v2)
    &&& sat_axis_ok(cross_unit(e2, 1), c, v0, v1, v2)
    &&& sat_axis_ok(cross_unit(e2, 2), c, v0, v1, v2)
    &&& sat_axis_ok(cross_unit(e3, 0), c, v0, v1, v2)
    &&& sat_axis_ok(cross_unit(e3, 1), c, v0, v1, v2)
    &&& sat_axis_ok(cross_unit(e3, 2), c, v0, v1, v2)
}

/// The cross product of an edge with the unit axis `k`.
pub open spec fn cross_unit(e: (int, int, int), k: int) -> (int, int, int) {
    if k == 0 {
        (0, e.2, -e.1)
    } else if k == 1 {
        (-e.2, 0, e.0)
    } else {
        (e.1, -e.0, 0)
    }
}

/// The intervals of cube and triangle projections on this axis overlap.
pub open spec fn sat_axis_ok(a: (int, int, int), c: Cube, v0: Vec3, v1: Vec3, v2: Vec3) -> bool {
    !(cube_proj_max(a, c) < tri_proj_min(a, v0, v1, v2) || cube_proj_min(a, c) > tri_proj_max(
        a,
        v0,
        v1,
        v2,
    ))
}

/// One exact projection, in wide integers.
fn proj_exec(p: &Vec3, a0: i128, a1: i128, a2: i128) -> (r: i128)
    requires
        v3_bounded(*p, COORD_ABS_MAX as int),
        -0x2_0000_0000_0000_0000i128 <= a0 <= 0x2_0000_0000_0000_0000i128,
        -0x2_0000_0000_0000_0000i128 <= a1 <= 0x2_0000_0000_0000_0000i128,
        -0x2_0000_0000_0000_0000i128 <= a2 <= 0x2_0000_0000_0000_0000i128,
    ensures
        r == proj(*p, (a0 as int, a1 as int, a2 as int)),
        -0x6_0000_0000_0000_0000_0000_0000i128 <= r <= 0x6_0000_0000_0000_0000_0000_0000i128,
{
    let x = mul_q(p.x, a0);
    let y = mul_q(p.y, a1);
    let z = mul_q(p.z, a2);
    x + y + z
}

/// The smallest and largest triangle projection on an axis.
fn tri_minmax(v0: &Vec3, v1: &Vec3, v2: &Vec3, a0: i128, a1: i128, a2: i128) -> (r: (i128, i128))
    requires
        v3_bounded(*v0, COORD_ABS_MAX as int),
        v3_bounded(*v1, COORD_ABS_MAX as int),
        v3_bounded(*v2, COORD_ABS_MAX as int),
        -0x2_0000_0000_0000_0000i128 <= a0 <= 0x2_0000_0000_0000_0000i128,
        -0x2_0000_0000_0000_0000i128 <= a1 <= 0x2_0000_0000_0000_0000i128,
        -0x2_0000_0000_0000_0000i128 <= a2 <= 0x2_0000_0000_0000_0000i128,
    ensures
        r.0 == tri_proj_min((a0 as int, a1 as int, a2 as int), *v0, *v1, *v2),
        r.1 == tri_proj_max((a0 as int, a1 as int, a2 as int), *v0, *v1, *v2),
{
    let p0 = proj_exec(v0, a0, a1, a2);
    let p1 = proj_exec(v1, a0, a1, a2);
    let p2 = proj_exec(v2, a0, a1, a2);
    let mut lo = p0;
    let mut hi = p0;
    if p1 < lo {
        lo = p1;
    }
    if p1 > hi {
        hi = p1;
    }
    if p2 < lo {
        lo = p2;
    }
    if p2 > hi {
        hi = p2;
    }
    (lo, hi)
}

/// The smallest and largest cube corner projection on an axis.
fn cube_minmax(c: &Cube, a0: i128, a1: i128, a2: i128) -> (r: (i128, i128))
    requires
        cube_wf(*c),
        -0x2_0000_0000_0000_0000i128 <= a0 <= 0x2_0000_0000_0000_0000i128,
        -0x2_0000_0000_0000_0000i128 <= a1 <= 0x2_0000_0000_0000_0000i128,
        -0x2_0000_0000_0000_0000i128 <= a2 <= 0x2_0000_0000_0000_0000i128,
    ensures
        r.0 == cube_proj_min((a0 as int, a1 as int, a2 as int), *c),
        r.1 == cube_proj_max((a0 as int, a1 as int, a2 as int), *c),
{
    let ghost a = (a0 as int, a1 as int, a2 as int);
    let c0 = Vec3 { x: c.min.x, y: c.min.y, z: c.min.z };
    let p0 = proj_exec(&c0, a0, a1, a2);
    let mut lo = p0;
    let mut hi = p0;
    proof {
        assert(corner(*c, 0) == c0);
    }
    let mut k: usize = 1;
    while k < 8
        invariant
            1 <= k <= 8,
            cube_wf(*c),
            -0x2_0000_0000_0000_0000i128 <= a0 <= 0x2_0000_0000_0000_0000i128,
            -0x2_0000_0000_0000_0000i128 <= a1 <= 0x2_0000_0000_0000_0000i128,
            -0x2_0000_0000_0000_0000i128 <= a2 <= 0x2_0000_0000_0000_0000i128,
            a == (a0 as int, a1 as int, a2 as int),
            lo == cube_proj_min_upto(a, *c, k as int),
            hi == cube_proj_max_upto(a, *c, k as int),
        decreases 8 - k,
    {
        let cx = if k % 2 == 1 {
            c.max.x
        } else {
            c.min.x
        };
        let cy = if (k / 2) % 2 == 1 {
            c.max.y
        } else {
            c.min.y
        };
        let cz = if (k / 4) % 2 == 1 {
            c.max.z
        } else {
            c.min.z
        };
        let pt = Vec3 { x: cx, y: cy, z: cz };
        proof {
            assert(corner(*c, k as int) == pt);
        }
        let p = proj_exec(&pt, a0, a1, a2);
        if p < lo {
            lo = p;
        }
        if p > hi {
            hi = p;
        }
        k = k + 1;
    }
    (lo, hi)
}

/// The separating-axis test between a cube and a triangle, exactly as the
/// specification `sat_intersects` states it.
fn triangle_cube_intersection(cube: &Cube, v0: &Vec3, v1: &Vec3, v2: &Vec3) -> (b: bool)
    requires
        cube_wf(*cube),
        v3_bounded(*v0, COORD_ABS_MAX as int),
        v3_bounded(*v1, COORD_ABS_MAX as int),
        v3_bounded(*v2, COORD_ABS_MAX as int),
    ensures
        b == sat_intersects(*cube, *v0, *v1, *v2),
{
    // cube normals as axes
    let (txl, txh) = tri_minmax(v0, v1, v2, 1, 0, 0);
    if txh < cube.min.x as i128 || txl > cube.max.x as i128 {
        return false;
    }
    let (tyl, tyh) = tri_minmax(v0, v1, v2, 0, 1, 0);
    if tyh < cube.min.y as i128 || tyl > cube.max.y as i128 {
        return false;
    }
    let (tzl, tzh) = tri_minmax(v0, v1, v2, 0, 0, 1);
    if tzh < cube.min.z as i128 || tzl > cube.max.z as i128 {
        return false;
    }
    // the triangle normal axis
    let e1x = v0.x - v1.x;
    let e1y = v0.y - v1.y;
    let e1z = v0.z - v1.z;
    let e2x = v1.x - v2.x;
    let e2y = v1.y - v2.y;
    let e2z = v1.z - v2.z;
    let e3x = v2.x - v0.x;
    let e3y = v2.y - v0.y;
    let e3z = v2.z - v0.z;
    proof {
        lemma_abs_mul_le(e1y as int, e2z as int, 0x1_0000_0000, 0x1_0000_0000);
        lemma_abs_mul_le(e1z as int, e2y as int, 0x1_0000_0000, 0x1_0000_0000);
        lemma_abs_mul_le(e1z as int, e2x as int, 0x1_0000_0000, 0x1_0000_0000);
        lemma_abs_mul_le(e1x as int, e2z as int, 0x1_0000_0000, 0x1_0000_0000);
        lemma_abs_mul_le(e1x as int, e2y as int, 0x1_0000_0000, 0x1_0000_0000);
        lemma_abs_mul_le(e1y as int, e2x as int, 0x1_0000_0000, 0x1_0000_0000);
    }
    let nx = mul_wide(e1y, e2z) - mul_wide(e1z, e2y);
    let ny = mul_wide(e1z, e2x) - mul_wide(e1x, e2z);
    let nz = mul_wide(e1x, e2y) - mul_wide(e1y, e2x);
    let off = proj_exec(v0, nx, ny, nz);
    let (cnl, cnh) = cube_minmax(cube, nx, ny, nz);
    if cnh < off || cnl > off {
        return false;
    }
    // the nine edge cross products
    if !axis_overlap(cube, v0, v1, v2, 0, e1z as i128, -(e1y as i128)) {
        return false;
    }
    if !axis_overlap(cube, v0, v1, v2, -(e1z as i128), 0, e1x as i128) {
        return false;
    }
    if !axis_overlap(cube, v0, v1, v2, e1y as i128, -(e1x as i128), 0) {
        return false;
    }
    if !axis_overlap(cube, v0, v1, v2, 0, e2z as i128, -(e2y as i128)) {
        return false;
    }
    if !axis_overlap(cube, v0, v1, v2, -(e2z as i128), 0, e2x as i128) {
        return false;
    }
    if !axis_overlap(cube, v0, v1, v2, e2y as i128, -(e2x as i128), 0) {
        return false;
    }
    if !axis_overlap(cube, v0, v1, v2, 0, e3z as i128, -(e3y as i128)) {
        return false;
    }
    if !axis_overlap(cube, v0, v1, v2, -(e3z as i128), 0, e3x as i128) {
        return false;
    }
    if !axis_overlap(cube, v0, v1, v2, e3y as i128, -(e3x as i128), 0) {
        return false;
    }
    true
}

/// Projection-interval overlap between cube and triangle on one axis.
fn axis_overlap(cube: &Cube, v0: &Vec3, v1: &Vec3, v2: &Vec3, a0: i128, a1: i128, a2: i128) -> (b:
    bool)
    requires
        cube_wf(*cube),
        v3_bounded(*v0, COORD_ABS_MAX as int),
        v3_bounded(*v1, COORD_ABS_MAX as int),
        v3_bounded(*v2, COORD_ABS_MAX as int),
        -0x2_0000_0000_0000_0000i128 <= a0 <= 0x2_0000_0000_0000_0000i128,
        -0x2_0000_0000_0000_0000i128 <= a1 <= 0x2_0000_0000_0000_0000i128,
        -0x2_0000_0000_0000_0000i128 <= a2 <= 0x2_0000_0000_0000_0000i128,
    ensures
        b == sat_axis_ok((a0 as int, a1 as int, a2 as int), *cube, *v0, *v1, *v2),
{
    let (cl, ch) = cube_minmax(cube, a0, a1, a2);
    let (tl, th) = tri_minmax(v0, v1, v2, a0, a1, a2);
    !(ch < tl || cl > th)
}

} // verus!
