//! The path tracer: recursive radiance estimation over an intersection
//! strategy, a hemisphere sample table, and the progressive frame loop
//! that sweeps scanlines into the film.
use crate::accel::{hit_genuine, Hit, Intersector};
use crate::camera::{camera_wf, Camera};
use crate::color::{rgb_bounded, rgb_nonneg, RGB};
use crate::film::{film_wf, Film, SAMPLE_ABS_MAX};
use crate::fixed::{fp_mul, fp_mul_spec, i64_div_trunc, FP_ONE};
use crate::intersect::COORD_ABS_MAX;
use crate::scene::{scene_wf, Diffuse, Scene};
use crate::tonemap::simple_map;
use crate::vecmath::{cross, cross_spec, dot, normalized_spec, v3_bounded, Ray, Vec3};
use vstd::prelude::*;

verus! {

/// Relies on `rand::random`: a value drawn from the thread's generator.
/// Nothing is assumed of which value comes back.
pub assume_specification<T>[ rand::random::<T> ]() -> (r: T)
    where
        rand::distributions::Standard: rand::distributions::Distribution<T>,
;

/// A random fixed-point fraction in `[0, 1)`.
fn rand_unit_fx() -> (j: i64)
    ensures
        0 <= j < FP_ONE,
{
    let r: u32 = rand::random();
    (r % 65536) as i64
}

/// How many table entries the sample generator holds.
pub const NUM_SAMPLES: usize = 65536;

/// A table of precomputed directions roughly on the unit sphere, with a
/// cursor for cheap sequential draws.
pub struct SampleGenerator {
    pub normalized_vecs: Vec<Vec3>,
    pub sample_idx: u16,
}

/// The table is full and every entry is a bounded direction.
pub open spec fn sg_wf(sg: SampleGenerator) -> bool {
    &&& sg.normalized_vecs.len() == NUM_SAMPLES
    &&& forall|i: int|
        0 <= i < sg.normalized_vecs.len() ==> v3_bounded(
            #[trigger] sg.normalized_vecs[i],
            4 * FP_ONE as int,
        )
}

impl SampleGenerator {
    /// Fill the table by rejection sampling in the unit cube, normalizing
    /// what lands in the unit sphere; a draw that keeps missing falls back
    /// to a fixed axis direction.
    pub fn new() -> (sg: SampleGenerator)
        ensures
            sg_wf(sg),
            sg.sample_idx == 0,
    {
        let mut normalized_vecs: Vec<Vec3> = Vec::new();
        let mut k: usize = 0;
        while k < NUM_SAMPLES
            invariant
                k == normalized_vecs.len() <= NUM_SAMPLES,
                forall|i: int|
                    0 <= i < normalized_vecs.len() ==> v3_bounded(
                        #[trigger] normalized_vecs[i],
                        4 * FP_ONE as int,
                    ),
            decreases NUM_SAMPLES - k,
        {
            normalized_vecs.push(Self::generate_normalized_vec3());
            k = k + 1;
        }
        SampleGenerator { normalized_vecs, sample_idx: 0 }
    }

    /// The next direction under the advancing cursor: the table entry at
    /// the advanced index.
    pub fn normalized_vec_lookup(&mut self) -> (r: Vec3)
        requires
            sg_wf(*old(self)),
        ensures
            sg_wf(*final(self)),
            v3_bounded(r, 4 * FP_ONE as int),
            final(self).normalized_vecs == old(self).normalized_vecs,
            final(self).sample_idx as int == (old(self).sample_idx as int + 1) % (
            u16::MAX as int),
            r == final(self).normalized_vecs[final(self).sample_idx as int],
    {
        self.sample_idx = ((self.sample_idx as u32 + 1) % (u16::MAX as u32)) as u16;
        self.normalized_vecs[self.sample_idx as usize]
    }

    /// A direction at a random table index: whichever index came up, the
    /// result is that entry of the unchanged table.
    pub fn normalized_vec_pseudo(&mut self) -> (r: Vec3)
        requires
            sg_wf(*old(self)),
        ensures
            sg_wf(*final(self)),
            v3_bounded(r, 4 * FP_ONE as int),
            final(self).normalized_vecs == old(self).normalized_vecs,
            (final(self).sample_idx as int) < NUM_SAMPLES,
            r == final(self).normalized_vecs[final(self).sample_idx as int],
    {
        let d: u32 = rand::random();
        self.sample_idx = (d % (NUM_SAMPLES as u32)) as u16;
        self.normalized_vecs[self.sample_idx as usize]
    }

    /// One direction: random in the cube until inside the unit sphere,
    /// then normalized; a bounded number of tries, then a fixed fallback.
    fn generate_normalized_vec3() -> (r: Vec3)
        ensures
            v3_bounded(r, 4 * FP_ONE as int),
    {
        let mut tries: usize = 0;
        while tries < 16
            invariant
                tries <= 16,
            decreases 16 - tries,
        {
            let x = rand_unit_fx() * 2 - FP_ONE;
            let y = rand_unit_fx() * 2 - FP_ONE;
            let z = rand_unit_fx() * 2 - FP_ONE;
            let v = Vec3 { x, y, z };
            proof {
                crate::vecmath::lemma_dot_bound(v, v, 65536, 65536);
            }
            let d = dot(&v, &v);
            if d < FP_ONE {
                return v.normalized();
            }
            tries = tries + 1;
        }
        Vec3 { x: FP_ONE, y: 0, z: 0 }
    }
}

/// The flat per-triangle normal: the normalized cross product of the two
/// object-space edge vectors.
pub open spec fn normal_of(s: Scene, g: int, v: int) -> (int, int, int) {
    let verts = s.geometries[g].vertices;
    let e1 = Vec3 {
        x: (verts[v + 1].x - verts[v].x) as i64,
        y: (verts[v + 1].y - verts[v].y) as i64,
        z: (verts[v + 1].z - verts[v].z) as i64,
    };
    let e2 = Vec3 {
        x: (verts[v + 2].x - verts[v].x) as i64,
        y: (verts[v + 2].y - verts[v].y) as i64,
        z: (verts[v + 2].z - verts[v].z) as i64,
    };
    let c = cross_spec(e1, e2);
    normalized_spec(Vec3 { x: c.0 as i64, y: c.1 as i64, z: c.2 as i64 })
}

/// Compute the flat normal of the hit triangle, from object space.
fn calc_normal(scene: &Scene, hit: &Hit) -> (r: Vec3)
    requires
        scene_wf(*scene),
        crate::accel::tri_valid(*scene, hit.geometry_index as int, hit.vertex_index as int),
    ensures
        (r.x as int, r.y as int, r.z as int) == normal_of(
            *scene,
            hit.geometry_index as int,
            hit.vertex_index as int,
        ),
        v3_bounded(r, 4 * FP_ONE as int),
{
    let g = hit.geometry_index;
    let v = hit.vertex_index;
    let v0 = scene.geometries[g].vertices[v];
    let v1 = scene.geometries[g].vertices[v + 1];
    let v2 = scene.geometries[g].vertices[v + 2];
    let e1 = v1.sub(&v0);
    let e2 = v2.sub(&v0);
    proof {
        crate::vecmath::lemma_abs_mul_le(e1.y as int, e2.z as int, 0x1_0000_0000, 0x1_0000_0000);
        crate::vecmath::lemma_abs_mul_le(e1.z as int, e2.y as int, 0x1_0000_0000, 0x1_0000_0000);
        crate::vecmath::lemma_abs_mul_le(e1.z as int, e2.x as int, 0x1_0000_0000, 0x1_0000_0000);
        crate::vecmath::lemma_abs_mul_le(e1.x as int, e2.z as int, 0x1_0000_0000, 0x1_0000_0000);
        crate::vecmath::lemma_abs_mul_le(e1.x as int, e2.y as int, 0x1_0000_0000, 0x1_0000_0000);
        crate::vecmath::lemma_abs_mul_le(e1.y as int, e2.x as int, 0x1_0000_0000, 0x1_0000_0000);
        assert(i64::MIN <= cross_spec(e1, e2).0 <= i64::MAX) by {
            vstd::arithmetic::div_mod::lemma_div_is_ordered(
                e1.y * e2.z - e1.z * e2.y,
                0x2_0000_0000_0000_0000,
                FP_ONE as int,
            );
            vstd::arithmetic::div_mod::lemma_div_is_ordered(
                -0x2_0000_0000_0000_0000,
                e1.y * e2.z - e1.z * e2.y,
                FP_ONE as int,
            );
        }
        assert(i64::MIN <= cross_spec(e1, e2).1 <= i64::MAX) by {
            vstd::arithmetic::div_mod::lemma_div_is_ordered(
                e1.z * e2.x - e1.x * e2.z,
                0x2_0000_0000_0000_0000,
                FP_ONE as int,
            );
            vstd::arithmetic::div_mod::lemma_div_is_ordered(
                -0x2_0000_0000_0000_0000,
                e1.z * e2.x - e1.x * e2.z,
                FP_ONE as int,
            );
        }
        assert(i64::MIN <= cross_spec(e1, e2).2 <= i64::MAX) by {
            vstd::arithmetic::div_mod::lemma_div_is_ordered(
                e1.x * e2.y - e1.y * e2.x,
                0x2_0000_0000_0000_0000,
                FP_ONE as int,
            );
            vstd::arithmetic::div_mod::lemma_div_is_ordered(
                -0x2_0000_0000_0000_0000,
                e1.x * e2.y - e1.y * e2.x,
                FP_ONE as int,
            );
        }
    }
    let n = cross(&e1, &e2);
    proof {
        assert(v3_bounded(n, crate::vecmath::VEC_ABS_MAX as int)) by {
            vstd::arithmetic::div_mod::lemma_div_is_ordered(
                e1.y * e2.z - e1.z * e2.y,
                0x2_0000_0000_0000_0000,
                FP_ONE as int,
            );
        }
    }
    n.normalized()
}

/// Clamp a channel into the sample range, keeping it nonnegative.
pub open spec fn clamp_sample(c: int) -> int {
    if c < 0 {
        0
    } else if c > SAMPLE_ABS_MAX {
        SAMPLE_ABS_MAX as int
    } else {
        c
    }
}

/// Executable clamp of a whole color into the sample range.
fn clamp_color(c: &RGB) -> (r: RGB)
    ensures
        r.r == clamp_sample(c.r as int),
        r.g == clamp_sample(c.g as int),
        r.b == clamp_sample(c.b as int),
        rgb_nonneg(r),
        rgb_bounded(r, SAMPLE_ABS_MAX as int),
{
    RGB {
        r: clamp_channel(c.r),
        g: clamp_channel(c.g),
        b: clamp_channel(c.b),
    }
}

fn clamp_channel(c: i64) -> (r: i64)
    ensures
        r == clamp_sample(c as int),
{
    if c < 0 {
        0
    } else if c > SAMPLE_ABS_MAX {
        SAMPLE_ABS_MAX
    } else {
        c
    }
}

/// An even power of a clamped cosine: five squarings, each rounded.
fn pow32_unit(x: i64) -> (r: i64)
    requires
        -FP_ONE <= x <= FP_ONE,
    ensures
        0 <= r <= FP_ONE,
        r == pow32_spec(x as int),
{
    let mut y = fp_mul_bounded_unit(x, x);
    y = fp_mul_bounded_unit(y, y);
    y = fp_mul_bounded_unit(y, y);
    y = fp_mul_bounded_unit(y, y);
    y = fp_mul_bounded_unit(y, y);
    if y < 0 {
        0
    } else {
        y
    }
}

/// A product of two unit-range values stays in unit range.
fn fp_mul_bounded_unit(a: i64, b: i64) -> (r: i64)
    requires
        -FP_ONE <= a <= FP_ONE,
        -FP_ONE <= b <= FP_ONE,
    ensures
        r == fp_mul_spec(a as int, b as int),
        -FP_ONE <= r <= FP_ONE,
{
    proof {
        crate::fixed::lemma_fp_mul_bound(a as int, b as int, 65536, 65536);
    }
    fp_mul(a, b)
}

/// Clamp a cosine-like value into the unit range.
fn clamp_unit(x: i64) -> (r: i64)
    ensures
        -FP_ONE <= r <= FP_ONE,
        r == if x > FP_ONE {
            FP_ONE as int
        } else if x < -FP_ONE {
            -FP_ONE as int
        } else {
            x as int
        },
{
    if x > FP_ONE {
        FP_ONE
    } else if x < -FP_ONE {
        -FP_ONE
    } else {
        x
    }
}

/// The point `pos + t * dir`, with the distance capped at the world size
/// and the result clamped into the world bound.
pub open spec fn hit_point_of(ray: Ray, t: int) -> Vec3 {
    let tc = if t > 0x1_0000_0000 {
        0x1_0000_0000
    } else {
        t
    };
    Vec3 {
        x: crate::camera::clamp_coord(ray.pos.x + fp_mul_spec(ray.dir.x as int, tc)) as i64,
        y: crate::camera::clamp_coord(ray.pos.y + fp_mul_spec(ray.dir.y as int, tc)) as i64,
        z: crate::camera::clamp_coord(ray.pos.z + fp_mul_spec(ray.dir.z as int, tc)) as i64,
    }
}

/// Compute the hit point for a distance already known nonnegative.
fn hit_point(ray: &Ray, t: i64) -> (p: Vec3)
    requires
        v3_bounded(ray.pos, COORD_ABS_MAX as int),
        v3_bounded(ray.dir, COORD_ABS_MAX as int),
        t >= 0,
    ensures
        p == hit_point_of(*ray, t as int),
        v3_bounded(p, COORD_ABS_MAX as int),
{
    let tc: i64 = if t > 0x1_0000_0000 {
        0x1_0000_0000
    } else {
        t
    };
    proof {
        crate::fixed::lemma_fp_mul_bound(ray.dir.x as int, tc as int, 0x8000_0000, 0x1_0000_0000);
        crate::fixed::lemma_fp_mul_bound(ray.dir.y as int, tc as int, 0x8000_0000, 0x1_0000_0000);
        crate::fixed::lemma_fp_mul_bound(ray.dir.z as int, tc as int, 0x8000_0000, 0x1_0000_0000);
    }
    Vec3 {
        x: crate::camera::clamp_coord_exec(ray.pos.x + fp_mul(ray.dir.x, tc)),
        y: crate::camera::clamp_coord_exec(ray.pos.y + fp_mul(ray.dir.y, tc)),
        z: crate::camera::clamp_coord_exec(ray.pos.z + fp_mul(ray.dir.z, tc)),
    }
}


/// A cosine-like value clamped into the unit range.
pub open spec fn clamp_unit_spec(x: int) -> int {
    if x > FP_ONE {
        FP_ONE as int
    } else if x < -FP_ONE {
        -FP_ONE as int
    } else {
        x
    }
}

/// A sum of unit-range responses capped back into the unit range.
pub open spec fn sat_unit_spec(x: int) -> int {
    if x > FP_ONE {
        FP_ONE as int
    } else if x < -FP_ONE {
        -FP_ONE as int
    } else {
        x
    }
}

/// Five rounded squarings of a unit-range value, floored at zero: the
/// shininess response.
pub open spec fn pow32_spec(x: int) -> int {
    let y1 = fp_mul_spec(x, x);
    let y2 = fp_mul_spec(y1, y1);
    let y3 = fp_mul_spec(y2, y2);
    let y4 = fp_mul_spec(y3, y3);
    let y5 = fp_mul_spec(y4, y4);
    if y5 < 0 {
        0
    } else {
        y5
    }
}

/// The normalized direction of `v`, as a vector.
pub open spec fn nvec(v: Vec3) -> Vec3 {
    let (a, b, c) = normalized_spec(v);
    Vec3 { x: a as i64, y: b as i64, z: c as i64 }
}

/// The contribution of one light at the hit point, added to `accum` and
/// clamped into the sample range: nothing when the surface faces away or
/// the strategy's answer for the offset shadow ray blocks the light;
/// otherwise the diffuse response (flat color or texel) under the cosine,
/// plus the fixed shininess response, filtered by the light's color.
pub open spec fn shade_one<A: Intersector>(
    accel: A,
    s: Scene,
    ray: Ray,
    hit: Hit,
    normal: Vec3,
    light: crate::scene::Light,
    accum: RGB,
) -> RGB {
    let hp = hit_point_of(ray, hit.hit_info.t as int);
    let to_light = Vec3 {
        x: (light.pos.x - hp.x) as i64,
        y: (light.pos.y - hp.y) as i64,
        z: (light.pos.z - hp.z) as i64,
    };
    let light_dir = nvec(to_light);
    let dln = crate::vecmath::dot_spec(normal, light_dir);
    if dln < 0 {
        accum
    } else {
        let offset_pos = Vec3 {
            x: crate::camera::clamp_coord(hp.x + fp_mul_spec(to_light.x as int, 655)) as i64,
            y: crate::camera::clamp_coord(hp.y + fp_mul_spec(to_light.y as int, 655)) as i64,
            z: crate::camera::clamp_coord(hp.z + fp_mul_spec(to_light.z as int, 655)) as i64,
        };
        let shadow_dir = Vec3 {
            x: crate::camera::clamp_coord(to_light.x as int) as i64,
            y: crate::camera::clamp_coord(to_light.y as int) as i64,
            z: crate::camera::clamp_coord(to_light.z as int) as i64,
        };
        let shadow_ray = Ray { pos: offset_pos, dir: shadow_dir };
        let blocked = match accel.result_of(&s, &shadow_ray) {
            Some(sh) => 655 < sh.hit_info.t && sh.hit_info.t < FP_ONE,
            None => false,
        };
        if blocked {
            accum
        } else {
            let g = hit.geometry_index as int;
            let diffuse_rgb = match s.geometries[g].material.diffuse {
                Diffuse::Color(c) => c,
                Diffuse::TextureId(ti) => if ti < s.textures.len() {
                    let tex = s.textures[ti as int];
                    tex.data[crate::texture::texel_coord(hit.hit_info.v as int, tex.height as int)
                        * tex.width + crate::texture::texel_coord(
                        hit.hit_info.u as int,
                        tex.width as int,
                    )]
                } else {
                    RGB { r: FP_ONE, g: FP_ONE, b: FP_ONE }
                },
            };
            let dc = clamp_unit_spec(dln);
            let dpos = if dc < 0 {
                0
            } else {
                dc
            };
            let dr = fp_mul_spec(diffuse_rgb.r as int, dpos);
            let dg = fp_mul_spec(diffuse_rgb.g as int, dpos);
            let db = fp_mul_spec(diffuse_rgb.b as int, dpos);
            let view = nvec(ray.dir);
            let reflected = Vec3 {
                x: (fp_mul_spec(2 * dln, normal.x as int) - light_dir.x) as i64,
                y: (fp_mul_spec(2 * dln, normal.y as int) - light_dir.y) as i64,
                z: (fp_mul_spec(2 * dln, normal.z as int) - light_dir.z) as i64,
            };
            let vr = crate::vecmath::dot_spec(view, reflected);
            let spec_term = pow32_spec(clamp_unit_spec(vr));
            let tr = fp_mul_spec(sat_unit_spec(dr + spec_term), light.color.r as int);
            let tg = fp_mul_spec(sat_unit_spec(dg + spec_term), light.color.g as int);
            let tb = fp_mul_spec(sat_unit_spec(db + spec_term), light.color.b as int);
            RGB {
                r: clamp_sample(accum.r + tr) as i64,
                g: clamp_sample(accum.g + tg) as i64,
                b: clamp_sample(accum.b + tb) as i64,
            }
        }
    }
}

/// Direct lighting as a fold over the scene's lights from position `li`.
pub open spec fn shade_fold<A: Intersector>(
    accel: A,
    s: Scene,
    ray: Ray,
    hit: Hit,
    normal: Vec3,
    li: int,
    accum: RGB,
) -> RGB
    decreases s.lights.len() - li,
{
    if li < 0 || li >= s.lights.len() {
        accum
    } else {
        shade_fold(
            accel,
            s,
            ray,
            hit,
            normal,
            li + 1,
            shade_one(accel, s, ray, hit, normal, s.lights[li], accum),
        )
    }
}

/// The whole direct-lighting term of a hit.
pub open spec fn direct_light<A: Intersector>(accel: A, s: Scene, ray: Ray, hit: Hit) -> RGB {
    let n = normal_of(s, hit.geometry_index as int, hit.vertex_index as int);
    shade_fold(
        accel,
        s,
        ray,
        hit,
        Vec3 { x: n.0 as i64, y: n.1 as i64, z: n.2 as i64 },
        0,
        RGB { r: 0i64, g: 0i64, b: 0i64 },
    )
}

/// Direct lighting at the hit point: exactly the `shade_fold` over the
/// scene's lights — for every light that faces the surface and whose
/// offset shadow ray the strategy reports unoccluded, a diffuse term
/// (flat color or texture) plus the fixed shininess term, filtered by the
/// light color, clamped into the film's sample range.
#[verifier::rlimit(100)]
fn shade<A: Intersector>(accel: &A, scene: &Scene, ray: &Ray, hit: &Hit, normal: &Vec3) -> (r: RGB)
    requires
        scene_wf(*scene),
        accel.inv(scene),
        v3_bounded(ray.pos, COORD_ABS_MAX as int),
        v3_bounded(ray.dir, COORD_ABS_MAX as int),
        hit_genuine(*scene, *ray, *hit),
        v3_bounded(*normal, 4 * FP_ONE as int),
    ensures
        r == shade_fold(*accel, *scene, *ray, *hit, *normal, 0, RGB { r: 0i64, g: 0i64, b: 0i64 }),
        rgb_nonneg(r),
        rgb_bounded(r, SAMPLE_ABS_MAX as int),
{
    let mut accum = RGB { r: 0, g: 0, b: 0 };
    let hp = hit_point(ray, hit.hit_info.t);
    let num_lights = scene.lights.len();
    let mut li: usize = 0;
    while li < num_lights
        invariant
            scene_wf(*scene),
            accel.inv(scene),
            v3_bounded(ray.pos, COORD_ABS_MAX as int),
            v3_bounded(ray.dir, COORD_ABS_MAX as int),
            hit_genuine(*scene, *ray, *hit),
            v3_bounded(*normal, 4 * FP_ONE as int),
            v3_bounded(hp, COORD_ABS_MAX as int),
            hp == hit_point_of(*ray, hit.hit_info.t as int),
            num_lights == scene.lights.len(),
            li <= num_lights,
            rgb_nonneg(accum),
            rgb_bounded(accum, SAMPLE_ABS_MAX as int),
            shade_fold(*accel, *scene, *ray, *hit, *normal, 0, RGB { r: 0i64, g: 0i64, b: 0i64 })
                == shade_fold(*accel, *scene, *ray, *hit, *normal, li as int, accum),
        decreases num_lights - li,
    {
        let ghost accum0 = accum;
        let light = scene.lights[li];
        let to_light = light.pos.sub(&hp);
        let light_dir = to_light.normalized();
        proof {
            crate::vecmath::lemma_dot_bound(*normal, light_dir, 262144, 262144);
        }
        let dln = dot(normal, &light_dir);
        if dln >= 0 {
            // is the light blocked? offset the shadow ray slightly
            proof {
                crate::fixed::lemma_fp_mul_bound(to_light.x as int, 655, 0x1_0000_0000, 655);
                crate::fixed::lemma_fp_mul_bound(to_light.y as int, 655, 0x1_0000_0000, 655);
                crate::fixed::lemma_fp_mul_bound(to_light.z as int, 655, 0x1_0000_0000, 655);
            }
            let offset_pos = Vec3 {
                x: crate::camera::clamp_coord_exec(hp.x + fp_mul(to_light.x, 655)),
                y: crate::camera::clamp_coord_exec(hp.y + fp_mul(to_light.y, 655)),
                z: crate::camera::clamp_coord_exec(hp.z + fp_mul(to_light.z, 655)),
            };
            let shadow_dir = Vec3 {
                x: crate::camera::clamp_coord_exec(to_light.x),
                y: crate::camera::clamp_coord_exec(to_light.y),
                z: crate::camera::clamp_coord_exec(to_light.z),
            };
            let shadow_ray = Ray { pos: offset_pos, dir: shadow_dir };
            let mut blocked = false;
            if let Some(sh) = accel.intersect_ray(scene, &shadow_ray) {
                if sh.hit_info.t > 655 && sh.hit_info.t < FP_ONE {
                    blocked = true;
                }
            }
            if !blocked {
                let g = hit.geometry_index;
                proof {
                    assert(crate::scene::geometry_wf(scene.geometries[g as int]));
                }
                let diffuse_rgb = match &scene.geometries[g].material.diffuse {
                    Diffuse::Color(rgb) => *rgb,
                    Diffuse::TextureId(tex_id) => {
                        if *tex_id < scene.textures.len() {
                            scene.textures[*tex_id].get_texel(hit.hit_info.u, hit.hit_info.v)
                        } else {
                            RGB { r: FP_ONE, g: FP_ONE, b: FP_ONE }
                        }
                    },
                };
                proof {
                    assert(crate::scene::geometry_wf(scene.geometries[g as int]));
                    match scene.geometries[g as int].material.diffuse {
                        Diffuse::TextureId(ti) => {
                            if ti < scene.textures.len() {
                                assert(crate::texture::texture_wf(scene.textures[ti as int]));
                            }
                        },
                        Diffuse::Color(_) => {},
                    }
                    assert(rgb_nonneg(diffuse_rgb) && rgb_bounded(diffuse_rgb, FP_ONE as int));
                }
                // diffuse response
                let dc = clamp_unit(dln);
                let dpos = if dc < 0 {
                    0
                } else {
                    dc
                };
                let dr = fp_mul_bounded_unit(diffuse_rgb.r, dpos);
                let dg = fp_mul_bounded_unit(diffuse_rgb.g, dpos);
                let db = fp_mul_bounded_unit(diffuse_rgb.b, dpos);
                // fixed specular response
                let view = ray.dir.normalized();
                proof {
                    crate::fixed::lemma_fp_mul_bound(2 * dln as int, normal.x as int, 0x60_0000, 262144);
                    crate::fixed::lemma_fp_mul_bound(2 * dln as int, normal.y as int, 0x60_0000, 262144);
                    crate::fixed::lemma_fp_mul_bound(2 * dln as int, normal.z as int, 0x60_0000, 262144);
                }
                let reflected = Vec3 {
                    x: fp_mul(2 * dln, normal.x) - light_dir.x,
                    y: fp_mul(2 * dln, normal.y) - light_dir.y,
                    z: fp_mul(2 * dln, normal.z) - light_dir.z,
                };
                proof {
                    crate::vecmath::lemma_dot_bound(view, reflected, 262144, 0xC_4000_0000);
                }
                let vr = dot(&view, &reflected);
                let spec_term = pow32_unit(clamp_unit(vr));
                // combine, through the light color, clamped into the range
                let tr = fp_mul_bounded_unit(saturating_unit(dr + spec_term), light.color.r);
                let tg = fp_mul_bounded_unit(saturating_unit(dg + spec_term), light.color.g);
                let tb = fp_mul_bounded_unit(saturating_unit(db + spec_term), light.color.b);
                accum = RGB {
                    r: clamp_channel(accum.r + tr),
                    g: clamp_channel(accum.g + tg),
                    b: clamp_channel(accum.b + tb),
                };
            }
        }
        proof {
            assert(accum == shade_one(
                *accel,
                *scene,
                *ray,
                *hit,
                *normal,
                scene.lights[li as int],
                accum0,
            ));
        }
        li = li + 1;
    }
    accum
}

/// Cap a sum of unit-range responses back into the unit range.
fn saturating_unit(x: i64) -> (r: i64)
    requires
        -0x2_0000 <= x <= 0x2_0000,
    ensures
        -FP_ONE <= r <= FP_ONE,
        0 <= x ==> 0 <= r,
        r == sat_unit_spec(x as int),
{
    if x > FP_ONE {
        FP_ONE
    } else if x < -FP_ONE {
        -FP_ONE
    } else {
        x
    }
}

/// A fresh bounce direction from the table, redrawn through the cheap
/// sequential draw while it falls outside the hemisphere of `normal`, and
/// offset one step from the hit point. The retries are bounded so the
/// function always returns; when every retry fails the hemisphere test,
/// the last drawn direction is used as it is, so only table membership and
/// the origin's position are promised of every outcome.
fn randomize_reflection_ray(
    sample_generator: &mut SampleGenerator,
    hit_point: Vec3,
    normal: &Vec3,
) -> (r: Ray)
    requires
        sg_wf(*old(sample_generator)),
        v3_bounded(hit_point, COORD_ABS_MAX as int),
        v3_bounded(*normal, 4 * FP_ONE as int),
    ensures
        sg_wf(*final(sample_generator)),
        final(sample_generator).normalized_vecs == old(sample_generator).normalized_vecs,
        final(sample_generator).normalized_vecs@.contains(r.dir),
        r.pos.x == crate::camera::clamp_coord(
            hit_point.x + fp_mul_spec(r.dir.x as int, 1),
        ),
        r.pos.y == crate::camera::clamp_coord(
            hit_point.y + fp_mul_spec(r.dir.y as int, 1),
        ),
        r.pos.z == crate::camera::clamp_coord(
            hit_point.z + fp_mul_spec(r.dir.z as int, 1),
        ),
        v3_bounded(r.pos, COORD_ABS_MAX as int),
        v3_bounded(r.dir, COORD_ABS_MAX as int),
{
    let mut random_dir = sample_generator.normalized_vec_pseudo();
    proof {
        assert(sample_generator.normalized_vecs@.contains(random_dir));
    }
    let mut tries: usize = 0;
    while tries < 64
        invariant
            sg_wf(*sample_generator),
            sample_generator.normalized_vecs == old(sample_generator).normalized_vecs,
            sample_generator.normalized_vecs@.contains(random_dir),
            v3_bounded(random_dir, 4 * FP_ONE as int),
            v3_bounded(*normal, 4 * FP_ONE as int),
            tries <= 64,
        decreases 64 - tries,
    {
        proof {
            crate::vecmath::lemma_dot_bound(random_dir, *normal, 262144, 262144);
        }
        let d = dot(&random_dir, normal);
        if d > 0 {
            break ;
        }
        random_dir = sample_generator.normalized_vec_lookup();
        proof {
            assert(sample_generator.normalized_vecs@.contains(random_dir));
        }
        tries = tries + 1;
    }
    proof {
        crate::fixed::lemma_fp_mul_bound(random_dir.x as int, 1, 262144, 1);
        crate::fixed::lemma_fp_mul_bound(random_dir.y as int, 1, 262144, 1);
        crate::fixed::lemma_fp_mul_bound(random_dir.z as int, 1, 262144, 1);
    }
    let pos = Vec3 {
        x: crate::camera::clamp_coord_exec(hit_point.x + fp_mul(random_dir.x, 1)),
        y: crate::camera::clamp_coord_exec(hit_point.y + fp_mul(random_dir.y, 1)),
        z: crate::camera::clamp_coord_exec(hit_point.z + fp_mul(random_dir.z, 1)),
    };
    Ray { pos, dir: random_dir }
}

/// Recursive radiance estimation: the direct term from `shade`, plus, while
/// recursion depth remains, the average of `spread * recursions` indirect
/// hemisphere samples. The result is always a nonnegative color within the
/// film's sample range, and at depth zero it is exactly the direct term.
pub fn compute_radiance<A: Intersector>(
    accel: &A,
    scene: &Scene,
    ray: &Ray,
    hit: &Hit,
    sample_generator: &mut SampleGenerator,
    recursions: u8,
    spread: u32,
) -> (r: RGB)
    requires
        scene_wf(*scene),
        accel.inv(scene),
        v3_bounded(ray.pos, COORD_ABS_MAX as int),
        v3_bounded(ray.dir, COORD_ABS_MAX as int),
        hit_genuine(*scene, *ray, *hit),
        sg_wf(*old(sample_generator)),
        recursions <= 8,
        1 <= spread <= 16,
    ensures
        rgb_nonneg(r),
        rgb_bounded(r, SAMPLE_ABS_MAX as int),
        sg_wf(*final(sample_generator)),
        recursions == 0 ==> r == direct_light(*accel, *scene, *ray, *hit),
        r.r >= direct_light(*accel, *scene, *ray, *hit).r,
        r.g >= direct_light(*accel, *scene, *ray, *hit).g,
        r.b >= direct_light(*accel, *scene, *ray, *hit).b,
    decreases recursions,
{
    let normal = calc_normal(scene, hit);
    let radiance = shade(accel, scene, ray, hit, &normal);
    proof {
        assert(normal == (Vec3 {
            x: normal_of(*scene, hit.geometry_index as int, hit.vertex_index as int).0 as i64,
            y: normal_of(*scene, hit.geometry_index as int, hit.vertex_index as int).1 as i64,
            z: normal_of(*scene, hit.geometry_index as int, hit.vertex_index as int).2 as i64,
        }));
        assert(radiance == direct_light(*accel, *scene, *ray, *hit));
    }
    if recursions < 1 {
        return radiance;
    }
    proof {
        assert(1 <= spread * recursions <= 128) by (nonlinear_arith)
            requires
                1 <= spread <= 16,
                1 <= recursions <= 8,
        ;
    }
    let num_sub_rays: u32 = spread * (recursions as u32);
    let hp = hit_point(ray, hit.hit_info.t);
    let mut sum = RGB { r: 0, g: 0, b: 0 };
    let mut s: u32 = 0;
    proof {
        assert(0 * SAMPLE_ABS_MAX == 0) by (nonlinear_arith);
    }
    while s < num_sub_rays
        invariant
            scene_wf(*scene),
            accel.inv(scene),
            v3_bounded(ray.pos, COORD_ABS_MAX as int),
            v3_bounded(ray.dir, COORD_ABS_MAX as int),
            hit_genuine(*scene, *ray, *hit),
            sg_wf(*sample_generator),
            v3_bounded(hp, COORD_ABS_MAX as int),
            v3_bounded(normal, 4 * FP_ONE as int),
            1 <= recursions <= 8,
            1 <= spread <= 16,
            num_sub_rays == spread * recursions,
            num_sub_rays <= 128,
            s <= num_sub_rays,
            rgb_nonneg(sum),
            sum.r <= s * SAMPLE_ABS_MAX,
            sum.g <= s * SAMPLE_ABS_MAX,
            sum.b <= s * SAMPLE_ABS_MAX,
        decreases num_sub_rays - s,
    {
        let sub_ray = randomize_reflection_ray(sample_generator, hp, &normal);
        let sub_hit = accel.intersect_ray(scene, &sub_ray);
        let sample = match sub_hit {
            Some(sh) => compute_radiance(
                accel,
                scene,
                &sub_ray,
                &sh,
                sample_generator,
                recursions - 1,
                spread,
            ),
            None => RGB { r: 0, g: 0, b: 0 },
        };
        proof {
            assert((s + 1) * SAMPLE_ABS_MAX == s * SAMPLE_ABS_MAX + SAMPLE_ABS_MAX)
                by (nonlinear_arith);
            assert(s * SAMPLE_ABS_MAX <= 128 * SAMPLE_ABS_MAX) by (nonlinear_arith)
                requires
                    0 <= s <= 128,
                    SAMPLE_ABS_MAX == 0x100_0000i64,
            ;
        }
        sum = RGB { r: sum.r + sample.r, g: sum.g + sample.g, b: sum.b + sample.b };
        s = s + 1;
    }
    proof {
        assert(num_sub_rays * SAMPLE_ABS_MAX <= 128 * SAMPLE_ABS_MAX && 1 <= num_sub_rays)
            by (nonlinear_arith)
            requires
                1 <= spread <= 16,
                1 <= recursions <= 8,
                num_sub_rays == spread * recursions,
                SAMPLE_ABS_MAX == 0x100_0000i64,
        ;
        assert(sum.r <= num_sub_rays * SAMPLE_ABS_MAX);
        assert(sum.g <= num_sub_rays * SAMPLE_ABS_MAX);
        assert(sum.b <= num_sub_rays * SAMPLE_ABS_MAX);
        vstd::arithmetic::div_mod::lemma_div_pos_is_pos(sum.r as int, num_sub_rays as int);
        vstd::arithmetic::div_mod::lemma_div_nonincreasing(sum.r as int, num_sub_rays as int);
        vstd::arithmetic::div_mod::lemma_div_pos_is_pos(sum.g as int, num_sub_rays as int);
        vstd::arithmetic::div_mod::lemma_div_nonincreasing(sum.g as int, num_sub_rays as int);
        vstd::arithmetic::div_mod::lemma_div_pos_is_pos(sum.b as int, num_sub_rays as int);
        vstd::arithmetic::div_mod::lemma_div_nonincreasing(sum.b as int, num_sub_rays as int);
    }
    let sub = RGB {
        r: i64_div_trunc(sum.r, num_sub_rays as i64),
        g: i64_div_trunc(sum.g, num_sub_rays as i64),
        b: i64_div_trunc(sum.b, num_sub_rays as i64),
    };
    clamp_color(
        &RGB { r: radiance.r + sub.r, g: radiance.g + sub.g, b: radiance.b + sub.b },
    )
}

/// The renderer: a camera, a film, a sample table, an intersection
/// strategy and the scene, with a scanline cursor for progressive sweeps.
pub struct RayTracer<Accel: Intersector> {
    pub width: usize,
    pub height: usize,
    pub camera: Camera,
    pub sample_generator: SampleGenerator,
    pub film: Film,
    pub accel: Accel,
    pub current_row: usize,
    pub scene: Scene,
}

/// Everything the renderer relies on between frames.
pub open spec fn rt_wf<A: Intersector>(rt: RayTracer<A>) -> bool {
    &&& camera_wf(rt.camera)
    &&& rt.camera.width == rt.width
    &&& rt.camera.height == rt.height
    &&& rt.film.pixel_datas.len() == rt.width * rt.height
    &&& rt.width * rt.height <= 0x1000_0000
    &&& film_wf(rt.film)
    &&& scene_wf(rt.scene)
    &&& rt.accel.inv(&rt.scene)
    &&& rt.current_row < rt.height
    &&& sg_wf(rt.sample_generator)
}

/// How many scanlines one frame iteration sweeps.
pub const ROWS_PER_FRAME: usize = 50;

/// Row `r` is among the scanlines one frame iteration sweeps from
/// `old_row`.
pub open spec fn row_traced(old_row: int, height: int, r: int) -> bool {
    exists|j: int| 0 <= j < ROWS_PER_FRAME && #[trigger] ((old_row + j) % height) == r
}

/// Row `r` is among the first `upto` scanlines swept from `old_row`.
pub open spec fn row_traced_upto(old_row: int, height: int, r: int, upto: int) -> bool {
    exists|j: int| 0 <= j < upto && #[trigger] ((old_row + j) % height) == r
}



impl<Accel: Intersector> RayTracer<Accel> {
    /// A renderer over a freshly built intersection strategy.
    pub fn new(width: usize, height: usize, camera: Camera, scene: Scene) -> (rt: RayTracer<Accel>)
        requires
            scene_wf(scene),
            camera_wf(camera),
            camera.width == width,
            camera.height == height,
            width * height <= 0x1000_0000,
            0 < height,
        ensures
            rt_wf(rt),
            rt.width == width && rt.height == height,
            rt.current_row == 0,
            forall|i: int|
                0 <= i < rt.film.pixel_datas.len() ==> #[trigger] rt.film.pixel_datas[i]
                    == crate::film::empty_pixel(),
    {
        let accel = Accel::new(&scene);
        RayTracer {
            width,
            height,
            camera,
            sample_generator: SampleGenerator::new(),
            film: Film::new(width * height),
            accel,
            current_row: 0,
            scene,
        }
    }

    /// A renderer over a prebuilt intersection strategy.
    pub fn new_with_intersector(
        width: usize,
        height: usize,
        camera: Camera,
        accel: Accel,
        scene: Scene,
    ) -> (rt: RayTracer<Accel>)
        requires
            scene_wf(scene),
            accel.inv(&scene),
            camera_wf(camera),
            camera.width == width,
            camera.height == height,
            width * height <= 0x1000_0000,
            0 < height,
        ensures
            rt_wf(rt),
            rt.width == width && rt.height == height,
            rt.current_row == 0,
    {
        RayTracer {
            width,
            height,
            camera,
            sample_generator: SampleGenerator::new(),
            film: Film::new(width * height),
            accel,
            current_row: 0,
            scene,
        }
    }

    /// Trace one jittered primary ray for pixel `(x, y)` and add its sample
    /// to the film at `idx`: that pixel gains one sample (unless its
    /// counter is exhausted) and a nonnegative contribution; every other
    /// pixel is untouched.
    #[verifier::rlimit(100)]
    #[verifier::spinoff_prover]
    fn trace_one_pixel(
        camera: &Camera,
        accel: &Accel,
        scene: &Scene,
        sample_generator: &mut SampleGenerator,
        film: &mut Film,
        x: usize,
        y: usize,
        idx: usize,
    )
        requires
            camera_wf(*camera),
            x < camera.width,
            y < camera.height,
            scene_wf(*scene),
            accel.inv(scene),
            sg_wf(*old(sample_generator)),
            film_wf(*old(film)),
            idx < old(film).pixel_datas.len(),
        ensures
            sg_wf(*final(sample_generator)),
            film_wf(*final(film)),
            final(film).pixel_datas.len() == old(film).pixel_datas.len(),
            forall|p: int|
                0 <= p < old(film).pixel_datas.len() && p != idx ==> #[trigger] final(film).pixel_datas[p] == old(film).pixel_datas[p],
            old(film).pixel_datas[idx as int].num_samples < u32::MAX ==> final(film).pixel_datas[idx as int].num_samples == old(film).pixel_datas[idx as int].num_samples
                + 1,
            final(film).pixel_datas[idx as int].num_samples >= old(film).pixel_datas[idx as int].num_samples,
            final(film).pixel_datas[idx as int].pixel_sum.r >= old(film).pixel_datas[idx as int].pixel_sum.r,
            final(film).pixel_datas[idx as int].pixel_sum.g >= old(film).pixel_datas[idx as int].pixel_sum.g,
            final(film).pixel_datas[idx as int].pixel_sum.b >= old(film).pixel_datas[idx as int].pixel_sum.b,
    {
        let jx = rand_unit_fx();
        let jy = rand_unit_fx();
        let ray = camera.get_ray(x, y, jx, jy);
        let hit = accel.intersect_ray(scene, &ray);
        let color = match hit {
            None => RGB { r: 0, g: 0, b: 0 },
            Some(h2) => compute_radiance(accel, scene, &ray, &h2, sample_generator, 2, 1),
        };
        film.add_sample(idx, color);
    }

    /// One frame iteration: for a fixed number of scanlines, trace one
    /// jittered primary ray per pixel, resolve its radiance, and add one
    /// sample per pixel to the film. Returns how many primary rays were
    /// traced; the scanline cursor advances and wraps.
    #[verifier::rlimit(100)]
    pub fn trace_frame_additive(&mut self) -> (n: u32)
        requires
            rt_wf(*old(self)),
            old(self).width <= 0x10_0000,
        ensures
            rt_wf(*final(self)),
            n == ROWS_PER_FRAME * old(self).width,
            final(self).width == old(self).width && final(self).height == old(self).height,
            final(self).camera == old(self).camera,
            final(self).film.pixel_datas.len() == old(self).film.pixel_datas.len(),
            final(self).current_row as int == (old(self).current_row + ROWS_PER_FRAME) as int
                % old(self).height as int,
            forall|p: int|
                0 <= p < old(self).film.pixel_datas.len() && !row_traced(
                    old(self).current_row as int,
                    old(self).height as int,
                    p / old(self).width as int,
                ) ==> #[trigger] final(self).film.pixel_datas[p] == old(self).film.pixel_datas[p],
            forall|p: int|
                0 <= p < old(self).film.pixel_datas.len() ==> (#[trigger] final(self).film.pixel_datas[p]).num_samples >= old(self).film.pixel_datas[p].num_samples
                    && final(self).film.pixel_datas[p].pixel_sum.r >= old(self).film.pixel_datas[p].pixel_sum.r && final(self).film.pixel_datas[p].pixel_sum.g
                    >= old(self).film.pixel_datas[p].pixel_sum.g && final(self).film.pixel_datas[p].pixel_sum.b >= old(self).film.pixel_datas[p].pixel_sum.b,
            forall|p: int|
                0 <= p < old(self).film.pixel_datas.len() && row_traced(
                    old(self).current_row as int,
                    old(self).height as int,
                    p / old(self).width as int,
                ) && old(self).film.pixel_datas[p].num_samples < u32::MAX ==> (#[trigger] final(self).film.pixel_datas[p]).num_samples > old(self).film.pixel_datas[p].num_samples,
    {
        let ghost row0 = old(self).current_row as int;
        let ghost h = old(self).height as int;
        let ghost w0 = old(self).width as int;
        proof {
            vstd::arithmetic::div_mod::lemma_small_mod(
                old(self).current_row as nat,
                old(self).height as nat,
            );
        }
        let mut num_primary_rays: u32 = 0;
        let mut row_iter: usize = 0;
        while row_iter < ROWS_PER_FRAME
            invariant
                rt_wf(*self),
                self.width == old(self).width && self.height == old(self).height,
                self.camera == old(self).camera,
                self.film.pixel_datas.len() == old(self).film.pixel_datas.len(),
                self.width <= 0x10_0000,
                row_iter <= ROWS_PER_FRAME,
                num_primary_rays == row_iter * self.width,
                row0 == old(self).current_row as int && h == old(self).height as int && w0 == old(self).width as int,
                self.current_row as int == (row0 + row_iter) % h,
                forall|p: int|
                    0 <= p < old(self).film.pixel_datas.len() && !row_traced_upto(
                        row0,
                        h,
                        p / w0,
                        row_iter as int,
                    ) ==> #[trigger] self.film.pixel_datas[p] == old(self).film.pixel_datas[p],
                forall|p: int|
                    0 <= p < old(self).film.pixel_datas.len() ==> (#[trigger] self.film.pixel_datas[p]).num_samples
                        >= old(self).film.pixel_datas[p].num_samples
                        && self.film.pixel_datas[p].pixel_sum.r >= old(self).film.pixel_datas[p].pixel_sum.r && self.film.pixel_datas[p].pixel_sum.g
                        >= old(self).film.pixel_datas[p].pixel_sum.g
                        && self.film.pixel_datas[p].pixel_sum.b >= old(self).film.pixel_datas[p].pixel_sum.b,
                forall|p: int|
                    0 <= p < old(self).film.pixel_datas.len() && row_traced_upto(
                        row0,
                        h,
                        p / w0,
                        row_iter as int,
                    ) && old(self).film.pixel_datas[p].num_samples < u32::MAX
                        ==> (#[trigger] self.film.pixel_datas[p]).num_samples > old(self).film.pixel_datas[p].num_samples,
            decreases ROWS_PER_FRAME - row_iter,
        {
            let w = self.width;
            let row = self.current_row;
            let mut i: usize = 0;
            while i < w
                invariant
                    rt_wf(*self),
                    self.width == old(self).width && self.height == old(self).height,
                    self.camera == old(self).camera,
                    self.film.pixel_datas.len() == old(self).film.pixel_datas.len(),
                    w == self.width,
                    row == self.current_row,
                    i <= w,
                    row0 == old(self).current_row as int && h == old(self).height as int && w0
                        == old(self).width as int,
                    row_iter < ROWS_PER_FRAME,
                    row as int == (row0 + row_iter) % h,
                    forall|p: int|
                        0 <= p < old(self).film.pixel_datas.len() && !row_traced_upto(
                            row0,
                            h,
                            p / w0,
                            row_iter + 1,
                        ) ==> #[trigger] self.film.pixel_datas[p] == old(self).film.pixel_datas[p],
                    forall|p: int|
                        0 <= p < old(self).film.pixel_datas.len() ==> (#[trigger] self.film.pixel_datas[p]).num_samples
                            >= old(self).film.pixel_datas[p].num_samples
                            && self.film.pixel_datas[p].pixel_sum.r >= old(self).film.pixel_datas[p].pixel_sum.r && self.film.pixel_datas[p].pixel_sum.g
                            >= old(self).film.pixel_datas[p].pixel_sum.g
                            && self.film.pixel_datas[p].pixel_sum.b >= old(self).film.pixel_datas[p].pixel_sum.b,
                    forall|p: int|
                        0 <= p < old(self).film.pixel_datas.len() && row_traced_upto(
                            row0,
                            h,
                            p / w0,
                            row_iter as int,
                        ) && old(self).film.pixel_datas[p].num_samples < u32::MAX
                            ==> (#[trigger] self.film.pixel_datas[p]).num_samples > old(self).film.pixel_datas[p].num_samples,
                    forall|p: int|
                        0 <= p < old(self).film.pixel_datas.len() && p / w0 == row as int && p % w0
                            < i && old(self).film.pixel_datas[p].num_samples < u32::MAX
                            ==> (#[trigger] self.film.pixel_datas[p]).num_samples > old(self).film.pixel_datas[p].num_samples,
                decreases w - i,
            {
                proof {
                    assert(row * w + i < w * self.height) by (nonlinear_arith)
                        requires
                            row < self.height,
                            i < w,
                            0 <= row,
                            0 <= i,
                            0 < w,
                    ;
                    assert(self.film.pixel_datas.len() == self.width * self.height);
                    assert(w * self.height == self.width * self.height);
                }
                let idx = row * w + i;
                proof {
                    vstd::arithmetic::div_mod::lemma_fundamental_div_mod_converse(
                        idx as int,
                        w0,
                        row as int,
                        i as int,
                    );
                    assert(row_traced_upto(row0, h, idx as int / w0, row_iter + 1)) by {
                        assert((row0 + row_iter) % h == row as int);
                    }
                }
                Self::trace_one_pixel(
                    &self.camera,
                    &self.accel,
                    &self.scene,
                    &mut self.sample_generator,
                    &mut self.film,
                    i,
                    row,
                    idx,
                );
                proof {
                    assert forall|p: int|
                        0 <= p < old(self).film.pixel_datas.len() && p / w0 == row as int && p % w0
                            < i + 1 && old(self).film.pixel_datas[p].num_samples < u32::MAX implies (
                    #[trigger] self.film.pixel_datas[p]).num_samples > old(self).film.pixel_datas[p].num_samples by {
                        vstd::arithmetic::div_mod::lemma_fundamental_div_mod(p, w0);
                        if p % w0 == i as int {
                            assert(p == idx);
                        }
                    }
                }
                i = i + 1;
            }
            proof {
                assert(1int % h == if h == 1 {
                    0int
                } else {
                    1int
                }) by {
                    if h == 1 {
                        vstd::arithmetic::div_mod::lemma_mod_self_0(1);
                        assert(1int % 1 == 0) by {
                            vstd::arithmetic::div_mod::lemma_fundamental_div_mod_converse(
                                1,
                                1,
                                1,
                                0,
                            );
                        }
                    } else {
                        vstd::arithmetic::div_mod::lemma_small_mod(1, h as nat);
                    }
                }
                vstd::arithmetic::div_mod::lemma_add_mod_noop(row0 + row_iter, 1, h);
                if h == 1 {
                    vstd::arithmetic::div_mod::lemma_fundamental_div_mod_converse(
                        (row as int) + 1,
                        1,
                        (row as int) + 1,
                        0,
                    );
                }
                assert(((row as int) + 1) % h == (row0 + row_iter + 1) % h);
            }
            self.current_row = (self.current_row + 1) % self.height;
            proof {
                assert((row_iter + 1) * self.width == row_iter * self.width + self.width)
                    by (nonlinear_arith);
                assert(row_iter * self.width <= 50 * 0x10_0000) by (nonlinear_arith)
                    requires
                        0 <= row_iter <= 50,
                        0 <= self.width <= 0x10_0000,
                ;
                assert forall|p: int|
                    0 <= p < old(self).film.pixel_datas.len() && row_traced_upto(
                        row0,
                        h,
                        p / w0,
                        row_iter + 1,
                    ) && old(self).film.pixel_datas[p].num_samples < u32::MAX implies (
                #[trigger] self.film.pixel_datas[p]).num_samples > old(self).film.pixel_datas[p].num_samples by {
                    if !row_traced_upto(row0, h, p / w0, row_iter as int) {
                        assert(p / w0 == (row0 + row_iter) % h);
                        assert(p / w0 == row as int);
                        vstd::arithmetic::div_mod::lemma_fundamental_div_mod(p, w0);
                        assert(p % w0 < w0);
                    }
                }
            }
            num_primary_rays = num_primary_rays + (w as u32);
            row_iter = row_iter + 1;
        }
        num_primary_rays
    }

    /// The film means, tonemapped and packed into one 32-bit pixel each.
    #[verifier::rlimit(50)]
    pub fn get_tonemapped_pixels(&self) -> (v: Vec<u32>)
        requires
            rt_wf(*self),
        ensures
            v.len() == self.film.pixel_datas.len(),
            forall|i: int|
                0 <= i < v.len() ==> #[trigger] v[i] as int == tonemapped_pixel(
                    self.film.pixel_datas[i],
                ),
    {
        let pixels = self.film.get_pixels();
        let mut out: Vec<u32> = Vec::new();
        let n = pixels.len();
        let mut k: usize = 0;
        while k < n
            invariant
                rt_wf(*self),
                n == pixels.len() == self.film.pixel_datas.len(),
                k == out.len() <= n,
                forall|i: int|
                    0 <= i < n ==> #[trigger] pixels[i] == crate::film::pixel_mean(
                        self.film.pixel_datas[i],
                    ),
                forall|i: int|
                    0 <= i < k ==> #[trigger] out[i] as int == tonemapped_pixel(
                        self.film.pixel_datas[i],
                    ),
            decreases n - k,
        {
            let mean = pixels[k];
            proof {
                let p = self.film.pixel_datas[k as int];
                assert(crate::film::pixel_wf(p));
                if p.num_samples != 0 {
                    vstd::arithmetic::div_mod::lemma_div_pos_is_pos(
                        p.pixel_sum.r as int,
                        p.num_samples as int,
                    );
                    vstd::arithmetic::div_mod::lemma_div_nonincreasing(
                        p.pixel_sum.r as int,
                        p.num_samples as int,
                    );
                    vstd::arithmetic::div_mod::lemma_div_pos_is_pos(
                        p.pixel_sum.g as int,
                        p.num_samples as int,
                    );
                    vstd::arithmetic::div_mod::lemma_div_nonincreasing(
                        p.pixel_sum.g as int,
                        p.num_samples as int,
                    );
                    vstd::arithmetic::div_mod::lemma_div_pos_is_pos(
                        p.pixel_sum.b as int,
                        p.num_samples as int,
                    );
                    vstd::arithmetic::div_mod::lemma_div_nonincreasing(
                        p.pixel_sum.b as int,
                        p.num_samples as int,
                    );
                    assert(p.num_samples * crate::film::SAMPLE_ABS_MAX
                        <= 0x100_0000_0000_0000_0000int) by (nonlinear_arith)
                        requires
                            0 <= p.num_samples <= u32::MAX,
                            crate::film::SAMPLE_ABS_MAX == 0x100_0000i64,
                    ;
                }
            }
            let mapped = simple_map(&mean);
            let packed = crate::color::RGBA::from_rgb(mapped, FP_ONE).to_u32();
            out.push(packed);
            k = k + 1;
        }
        out
    }
}

/// One film pixel through the display pipeline: mean, simple tonemap, and
/// the packed byte layout.
pub open spec fn tonemapped_pixel(p: crate::film::PixelData) -> int {
    let mean = crate::film::pixel_mean(p);
    let m = RGB {
        r: crate::tonemap::simple_map_channel(mean.r as int) as i64,
        g: crate::tonemap::simple_map_channel(mean.g as int) as i64,
        b: crate::tonemap::simple_map_channel(mean.b as int) as i64,
    };
    crate::color::channel_byte(m.b as int) + crate::color::channel_byte(m.g as int) * 0x100
        + crate::color::channel_byte(m.r as int) * 0x1_0000 + crate::color::channel_byte(
        FP_ONE as int,
    ) * 0x100_0000
}

} // verus!
