//! The scene model: triangle-soup geometries with materials, point lights,
//! cameras and textures.
use crate::camera::{camera_wf, Camera};
use crate::color::{rgb_bounded, rgb_nonneg, RGB};
use crate::fixed::FP_ONE;
use crate::intersect::COORD_ABS_MAX;
use crate::texture::{texture_wf, Texture};
use crate::vecmath::{v3_bounded, Matrix, Vec3, Vec4};
use vstd::prelude::*;

verus! {

/// A point light: world position and color, no attenuation.
#[derive(Clone, Copy, Debug, PartialEq, Eq, Structural)]
pub struct Light {
    pub pos: Vec3,
    pub color: RGB,
}

impl Light {
    pub fn new(pos: Vec3, color: RGB) -> (l: Light)
        ensures
            l == (Light { pos, color }),
    {
        Light { pos, color }
    }
}

/// The diffuse part of a material: a flat color or a texture of the scene.
#[derive(Clone, Copy, Debug, PartialEq, Eq, Structural)]
pub enum Diffuse {
    Color(RGB),
    TextureId(usize),
}

/// A material: diffuse term, emissive color, optional specular coefficient
/// and index of refraction, all in fixed point.
#[derive(Clone, Copy, Debug, PartialEq, Eq, Structural)]
pub struct Material {
    pub diffuse: Diffuse,
    pub emissive: RGB,
    pub specular: Option<i64>,
    pub index_of_refraction: i64,
}

/// A triangle soup: every three consecutive vertices form one triangle,
/// kept both in object space and transformed to world space.
pub struct Geometry {
    pub vertices: Vec<Vec3>,
    pub transformed_vertices: Vec<Vec3>,
    pub material: Material,
}

/// The vertex buffers agree in length, hold whole triangles, and stay in
/// the world bound; colors are sane.
pub open spec fn geometry_wf(g: Geometry) -> bool {
    &&& g.vertices.len() == g.transformed_vertices.len()
    &&& g.vertices.len() % 3 == 0
    &&& forall|i: int|
        0 <= i < g.vertices.len() ==> v3_bounded(#[trigger] g.vertices[i], COORD_ABS_MAX as int)
    &&& forall|i: int|
        0 <= i < g.transformed_vertices.len() ==> v3_bounded(
            #[trigger] g.transformed_vertices[i],
            COORD_ABS_MAX as int,
        )
    &&& material_wf(g.material)
}

/// Material colors are nonnegative and at most one unit per channel.
pub open spec fn material_wf(m: Material) -> bool {
    &&& (m.diffuse matches Diffuse::Color(c) ==> rgb_nonneg(c) && rgb_bounded(c, FP_ONE as int))
    &&& rgb_nonneg(m.emissive)
    &&& rgb_bounded(m.emissive, FP_ONE as int)
}

impl Geometry {
    /// A geometry whose world-space copy starts out equal to its
    /// object-space vertices.
    pub fn new(vertices: Vec<Vec3>, material: Material) -> (g: Geometry)
        requires
            vertices.len() % 3 == 0,
            forall|i: int|
                0 <= i < vertices.len() ==> v3_bounded(#[trigger] vertices[i], COORD_ABS_MAX as int),
            material_wf(material),
        ensures
            geometry_wf(g),
            g.vertices == vertices,
            g.transformed_vertices@ == vertices@,
            g.material == material,
    {
        let transformed_vertices = clone_vertices(&vertices);
        Geometry { vertices, transformed_vertices, material }
    }
}

/// An element-for-element copy of a vertex buffer.
fn clone_vertices(vertices: &Vec<Vec3>) -> (r: Vec<Vec3>)
    ensures
        r@ == vertices@,
{
    let mut r: Vec<Vec3> = Vec::new();
    let n = vertices.len();
    let mut k: usize = 0;
    while k < n
        invariant
            n == vertices.len(),
            k == r.len() <= n,
            forall|i: int| 0 <= i < k ==> #[trigger] r[i] == vertices[i],
        decreases n - k,
    {
        r.push(vertices[k]);
        k = k + 1;
    }
    proof {
        assert(r@ =~= vertices@);
    }
    r
}

/// The whole scene: geometries, lights, cameras and textures.
pub struct Scene {
    pub geometries: Vec<Geometry>,
    pub lights: Vec<Light>,
    pub cameras: Vec<Camera>,
    pub textures: Vec<Texture>,
}

/// Everything in the scene is well formed and within the world bound.
pub open spec fn scene_wf(s: Scene) -> bool {
    &&& forall|i: int| 0 <= i < s.geometries.len() ==> geometry_wf(#[trigger] s.geometries[i])
    &&& forall|i: int|
        0 <= i < s.lights.len() ==> v3_bounded(
            (#[trigger] s.lights[i]).pos,
            COORD_ABS_MAX as int,
        ) && rgb_nonneg(s.lights[i].color) && rgb_bounded(s.lights[i].color, FP_ONE as int)
    &&& forall|i: int| 0 <= i < s.cameras.len() ==> camera_wf(#[trigger] s.cameras[i])
    &&& forall|i: int| 0 <= i < s.textures.len() ==> texture_wf(#[trigger] s.textures[i])
}

/// The number of triangles across all geometries before `geom_count`
/// geometries, plus `tri` more.
pub open spec fn tri_total(s: Scene) -> int
    decreases s.geometries.len(),
{
    triangles_upto(s, s.geometries.len() as int)
}

/// The number of triangles in the first `n` geometries.
pub open spec fn triangles_upto(s: Scene, n: int) -> int
    decreases n,
{
    if n <= 0 {
        0
    } else {
        triangles_upto(s, n - 1) + s.geometries[n - 1].transformed_vertices.len() / 3
    }
}

impl Scene {
    /// Recompute every world-space vertex by sending the object-space
    /// vertex through `mat`, clamped into the world bound.
    pub fn apply_transform(&mut self, mat: &Matrix)
        requires
            scene_wf(*old(self)),
            crate::vecmath::m_bounded(*mat, 0x8000_0000),
        ensures
            scene_wf(*final(self)),
            final(self).geometries.len() == old(self).geometries.len(),
            final(self).lights == old(self).lights,
            final(self).cameras == old(self).cameras,
            forall|g: int, i: int|
                0 <= g < old(self).geometries.len() && 0 <= i
                    < old(self).geometries[g].vertices.len() ==> #[trigger] final(self).geometries[g].transformed_vertices[i] == transformed_vertex(
                    old(self).geometries[g].vertices[i],
                    *mat,
                ),
            forall|g: int|
                0 <= g < old(self).geometries.len() ==> (#[trigger] final(self).geometries[g].vertices
                    == old(self).geometries[g].vertices && final(self).geometries[g].material == old(self).geometries[g].material),
    {
        let num_geoms = self.geometries.len();
        let mut g: usize = 0;
        while g < num_geoms
            invariant
                scene_wf(*self),
                num_geoms == self.geometries.len() == old(self).geometries.len(),
                g <= num_geoms,
                self.lights == old(self).lights,
                self.cameras == old(self).cameras,
                crate::vecmath::m_bounded(*mat, 0x8000_0000),
                forall|gi: int, i: int|
                    0 <= gi < g && 0 <= i < old(self).geometries[gi].vertices.len()
                        ==> #[trigger] self.geometries[gi].transformed_vertices[i]
                        == transformed_vertex(old(self).geometries[gi].vertices[i], *mat),
                forall|gi: int|
                    0 <= gi < num_geoms ==> (#[trigger] self.geometries[gi].vertices == old(self).geometries[gi].vertices && self.geometries[gi].material == old(self).geometries[gi].material),
            decreases num_geoms - g,
        {
            let num_verts = self.geometries[g].vertices.len();
            let mut new_tv: Vec<Vec3> = Vec::new();
            let mut i: usize = 0;
            while i < num_verts
                invariant
                    scene_wf(*self),
                    g < self.geometries.len(),
                    num_verts == self.geometries[g as int].vertices.len(),
                    i == new_tv.len() <= num_verts,
                    crate::vecmath::m_bounded(*mat, 0x8000_0000),
                    forall|j: int|
                        0 <= j < i ==> #[trigger] new_tv[j] == transformed_vertex(
                            self.geometries[g as int].vertices[j],
                            *mat,
                        ),
                    forall|j: int|
                        0 <= j < i ==> v3_bounded(#[trigger] new_tv[j], COORD_ABS_MAX as int),
                decreases num_verts - i,
            {
                let v = self.geometries[g].vertices[i];
                let tv = transform_vertex(&v, mat);
                new_tv.push(tv);
                i = i + 1;
            }
            let mut geom = self.geometries.remove(g);
            geom.transformed_vertices = new_tv;
            self.geometries.insert(g, geom);
            g = g + 1;
        }
    }
}

/// A vertex through a transform: homogeneous multiply, then clamped into
/// the world bound.
pub open spec fn transformed_vertex(v: Vec3, mat: Matrix) -> Vec3 {
    let h = Vec4 { x: v.x, y: v.y, z: v.z, w: FP_ONE };
    Vec3 {
        x: crate::camera::clamp_coord(crate::vecmath::mat_vec_elem(mat, h, 0)) as i64,
        y: crate::camera::clamp_coord(crate::vecmath::mat_vec_elem(mat, h, 1)) as i64,
        z: crate::camera::clamp_coord(crate::vecmath::mat_vec_elem(mat, h, 2)) as i64,
    }
}

/// Executable counterpart of `transformed_vertex`.
fn transform_vertex(v: &Vec3, mat: &Matrix) -> (r: Vec3)
    requires
        v3_bounded(*v, COORD_ABS_MAX as int),
        crate::vecmath::m_bounded(*mat, 0x8000_0000),
    ensures
        r == transformed_vertex(*v, *mat),
        v3_bounded(r, COORD_ABS_MAX as int),
{
    let h = Vec4::from_vec3(v);
    proof {
        assert(0x1_0000_0000 * 0x8000_0000 <= 0x80_0000_0000_0000_0000int) by (nonlinear_arith);
        crate::camera::mat_vec_fits(*mat, h, 0x8000_0000, 0x1_0000_0000);
    }
    let t = mat.mul_vec4(&h);
    Vec3 {
        x: crate::camera::clamp_coord_exec(t.x),
        y: crate::camera::clamp_coord_exec(t.y),
        z: crate::camera::clamp_coord_exec(t.z),
    }
}

} // verus!
