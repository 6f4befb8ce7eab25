//! A built-in scene: a unit box around the origin with one light and one
//! camera, for runs without a scene file.
use crate::camera::Camera;
use crate::color::RGB;
use crate::fixed::FP_ONE;
use crate::intersect::COORD_ABS_MAX;
use crate::scene::{scene_wf, Diffuse, Geometry, Light, Material, Scene};
use crate::vecmath::{v3_bounded, Vec3};
use vstd::prelude::*;

verus! {

/// Why loading a scene failed.
#[derive(Debug, PartialEq, Eq)]
pub enum SceneLoadError {
    BoxLoader(String),
    ColladaLoader(String),
}

/// The built-in box scene.
pub struct BoxLoader {}

/// Half the box's edge length, in fixed point.
pub const BOX_HALF: i64 = 32768;

impl BoxLoader {
    /// The box loader reads no text.
    pub fn from_str(_s: &str) -> (r: Result<Scene, SceneLoadError>)
        ensures
            r is Err,
    {
        Err(
            SceneLoadError::BoxLoader(
                crate::parsers::string_range(&Vec::new(), 0, 0),
            ),
        )
    }

    /// A box of twelve triangles centered at the origin, one white point
    /// light up and to the right, and one camera at the origin.
    pub fn load() -> (r: Result<Scene, SceneLoadError>)
        ensures
            r matches Ok(s) && scene_wf(s) && s.geometries.len() == 1
                && s.geometries[0].vertices.len() == 36 && s.lights.len() == 1 && s.cameras.len()
                == 1,
    {
        let l = -BOX_HALF;
        let rgt = BOX_HALF;
        let up = BOX_HALF;
        let dn = -BOX_HALF;
        let nr = -BOX_HALF;
        let fr = BOX_HALF;
        let mut vertices: Vec<Vec3> = Vec::new();
        // near and far faces
        push3(&mut vertices, v(l, dn, nr), v(rgt, up, nr), v(rgt, dn, nr));
        push3(&mut vertices, v(l, dn, nr), v(l, up, nr), v(rgt, up, nr));
        push3(&mut vertices, v(l, dn, fr), v(rgt, dn, fr), v(rgt, up, fr));
        push3(&mut vertices, v(l, dn, fr), v(rgt, up, fr), v(l, up, fr));
        // left and right faces
        push3(&mut vertices, v(l, dn, nr), v(l, dn, fr), v(l, up, fr));
        push3(&mut vertices, v(l, dn, nr), v(l, up, fr), v(l, up, nr));
        push3(&mut vertices, v(rgt, dn, nr), v(rgt, up, fr), v(rgt, dn, fr));
        push3(&mut vertices, v(rgt, dn, nr), v(rgt, up, nr), v(rgt, up, fr));
        // top and bottom faces
        push3(&mut vertices, v(l, up, nr), v(rgt, up, fr), v(rgt, up, nr));
        push3(&mut vertices, v(l, up, nr), v(l, up, fr), v(rgt, up, fr));
        push3(&mut vertices, v(l, dn, nr), v(rgt, dn, nr), v(rgt, dn, fr));
        push3(&mut vertices, v(l, dn, nr), v(rgt, dn, fr), v(l, dn, fr));
        proof {
            assert forall|i: int| 0 <= i < vertices.len() implies v3_bounded(
                #[trigger] vertices[i],
                COORD_ABS_MAX as int,
            ) by {}
        }
        let material = Material {
            diffuse: Diffuse::Color(RGB { r: FP_ONE, g: FP_ONE, b: FP_ONE }),
            emissive: RGB { r: 0, g: 0, b: 0 },
            specular: None,
            index_of_refraction: FP_ONE,
        };
        let geometry = Geometry::new(vertices, material);
        let mut geometries: Vec<Geometry> = Vec::new();
        geometries.push(geometry);
        let mut lights: Vec<Light> = Vec::new();
        lights.push(
            Light {
                pos: Vec3 { x: 3 * BOX_HALF, y: 2 * BOX_HALF, z: -2 * BOX_HALF },
                color: RGB { r: FP_ONE, g: FP_ONE, b: FP_ONE },
            },
        );
        let camera = Camera::new(640, 480, &Vec3 { x: 0, y: 0, z: 0 }, 60 * FP_ONE);
        let mut cameras: Vec<Camera> = Vec::new();
        cameras.push(camera);
        let scene = Scene { geometries, lights, cameras, textures: Vec::new() };
        Ok(scene)
    }
}

/// Shorthand for a vertex.
fn v(x: i64, y: i64, z: i64) -> (r: Vec3)
    ensures
        r == (Vec3 { x, y, z }),
{
    Vec3 { x, y, z }
}

/// Push one triangle's three vertices.
fn push3(vertices: &mut Vec<Vec3>, a: Vec3, b: Vec3, c: Vec3)
    ensures
        final(vertices)@ == old(vertices)@.push(a).push(b).push(c),
{
    vertices.push(a);
    vertices.push(b);
    vertices.push(c);
}

} // verus!
