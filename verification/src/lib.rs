//! A progressive CPU path tracer over fixed-point arithmetic, with a small
//! XML parsing library used by its scene tooling.
pub mod fixed;
pub mod vecmath;
pub mod intersect;
pub mod color;
pub mod film;
pub mod camera;
pub mod texture;
pub mod scene;
pub mod accel;
pub mod parsers;
pub mod xml;
pub mod tonemap;
pub mod raytracer;
pub mod boxloader;
pub mod timing;

use vstd::prelude::*;

verus! {

} // verus!
