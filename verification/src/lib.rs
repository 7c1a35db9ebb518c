//! A small verified ray tracer: pinhole-camera ray generation, ray–geometry
//! intersection for spheres and infinite planes, and multi-light Phong
//! shading, all over fixed-point arithmetic.

pub mod camera;
pub mod color;
pub mod fixed;
pub mod infinite_plane;
pub mod light;
pub mod object;
pub mod phong;
pub mod material;
pub mod ray;
pub mod sphere;
pub mod trig;
pub mod vec3;

use vstd::prelude::*;

verus! {

} // verus!
