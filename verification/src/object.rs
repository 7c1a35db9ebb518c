//! The closed set of scene objects: a sphere or an infinite plane, each
//! owning its material.

use vstd::prelude::*;

verus! {

use crate::fixed::{EPS, SCALE};
use crate::infinite_plane::InfinitePlane;
use crate::material::Material;
use crate::ray::{Ray, POINT_MAX, T_LIMIT};
use crate::sphere::Sphere;
use crate::vec3::Vec3;

#[derive(Clone, Copy, Debug, PartialEq, Eq, Structural)]
pub enum Object {
    Sphere(Sphere),
    InfinitePlane(InfinitePlane),
}

impl Object {
    pub open spec fn wf(&self) -> bool {
        match *self {
            Object::Sphere(s) => s.wf(),
            Object::InfinitePlane(p) => p.wf(),
        }
    }

    /// The intersection policy of the owned shape.
    pub open spec fn hit_spec(&self, ray: Ray) -> Option<(i64, Vec3, Vec3)> {
        match *self {
            Object::Sphere(s) => s.hit_spec(ray),
            Object::InfinitePlane(p) => p.hit_spec(ray),
        }
    }

    /// The owned material.
    pub open spec fn material_spec(&self) -> Material {
        match *self {
            Object::Sphere(s) => s.material,
            Object::InfinitePlane(p) => p.material,
        }
    }

    /// Dispatch the intersection to the owned shape.
    pub fn intersects(&self, ray: &Ray) -> (res: Option<(i64, Vec3, Vec3)>)
        requires
            self.wf(),
            ray.wf(),
        ensures
            res == self.hit_spec(*ray),
            res matches Some(h) ==> EPS <= h.0 <= T_LIMIT && h.1.in_range(POINT_MAX as int)
                && h.2.in_range(SCALE as int),
    {
        match self {
            Object::Sphere(s) => s.intersects_ray(ray),
            Object::InfinitePlane(p) => p.intersects_ray(ray),
        }
    }

    pub fn material(&self) -> (m: &Material)
        ensures
            *m == self.material_spec(),
    {
        match self {
            Object::Sphere(s) => s.material(),
            Object::InfinitePlane(p) => p.material(),
        }
    }
}

} // verus!
