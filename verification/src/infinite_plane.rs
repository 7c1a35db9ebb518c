//! Infinite plane geometry and its ray / segment intersection.
//!
//! The plane is one-sided only in the sense that its stored normal is never
//! flipped toward the incoming ray; the normal is normalized once, at
//! construction.

use vstd::prelude::*;

verus! {

use crate::fixed::{
    lemma_mul_bounds_abs, lemma_sqrt_lt, lemma_square_bounds, lemma_tdiv_mag, sqrt_of, tdiv,
    tdiv_i128, EPS, SCALE,
};
use crate::material::Material;
use crate::ray::{ray_point, Ray, Segment, POINT_MAX, T_LIMIT};
use crate::sphere::{segment_gate, segment_ray};
use crate::vec3::{dot_fp, unit_vec, vsub, Vec3, COORD_MAX};

#[derive(Clone, Copy, Debug, PartialEq, Eq, Structural)]
pub struct InfinitePlane {
    pub position: Vec3,
    pub normal: Vec3,
    pub material: Material,
}

impl InfinitePlane {
    pub open spec fn wf(&self) -> bool {
        self.position.in_range(COORD_MAX as int) && self.normal.in_range(SCALE as int)
            && self.material.wf()
    }

    /// The fixed-point denominator `n . D`; within `EPS` of zero the ray
    /// counts as parallel.
    pub open spec fn denom(&self, ray: Ray) -> int {
        dot_fp(self.normal, ray.direction)
    }

    /// The exact numerator `(p - O) . n`, in scale-squared units.
    pub open spec fn numer(&self, ray: Ray) -> int {
        (self.position.x - ray.origin.x) * self.normal.x + (self.position.y - ray.origin.y)
            * self.normal.y + (self.position.z - ray.origin.z) * self.normal.z
    }

    /// The fixed-point ray parameter of the plane crossing.
    pub open spec fn t_of(&self, ray: Ray) -> int {
        tdiv(self.numer(ray), self.denom(ray))
    }

    /// The full intersection policy. `None` exactly when: the ray is
    /// parallel within tolerance, the crossing lies within `EPS` of the
    /// origin (or behind it), or it lies beyond `T_LIMIT`. The reported
    /// normal is always the plane's stored normal.
    pub open spec fn hit_spec(&self, ray: Ray) -> Option<(i64, Vec3, Vec3)> {
        if -EPS < self.denom(ray) < EPS {
            None
        } else {
            let t = self.t_of(ray);
            if t < EPS || t > T_LIMIT {
                None
            } else {
                Some((t as i64, ray_point(ray, t), self.normal))
            }
        }
    }

    /// The stored normal is the normalization of the given one.
    pub fn new(position: Vec3, normal: Vec3, material: Material) -> (p: InfinitePlane)
        requires
            position.in_range(COORD_MAX as int),
            normal.in_range(COORD_MAX as int),
            material.wf(),
        ensures
            p.position == position,
            p.normal == unit_vec(normal),
            p.material == material,
            p.wf(),
    {
        InfinitePlane { position, normal: normal.normalized(), material }
    }

    pub fn material(&self) -> (m: &Material)
        ensures
            *m == self.material,
    {
        &self.material
    }

    /// Epsilon-tolerant intersection of `ray` with this plane.
    pub fn intersects_ray(&self, ray: &Ray) -> (res: Option<(i64, Vec3, Vec3)>)
        requires
            self.wf(),
            ray.wf(),
        ensures
            res == self.hit_spec(*ray),
            res matches Some(h) ==> EPS <= h.0 <= T_LIMIT && h.1.in_range(POINT_MAX as int)
                && h.2.in_range(SCALE as int),
    {
        let denom: i64 = self.normal.dot(&ray.direction);
        if -EPS < denom && denom < EPS {
            return None;
        }
        proof {
            lemma_mul_bounds_abs(
                self.position.x as int - ray.origin.x as int,
                self.normal.x as int,
                1073741824,
                65536,
            );
            lemma_mul_bounds_abs(
                self.position.y as int - ray.origin.y as int,
                self.normal.y as int,
                1073741824,
                65536,
            );
            lemma_mul_bounds_abs(
                self.position.z as int - ray.origin.z as int,
                self.normal.z as int,
                1073741824,
                65536,
            );
        }
        let numer: i128 = ((self.position.x - ray.origin.x) as i128) * (self.normal.x as i128) + ((
        self.position.y - ray.origin.y) as i128) * (self.normal.y as i128) + ((self.position.z
            - ray.origin.z) as i128) * (self.normal.z as i128);
        let t: i128 = tdiv_i128(numer, denom as i128);
        if t < EPS as i128 || t > T_LIMIT as i128 {
            return None;
        }
        let ti: i64 = t as i64;
        let p: Vec3 = ray.at(ti);
        Some((ti, p, self.normal))
    }

    /// The canonical intersection entry point for a scene object.
    pub fn intersects(&self, ray: &Ray) -> (res: Option<(i64, Vec3, Vec3)>)
        requires
            self.wf(),
            ray.wf(),
        ensures
            res == self.hit_spec(*ray),
            res matches Some(h) ==> EPS <= h.0 <= T_LIMIT && h.1.in_range(POINT_MAX as int)
                && h.2.in_range(SCALE as int),
    {
        self.intersects_ray(ray)
    }

    /// Bounded intersection along a segment, as for the sphere.
    pub fn intersects_segment(&self, segment: &Segment) -> (res: Option<(i64, Vec3, Vec3)>)
        requires
            self.wf(),
            segment.wf(),
        ensures
            res == segment_gate(self.hit_spec(segment_ray(*segment)), *segment),
    {
        let dir: Vec3 = segment.end.sub(&segment.start).normalized();
        let ray = Ray { origin: segment.start, direction: dir };
        let hit = self.intersects_ray(&ray);
        match hit {
            Some((t, point, normal)) => {
                let span: Vec3 = segment.end.sub(&segment.start);
                proof {
                    crate::vec3::lemma_norm2_nonneg(span);
                    lemma_square_bounds(span.x as int, 1073741824);
                    lemma_square_bounds(span.y as int, 1073741824);
                    lemma_square_bounds(span.z as int, 1073741824);
                    assert(0x80000000int * 0x80000000int > 3 * (1073741824int * 1073741824int));
                    lemma_sqrt_lt(span.norm2(), 0x80000000);
                }
                let seg_len: i64 = span.length();
                if t <= seg_len + EPS {
                    Some((t, point, normal))
                } else {
                    None
                }
            },
            None => None,
        }
    }
}

/// A ray that runs parallel to a plane misses it, wherever the ray starts:
/// an exactly zero `direction . normal` falls inside the parallel
/// tolerance, so the intersection is `None` for every origin.
pub proof fn lemma_parallel_ray_misses(plane: InfinitePlane, ray: Ray)
    requires
        crate::vec3::dot_raw(ray.direction, plane.normal) == 0,
    ensures
        plane.hit_spec(ray) is None,
{
    assert(crate::vec3::dot_raw(plane.normal, ray.direction) == 0) by (nonlinear_arith)
        requires
            ray.direction.x * plane.normal.x + ray.direction.y * plane.normal.y + ray.direction.z
                * plane.normal.z == 0,
            crate::vec3::dot_raw(plane.normal, ray.direction) == plane.normal.x * ray.direction.x
                + plane.normal.y * ray.direction.y + plane.normal.z * ray.direction.z,
    ;
    assert(plane.denom(ray) == tdiv(0, SCALE as int));
    lemma_tdiv_mag(0, SCALE as int);
}

} // verus!
