//! Sphere geometry and its ray / segment intersection.
//!
//! The quadratic `|O + tD - c|^2 = r^2` is solved exactly over wide
//! integers: `a`, `half_b` and the constant term are exact sums of raw
//! component products (scale-squared units), and the discriminant
//! `half_b^2 - a*c` is exact in scale-to-the-fourth units. Rounding enters
//! only in the final division that produces the ray parameter.

use vstd::prelude::*;

verus! {

use crate::fixed::{
    lemma_mul_bounds_abs, lemma_sqrt_lt, lemma_square_bounds, sqrt_of, tdiv, tdiv_i128,
    isqrt_u128, EPS, SCALE,
};
use crate::material::Material;
use crate::ray::{ray_point, Ray, Segment, POINT_MAX, T_LIMIT};
use crate::vec3::{unit_vec, vsub, Vec3, COORD_MAX, NORM_MAX};

/// Discriminant tolerance, in scale-to-the-fourth units (1/32 of a unit):
/// a discriminant this close below zero counts as a tangent hit rather than
/// a miss, which avoids flicker at grazing angles.
pub const DISC_EPS: i128 = 576460752303423488;

#[derive(Clone, Copy, Debug, PartialEq, Eq, Structural)]
pub struct Sphere {
    pub radius: i64,
    pub position: Vec3,
    pub material: Material,
}

impl Sphere {
    pub open spec fn wf(&self) -> bool {
        0 <= self.radius <= COORD_MAX && self.position.in_range(COORD_MAX as int)
            && self.material.wf()
    }

    /// Quadratic coefficient `D . D` (exact, scale-squared units).
    pub open spec fn qa(&self, ray: Ray) -> int {
        ray.direction.norm2()
    }

    /// Half the linear coefficient, `(O - c) . D` (exact).
    pub open spec fn qhalf_b(&self, ray: Ray) -> int {
        (ray.origin.x - self.position.x) * ray.direction.x + (ray.origin.y - self.position.y)
            * ray.direction.y + (ray.origin.z - self.position.z) * ray.direction.z
    }

    /// Constant term `(O - c) . (O - c) - r^2` (exact).
    pub open spec fn qc(&self, ray: Ray) -> int {
        (ray.origin.x - self.position.x) * (ray.origin.x - self.position.x) + (ray.origin.y
            - self.position.y) * (ray.origin.y - self.position.y) + (ray.origin.z
            - self.position.z) * (ray.origin.z - self.position.z) - self.radius * self.radius
    }

    /// Discriminant `half_b^2 - a * c` (exact, scale-to-the-fourth units).
    pub open spec fn disc(&self, ray: Ray) -> int {
        self.qhalf_b(ray) * self.qhalf_b(ray) - self.qa(ray) * self.qc(ray)
    }

    /// The discriminant after tangent promotion: a value within `DISC_EPS`
    /// below zero is promoted to an exact tangent.
    pub open spec fn disc_adj(&self, ray: Ray) -> int {
        if self.disc(ray) < 0 && self.disc(ray) >= -DISC_EPS {
            0
        } else {
            self.disc(ray)
        }
    }

    /// The nearer quadratic root, as a fixed-point ray parameter.
    pub open spec fn t_near(&self, ray: Ray) -> int {
        tdiv((-self.qhalf_b(ray) - sqrt_of(self.disc_adj(ray))) * SCALE, self.qa(ray))
    }

    /// The farther quadratic root.
    pub open spec fn t_far(&self, ray: Ray) -> int {
        tdiv((-self.qhalf_b(ray) + sqrt_of(self.disc_adj(ray))) * SCALE, self.qa(ray))
    }

    /// The root the intersection reports: the nearer one if it lies ahead
    /// of the origin, else the farther one.
    pub open spec fn t_chosen(&self, ray: Ray) -> int {
        if self.t_near(ray) > EPS {
            self.t_near(ray)
        } else {
            self.t_far(ray)
        }
    }

    /// The full intersection policy. `None` exactly when: the direction is
    /// degenerate (`a == 0`), the discriminant lies below the tangent
    /// tolerance, both roots lie within `EPS` of the origin, or the chosen
    /// root lies beyond `T_LIMIT`.
    pub open spec fn hit_spec(&self, ray: Ray) -> Option<(i64, Vec3, Vec3)> {
        if self.qa(ray) == 0 {
            None
        } else if self.disc_adj(ray) < 0 {
            None
        } else {
            let t = self.t_chosen(ray);
            if t <= EPS || t > T_LIMIT {
                None
            } else {
                let p = ray_point(ray, t);
                Some((t as i64, p, unit_vec(vsub(p, self.position))))
            }
        }
    }

    pub fn new(radius: i64, position: Vec3, material: Material) -> (s: Sphere)
        requires
            0 <= radius <= COORD_MAX,
            position.in_range(COORD_MAX as int),
            material.wf(),
        ensures
            s == (Sphere { radius, position, material }),
            s.wf(),
    {
        Sphere { radius, position, material }
    }

    pub fn material(&self) -> (m: &Material)
        ensures
            *m == self.material,
    {
        &self.material
    }

    /// Nearest epsilon-tolerant intersection of `ray` with this sphere.
    pub fn intersects_ray(&self, ray: &Ray) -> (res: Option<(i64, Vec3, Vec3)>)
        requires
            self.wf(),
            ray.wf(),
        ensures
            res == self.hit_spec(*ray),
            res matches Some(h) ==> EPS < h.0 <= T_LIMIT && h.1.in_range(POINT_MAX as int)
                && h.2.in_range(SCALE as int),
    {
        let ocx: i64 = ray.origin.x - self.position.x;
        let ocy: i64 = ray.origin.y - self.position.y;
        let ocz: i64 = ray.origin.z - self.position.z;
        let dx: i64 = ray.direction.x;
        let dy: i64 = ray.direction.y;
        let dz: i64 = ray.direction.z;
        proof {
            lemma_square_bounds(dx as int, 536870912);
            lemma_square_bounds(dy as int, 536870912);
            lemma_square_bounds(dz as int, 536870912);
            lemma_square_bounds(ocx as int, 1073741824);
            lemma_square_bounds(ocy as int, 1073741824);
            lemma_square_bounds(ocz as int, 1073741824);
            lemma_square_bounds(self.radius as int, 536870912);
            lemma_mul_bounds_abs(ocx as int, dx as int, 1073741824, 536870912);
            lemma_mul_bounds_abs(ocy as int, dy as int, 1073741824, 536870912);
            lemma_mul_bounds_abs(ocz as int, dz as int, 1073741824, 536870912);
        }
        let a: i128 = (dx as i128) * (dx as i128) + (dy as i128) * (dy as i128) + (dz as i128)
            * (dz as i128);
        let half_b: i128 = (ocx as i128) * (dx as i128) + (ocy as i128) * (dy as i128)
            + (ocz as i128) * (dz as i128);
        let c: i128 = (ocx as i128) * (ocx as i128) + (ocy as i128) * (ocy as i128) + (ocz as i128)
            * (ocz as i128) - (self.radius as i128) * (self.radius as i128);
        if a == 0 {
            return None;
        }
        proof {
            lemma_mul_bounds_abs(half_b as int, half_b as int, 0x2000000000000000,
                0x2000000000000000);
            lemma_mul_bounds_abs(a as int, c as int, 0x1800000000000000, 0x4000000000000000);
        }
        let disc: i128 = half_b * half_b - a * c;
        let disc_adj: i128 = if disc < 0 {
            if disc >= -DISC_EPS {
                0
            } else {
                return None;
            }
        } else {
            disc
        };
        proof {
            assert(0x8000000000000000int * 0x8000000000000000int
                > 0x2000000000000000int * 0x2000000000000000int
                + 0x1800000000000000int * 0x4000000000000000int);
            lemma_sqrt_lt(disc_adj as int, 0x8000000000000000);
        }
        let sq: i128 = isqrt_u128(disc_adj as u128) as i128;
        let t_near: i128 = tdiv_i128((-half_b - sq) * 65536, a);
        let t: i128 = if t_near > EPS as i128 {
            t_near
        } else {
            let t_far: i128 = tdiv_i128((-half_b + sq) * 65536, a);
            if t_far > EPS as i128 {
                t_far
            } else {
                return None;
            }
        };
        if t > T_LIMIT as i128 {
            return None;
        }
        let ti: i64 = t as i64;
        let p: Vec3 = ray.at(ti);
        let n: Vec3 = p.sub(&self.position).normalized();
        Some((ti, p, n))
    }

    /// The canonical intersection entry point for a scene object.
    pub fn intersects(&self, ray: &Ray) -> (res: Option<(i64, Vec3, Vec3)>)
        requires
            self.wf(),
            ray.wf(),
        ensures
            res == self.hit_spec(*ray),
            res matches Some(h) ==> EPS < h.0 <= T_LIMIT && h.1.in_range(POINT_MAX as int)
                && h.2.in_range(SCALE as int),
    {
        self.intersects_ray(ray)
    }

    /// Bounded intersection: run the ray query along the segment's
    /// normalized direction and keep only hits within the segment's length
    /// (plus tolerance).
    pub fn intersects_segment(&self, segment: &Segment) -> (res: Option<(i64, Vec3, Vec3)>)
        requires
            self.wf(),
            segment.wf(),
        ensures
            res == segment_gate(self.hit_spec(segment_ray(*segment)), *segment),
    {
        let dir: Vec3 = segment.end.sub(&segment.start).normalized();
        let ray = Ray { origin: segment.start, direction: dir };
        let hit = self.intersects_ray(&ray);
        match hit {
            Some((t, point, normal)) => {
                let span: Vec3 = segment.end.sub(&segment.start);
                proof {
                    crate::vec3::lemma_norm2_nonneg(span);
                    lemma_square_bounds(span.x as int, 1073741824);
                    lemma_square_bounds(span.y as int, 1073741824);
                    lemma_square_bounds(span.z as int, 1073741824);
                    assert(0x80000000int * 0x80000000int > 3 * (1073741824int * 1073741824int));
                    lemma_sqrt_lt(span.norm2(), 0x80000000);
                }
                let seg_len: i64 = span.length();
                if t <= seg_len + EPS {
                    Some((t, point, normal))
                } else {
                    None
                }
            },
            None => None,
        }
    }
}

/// A ray aimed exactly at the center of a sphere, from an origin outside
/// it, always hits, with a strictly positive parameter: for such a ray the
/// discriminant works out to `a * r^2`, which is never negative, and a
/// root lies between one and two lengths of the direction vector.
pub proof fn lemma_ray_toward_center_hits(s: Sphere, ray: Ray)
    requires
        s.wf(),
        ray.wf(),
        ray.direction == vsub(s.position, ray.origin),
        s.qc(ray) > 0,
    ensures
        s.hit_spec(ray) is Some,
        s.hit_spec(ray) matches Some(h) ==> h.0 > 0,
{
    let ox = ray.origin.x as int;
    let oy = ray.origin.y as int;
    let oz = ray.origin.z as int;
    let cx = s.position.x as int;
    let cy = s.position.y as int;
    let cz = s.position.z as int;
    let dx = ray.direction.x as int;
    let dy = ray.direction.y as int;
    let dz = ray.direction.z as int;
    assert(dx == cx - ox && dy == cy - oy && dz == cz - oz);
    let a = s.qa(ray);
    let hb = s.qhalf_b(ray);
    let c = s.qc(ray);
    let r = s.radius as int;
    assert(hb == -a) by (nonlinear_arith)
        requires
            dx == cx - ox,
            dy == cy - oy,
            dz == cz - oz,
            a == dx * dx + dy * dy + dz * dz,
            hb == (ox - cx) * dx + (oy - cy) * dy + (oz - cz) * dz,
    ;
    assert(c == a - r * r) by (nonlinear_arith)
        requires
            dx == cx - ox,
            dy == cy - oy,
            dz == cz - oz,
            a == dx * dx + dy * dy + dz * dz,
            c == (ox - cx) * (ox - cx) + (oy - cy) * (oy - cy) + (oz - cz) * (oz - cz) - r * r,
    ;
    assert(s.disc(ray) == a * (r * r)) by (nonlinear_arith)
        requires
            hb == -a,
            c == a - r * r,
            s.disc(ray) == hb * hb - a * c,
    ;
    assert(r * r >= 0) by (nonlinear_arith);
    assert(a > r * r);
    assert(a > 0);
    assert(a * (r * r) >= 0) by (nonlinear_arith)
        requires
            a > 0,
            r * r >= 0,
    ;
    assert(s.disc_adj(ray) == a * (r * r));
    assert(a * (r * r) < a * a) by (nonlinear_arith)
        requires
            r * r < a,
            a > 0,
    ;
    lemma_sqrt_lt(a * (r * r), a);
    crate::fixed::lemma_sqrt_exists((a * (r * r)) as nat);
    let sq = sqrt_of(s.disc_adj(ray));
    assert(0 <= sq < a);
    // both roots lie between one and two lengths of the direction vector
    crate::fixed::lemma_tdiv_nonneg((-hb - sq) * SCALE, a);
    crate::fixed::lemma_tdiv_nonneg((-hb + sq) * SCALE, a);
    vstd::arithmetic::div_mod::lemma_div_is_ordered((a - sq) * SCALE, a * SCALE, a);
    vstd::arithmetic::div_mod::lemma_div_is_ordered(a * SCALE, (a + sq) * SCALE, a);
    assert((a + sq) * 65536 <= a * 131072) by (nonlinear_arith)
        requires
            0 <= sq <= a,
    ;
    vstd::arithmetic::div_mod::lemma_div_is_ordered((a + sq) * SCALE, a * (2 * SCALE), a);
    vstd::arithmetic::div_mod::lemma_div_multiples_vanish(SCALE as int, a);
    vstd::arithmetic::div_mod::lemma_div_multiples_vanish(2 * SCALE, a);
    assert(s.t_near(ray) <= SCALE);
    assert(SCALE <= s.t_far(ray) <= 2 * SCALE);
    assert(EPS < s.t_chosen(ray) <= 2 * SCALE);
}

/// The ray a segment query runs: from the start, along the normalized
/// segment direction.
pub open spec fn segment_ray(seg: Segment) -> Ray {
    Ray { origin: seg.start, direction: unit_vec(vsub(seg.end, seg.start)) }
}

/// Keep a hit only if its parameter lies within the segment's length plus
/// tolerance.
pub open spec fn segment_gate(hit: Option<(i64, Vec3, Vec3)>, seg: Segment) -> Option<
    (i64, Vec3, Vec3),
> {
    match hit {
        Some(h) => {
            if h.0 <= sqrt_of(vsub(seg.end, seg.start).norm2()) + EPS {
                Some(h)
            } else {
                None
            }
        },
        None => None,
    }
}

} // verus!
