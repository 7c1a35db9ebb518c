//! Query primitives for intersection tests: a half-line and a bounded
//! segment.

use vstd::prelude::*;

verus! {

use crate::fixed::{lemma_mul_bounds_abs, lemma_tdiv_bound, tdiv, tdiv_i128, SCALE};
use crate::vec3::{Vec3, COORD_MAX};

/// Largest ray parameter a hit may report; a hit farther out than this is
/// outside the representable scene and is treated as a miss.
pub const T_LIMIT: i64 = 68719476736;

/// Bound on the coordinates of any reported hit point.
pub const POINT_MAX: i64 = 1125899906842624;

/// The point `origin + direction * t / SCALE`, as the executable code
/// computes it.
pub open spec fn ray_point(r: Ray, t: int) -> Vec3 {
    Vec3 {
        x: (r.origin.x + tdiv(r.direction.x * t, SCALE as int)) as i64,
        y: (r.origin.y + tdiv(r.direction.y * t, SCALE as int)) as i64,
        z: (r.origin.z + tdiv(r.direction.z * t, SCALE as int)) as i64,
    }
}

/// A half-line: origin plus direction. The direction need not be unit
/// length; the intersection routines tolerate any scale.
#[derive(Clone, Copy, Debug, PartialEq, Eq, Structural)]
pub struct Ray {
    pub origin: Vec3,
    pub direction: Vec3,
}

impl Ray {
    pub open spec fn wf(&self) -> bool {
        self.origin.in_range(COORD_MAX as int) && self.direction.in_range(COORD_MAX as int)
    }

    pub fn new(origin: Vec3, direction: Vec3) -> (r: Ray)
        ensures
            r == (Ray { origin, direction }),
    {
        Ray { origin, direction }
    }

    /// The point this ray reaches at parameter `t`.
    pub fn at(&self, t: i64) -> (p: Vec3)
        requires
            self.wf(),
            0 <= t <= T_LIMIT,
        ensures
            p == ray_point(*self, t as int),
            p.in_range(POINT_MAX as int),
    {
        proof {
            lemma_mul_bounds_abs(self.direction.x as int, t as int, 536870912, 68719476736);
            lemma_mul_bounds_abs(self.direction.y as int, t as int, 536870912, 68719476736);
            lemma_mul_bounds_abs(self.direction.z as int, t as int, 536870912, 68719476736);
            lemma_tdiv_bound(self.direction.x as int * t as int, 65536, 562949953421312int);
            lemma_tdiv_bound(self.direction.y as int * t as int, 65536, 562949953421312int);
            lemma_tdiv_bound(self.direction.z as int * t as int, 65536, 562949953421312int);
        }
        let x: i128 = (self.origin.x as i128) + tdiv_i128((self.direction.x as i128) * (t as i128), 65536);
        let y: i128 = (self.origin.y as i128) + tdiv_i128((self.direction.y as i128) * (t as i128), 65536);
        let z: i128 = (self.origin.z as i128) + tdiv_i128((self.direction.z as i128) * (t as i128), 65536);
        Vec3 { x: x as i64, y: y as i64, z: z as i64 }
    }
}

/// A bounded line segment between two points, for occlusion-style queries.
#[derive(Clone, Copy, Debug, PartialEq, Eq, Structural)]
pub struct Segment {
    pub start: Vec3,
    pub end: Vec3,
}

impl Segment {
    pub open spec fn wf(&self) -> bool {
        self.start.in_range(COORD_MAX as int) && self.end.in_range(COORD_MAX as int)
    }

    pub fn new(start: Vec3, end: Vec3) -> (s: Segment)
        ensures
            s == (Segment { start, end }),
    {
        Segment { start, end }
    }
}

} // verus!
