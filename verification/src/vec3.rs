//! Three-component fixed-point vectors: arithmetic, dot product, length and
//! normalization.

use vstd::prelude::*;

verus! {

use crate::fixed::{
    is_sqrt, lemma_sqrt_dominates, lemma_sqrt_exists, lemma_sqrt_lt, lemma_tdiv_bound, sqrt_of,
    tdiv, tdiv_i128, isqrt_u128, SCALE,
};
/// Bound on the coordinates of user-supplied points, directions and centers.
pub const COORD_MAX: i64 = 536870912;

/// Bound on the coordinates a vector may have when it is measured or
/// normalized; intersection points stay well inside it.
pub const NORM_MAX: i64 = 18014398509481984;

/// A vector of three fixed-point components.
#[derive(Clone, Copy, Debug, PartialEq, Eq, Structural)]
pub struct Vec3 {
    pub x: i64,
    pub y: i64,
    pub z: i64,
}

/// The exact inner product of two vectors, in squared raw units.
pub open spec fn dot_raw(u: Vec3, v: Vec3) -> int {
    u.x * v.x + u.y * v.y + u.z * v.z
}

/// The fixed-point inner product: the exact one, rescaled.
pub open spec fn dot_fp(u: Vec3, v: Vec3) -> int {
    tdiv(dot_raw(u, v), SCALE as int)
}

/// Component-wise sum, as the executable code computes it.
pub open spec fn vadd(a: Vec3, b: Vec3) -> Vec3 {
    Vec3 { x: (a.x + b.x) as i64, y: (a.y + b.y) as i64, z: (a.z + b.z) as i64 }
}

/// Component-wise difference, as the executable code computes it.
pub open spec fn vsub(a: Vec3, b: Vec3) -> Vec3 {
    Vec3 { x: (a.x - b.x) as i64, y: (a.y - b.y) as i64, z: (a.z - b.z) as i64 }
}

/// The normalization of `v`: each component is rescaled by the vector's
/// integer length. A zero-length vector normalizes to the zero vector;
/// that is this crate's documented choice for the degenerate input.
pub open spec fn unit_vec(v: Vec3) -> Vec3 {
    let n2 = v.norm2();
    if n2 == 0 {
        Vec3 { x: 0, y: 0, z: 0 }
    } else {
        let len = sqrt_of(n2);
        Vec3 {
            x: tdiv(v.x * SCALE, len) as i64,
            y: tdiv(v.y * SCALE, len) as i64,
            z: tdiv(v.z * SCALE, len) as i64,
        }
    }
}

/// Each component of a normalization lies within one unit, so the spec-level
/// narrowing in `unit_vec` never truncates.
pub proof fn lemma_unit_vec_bounds(v: Vec3)
    ensures
        -SCALE <= unit_vec(v).x <= SCALE,
        -SCALE <= unit_vec(v).y <= SCALE,
        -SCALE <= unit_vec(v).z <= SCALE,
        unit_vec(v).x == unit_component(v.x as int, v.norm2()),
        unit_vec(v).y == unit_component(v.y as int, v.norm2()),
        unit_vec(v).z == unit_component(v.z as int, v.norm2()),
{
    let n2 = v.norm2();
    lemma_norm2_nonneg(v);
    if n2 != 0 {
        lemma_sqrt_exists(n2 as nat);
        let len = sqrt_of(n2);
        assert(is_sqrt(n2, len));
        assert(len >= 1) by (nonlinear_arith)
            requires
                n2 >= 1,
                0 <= len,
                n2 < (len + 1) * (len + 1),
        ;
        lemma_unit_component_bound(v.x as int, v, len);
        lemma_unit_component_bound(v.y as int, v, len);
        lemma_unit_component_bound(v.z as int, v, len);
    }
}

/// One component of a normalization, before narrowing.
pub open spec fn unit_component(c: int, n2: int) -> int {
    if n2 == 0 {
        0
    } else {
        tdiv(c * SCALE, sqrt_of(n2))
    }
}

proof fn lemma_unit_component_bound(c: int, v: Vec3, len: int)
    requires
        len == sqrt_of(v.norm2()),
        len >= 1,
        c == v.x || c == v.y || c == v.z,
    ensures
        -SCALE <= tdiv(c * SCALE, len) <= SCALE,
{
    let n2 = v.norm2();
    assert(c * c <= n2) by (nonlinear_arith)
        requires
            n2 == v.x * v.x + v.y * v.y + v.z * v.z,
            c == v.x || c == v.y || c == v.z,
    ;
    lemma_norm2_nonneg(v);
    lemma_sqrt_dominates(n2, c);
    assert(-len <= c <= len);
    assert(-(65536 * len) <= c * 65536 <= 65536 * len);
    lemma_tdiv_bound(c * SCALE, len, SCALE as int);
}

/// A sum of squares is nonnegative.
pub proof fn lemma_norm2_nonneg(v: Vec3)
    ensures
        v.norm2() >= 0,
        v.x * v.x <= v.norm2(),
        v.y * v.y <= v.norm2(),
        v.z * v.z <= v.norm2(),
        v.norm2() == 0 ==> v.x == 0 && v.y == 0 && v.z == 0,
{
    assert(v.x * v.x >= 0 && v.y * v.y >= 0 && v.z * v.z >= 0) by (nonlinear_arith);
    assert(v.x != 0 ==> v.x * v.x >= 1) by (nonlinear_arith);
    assert(v.y != 0 ==> v.y * v.y >= 1) by (nonlinear_arith);
    assert(v.z != 0 ==> v.z * v.z >= 1) by (nonlinear_arith);
}

impl Vec3 {
    /// All components within `[-b, b]`.
    pub open spec fn in_range(&self, b: int) -> bool {
        -b <= self.x <= b && -b <= self.y <= b && -b <= self.z <= b
    }

    /// The exact squared length, in squared raw units.
    pub open spec fn norm2(&self) -> int {
        dot_raw(*self, *self)
    }

    pub fn new(x: i64, y: i64, z: i64) -> (v: Vec3)
        ensures
            v == (Vec3 { x, y, z }),
    {
        Vec3 { x, y, z }
    }

    /// Component-wise sum.
    pub fn add(&self, other: &Vec3) -> (r: Vec3)
        requires
            i64::MIN <= self.x + other.x <= i64::MAX,
            i64::MIN <= self.y + other.y <= i64::MAX,
            i64::MIN <= self.z + other.z <= i64::MAX,
        ensures
            r == vadd(*self, *other),
            r.x == self.x + other.x,
            r.y == self.y + other.y,
            r.z == self.z + other.z,
    {
        Vec3 { x: self.x + other.x, y: self.y + other.y, z: self.z + other.z }
    }

    /// Component-wise difference.
    pub fn sub(&self, other: &Vec3) -> (r: Vec3)
        requires
            i64::MIN <= self.x - other.x <= i64::MAX,
            i64::MIN <= self.y - other.y <= i64::MAX,
            i64::MIN <= self.z - other.z <= i64::MAX,
        ensures
            r == vsub(*self, *other),
            r.x == self.x - other.x,
            r.y == self.y - other.y,
            r.z == self.z - other.z,
    {
        Vec3 { x: self.x - other.x, y: self.y - other.y, z: self.z - other.z }
    }

    /// The fixed-point dot product.
    pub fn dot(&self, other: &Vec3) -> (r: i64)
        requires
            self.in_range(274877906944),
            other.in_range(274877906944),
        ensures
            r == dot_fp(*self, *other),
            -3458764513820540928 <= r <= 3458764513820540928,
    {
        proof {
            let b: int = 274877906944int * 274877906944int;
            assert(-b <= self.x as int * other.x as int <= b) by (nonlinear_arith)
                requires
                    -274877906944 <= self.x <= 274877906944,
                    -274877906944 <= other.x <= 274877906944,
                    b == 274877906944int * 274877906944int,
            ;
            assert(-b <= self.y as int * other.y as int <= b) by (nonlinear_arith)
                requires
                    -274877906944 <= self.y <= 274877906944,
                    -274877906944 <= other.y <= 274877906944,
                    b == 274877906944int * 274877906944int,
            ;
            assert(-b <= self.z as int * other.z as int <= b) by (nonlinear_arith)
                requires
                    -274877906944 <= self.z <= 274877906944,
                    -274877906944 <= other.z <= 274877906944,
                    b == 274877906944int * 274877906944int,
            ;
            lemma_tdiv_bound(dot_raw(*self, *other), SCALE as int, 3458764513820540928);
        }
        let sum: i128 = (self.x as i128) * (other.x as i128) + (self.y as i128) * (other.y as i128)
            + (self.z as i128) * (other.z as i128);
        let q: i128 = tdiv_i128(sum, 65536);
        q as i64
    }

    /// The integer length: the exact square root of the squared length.
    pub fn length(&self) -> (r: i64)
        requires
            self.in_range(NORM_MAX as int),
        ensures
            r == sqrt_of(self.norm2()),
            is_sqrt(self.norm2(), r as int),
            r >= 0,
    {
        proof {
            lemma_norm2_nonneg(*self);
            assert(self.x as int * self.x as int <= 324518553658426726783156020576256int)
                by (nonlinear_arith)
                requires
                    -18014398509481984 <= self.x <= 18014398509481984,
            ;
            assert(self.y as int * self.y as int <= 324518553658426726783156020576256int)
                by (nonlinear_arith)
                requires
                    -18014398509481984 <= self.y <= 18014398509481984,
            ;
            assert(self.z as int * self.z as int <= 324518553658426726783156020576256int)
                by (nonlinear_arith)
                requires
                    -18014398509481984 <= self.z <= 18014398509481984,
            ;
        }
        let n2: i128 = (self.x as i128) * (self.x as i128) + (self.y as i128) * (self.y as i128)
            + (self.z as i128) * (self.z as i128);
        let r = isqrt_u128(n2 as u128);
        proof {
            assert(36028797018963968int * 36028797018963968int
                > 3 * 324518553658426726783156020576256int);
            lemma_sqrt_lt(self.norm2(), 36028797018963968);
        }
        r as i64
    }

    /// Normalize to (fixed-point) unit length; the zero vector maps to itself.
    pub fn normalized(&self) -> (r: Vec3)
        requires
            self.in_range(NORM_MAX as int),
        ensures
            r == unit_vec(*self),
            r.in_range(SCALE as int),
    {
        let len: i64 = self.length();
        proof {
            lemma_unit_vec_bounds(*self);
            lemma_norm2_nonneg(*self);
            if len == 0 {
                assert(self.norm2() < 1);
            } else {
                assert(len as int * len as int >= 1) by (nonlinear_arith)
                    requires
                        len >= 1,
                ;
                assert(self.norm2() != 0);
            }
        }
        if len == 0 {
            Vec3 { x: 0, y: 0, z: 0 }
        } else {
            let x: i128 = tdiv_i128((self.x as i128) * 65536, len as i128);
            let y: i128 = tdiv_i128((self.y as i128) * 65536, len as i128);
            let z: i128 = tdiv_i128((self.z as i128) * 65536, len as i128);
            Vec3 { x: x as i64, y: y as i64, z: z as i64 }
        }
    }
}

} // verus!
