//! Degree-based trigonometric approximations for the camera's field of
//! view, over fixed-point angles.
//!
//! The sine uses the classical rational approximation
//! `sin(x deg) ~= 4*x*(180 - x) / (40500 - x*(180 - x))`, exact at 0, 30,
//! 90, 150 and 180 degrees and within a fraction of a percent in between;
//! the tangent is the ratio of sine to cosine, with the cosine floored at
//! one raw step so a field of view arbitrarily close to a straight angle
//! still yields a finite, deterministic slope.

use vstd::prelude::*;

verus! {

use crate::fixed::{lemma_tdiv_bound, lemma_tdiv_nonneg, tdiv, tdiv_i128, SCALE};

/// 180 degrees, fixed point.
pub const DEG_180: i64 = 11796480;

/// 90 degrees, fixed point.
pub const DEG_90: i64 = 5898240;

/// `sin` of a fixed-point angle in degrees, for angles within `[0, 180]`.
pub open spec fn sin_deg_spec(x: int) -> int {
    let p = x * (11796480 - x);
    tdiv(4 * p * SCALE, 173946175488000 - p)
}

/// `cos x = sin (90 - x)`, for angles within `[0, 90]`.
pub open spec fn cos_deg_spec(x: int) -> int {
    sin_deg_spec(5898240 - x)
}

/// `tan = sin / cos`, with the cosine floored at one raw step.
pub open spec fn tan_deg_spec(x: int) -> int {
    let c = cos_deg_spec(x);
    let cf = if c < 1 {
        1
    } else {
        c
    };
    tdiv(sin_deg_spec(x) * SCALE, cf)
}

/// The sine approximation stays within `[0, SCALE]` on `[0, 180]` degrees.
pub proof fn lemma_sin_bounds(x: int)
    requires
        0 <= x <= 11796480,
    ensures
        0 <= sin_deg_spec(x) <= SCALE,
        0 <= x * (11796480 - x) <= 34789235097600,
{
    let p = x * (11796480 - x);
    assert(0 <= p <= 34789235097600) by (nonlinear_arith)
        requires
            0 <= x <= 11796480,
            p == x * (11796480 - x),
    ;
    lemma_tdiv_nonneg(4 * p * SCALE, 173946175488000 - p);
    lemma_tdiv_bound(4 * p * SCALE, 173946175488000 - p, 65536);
}

/// The executable sine approximation.
pub fn sin_deg(x: i64) -> (r: i64)
    requires
        0 <= x <= DEG_180,
    ensures
        r == sin_deg_spec(x as int),
        0 <= r <= SCALE,
{
    proof {
        lemma_sin_bounds(x as int);
    }
    let p: i128 = (x as i128) * (11796480 - (x as i128));
    let num: i128 = 4 * p * 65536;
    let den: i128 = 173946175488000 - p;
    tdiv_i128(num, den) as i64
}

/// The executable tangent, for angles within `[0, 90)` degrees.
pub fn tan_deg(x: i64) -> (r: i64)
    requires
        0 <= x < DEG_90,
    ensures
        r == tan_deg_spec(x as int),
        0 <= r <= 4294967296,
{
    let s: i64 = sin_deg(x);
    let c: i64 = sin_deg(DEG_90 - x);
    let cf: i64 = if c < 1 {
        1
    } else {
        c
    };
    proof {
        lemma_tdiv_nonneg(s as int * 65536, cf as int);
        lemma_tdiv_bound(s as int * 65536, cf as int, 4294967296);
    }
    tdiv_i128((s as i128) * 65536, cf as i128) as i64
}

} // verus!
