//! Fixed-point scalar arithmetic.
//!
//! Every scalar in this crate is a signed fixed-point number: an `i64` whose
//! value is the stored integer divided by `SCALE`. All intermediate products
//! are taken in `i128`, where they are exact; rounding happens only at the
//! explicit divisions below, which truncate toward zero.

use vstd::prelude::*;

verus! {

use vstd::arithmetic::div_mod::{
    lemma_div_is_ordered,
    lemma_div_multiples_vanish,
    lemma_div_nonincreasing,
    lemma_div_pos_is_pos,
};
use vstd::arithmetic::mul::{lemma_mul_inequality, lemma_mul_is_commutative};

/// One whole unit: 2^16 fractional steps per unit.
pub const SCALE: i64 = 65536;

/// Tolerance for near-zero comparisons on fixed-point values
/// (ray parameters, plane denominators, distance floors).
pub const EPS: i64 = 16;

/// Magnitude of an integer.
pub open spec fn mag(n: int) -> int {
    if n < 0 {
        -n
    } else {
        n
    }
}

/// Truncating division (rounds toward zero), the rounding used by every
/// fixed-point division in this crate.
pub open spec fn tdiv(n: int, d: int) -> int
    recommends
        d != 0,
{
    if (n < 0) == (d < 0) {
        mag(n) / mag(d)
    } else {
        -(mag(n) / mag(d))
    }
}

/// Clamp `x` into `[lo, hi]`.
pub open spec fn clip(x: int, lo: int, hi: int) -> int {
    if x < lo {
        lo
    } else if x > hi {
        hi
    } else {
        x
    }
}

/// `r` is the integer square root of `x`.
pub open spec fn is_sqrt(x: int, r: int) -> bool {
    0 <= r && r * r <= x && x < (r + 1) * (r + 1)
}

/// The integer square root of `x` (meaningful for `x >= 0`).
pub open spec fn sqrt_of(x: int) -> int {
    choose|r: int| is_sqrt(x, r)
}

/// The integer square root is unique.
pub proof fn lemma_sqrt_unique(x: int, r: int)
    requires
        is_sqrt(x, r),
    ensures
        sqrt_of(x) == r,
{
    let c = sqrt_of(x);
    assert(is_sqrt(x, c));
    if c < r {
        assert((c + 1) * (c + 1) <= r * r) by (nonlinear_arith)
            requires
                0 <= c + 1,
                c + 1 <= r,
        ;
    }
    if r < c {
        assert((r + 1) * (r + 1) <= c * c) by (nonlinear_arith)
            requires
                0 <= r + 1,
                r + 1 <= c,
        ;
    }
}

/// Every nonnegative integer has an integer square root.
pub proof fn lemma_sqrt_exists(x: nat)
    ensures
        is_sqrt(x as int, sqrt_of(x as int)),
    decreases x,
{
    if x == 0 {
        assert(is_sqrt(0, 0));
        lemma_sqrt_unique(0, 0);
    } else {
        lemma_sqrt_exists((x - 1) as nat);
        let r = sqrt_of(x - 1);
        assert(is_sqrt(x - 1, r));
        if x < (r + 1) * (r + 1) {
            assert(is_sqrt(x as int, r));
            lemma_sqrt_unique(x as int, r);
        } else {
            assert(x == (r + 1) * (r + 1));
            assert((r + 1) * (r + 1) < (r + 2) * (r + 2)) by (nonlinear_arith)
                requires
                    0 <= r,
            ;
            assert(is_sqrt(x as int, r + 1));
            lemma_sqrt_unique(x as int, r + 1);
        }
    }
}

/// If `x` lies strictly below `b * b`, its square root lies strictly below `b`.
pub proof fn lemma_sqrt_lt(x: int, b: int)
    requires
        0 <= x,
        0 <= b,
        x < b * b,
    ensures
        sqrt_of(x) < b,
{
    lemma_sqrt_exists(x as nat);
    let r = sqrt_of(x);
    assert(r < b) by (nonlinear_arith)
        requires
            0 <= r,
            0 <= b,
            r * r <= x,
            x < b * b,
    ;
}

/// A square never undershoots its summands: `c * c <= x` forces `mag(c) <= sqrt_of(x)`.
pub proof fn lemma_sqrt_dominates(x: int, c: int)
    requires
        0 <= x,
        c * c <= x,
    ensures
        mag(c) <= sqrt_of(x),
{
    lemma_sqrt_exists(x as nat);
    let r = sqrt_of(x);
    assert(mag(c) <= r) by (nonlinear_arith)
        requires
            0 <= r,
            c * c <= x,
            x < (r + 1) * (r + 1),
    ;
}

/// Binary-search integer square root on the full `u128` range.
pub fn isqrt_u128(x: u128) -> (r: u128)
    ensures
        is_sqrt(x as int, r as int),
        r == sqrt_of(x as int),
        r <= 0xffff_ffff_ffff_ffff,
{
    let mut lo: u128 = 0;
    let mut hi: u128 = 0x1_0000_0000_0000_0000;
    proof {
        assert((0x1_0000_0000_0000_0000 as int) * (0x1_0000_0000_0000_0000 as int) > u128::MAX as int);
    }
    while hi - lo > 1
        invariant
            lo < hi,
            hi <= 0x1_0000_0000_0000_0000,
            (lo as int) * (lo as int) <= x as int,
            (x as int) < (hi as int) * (hi as int),
        decreases hi - lo,
    {
        let mid: u128 = lo + (hi - lo) / 2;
        proof {
            assert((mid as int) * (mid as int) <= u128::MAX as int) by (nonlinear_arith)
                requires
                    mid < 0x1_0000_0000_0000_0000,
            ;
        }
        if mid * mid <= x {
            lo = mid;
        } else {
            hi = mid;
        }
    }
    proof {
        lemma_sqrt_unique(x as int, lo as int);
    }
    lo
}

/// Truncating division on `i128`, implemented over unsigned magnitudes.
pub fn tdiv_i128(n: i128, d: i128) -> (q: i128)
    requires
        d != 0,
        n != i128::MIN,
        d != i128::MIN,
    ensures
        q == tdiv(n as int, d as int),
{
    let neg: bool = (n < 0) != (d < 0);
    let na: u128 = if n < 0 {
        (-n) as u128
    } else {
        n as u128
    };
    let da: u128 = if d < 0 {
        (-d) as u128
    } else {
        d as u128
    };
    assert(na as int == mag(n as int));
    assert(da as int == mag(d as int));
    let qa: u128 = na / da;
    proof {
        lemma_div_nonincreasing(na as int, da as int);
    }
    if neg {
        -(qa as i128)
    } else {
        qa as i128
    }
}

/// The quotient of magnitudes bounds a truncating quotient.
pub proof fn lemma_tdiv_mag(n: int, d: int)
    requires
        d != 0,
    ensures
        mag(tdiv(n, d)) == mag(n) / mag(d),
        mag(tdiv(n, d)) <= mag(n),
        tdiv(n, d) <= mag(n),
        -mag(n) <= tdiv(n, d),
{
    lemma_div_pos_is_pos(mag(n), mag(d));
    lemma_div_nonincreasing(mag(n), mag(d));
}

/// Dividing something no bigger than `b * d` by `d` stays within `b`.
pub proof fn lemma_tdiv_bound(n: int, d: int, b: int)
    requires
        d >= 1,
        b >= 0,
        -(b * d) <= n <= b * d,
    ensures
        -b <= tdiv(n, d) <= b,
{
    lemma_tdiv_mag(n, d);
    assert(mag(n) <= b * d);
    lemma_div_is_ordered(mag(n), b * d, d);
    lemma_mul_is_commutative(b, d);
    lemma_div_multiples_vanish(b, d);
    assert((b * d) / d == b);
}

/// Truncating division of nonnegative values agrees with Euclidean division.
pub proof fn lemma_tdiv_nonneg(n: int, d: int)
    requires
        n >= 0,
        d > 0,
    ensures
        tdiv(n, d) == n / d,
        tdiv(n, d) >= 0,
{
    lemma_div_pos_is_pos(n, d);
}

/// A product of bounded factors is bounded by the product of the bounds.
pub proof fn lemma_mul_bounds_abs(x: int, y: int, bx: int, by: int)
    by (nonlinear_arith)
    requires
        -bx <= x <= bx,
        -by <= y <= by,
        0 <= bx,
        0 <= by,
    ensures
        -(bx * by) <= x * y <= bx * by,
{
}

/// A square of a bounded value is nonnegative and bounded.
pub proof fn lemma_square_bounds(x: int, b: int)
    by (nonlinear_arith)
    requires
        -b <= x <= b,
        0 <= b,
    ensures
        0 <= x * x <= b * b,
{
}

/// Fixed-point power with a nonnegative integer exponent:
/// `pow_fp(b, 0) == SCALE` (one), and each further step multiplies by `b`
/// and rescales.
pub open spec fn pow_fp(b: int, e: nat) -> int
    decreases e,
{
    if e == 0 {
        SCALE as int
    } else {
        tdiv(b * pow_fp(b, (e - 1) as nat), SCALE as int)
    }
}

/// A base within `[0, SCALE]` keeps every power within `[0, SCALE]`.
pub proof fn lemma_pow_fp_bounds(b: int, e: nat)
    requires
        0 <= b <= SCALE,
    ensures
        0 <= pow_fp(b, e) <= SCALE,
    decreases e,
{
    if e > 0 {
        lemma_pow_fp_bounds(b, (e - 1) as nat);
        let p = pow_fp(b, (e - 1) as nat);
        lemma_mul_inequality(0, b, p);
        lemma_mul_inequality(b, SCALE as int, p);
        lemma_mul_is_commutative(SCALE as int, p);
        lemma_tdiv_nonneg(b * p, SCALE as int);
        lemma_div_is_ordered(b * p, SCALE * p, SCALE as int);
        lemma_div_multiples_vanish(p, SCALE as int);
        lemma_div_is_ordered(0, b * p, SCALE as int);
        assert(p <= SCALE);
    }
}

/// Repeated fixed-point multiplication.
pub fn fp_pow(b: i64, e: u32) -> (r: i64)
    requires
        0 <= b <= SCALE,
    ensures
        r == pow_fp(b as int, e as nat),
        0 <= r <= SCALE,
{
    let mut acc: i64 = SCALE;
    let mut i: u32 = 0;
    while i < e
        invariant
            0 <= b <= SCALE,
            i <= e,
            acc == pow_fp(b as int, i as nat),
            0 <= acc <= SCALE,
        decreases e - i,
    {
        proof {
            lemma_pow_fp_bounds(b as int, (i + 1) as nat);
            lemma_tdiv_nonneg(b as int * acc as int, SCALE as int);
        }
        let prod: u128 = (b as u128) * (acc as u128);
        let next: u128 = prod / 65536;
        acc = next as i64;
        i = i + 1;
    }
    acc
}

/// Clamp an `i128` into an `i64` interval.
pub fn clip_i128(x: i128, lo: i64, hi: i64) -> (r: i64)
    requires
        lo <= hi,
    ensures
        r == clip(x as int, lo as int, hi as int),
{
    if x < lo as i128 {
        lo
    } else if x > hi as i128 {
        hi
    } else {
        x as i64
    }
}

} // verus!
