//! RGBA colors with channels in `[0, SCALE]` (zero to full intensity).
//! Arithmetic saturates into that interval; alpha always propagates from the
//! left operand and is never touched by arithmetic.

use vstd::prelude::*;

verus! {

use crate::fixed::{clip, clip_i128, lemma_tdiv_bound, tdiv, tdiv_i128, SCALE};
use vstd::arithmetic::mul::lemma_mul_inequality;

/// A color; each channel is a fixed-point value, valid within `[0, SCALE]`.
#[derive(Clone, Copy, Debug, PartialEq, Eq, Structural)]
pub struct Color {
    pub r: i64,
    pub g: i64,
    pub b: i64,
    pub a: i64,
}

/// One channel of a saturating scale: multiply, rescale, clamp.
pub open spec fn scale_chan(c: int, s: int) -> int {
    clip(tdiv(c * s, SCALE as int), 0, SCALE as int)
}

/// One channel of a saturating channel-wise product.
pub open spec fn mul_chan(c: int, d: int) -> int {
    clip(tdiv(c * d, SCALE as int), 0, SCALE as int)
}

/// One channel of a saturating sum.
pub open spec fn add_chan(c: int, d: int) -> int {
    clip(c + d, 0, SCALE as int)
}

impl Color {
    /// All channels within range.
    pub open spec fn valid(&self) -> bool {
        0 <= self.r <= SCALE && 0 <= self.g <= SCALE && 0 <= self.b <= SCALE && 0 <= self.a
            <= SCALE
    }

    /// Construction demands channels already in range: an out-of-range
    /// channel is a precondition violation, never silently clamped.
    pub fn new(r: i64, g: i64, b: i64, a: i64) -> (c: Color)
        requires
            0 <= r <= SCALE,
            0 <= g <= SCALE,
            0 <= b <= SCALE,
            0 <= a <= SCALE,
        ensures
            c == (Color { r, g, b, a }),
            c.valid(),
    {
        Color { r, g, b, a }
    }

    /// Checked construction for values of unknown provenance.
    pub fn try_new(r: i64, g: i64, b: i64, a: i64) -> (c: Option<Color>)
        ensures
            c is Some <==> 0 <= r <= SCALE && 0 <= g <= SCALE && 0 <= b <= SCALE && 0 <= a
                <= SCALE,
            c matches Some(col) ==> col == (Color { r, g, b, a }) && col.valid(),
    {
        if 0 <= r && r <= SCALE && 0 <= g && g <= SCALE && 0 <= b && b <= SCALE && 0 <= a && a
            <= SCALE {
            Some(Color { r, g, b, a })
        } else {
            None
        }
    }

    /// Scale the color channels by a fixed-point factor, saturating into
    /// range; alpha is not affected.
    pub fn scale(&self, s: i64) -> (c: Color)
        requires
            self.valid(),
        ensures
            c.r == scale_chan(self.r as int, s as int),
            c.g == scale_chan(self.g as int, s as int),
            c.b == scale_chan(self.b as int, s as int),
            c.a == self.a,
            c.valid(),
    {
        Color {
            r: scale_one(self.r, s),
            g: scale_one(self.g, s),
            b: scale_one(self.b, s),
            a: self.a,
        }
    }

    /// Channel-wise product with another color, saturating into range;
    /// alpha comes from `self`.
    pub fn mul(&self, other: &Color) -> (c: Color)
        requires
            self.valid(),
            other.valid(),
        ensures
            c.r == mul_chan(self.r as int, other.r as int),
            c.g == mul_chan(self.g as int, other.g as int),
            c.b == mul_chan(self.b as int, other.b as int),
            c.a == self.a,
            c.valid(),
    {
        Color {
            r: scale_one(self.r, other.r),
            g: scale_one(self.g, other.g),
            b: scale_one(self.b, other.b),
            a: self.a,
        }
    }

    /// Channel-wise sum with another color, saturating into range;
    /// alpha comes from `self`.
    pub fn add(&self, other: &Color) -> (c: Color)
        requires
            self.valid(),
            other.valid(),
        ensures
            c.r == add_chan(self.r as int, other.r as int),
            c.g == add_chan(self.g as int, other.g as int),
            c.b == add_chan(self.b as int, other.b as int),
            c.a == self.a,
            c.valid(),
    {
        let r: i64 = self.r + other.r;
        let g: i64 = self.g + other.g;
        let b: i64 = self.b + other.b;
        Color {
            r: if r > SCALE {
                SCALE
            } else {
                r
            },
            g: if g > SCALE {
                SCALE
            } else {
                g
            },
            b: if b > SCALE {
                SCALE
            } else {
                b
            },
            a: self.a,
        }
    }
}

/// One saturating fixed-point channel product.
fn scale_one(c: i64, s: i64) -> (r: i64)
    requires
        0 <= c <= SCALE,
    ensures
        r == scale_chan(c as int, s as int),
        0 <= r <= SCALE,
{
    proof {
        assert(-(9223372036854775808int * 65536) <= c as int * s as int <= 9223372036854775808int
            * 65536) by (nonlinear_arith)
            requires
                0 <= c <= 65536,
                -9223372036854775808int <= s <= 9223372036854775807int,
        ;
        lemma_tdiv_bound(c as int * s as int, 65536, 9223372036854775808int);
    }
    let p: i128 = (c as i128) * (s as i128);
    let q: i128 = tdiv_i128(p, 65536);
    clip_i128(q, 0, SCALE)
}

} // verus!
