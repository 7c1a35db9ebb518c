//! Light sources: point lights with position, color and intensity, and the
//! scene's single ambient light.

use vstd::prelude::*;

verus! {

use crate::color::Color;
use crate::fixed::SCALE;
use crate::vec3::{Vec3, COORD_MAX};

/// Bound on a light's brightness multiplier (about 16384 in whole units).
pub const INTENSITY_MAX: i64 = 1073741824;

/// A point light: position, color, and a brightness multiplier.
#[derive(Clone, Copy, Debug, PartialEq, Eq, Structural)]
pub struct PointLight {
    pub position: Vec3,
    pub color: Color,
    pub intensity: i64,
}

impl PointLight {
    pub open spec fn wf(&self) -> bool {
        self.position.in_range(COORD_MAX as int) && self.color.valid() && 0 <= self.intensity
            <= INTENSITY_MAX
    }

    pub fn new(position: Vec3, color: Color, intensity: i64) -> (l: PointLight)
        requires
            position.in_range(COORD_MAX as int),
            color.valid(),
            0 <= intensity <= INTENSITY_MAX,
        ensures
            l == (PointLight { position, color, intensity }),
            l.wf(),
    {
        PointLight { position, color, intensity }
    }

    pub fn position(&self) -> (p: Vec3)
        ensures
            p == self.position,
    {
        self.position
    }

    pub fn color(&self) -> (c: Color)
        ensures
            c == self.color,
    {
        self.color
    }

    pub fn intensity(&self) -> (i: i64)
        ensures
            i == self.intensity,
    {
        self.intensity
    }
}

/// The scene's ambient light: a constant base term independent of geometry.
#[derive(Clone, Copy, Debug, PartialEq, Eq, Structural)]
pub struct AmbientLight {
    pub color: Color,
    pub intensity: i64,
}

impl AmbientLight {
    pub open spec fn wf(&self) -> bool {
        self.color.valid() && 0 <= self.intensity <= INTENSITY_MAX
    }

    pub fn new(color: Color, intensity: i64) -> (l: AmbientLight)
        requires
            color.valid(),
            0 <= intensity <= INTENSITY_MAX,
        ensures
            l == (AmbientLight { color, intensity }),
            l.wf(),
    {
        AmbientLight { color, intensity }
    }
}

} // verus!
