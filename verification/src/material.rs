//! Surface materials: ambient, diffuse and specular color triples plus a
//! shininess exponent, immutable once attached to an object.

use vstd::prelude::*;

verus! {

use crate::color::Color;
use crate::fixed::SCALE;

#[derive(Clone, Copy, Debug, PartialEq, Eq, Structural)]
pub struct Material {
    pub ambient: Color,
    pub diffuse: Color,
    pub specular: Color,
    pub shininess: u32,
}

impl Material {
    /// All component colors within range.
    pub open spec fn wf(&self) -> bool {
        self.ambient.valid() && self.diffuse.valid() && self.specular.valid()
    }

    pub fn new(ambient: Color, diffuse: Color, specular: Color, shininess: u32) -> (m: Material)
        ensures
            m == (Material { ambient, diffuse, specular, shininess }),
    {
        Material { ambient, diffuse, specular, shininess }
    }
}

impl Default for Material {
    /// A soft blue default surface.
    fn default() -> (m: Material)
        ensures
            m.ambient == (Color { r: 0, g: 0, b: 26214, a: SCALE }),
            m.diffuse == (Color { r: 0, g: 0, b: 45875, a: SCALE }),
            m.specular == (Color { r: SCALE, g: SCALE, b: SCALE, a: SCALE }),
            m.shininess == 32,
            m.wf(),
    {
        Material {
            ambient: Color { r: 0, g: 0, b: 26214, a: SCALE },
            diffuse: Color { r: 0, g: 0, b: 45875, a: SCALE },
            specular: Color { r: SCALE, g: SCALE, b: SCALE, a: SCALE },
            shininess: 32,
        }
    }
}

} // verus!
