//! Surface materials: Phong coefficients plus the record fields a mesh file
//! carries along.

use vstd::prelude::*;

use crate::color::Color;
use crate::fixed::SCALE;

verus! {

/// Largest specular exponent the shading pipeline accepts.
pub const SHININESS_MAX: u32 = 10000;

#[derive(Clone, Copy, Debug)]
pub struct Material {
    pub ambient: Color,
    pub diffuse: Color,
    pub specular: Color,
    /// Specular exponent, a whole number of powers.
    pub shininess: u32,
    pub illumination: u8,
    pub optical_density: i64,
    pub dissolve: i64,
}

impl Material {
    pub open spec fn wf(self) -> bool {
        &&& self.ambient.wf()
        &&& self.diffuse.wf()
        &&& self.specular.wf()
        &&& self.shininess <= SHININESS_MAX
    }

    /// A matte preset.
    pub fn lambert() -> (r: Material)
        ensures
            r == lambert_spec(),
            r.wf(),
    {
        Material {
            ambient: Color::new(2000, 2000, 2000),
            diffuse: Color::new(8000, 8000, 8000),
            specular: Color::new(0, 0, 0),
            shininess: 10,
            illumination: 1,
            optical_density: SCALE,
            dissolve: SCALE,
        }
    }

    /// A shiny preset.
    pub fn reflective() -> (r: Material)
        ensures
            r == reflective_spec(),
            r.wf(),
    {
        Material {
            ambient: Color::new(2000, 2000, 2000),
            diffuse: Color::new(8000, 8000, 8000),
            specular: Color::new(5000, 5000, 5000),
            shininess: 10,
            illumination: 2,
            optical_density: SCALE,
            dissolve: SCALE,
        }
    }
}

pub open spec fn lambert_spec() -> Material {
    Material {
        ambient: Color {
            r: crate::bounded::Bounded { val: 2000 },
            g: crate::bounded::Bounded { val: 2000 },
            b: crate::bounded::Bounded { val: 2000 },
        },
        diffuse: Color {
            r: crate::bounded::Bounded { val: 8000 },
            g: crate::bounded::Bounded { val: 8000 },
            b: crate::bounded::Bounded { val: 8000 },
        },
        specular: Color {
            r: crate::bounded::Bounded { val: 0 },
            g: crate::bounded::Bounded { val: 0 },
            b: crate::bounded::Bounded { val: 0 },
        },
        shininess: 10,
        illumination: 1,
        optical_density: SCALE,
        dissolve: SCALE,
    }
}

pub open spec fn reflective_spec() -> Material {
    Material {
        ambient: Color {
            r: crate::bounded::Bounded { val: 2000 },
            g: crate::bounded::Bounded { val: 2000 },
            b: crate::bounded::Bounded { val: 2000 },
        },
        diffuse: Color {
            r: crate::bounded::Bounded { val: 8000 },
            g: crate::bounded::Bounded { val: 8000 },
            b: crate::bounded::Bounded { val: 8000 },
        },
        specular: Color {
            r: crate::bounded::Bounded { val: 5000 },
            g: crate::bounded::Bounded { val: 5000 },
            b: crate::bounded::Bounded { val: 5000 },
        },
        shininess: 10,
        illumination: 2,
        optical_density: SCALE,
        dissolve: SCALE,
    }
}

} // verus!
