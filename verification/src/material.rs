//! What a surface is made of.

use crate::color::{Color, FresnelIndex};
use crate::fixed::Fixed;
use vstd::prelude::*;

verus! {

/// The material of a surface.
#[derive(Clone, Copy, Debug)]
pub enum Material {
    /// Scatters light evenly.
    Diffuse { color: Color },
    /// Scatters light and shows highlights, the sharper the larger `exponent`.
    Shiny { diffuse: Color, specular: Color, exponent: Fixed },
    /// Mirrors, the more the further the refractive index inside the surface
    /// is from that outside.
    Reflective { inside: FresnelIndex, outside: FresnelIndex },
    /// Mirrors and lets the rest of the light through, bent.
    ReflectiveAndRefractive { inside: FresnelIndex, outside: FresnelIndex },
    /// Gives off light of its own.
    LightSource { color: Color },
}

impl Material {
    #[verifier::allow_in_spec]
    pub fn new_diffuse(color: Color) -> Material
        returns
            (Material::Diffuse { color }),
    {
        Material::Diffuse { color }
    }

    #[verifier::allow_in_spec]
    pub fn new_shiny(diffuse: Color, specular: (Color, Fixed)) -> Material
        returns
            (Material::Shiny { diffuse, specular: specular.0, exponent: specular.1 }),
    {
        Material::Shiny { diffuse, specular: specular.0, exponent: specular.1 }
    }

    #[verifier::allow_in_spec]
    pub fn new_reflective(inside: FresnelIndex, outside: FresnelIndex) -> Material
        returns
            (Material::Reflective { inside, outside }),
    {
        Material::Reflective { inside, outside }
    }

    #[verifier::allow_in_spec]
    pub fn new_reflective_and_refractive(inside: FresnelIndex, outside: FresnelIndex) -> Material
        returns
            (Material::ReflectiveAndRefractive { inside, outside }),
    {
        Material::ReflectiveAndRefractive { inside, outside }
    }

    #[verifier::allow_in_spec]
    pub fn new_light_source(color: Color) -> Material
        returns
            (Material::LightSource { color }),
    {
        Material::LightSource { color }
    }

    /// Whether the material gives off light of its own.
    #[verifier::allow_in_spec]
    pub fn is_light_source(&self) -> bool
        returns
            self is LightSource,
    {
        match self {
            Material::LightSource { .. } => true,
            _ => false,
        }
    }
}

} // verus!
