//! Sources of light.

use crate::color::Color;
use crate::defs::{Point3, Vector3};
use crate::fixed::Fixed;
use vstd::prelude::*;

verus! {

/// The light that reaches a point from one source: the unit direction from the
/// point to the source, the distance to it, and the radiance that arrives when
/// nothing is in the way.
#[derive(Clone, Copy, Debug)]
pub struct Illumination {
    pub direction: Vector3,
    pub distance: Fixed,
    pub radiance: Color,
}

/// A source of light. What it sends to a point is fixed by the source and the
/// point.
pub trait LightSource {
    /// The light that the source sends to `point`. A source that does not say
    /// leaves it open.
    open spec fn spec_illumination(&self, point: Point3) -> Illumination {
        arbitrary()
    }

    fn get_illumination(&self, point: &Point3) -> (light: Illumination)
        ensures
            light == self.spec_illumination(*point),
    ;
}

/// A source without extent that shines evenly in all directions.
#[derive(Clone, Copy, Debug)]
pub struct DotLightSource {
    pub color: Color,
    pub intensity: Fixed,
    pub position: Point3,
}

impl DotLightSource {
    /// A source whose light thins out with the square of the distance.
    #[verifier::allow_in_spec]
    pub fn new_natural(color: Color, intensity: Fixed, position: Point3) -> DotLightSource
        returns
            (DotLightSource { color, intensity, position }),
    {
        DotLightSource { color, intensity, position }
    }
}

impl LightSource for DotLightSource {
    /// The radiance is the colour of the source times its intensity, divided
    /// by the square of the distance.
    open spec fn spec_illumination(&self, point: Point3) -> Illumination {
        let toward = self.position.minus(point);
        let distance = toward.spec_norm();
        Illumination {
            direction: toward.divided(distance),
            distance,
            radiance: self.color.spec_mul_scalar(self.intensity.over(distance.times(distance))),
        }
    }

    fn get_illumination(&self, point: &Point3) -> (light: Illumination) {
        let toward = self.position.minus(*point);
        let distance = toward.norm();
        Illumination {
            direction: toward.divided(distance),
            distance,
            radiance: self.color.mul_scalar(&self.intensity.over(distance.times(distance))),
        }
    }
}

} // verus!
