//! The colour of a surface under the lights that reach it.

use crate::color::{Color, ColorBase, FresnelIndex};
use crate::defs::Vector3;
use crate::fixed::Fixed;
use crate::light::Illumination;
use crate::numeric::Numeric;
use vstd::prelude::*;

verus! {

/// The local part of shading: what a surface shows of the lights that reach it,
/// and how much of the light that falls on it it mirrors.
#[derive(Clone, Copy, Debug)]
pub struct SimpleColorCalculator {}

/// `base` multiplied by itself `exponent` times, starting from one.
pub open spec fn spec_power(base: Fixed, exponent: nat) -> Fixed
    decreases exponent,
{
    if exponent == 0 {
        Fixed::one()
    } else {
        spec_power(base, (exponent - 1) as nat).times(base)
    }
}

/// `base` multiplied by itself `exponent` times, starting from one.
pub fn power(base: Fixed, exponent: u32) -> (raised: Fixed)
    ensures
        raised == spec_power(base, exponent as nat),
{
    let mut raised = Fixed::one();
    let mut done: u32 = 0;
    while done < exponent
        invariant
            done <= exponent,
            raised == spec_power(base, done as nat),
        decreases exponent - done,
    {
        raised = raised.times(base);
        done = done + 1;
    }
    raised
}

/// The whole part of a number as an exponent: nothing below zero and nothing
/// above what 32 bits hold.
#[verifier::allow_in_spec]
pub fn whole_exponent(exponent: Fixed) -> u32
    returns
        (if exponent.whole() < 0 {
            0u32
        } else if exponent.whole() > u32::MAX {
            u32::MAX
        } else {
            exponent.whole() as u32
        }),
{
    let whole = exponent.whole();
    if whole < 0 {
        0
    } else if whole > u32::MAX as i64 {
        u32::MAX
    } else {
        whole as u32
    }
}

impl SimpleColorCalculator {
    #[verifier::allow_in_spec]
    pub fn new() -> SimpleColorCalculator
        returns
            (SimpleColorCalculator {  }),
    {
        SimpleColorCalculator {  }
    }

    /// How much of a light a surface with the unit normal `normal` scatters:
    /// the cosine of the angle between the normal and the direction to the
    /// light, and nothing for a light behind the surface.
    #[verifier::allow_in_spec]
    pub fn lambert(normal: Vector3, light: Illumination) -> Fixed
        returns
            normal.dot(light.direction).max(Fixed::zero()),
    {
        normal.dot(light.direction).max(Fixed::zero())
    }

    /// The direction `direction` mirrored at a surface with the unit normal
    /// `normal`.
    #[verifier::allow_in_spec]
    pub fn reflected(direction: Vector3, normal: Vector3) -> Vector3
        returns
            direction.minus(normal.scaled(Fixed::from_int(2).times(direction.dot(normal)))),
    {
        direction.minus(normal.scaled(Fixed::from_int(2).times(direction.dot(normal))))
    }

    /// The direction `direction` bent at a surface with the unit normal
    /// `normal` that faces it, where `ratio` is the refractive index on the side
    /// of the ray divided by that on the far side. There is none where all light
    /// is mirrored.
    pub open spec fn spec_refracted(direction: Vector3, normal: Vector3, ratio: Fixed) -> Option<
        Vector3,
    > {
        let cosine = direction.dot(normal).neg();
        let sine_squared = ratio.times(ratio).times(Fixed::one().minus(cosine.times(cosine)));
        let remainder = Fixed::one().minus(sine_squared);
        if remainder.raw < 0 {
            None
        } else {
            Some(
                direction.scaled(ratio).plus(
                    normal.scaled(ratio.times(cosine).minus(remainder.spec_sqrt())),
                ),
            )
        }
    }

    /// The direction `direction` bent at a surface.
    pub fn refracted(direction: Vector3, normal: Vector3, ratio: Fixed) -> (bent: Option<Vector3>)
        ensures
            bent == Self::spec_refracted(direction, normal, ratio),
    {
        let cosine = direction.dot(normal).neg();
        let sine_squared = ratio.times(ratio).times(Fixed::one().minus(cosine.times(cosine)));
        let remainder = Fixed::one().minus(sine_squared);
        if remainder.raw < 0 {
            None
        } else {
            Some(
                direction.scaled(ratio).plus(
                    normal.scaled(ratio.times(cosine).minus(remainder.sqrt())),
                ),
            )
        }
    }

    /// How bright the highlight of a light is for a viewer in the unit
    /// direction `view`: the cosine of the angle between the mirrored light and
    /// the viewer, raised to `exponent`.
    pub open spec fn spec_highlight(normal: Vector3, view: Vector3, light: Illumination, exponent: u32) -> Fixed {
        spec_power(
            Self::reflected(light.direction.neg(), normal).dot(view).max(Fixed::zero()),
            exponent as nat,
        )
    }

    /// The scattered light of the first `count` of `lights`: their radiances,
    /// each weighted with how much of it the surface scatters, added up.
    pub open spec fn spec_scattered(normal: Vector3, lights: Seq<Illumination>, count: nat) -> Color
        decreases count,
    {
        if count == 0 {
            ColorBase { r: Fixed::zero(), g: Fixed::zero(), b: Fixed::zero() }
        } else {
            Self::spec_scattered(normal, lights, (count - 1) as nat).spec_plus(
                lights[count - 1].radiance.spec_mul_scalar(Self::lambert(normal, lights[count - 1])),
            )
        }
    }

    /// The highlights of the first `count` of `lights`: their radiances, each
    /// weighted with the brightness of its highlight, added up.
    pub open spec fn spec_highlights(
        normal: Vector3,
        view: Vector3,
        exponent: u32,
        lights: Seq<Illumination>,
        count: nat,
    ) -> Color
        decreases count,
    {
        if count == 0 {
            ColorBase { r: Fixed::zero(), g: Fixed::zero(), b: Fixed::zero() }
        } else {
            Self::spec_highlights(normal, view, exponent, lights, (count - 1) as nat).spec_plus(
                lights[count - 1].radiance.spec_mul_scalar(
                    Self::spec_highlight(normal, view, lights[count - 1], exponent),
                ),
            )
        }
    }

    /// The scattered light of `lights` on a surface with the unit normal
    /// `normal`.
    pub fn scattered(normal: Vector3, lights: &Vec<Illumination>) -> (sum: Color)
        ensures
            sum == Self::spec_scattered(normal, lights@, lights@.len()),
    {
        let mut sum = Color::zero();
        let mut index: usize = 0;
        while index < lights.len()
            invariant
                index <= lights@.len(),
                sum == Self::spec_scattered(normal, lights@, index as nat),
            decreases lights@.len() - index,
        {
            let light = lights[index];
            sum = sum + light.radiance.mul_scalar(&Self::lambert(normal, light));
            index = index + 1;
        }
        sum
    }

    /// The highlights of `lights` on a surface with the unit normal `normal`,
    /// for a viewer in the unit direction `view`.
    pub fn highlights(normal: Vector3, view: Vector3, exponent: u32, lights: &Vec<Illumination>) -> (sum:
        Color)
        ensures
            sum == Self::spec_highlights(normal, view, exponent, lights@, lights@.len()),
    {
        let mut sum = Color::zero();
        let mut index: usize = 0;
        while index < lights.len()
            invariant
                index <= lights@.len(),
                sum == Self::spec_highlights(normal, view, exponent, lights@, index as nat),
            decreases lights@.len() - index,
        {
            let light = lights[index];
            let mirrored = Self::reflected(light.direction.neg(), normal);
            let brightness = power(mirrored.dot(view).max(Fixed::zero()), exponent);
            sum = sum + light.radiance.mul_scalar(&brightness);
            index = index + 1;
        }
        sum
    }

    /// The share of the light that a surface mirrors when the light falls
    /// straight onto it, channel by channel: the squared modulus of the
    /// difference of the two refractive indices divided by their sum.
    pub open spec fn spec_reflectance(inside: FresnelIndex, outside: FresnelIndex) -> Color {
        ColorBase {
            r: inside.r.spec_minus(outside.r).spec_over(inside.r.spec_plus(outside.r)).norm_squared(),
            g: inside.g.spec_minus(outside.g).spec_over(inside.g.spec_plus(outside.g)).norm_squared(),
            b: inside.b.spec_minus(outside.b).spec_over(inside.b.spec_plus(outside.b)).norm_squared(),
        }
    }

    /// The share of the light that a surface mirrors.
    pub fn reflectance(inside: &FresnelIndex, outside: &FresnelIndex) -> (share: Color)
        ensures
            share == Self::spec_reflectance(*inside, *outside),
    {
        ColorBase {
            r: inside.r.minus(outside.r).over(inside.r.plus(outside.r)).norm_squared(),
            g: inside.g.minus(outside.g).over(inside.g.plus(outside.g)).norm_squared(),
            b: inside.b.minus(outside.b).over(inside.b.plus(outside.b)).norm_squared(),
        }
    }
}

} // verus!
