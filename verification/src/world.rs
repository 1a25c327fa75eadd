//! The scene: its surfaces, its lights, and the colour that a ray sees in it.

use crate::color::{Color, ColorBase};
use crate::defs::Vector3;
use crate::fixed::Fixed;
use crate::illuminator::SimpleIlluminator;
use crate::intersection::RayIntersection;
use crate::intersector::SimpleIntersector;
use crate::light::LightSource;
use crate::material::Material;
use crate::model::Model;
use crate::ray::Ray;
use crate::shading::{whole_exponent, SimpleColorCalculator};
use vstd::prelude::*;

verus! {

/// A scene that answers rays. The answer to a ray is fixed by the scene and the
/// ray: no colour where the ray meets nothing, and otherwise the colour seen along
/// it.
pub trait RayCaster {
    /// The colour that the scene shows along `ray`, if any. A scene that does
    /// not say leaves it open.
    open spec fn spec_cast_ray(&self, ray: Ray) -> Option<Color> {
        arbitrary()
    }

    fn cast_ray(&self, ray: &Ray) -> (color: Option<Color>)
        ensures
            color == self.spec_cast_ray(*ray),
    ;
}

/// A scene of surfaces and lights. A ray that meets a mirroring surface is
/// followed on, but no further than `depth_limit` surfaces deep.
pub struct World<M, L> {
    intersector: SimpleIntersector<M>,
    color_calculator: SimpleColorCalculator,
    illuminator: SimpleIlluminator<L>,
    depth_limit: u32,
}

impl<M: Model, L: LightSource> World<M, L> {
    pub closed spec fn spec_intersector(&self) -> SimpleIntersector<M> {
        self.intersector
    }

    pub closed spec fn spec_illuminator(&self) -> SimpleIlluminator<L> {
        self.illuminator
    }

    pub closed spec fn spec_depth_limit(&self) -> u32 {
        self.depth_limit
    }

    pub fn new(
        intersector: SimpleIntersector<M>,
        color_calculator: SimpleColorCalculator,
        illuminator: SimpleIlluminator<L>,
        depth_limit: u32,
    ) -> (world: Self)
        ensures
            world.spec_intersector() == intersector,
            world.spec_illuminator() == illuminator,
            world.spec_depth_limit() == depth_limit,
    {
        World { intersector, color_calculator, illuminator, depth_limit }
    }

    pub fn get_intersector(&self) -> (intersector: &SimpleIntersector<M>)
        ensures
            *intersector == self.spec_intersector(),
    {
        &self.intersector
    }

    pub fn get_depth_limit(&self) -> (depth_limit: u32)
        ensures
            depth_limit == self.spec_depth_limit(),
    {
        self.depth_limit
    }

    /// The ray that leaves an intersection in the direction `direction`.
    pub open spec fn spec_onward(hit: RayIntersection, direction: Vector3) -> Ray {
        Ray { origin: hit.spec_point(), direction }
    }

    /// The ratio of the refractive index on the side of the ray to that on the
    /// far side of the surface, for green light.
    pub open spec fn spec_ratio(hit: RayIntersection) -> Fixed {
        match hit.spec_material() {
            Material::ReflectiveAndRefractive { inside, outside } => if hit.spec_was_inside() {
                inside.g.re.over(outside.g.re)
            } else {
                outside.g.re.over(inside.g.re)
            },
            _ => Fixed::one(),
        }
    }

    /// The colour that `ray` sees when it may still be followed `depth`
    /// surfaces deep: that of the first surface it meets, and none where it
    /// meets nothing.
    pub open spec fn spec_cast(&self, ray: Ray, depth: nat) -> Option<Color>
        decreases depth, 2nat,
    {
        match self.spec_intersector().spec_nearest(ray) {
            Some(hit) => Some(self.spec_color(hit, depth)),
            None => None,
        }
    }

    /// The colour that a ray brings back from beyond a surface: black where
    /// no depth is left or the ray meets nothing.
    pub open spec fn spec_bounce(&self, ray: Ray, depth: nat) -> Color
        decreases depth, 0nat,
    {
        if depth == 0 {
            ColorBase { r: Fixed::zero(), g: Fixed::zero(), b: Fixed::zero() }
        } else {
            match self.spec_cast(ray, (depth - 1) as nat) {
                Some(color) => color,
                None => ColorBase { r: Fixed::zero(), g: Fixed::zero(), b: Fixed::zero() },
            }
        }
    }

    /// The colour of a surface where a ray meets it. A source of light shows
    /// its own colour. A diffuse surface shows its colour times the scattered
    /// light, a shiny one the highlights of the lights as well. A mirror shows
    /// its share of what the mirrored ray brings back, and a surface that lets
    /// light through adds the rest of what the bent ray brings back, or mirrors
    /// everything where no light gets through.
    pub open spec fn spec_color(&self, hit: RayIntersection, depth: nat) -> Color
        decreases depth, 1nat,
    {
        let lights = self.spec_illuminator().spec_illuminations(
            &self.spec_intersector(),
            hit.spec_point(),
        );
        let normal = hit.spec_normal();
        let incoming = hit.spec_ray().direction;
        let mirrored = Self::spec_onward(hit, SimpleColorCalculator::reflected(incoming, normal));
        match hit.spec_material() {
            Material::LightSource { color } => color,
            Material::Diffuse { color } => color.spec_times(
                SimpleColorCalculator::spec_scattered(normal, lights, lights.len()),
            ),
            Material::Shiny { diffuse, specular, exponent } => diffuse.spec_times(
                SimpleColorCalculator::spec_scattered(normal, lights, lights.len()),
            ).spec_plus(
                specular.spec_times(
                    SimpleColorCalculator::spec_highlights(
                        normal,
                        incoming.neg(),
                        whole_exponent(exponent),
                        lights,
                        lights.len(),
                    ),
                ),
            ),
            Material::Reflective { inside, outside } => SimpleColorCalculator::spec_reflectance(
                inside,
                outside,
            ).spec_times(self.spec_bounce(mirrored, depth)),
            Material::ReflectiveAndRefractive { inside, outside } => {
                let share = SimpleColorCalculator::spec_reflectance(inside, outside);
                match SimpleColorCalculator::spec_refracted(incoming, normal, Self::spec_ratio(hit)) {
                    Some(bent) => share.spec_times(self.spec_bounce(mirrored, depth)).spec_plus(
                        ColorBase { r: Fixed::one(), g: Fixed::one(), b: Fixed::one() }.spec_minus(
                            share,
                        ).spec_times(self.spec_bounce(Self::spec_onward(hit, bent), depth)),
                    ),
                    None => self.spec_bounce(mirrored, depth),
                }
            },
        }
    }

    /// The colour that `ray` sees when it may still be followed `depth`
    /// surfaces deep.
    pub fn cast_ray_depth(&self, ray: &Ray, depth: u32) -> (color: Option<Color>)
        ensures
            color == self.spec_cast(*ray, depth as nat),
        decreases depth, 2nat,
    {
        match self.intersector.get_nearest_intersection(ray) {
            Some(hit) => Some(self.color_at(&hit, depth)),
            None => None,
        }
    }

    /// The colour that a ray brings back from beyond a surface.
    fn bounce(&self, ray: &Ray, depth: u32) -> (color: Color)
        ensures
            color == self.spec_bounce(*ray, depth as nat),
        decreases depth, 0nat,
    {
        if depth == 0 {
            Color::zero()
        } else {
            match self.cast_ray_depth(ray, depth - 1) {
                Some(color) => color,
                None => Color::zero(),
            }
        }
    }

    /// The colour of a surface where a ray meets it, when rays may still be
    /// followed `depth` surfaces deep.
    pub fn color_at(&self, hit: &RayIntersection, depth: u32) -> (color: Color)
        ensures
            color == self.spec_color(*hit, depth as nat),
        decreases depth, 1nat,
    {
        let normal = *hit.get_normal_vector();
        let point = *hit.get_intersection_point();
        let incoming = hit.get_itersector_ray().direction;
        let mirrored = Ray::new(point, SimpleColorCalculator::reflected(incoming, normal));
        match *hit.get_material() {
            Material::LightSource { color } => color,
            Material::Diffuse { color } => {
                let lights = self.illuminator.get_illuminations(&self.intersector, &point);
                color * SimpleColorCalculator::scattered(normal, &lights)
            },
            Material::Shiny { diffuse, specular, exponent } => {
                let lights = self.illuminator.get_illuminations(&self.intersector, &point);
                diffuse * SimpleColorCalculator::scattered(normal, &lights) + specular
                    * SimpleColorCalculator::highlights(
                    normal,
                    incoming.neg(),
                    whole_exponent(exponent),
                    &lights,
                )
            },
            Material::Reflective { inside, outside } => {
                SimpleColorCalculator::reflectance(&inside, &outside) * self.bounce(&mirrored, depth)
            },
            Material::ReflectiveAndRefractive { inside, outside } => {
                let share = SimpleColorCalculator::reflectance(&inside, &outside);
                let ratio = if hit.was_inside() {
                    inside.g.re.over(outside.g.re)
                } else {
                    outside.g.re.over(inside.g.re)
                };
                match SimpleColorCalculator::refracted(incoming, normal, ratio) {
                    Some(bent) => {
                        let onward = Ray::new(point, bent);
                        share * self.bounce(&mirrored, depth) + (Color::one() - share) * self.bounce(
                            &onward,
                            depth,
                        )
                    },
                    None => self.bounce(&mirrored, depth),
                }
            },
        }
    }
}

impl<M: Model, L: LightSource> RayCaster for World<M, L> {
    open spec fn spec_cast_ray(&self, ray: Ray) -> Option<Color> {
        self.spec_cast(ray, self.spec_depth_limit() as nat)
    }

    fn cast_ray(&self, ray: &Ray) -> (color: Option<Color>) {
        self.cast_ray_depth(ray, self.depth_limit)
    }
}

} // verus!
