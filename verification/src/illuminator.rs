//! Which lights a point of a surface sees.

use crate::defs::Point3;
use crate::intersector::{spec_nearest_among, SimpleIntersector};
use crate::light::{Illumination, LightSource};
use crate::model::Model;
use crate::ray::Ray;
use vstd::prelude::*;

verus! {

/// The lights of a scene.
pub struct SimpleIlluminator<L> {
    lights: Vec<L>,
}

/// Whether the light `light` reaches `point` through the surfaces `models`:
/// the first surface that the ray from the point toward the source meets, if
/// any, is no nearer than the source, or is itself a source of light.
pub open spec fn spec_visible<M: Model>(models: Seq<M>, light: Illumination, point: Point3) -> bool {
    match spec_nearest_among(
        models,
        Ray { origin: point, direction: light.direction },
        models.len(),
    ) {
        Some(hit) => hit.spec_distance().raw >= light.distance.raw
            || hit.spec_material().is_light_source(),
        None => true,
    }
}

/// What the first `count` of `lights` send to `point`, as far as it reaches the
/// point through the surfaces `models`, in the order of the lights.
pub open spec fn spec_visible_among<M: Model, L: LightSource>(
    lights: Seq<L>,
    models: Seq<M>,
    point: Point3,
    count: nat,
) -> Seq<Illumination>
    decreases count,
{
    if count == 0 {
        Seq::empty()
    } else {
        let earlier = spec_visible_among(lights, models, point, (count - 1) as nat);
        let light = lights[count - 1].spec_illumination(point);
        if spec_visible(models, light, point) {
            earlier.push(light)
        } else {
            earlier
        }
    }
}

impl<L: LightSource> SimpleIlluminator<L> {
    /// The lights, in the order in which they are asked.
    pub closed spec fn spec_lights(&self) -> Seq<L> {
        self.lights@
    }

    pub fn new(lights: Vec<L>) -> (illuminator: Self)
        ensures
            illuminator.spec_lights() == lights@,
    {
        SimpleIlluminator { lights }
    }

    /// What the lights of the scene send to `point`, as far as it reaches the
    /// point through the surfaces of `intersector`.
    pub open spec fn spec_illuminations<M: Model>(
        &self,
        intersector: &SimpleIntersector<M>,
        point: Point3,
    ) -> Seq<Illumination> {
        spec_visible_among(
            self.spec_lights(),
            intersector.spec_models(),
            point,
            self.spec_lights().len(),
        )
    }

    /// Asks every light what it sends to `point` and keeps what reaches it: a
    /// light is hidden where a surface that is no source of light lies strictly
    /// between the point and the source.
    pub fn get_illuminations<M: Model>(&self, intersector: &SimpleIntersector<M>, point: &Point3) -> (found:
        Vec<Illumination>)
        ensures
            found@ == self.spec_illuminations(intersector, *point),
    {
        let mut found: Vec<Illumination> = Vec::new();
        let mut index: usize = 0;
        while index < self.lights.len()
            invariant
                index <= self.lights@.len(),
                found@ == spec_visible_among(
                    self.lights@,
                    intersector.spec_models(),
                    *point,
                    index as nat,
                ),
            decreases self.lights@.len() - index,
        {
            let light = self.lights[index].get_illumination(point);
            let shadow_ray = Ray::new(*point, light.direction);
            let visible = match intersector.get_nearest_intersection(&shadow_ray) {
                Some(hit) => hit.get_distance_to_intersection().raw >= light.distance.raw
                    || hit.get_material().is_light_source(),
                None => true,
            };
            if visible {
                found.push(light);
            }
            index = index + 1;
        }
        found
    }
}

} // verus!
