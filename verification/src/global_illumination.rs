//! Indirect light: what a surface receives from the other surfaces around it,
//! estimated from sample rays and kept apart for each surface of the scene.

use crate::color::{Color, ColorBase};
use crate::defs::{Point2Int, Vector3};
use crate::fixed::Fixed;
use crate::intersection::RayIntersection;
use crate::light::LightSource;
use crate::median_filter::{spec_filtered, MedianFilter};
use crate::model::Model;
use crate::ray::Ray;
use crate::scene_buffer::{spec_overlaid, BasicSceneBuffer};
use crate::world::{RayCaster, World};
use std::sync::Arc;
use vstd::prelude::*;

verus! {

/// Whether `direction` lies within the cone around `normal` whose half-angle has
/// the cosine `cone_cosine`; both are unit vectors.
#[verifier::allow_in_spec]
pub fn in_cone(normal: Vector3, direction: Vector3, cone_cosine: Fixed) -> bool
    returns
        normal.dot(direction).raw >= cone_cosine.raw,
{
    normal.dot(direction).raw >= cone_cosine.raw
}

/// The sum of what the sample rays see, and their number, after the first
/// `count` of `directions` have been looked at. A direction gives a sample ray
/// where it lies within the cone around the normal of the surface and fewer than
/// `limit` rays have been cast; a sample ray that meets nothing sees black.
pub open spec fn spec_gathered<W: RayCaster>(
    world: W,
    hit: RayIntersection,
    directions: Seq<Vector3>,
    cone_cosine: Fixed,
    limit: u32,
    count: nat,
) -> (Color, u32)
    decreases count,
{
    if count == 0 {
        (ColorBase { r: Fixed::zero(), g: Fixed::zero(), b: Fixed::zero() }, 0u32)
    } else {
        let (sum, used) = spec_gathered(
            world,
            hit,
            directions,
            cone_cosine,
            limit,
            (count - 1) as nat,
        );
        let direction = directions[count - 1];
        if used < limit && in_cone(hit.spec_normal(), direction, cone_cosine) {
            (
                match world.spec_cast_ray(Ray { origin: hit.spec_point(), direction }) {
                    Some(color) => sum.spec_plus(color),
                    None => sum,
                },
                (used + 1) as u32,
            )
        } else {
            (sum, used)
        }
    }
}

/// The indirect light at an intersection as the sample rays along `directions`
/// estimate it: the mean of what they see, and none where no direction gives a
/// sample ray.
pub open spec fn spec_estimate<W: RayCaster>(
    world: W,
    hit: RayIntersection,
    directions: Seq<Vector3>,
    cone_cosine: Fixed,
    limit: u32,
) -> Option<Color> {
    let (sum, used) = spec_gathered(world, hit, directions, cone_cosine, limit, directions.len());
    if used == 0 {
        None
    } else {
        Some(
            ColorBase {
                r: sum.r.over(Fixed::from_count(used)),
                g: sum.g.over(Fixed::from_count(used)),
                b: sum.b.over(Fixed::from_count(used)),
            },
        )
    }
}

/// The indirect light at an intersection as the sample rays along `directions`
/// estimate it.
pub fn estimate<W: RayCaster>(
    world: &W,
    hit: &RayIntersection,
    directions: &Vec<Vector3>,
    cone_cosine: Fixed,
    limit: u32,
) -> (light: Option<Color>)
    ensures
        light == spec_estimate(*world, *hit, directions@, cone_cosine, limit),
{
    let normal = *hit.get_normal_vector();
    let point = *hit.get_intersection_point();
    let mut sum = Color::zero();
    let mut used: u32 = 0;
    let mut index: usize = 0;
    while index < directions.len()
        invariant
            index <= directions@.len(),
            normal == hit.spec_normal(),
            point == hit.spec_point(),
            used <= limit,
            (sum, used) == spec_gathered(
                *world,
                *hit,
                directions@,
                cone_cosine,
                limit,
                index as nat,
            ),
        decreases directions@.len() - index,
    {
        let direction = directions[index];
        if used < limit && in_cone(normal, direction, cone_cosine) {
            match world.cast_ray(&Ray::new(point, direction)) {
                Some(color) => {
                    sum = sum + color;
                },
                None => (),
            }
            used = used + 1;
        }
        index = index + 1;
    }
    if used == 0 {
        None
    } else {
        let count = Fixed::from_count(used);
        Some(ColorBase { r: sum.r.over(count), g: sum.g.over(count), b: sum.b.over(count) })
    }
}

/// What `base`, over `screen`, holds after the first `count` of `layers` have
/// been filtered with the median filter of the given radius and laid over it,
/// one after the other.
pub open spec fn spec_layered(
    base: Map<Point2Int, Color>,
    screen: crate::screen::Screen,
    layers: Seq<BasicSceneBuffer>,
    radius: u32,
    count: nat,
) -> Map<Point2Int, Color>
    decreases count,
{
    if count == 0 {
        base
    } else {
        spec_overlaid(
            spec_layered(base, screen, layers, radius, (count - 1) as nat),
            screen,
            layers[count - 1].spec_screen(),
            spec_filtered(layers[count - 1]@, layers[count - 1].spec_screen(), radius),
        )
    }
}

/// The indirect light of a view of a scene, gathered pixel by pixel into one
/// buffer for each surface of the scene.
pub struct GlobalIlluminationShader<M, L> {
    world: Arc<World<M, L>>,
    view: crate::view::View,
    sample_count: u32,
    cone_cosine: Fixed,
    buffers: Vec<BasicSceneBuffer>,
}

impl<M: Model, L: LightSource> GlobalIlluminationShader<M, L> {
    pub closed spec fn spec_world(&self) -> World<M, L> {
        *self.world
    }

    pub closed spec fn spec_view(&self) -> crate::view::View {
        self.view
    }

    /// The largest number of sample rays for one pixel.
    pub closed spec fn spec_sample_count(&self) -> u32 {
        self.sample_count
    }

    /// The cosine of the half-angle of the cone of the sample rays.
    pub closed spec fn spec_cone_cosine(&self) -> Fixed {
        self.cone_cosine
    }

    /// The buffers, one for each surface of the scene, in the order of the
    /// surfaces.
    pub closed spec fn spec_buffers(&self) -> Seq<BasicSceneBuffer> {
        self.buffers@
    }

    /// There is one buffer for each surface, and every buffer covers the
    /// screen of the view.
    pub open spec fn spec_well_formed(&self) -> bool {
        &&& self.spec_buffers().len() == self.spec_world().spec_intersector().spec_models().len()
        &&& forall|place: int|
            0 <= place < self.spec_buffers().len() ==> {
                &&& (#[trigger] self.spec_buffers()[place]).spec_well_formed()
                &&& self.spec_buffers()[place].spec_screen() == self.spec_view().screen
            }
    }

    /// A shader for `view` of `world` that casts at most `sample_count` sample
    /// rays for a pixel, within the cone around the normal whose half-angle has
    /// the cosine `cone_cosine`.
    pub fn new(world: Arc<World<M, L>>, view: crate::view::View, sample_count: u32, cone_cosine: Fixed) -> (shader:
        Self)
        requires
            view.screen.spec_pixel_count() <= usize::MAX,
        ensures
            shader.spec_well_formed(),
            shader.spec_world() == *world,
            shader.spec_view() == view,
            shader.spec_sample_count() == sample_count,
            shader.spec_cone_cosine() == cone_cosine,
            forall|place: int|
                0 <= place < shader.spec_buffers().len() ==> (#[trigger] shader.spec_buffers()[place])@
                    == Map::<Point2Int, Color>::empty(),
    {
        let models = world.get_intersector().model_count();
        let mut buffers: Vec<BasicSceneBuffer> = Vec::new();
        let mut made: usize = 0;
        while made < models
            invariant
                made <= models,
                buffers@.len() == made,
                view.screen.spec_pixel_count() <= usize::MAX,
                forall|place: int|
                    0 <= place < made ==> {
                        &&& (#[trigger] buffers@[place]).spec_well_formed()
                        &&& buffers@[place].spec_screen() == view.screen
                        &&& buffers@[place]@ == Map::<Point2Int, Color>::empty()
                    },
            decreases models - made,
        {
            buffers.push(BasicSceneBuffer::new(view.screen));
            made = made + 1;
        }
        GlobalIlluminationShader { world, view, sample_count, cone_cosine, buffers }
    }

    /// The places of all surfaces, each of which has a buffer.
    pub fn get_all_model_ids_on_buffer(&self) -> (ids: Vec<usize>)
        ensures
            ids@ == Seq::new(self.spec_buffers().len(), |place: int| place as usize),
    {
        let mut ids: Vec<usize> = Vec::new();
        let mut place: usize = 0;
        while place < self.buffers.len()
            invariant
                place <= self.buffers@.len(),
                ids@ == Seq::new(place as nat, |place: int| place as usize),
            decreases self.buffers@.len() - place,
        {
            ids.push(place);
            place = place + 1;
            assert(ids@ =~= Seq::new(place as nat, |place: int| place as usize));
        }
        ids
    }

    /// The buffer of the surface at place `model_id`, if there is such a
    /// surface.
    pub fn get_model_buffer(&self, model_id: usize) -> (buffer: Option<&BasicSceneBuffer>)
        ensures
            buffer == (if model_id < self.spec_buffers().len() {
                Some(&self.spec_buffers()[model_id as int])
            } else {
                None
            }),
    {
        if model_id < self.buffers.len() {
            Some(&self.buffers[model_id])
        } else {
            None
        }
    }

    /// What the sample for the pixel `coord` writes: the place of the surface
    /// that the ray through the pixel meets first, and the estimate of the
    /// indirect light there. Nothing where the pixel lies off the screen, the
    /// ray meets no surface or no direction gives a sample ray.
    pub open spec fn spec_sample(&self, coord: Point2Int, directions: Seq<Vector3>) -> Option<
        (int, Color),
    > {
        let ray = self.spec_view().spec_ray_through(coord);
        let intersector = self.spec_world().spec_intersector();
        if !self.spec_view().screen.spec_contains(coord) {
            None
        } else {
            match (intersector.spec_nearest_index(ray), intersector.spec_nearest(ray)) {
                (Some(place), Some(hit)) => match spec_estimate(
                    self.spec_world(),
                    hit,
                    directions,
                    self.spec_cone_cosine(),
                    self.spec_sample_count(),
                ) {
                    Some(light) => Some((place, light)),
                    None => None,
                },
                _ => None,
            }
        }
    }

    /// Samples the indirect light for the pixel `coord` with sample rays along
    /// `directions` and writes the estimate into the buffer of the surface that
    /// the pixel shows. All other pixels and buffers stay as they are.
    pub fn sample(&mut self, coord: Point2Int, directions: &Vec<Vector3>)
        requires
            old(self).spec_well_formed(),
        ensures
            final(self).spec_well_formed(),
            final(self).spec_world() == old(self).spec_world(),
            final(self).spec_view() == old(self).spec_view(),
            final(self).spec_sample_count() == old(self).spec_sample_count(),
            final(self).spec_cone_cosine() == old(self).spec_cone_cosine(),
            final(self).spec_buffers().len() == old(self).spec_buffers().len(),
            forall|place: int|
                0 <= place < old(self).spec_buffers().len() ==> (#[trigger] final(self).spec_buffers()[place])@ == (match old(self).spec_sample(coord, directions@) {
                    Some((target, light)) if target == place => old(self).spec_buffers()[place]@.insert(
                        coord,
                        light,
                    ),
                    _ => old(self).spec_buffers()[place]@,
                }),
    {
        if !self.view.screen.contains(coord) {
            return ;
        }
        let ray = self.view.ray_through(coord);
        match self.world.get_intersector().get_nearest_with_index(&ray) {
            Some((place, hit)) => {
                let found = estimate(
                    &*self.world,
                    &hit,
                    directions,
                    self.cone_cosine,
                    self.sample_count,
                );
                match found {
                    Some(light) => {
                        let ghost before = self.buffers@;
                        assert(before[place as int].spec_well_formed());
                        let _ = self.buffers[place].set_pixel_value(coord, light);
                        assert forall|other: int| 0 <= other < self.buffers@.len() implies {
                            &&& (#[trigger] self.buffers@[other]).spec_well_formed()
                            &&& self.buffers@[other].spec_screen() == self.view.screen
                        } by {
                            if other != place {
                                assert(self.buffers@[other] == before[other]);
                            }
                        }
                    },
                    None => (),
                }
            },
            None => (),
        }
    }

    /// Lays the buffers of all surfaces over `primary`, in the order of the
    /// surfaces, each after it has gone through the median filter of the given
    /// radius.
    pub fn combine_filtered(&self, primary: &mut BasicSceneBuffer, radius: u32)
        requires
            self.spec_well_formed(),
            old(primary).spec_well_formed(),
        ensures
            final(primary).spec_well_formed(),
            final(primary).spec_screen() == old(primary).spec_screen(),
            final(primary)@ == spec_layered(
                old(primary)@,
                old(primary).spec_screen(),
                self.spec_buffers(),
                radius,
                self.spec_buffers().len(),
            ),
    {
        let mut place: usize = 0;
        while place < self.buffers.len()
            invariant
                self.spec_well_formed(),
                place <= self.buffers@.len(),
                primary.spec_well_formed(),
                primary.spec_screen() == old(primary).spec_screen(),
                primary@ == spec_layered(
                    old(primary)@,
                    old(primary).spec_screen(),
                    self.buffers@,
                    radius,
                    place as nat,
                ),
            decreases self.buffers@.len() - place,
        {
            assert(self.spec_buffers()[place as int].spec_well_formed());
            let filter = MedianFilter::new(&self.buffers[place], radius);
            primary.combine_buffer(&filter);
            place = place + 1;
        }
    }
}

} // verus!
