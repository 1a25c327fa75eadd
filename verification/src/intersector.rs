//! The search for the surface that a ray meets first.

use crate::intersection::RayIntersection;
use crate::model::Model;
use crate::ray::Ray;
use vstd::prelude::*;

verus! {

/// The surfaces of a scene.
pub struct SimpleIntersector<M> {
    models: Vec<M>,
}

/// The nearer of two intersections; the first where neither is nearer.
pub open spec fn spec_nearer(first: Option<RayIntersection>, second: Option<RayIntersection>) -> Option<
    RayIntersection,
> {
    match (first, second) {
        (Some(one), Some(other)) => if other.spec_distance().raw < one.spec_distance().raw {
            second
        } else {
            first
        },
        (Some(_), None) => first,
        (None, _) => second,
    }
}

/// The nearest of the intersections of `ray` with the first `count` of
/// `models`; among equally near ones, that of the earliest model.
pub open spec fn spec_nearest_among<M: Model>(models: Seq<M>, ray: Ray, count: nat) -> Option<
    RayIntersection,
>
    decreases count,
{
    if count == 0 {
        None
    } else {
        spec_nearer(
            spec_nearest_among(models, ray, (count - 1) as nat),
            models[count - 1].spec_intersection(ray),
        )
    }
}

/// What the nearest intersection is. There is none if and only if none of the
/// models is met. Otherwise it is the intersection with one of the models, no
/// model is met nearer, and every model that is met as near comes later in the
/// list.
pub proof fn lemma_nearest_among<M: Model>(models: Seq<M>, ray: Ray, count: nat)
    requires
        count <= models.len(),
    ensures
        spec_nearest_among(models, ray, count).is_none() <==> forall|index: int|
            0 <= index < count ==> (#[trigger] models[index]).spec_intersection(ray).is_none(),
        spec_nearest_among(models, ray, count) matches Some(nearest) ==> exists|winner: int|
            {
                &&& 0 <= winner < count
                &&& #[trigger] models[winner].spec_intersection(ray) == Some(nearest)
                &&& forall|index: int|
                    0 <= index < count ==> ((#[trigger] models[index]).spec_intersection(
                        ray,
                    ) matches Some(other) ==> {
                        &&& nearest.spec_distance().raw <= other.spec_distance().raw
                        &&& nearest.spec_distance().raw == other.spec_distance().raw ==> winner
                            <= index
                    })
            },
    decreases count,
{
    if count > 0 {
        lemma_nearest_among(models, ray, (count - 1) as nat);
        let earlier = spec_nearest_among(models, ray, (count - 1) as nat);
        let last = models[count - 1].spec_intersection(ray);
        match (earlier, last) {
            (Some(one), Some(other)) => {
                let winner = choose|winner: int|
                    {
                        &&& 0 <= winner < count - 1
                        &&& #[trigger] models[winner].spec_intersection(ray) == Some(one)
                        &&& forall|index: int|
                            0 <= index < count - 1 ==> ((#[trigger] models[index]).spec_intersection(
                                ray,
                            ) matches Some(other) ==> {
                                &&& one.spec_distance().raw <= other.spec_distance().raw
                                &&& one.spec_distance().raw == other.spec_distance().raw ==> winner
                                    <= index
                            })
                    };
                if other.spec_distance().raw < one.spec_distance().raw {
                    assert(models[count - 1].spec_intersection(ray) == Some(other));
                } else {
                    assert(models[winner].spec_intersection(ray) == Some(one));
                }
            },
            (Some(one), None) => {
                let winner = choose|winner: int|
                    {
                        &&& 0 <= winner < count - 1
                        &&& #[trigger] models[winner].spec_intersection(ray) == Some(one)
                        &&& forall|index: int|
                            0 <= index < count - 1 ==> ((#[trigger] models[index]).spec_intersection(
                                ray,
                            ) matches Some(other) ==> {
                                &&& one.spec_distance().raw <= other.spec_distance().raw
                                &&& one.spec_distance().raw == other.spec_distance().raw ==> winner
                                    <= index
                            })
                    };
                assert(models[winner].spec_intersection(ray) == Some(one));
            },
            (None, Some(other)) => {
                assert(models[count - 1].spec_intersection(ray) == Some(other));
            },
            (None, None) => {},
        }
    }
}

/// The place in `models` of the model whose intersection with `ray` is the
/// nearest among the first `count`; among equally near ones, the earliest.
pub open spec fn spec_nearest_index_among<M: Model>(models: Seq<M>, ray: Ray, count: nat) -> Option<
    int,
>
    decreases count,
{
    if count == 0 {
        None
    } else {
        let earlier = spec_nearest_index_among(models, ray, (count - 1) as nat);
        match (earlier, models[count - 1].spec_intersection(ray)) {
            (Some(best), Some(other)) => if other.spec_distance().raw < models[best].spec_intersection(
                ray,
            ).unwrap().spec_distance().raw {
                Some(count - 1)
            } else {
                earlier
            },
            (Some(_), None) => earlier,
            (None, Some(_)) => Some(count - 1),
            (None, None) => None,
        }
    }
}

/// The nearest intersection is that of the model at the nearest place.
pub proof fn lemma_nearest_index_among<M: Model>(models: Seq<M>, ray: Ray, count: nat)
    requires
        count <= models.len(),
    ensures
        spec_nearest_among(models, ray, count) == (match spec_nearest_index_among(
            models,
            ray,
            count,
        ) {
            Some(place) => models[place].spec_intersection(ray),
            None => None,
        }),
        spec_nearest_index_among(models, ray, count) matches Some(place) ==> 0 <= place < count
            && models[place].spec_intersection(ray).is_some(),
    decreases count,
{
    if count > 0 {
        lemma_nearest_index_among(models, ray, (count - 1) as nat);
    }
}

impl<M: Model> SimpleIntersector<M> {
    /// The surfaces, in the order in which they are asked.
    pub closed spec fn spec_models(&self) -> Seq<M> {
        self.models@
    }

    /// The first intersection of `ray` with the scene.
    pub open spec fn spec_nearest(&self, ray: Ray) -> Option<RayIntersection> {
        spec_nearest_among(self.spec_models(), ray, self.spec_models().len())
    }

    pub fn new(models: Vec<M>) -> (intersector: Self)
        ensures
            intersector.spec_models() == models@,
    {
        SimpleIntersector { models }
    }

    /// The number of surfaces.
    pub fn model_count(&self) -> (count: usize)
        ensures
            count == self.spec_models().len(),
    {
        self.models.len()
    }

    /// The place of the surface that `ray` meets first.
    pub open spec fn spec_nearest_index(&self, ray: Ray) -> Option<int> {
        spec_nearest_index_among(self.spec_models(), ray, self.spec_models().len())
    }

    /// The first intersection of `ray` with the scene, together with the
    /// place of the surface that is met.
    pub fn get_nearest_with_index(&self, ray: &Ray) -> (nearest: Option<(usize, RayIntersection)>)
        ensures
            nearest matches Some((place, hit)) ==> {
                &&& self.spec_nearest_index(*ray) == Some(place as int)
                &&& place < self.spec_models().len()
                &&& self.spec_nearest(*ray) == Some(hit)
            },
            nearest.is_none() ==> self.spec_nearest_index(*ray).is_none() && self.spec_nearest(
                *ray,
            ).is_none(),
    {
        proof {
            lemma_nearest_index_among(self.models@, *ray, self.models@.len());
        }
        let mut nearest: Option<(usize, RayIntersection)> = None;
        let mut index: usize = 0;
        while index < self.models.len()
            invariant
                index <= self.models@.len(),
                nearest matches Some((place, hit)) ==> {
                    &&& spec_nearest_index_among(self.models@, *ray, index as nat) == Some(
                        place as int,
                    )
                    &&& place < index
                    &&& self.models@[place as int].spec_intersection(*ray) == Some(hit)
                },
                nearest.is_none() ==> spec_nearest_index_among(
                    self.models@,
                    *ray,
                    index as nat,
                ).is_none(),
            decreases self.models@.len() - index,
        {
            let found = self.models[index].get_intersection(ray);
            nearest = match (nearest, found) {
                (Some((place, one)), Some(other)) => {
                    if other.get_distance_to_intersection().raw
                        < one.get_distance_to_intersection().raw {
                        Some((index, other))
                    } else {
                        nearest
                    }
                },
                (Some(_), None) => nearest,
                (None, Some(other)) => Some((index, other)),
                (None, None) => None,
            };
            index = index + 1;
        }
        nearest
    }

    /// Asks every surface for its intersection with `ray` and gives the
    /// nearest; of several that are equally near, that of the surface that
    /// comes first. `None` where the ray meets no surface.
    pub fn get_nearest_intersection(&self, ray: &Ray) -> (nearest: Option<RayIntersection>)
        ensures
            nearest == self.spec_nearest(*ray),
            nearest.is_none() <==> forall|index: int|
                0 <= index < self.spec_models().len() ==> (
                #[trigger] self.spec_models()[index]).spec_intersection(*ray).is_none(),
    {
        proof {
            lemma_nearest_among(self.models@, *ray, self.models@.len());
        }
        let mut nearest: Option<RayIntersection> = None;
        let mut index: usize = 0;
        while index < self.models.len()
            invariant
                index <= self.models@.len(),
                nearest == spec_nearest_among(self.models@, *ray, index as nat),
            decreases self.models@.len() - index,
        {
            let found = self.models[index].get_intersection(ray);
            nearest = match (nearest, found) {
                (Some(one), Some(other)) => {
                    if other.get_distance_to_intersection().raw
                        < one.get_distance_to_intersection().raw {
                        found
                    } else {
                        nearest
                    }
                },
                (Some(_), None) => nearest,
                (None, _) => found,
            };
            index = index + 1;
        }
        nearest
    }
}

} // verus!
