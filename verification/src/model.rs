//! Surfaces that rays can meet.

use crate::defs::{Matrix4, Point3, Vector3};
use crate::fixed::{Fixed, EPSILON};
use crate::intersection::RayIntersection;
use crate::material::Material;
use crate::ray::Ray;
use vstd::prelude::*;

verus! {

/// A surface. Whether and where a ray meets it is fixed by the surface and the
/// ray.
pub trait Model {
    /// Where `ray` first meets the surface, if it does. A surface that does not
    /// say leaves it open.
    open spec fn spec_intersection(&self, ray: Ray) -> Option<RayIntersection> {
        arbitrary()
    }

    fn get_intersection(&self, ray: &Ray) -> (hit: Option<RayIntersection>)
        ensures
            hit == self.spec_intersection(*ray),
    ;
}

/// The intersection of `ray` at `point`, or none where the point lies within the
/// tolerance of the ray's origin.
pub open spec fn spec_hit(
    normal: Vector3,
    point: Point3,
    ray: Ray,
    material: Material,
    was_inside: bool,
) -> Option<RayIntersection> {
    match RayIntersection::spec_new(normal, point, ray, material, was_inside) {
        Ok(hit) => Some(hit),
        Err(_) => None,
    }
}

/// The intersection of `ray` at `point`, or none where the point lies within the
/// tolerance of the ray's origin.
pub fn hit(normal: Vector3, point: Point3, ray: &Ray, material: Material, was_inside: bool) -> (made:
    Option<RayIntersection>)
    ensures
        made == spec_hit(normal, point, *ray, material, was_inside),
{
    match RayIntersection::new(normal, point, ray, material, was_inside) {
        Ok(hit) => Some(hit),
        Err(_) => None,
    }
}

/// A plane through `point` with the normal `normal`, seen from both sides.
#[derive(Clone, Copy, Debug)]
pub struct SolidPlane {
    pub material: Material,
    pub point: Point3,
    pub normal: Vector3,
}

impl SolidPlane {
    #[verifier::allow_in_spec]
    pub fn new_positioned(material: Material, point: Point3, normal: Vector3) -> SolidPlane
        returns
            (SolidPlane { material, point, normal }),
    {
        SolidPlane { material, point, normal }
    }
}

impl Model for SolidPlane {
    /// A ray meets the plane where it is not parallel to it and the plane
    /// lies ahead. The normal of the intersection faces the ray.
    open spec fn spec_intersection(&self, ray: Ray) -> Option<RayIntersection> {
        let slope = ray.direction.dot(self.normal);
        let along = self.point.minus(ray.origin).dot(self.normal).over(slope);
        if slope.raw == 0 || along.raw <= 0 {
            None
        } else {
            spec_hit(
                if slope.raw > 0 {
                    self.normal.neg()
                } else {
                    self.normal
                },
                ray.origin.translated(ray.direction.scaled(along)),
                ray,
                self.material,
                false,
            )
        }
    }

    fn get_intersection(&self, ray: &Ray) -> (hit: Option<RayIntersection>) {
        let slope = ray.direction.dot(self.normal);
        let along = self.point.minus(ray.origin).dot(self.normal).over(slope);
        if slope.raw == 0 || along.raw <= 0 {
            None
        } else {
            let facing = if slope.raw > 0 {
                self.normal.neg()
            } else {
                self.normal
            };
            hit(facing, ray.origin.translated(ray.direction.scaled(along)), ray, self.material, false)
        }
    }
}

/// A sphere around `center`.
#[derive(Clone, Copy, Debug)]
pub struct SolidSphere {
    pub material: Material,
    pub center: Point3,
    pub radius: Fixed,
}

impl SolidSphere {
    #[verifier::allow_in_spec]
    pub fn new_positioned(material: Material, center: Point3, radius: Fixed) -> SolidSphere
        returns
            (SolidSphere { material, center, radius }),
    {
        SolidSphere { material, center, radius }
    }

    /// The unit sphere around the origin.
    #[verifier::allow_in_spec]
    pub fn new(material: Material) -> SolidSphere
        returns
            (SolidSphere {
                material,
                center: Point3 { x: Fixed::zero(), y: Fixed::zero(), z: Fixed::zero() },
                radius: Fixed::one(),
            }),
    {
        SolidSphere {
            material,
            center: Point3 { x: Fixed::zero(), y: Fixed::zero(), z: Fixed::zero() },
            radius: Fixed::one(),
        }
    }

    /// The discriminant of the equation for the places along `ray` that lie on
    /// the sphere, a quarter of it.
    pub open spec fn spec_discriminant(&self, ray: Ray) -> Fixed {
        let from_center = ray.origin.minus(self.center);
        let squared = ray.direction.dot(ray.direction);
        let half = from_center.dot(ray.direction);
        let offset = from_center.dot(from_center).minus(self.radius.times(self.radius));
        half.times(half).minus(squared.times(offset))
    }

    /// How far along `ray` it enters (`-1`) or leaves (`1`) the sphere, where
    /// the discriminant is not negative.
    pub open spec fn spec_along(&self, ray: Ray, side: int) -> Fixed {
        let from_center = ray.origin.minus(self.center);
        let squared = ray.direction.dot(ray.direction);
        let half = from_center.dot(ray.direction);
        let root = self.spec_discriminant(ray).spec_sqrt();
        if side < 0 {
            half.neg().minus(root).over(squared)
        } else {
            half.neg().plus(root).over(squared)
        }
    }
}

impl Model for SolidSphere {
    /// A ray meets the sphere from outside where it enters it ahead, beyond
    /// the tolerance, and from inside where only the place it leaves lies
    /// ahead. The normal of the intersection faces the ray.
    open spec fn spec_intersection(&self, ray: Ray) -> Option<RayIntersection> {
        let entry = self.spec_along(ray, -1);
        let exit = self.spec_along(ray, 1);
        if self.spec_discriminant(ray).raw < 0 || ray.direction.dot(ray.direction).raw == 0 {
            None
        } else if entry.raw >= EPSILON {
            let point = ray.origin.translated(ray.direction.scaled(entry));
            spec_hit(point.minus(self.center), point, ray, self.material, false)
        } else if exit.raw >= EPSILON {
            let point = ray.origin.translated(ray.direction.scaled(exit));
            spec_hit(self.center.minus(point), point, ray, self.material, true)
        } else {
            None
        }
    }

    fn get_intersection(&self, ray: &Ray) -> (hit: Option<RayIntersection>) {
        let from_center = ray.origin.minus(self.center);
        let squared = ray.direction.dot(ray.direction);
        let half = from_center.dot(ray.direction);
        let offset = from_center.dot(from_center).minus(self.radius.times(self.radius));
        let discriminant = half.times(half).minus(squared.times(offset));
        if discriminant.raw < 0 || squared.raw == 0 {
            return None;
        }
        let root = discriminant.sqrt();
        let entry = half.neg().minus(root).over(squared);
        let exit = half.neg().plus(root).over(squared);
        if entry.raw >= EPSILON {
            let point = ray.origin.translated(ray.direction.scaled(entry));
            hit(point.minus(self.center), point, ray, self.material, false)
        } else if exit.raw >= EPSILON {
            let point = ray.origin.translated(ray.direction.scaled(exit));
            hit(self.center.minus(point), point, ray, self.material, true)
        } else {
            None
        }
    }
}

/// A surface that has been placed in the scene: rays are taken into the frame of
/// the surface, and what they meet there is taken back into the scene. All four
/// transformations keep weights.
pub struct ModelViewModelWrapper<M> {
    model: M,
    points_to_model: Matrix4,
    vectors_to_model: Matrix4,
    points_to_scene: Matrix4,
    vectors_to_scene: Matrix4,
}

impl<M: Copy> Clone for ModelViewModelWrapper<M> {
    fn clone(&self) -> (copy: Self)
        ensures
            copy == *self,
    {
        *self
    }
}

impl<M: Copy> Copy for ModelViewModelWrapper<M> {

}

impl<M> ModelViewModelWrapper<M> {
    #[verifier::type_invariant]
    spec fn spec_keeps_weights(self) -> bool {
        &&& self.points_to_model.is_affine()
        &&& self.vectors_to_model.is_affine()
        &&& self.points_to_scene.is_affine()
        &&& self.vectors_to_scene.is_affine()
    }
}

impl<M: Model> ModelViewModelWrapper<M> {
    /// The surface that has been placed.
    pub closed spec fn spec_model(&self) -> M {
        self.model
    }

    /// The transformations of points and of directions into the frame of the
    /// surface.
    pub closed spec fn spec_to_model(&self) -> (Matrix4, Matrix4) {
        (self.points_to_model, self.vectors_to_model)
    }

    /// The transformations of points and of directions into the scene.
    pub closed spec fn spec_to_scene(&self) -> (Matrix4, Matrix4) {
        (self.points_to_scene, self.vectors_to_scene)
    }

    /// The surface where it stands.
    pub fn new_identity(model: M) -> (placed: Self)
        ensures
            placed.spec_model() == model,
            placed.spec_to_model() == (Matrix4::identity(), Matrix4::identity()),
            placed.spec_to_scene() == (Matrix4::identity(), Matrix4::identity()),
    {
        ModelViewModelWrapper {
            model,
            points_to_model: Matrix4::identity(),
            vectors_to_model: Matrix4::identity(),
            points_to_scene: Matrix4::identity(),
            vectors_to_scene: Matrix4::identity(),
        }
    }

    /// The surface placed by the given transformations, each a pair for points
    /// and for directions; none unless all four keep weights.
    pub fn new(model: M, to_model: (Matrix4, Matrix4), to_scene: (Matrix4, Matrix4)) -> (placed:
        Option<Self>)
        ensures
            placed.is_some() <==> to_model.0.is_affine() && to_model.1.is_affine()
                && to_scene.0.is_affine() && to_scene.1.is_affine(),
            placed matches Some(wrapper) ==> {
                &&& wrapper.spec_model() == model
                &&& wrapper.spec_to_model() == to_model
                &&& wrapper.spec_to_scene() == to_scene
            },
    {
        if to_model.0.is_affine() && to_model.1.is_affine() && to_scene.0.is_affine()
            && to_scene.1.is_affine() {
            Some(
                ModelViewModelWrapper {
                    model,
                    points_to_model: to_model.0,
                    vectors_to_model: to_model.1,
                    points_to_scene: to_scene.0,
                    vectors_to_scene: to_scene.1,
                },
            )
        } else {
            None
        }
    }
}

impl<M: Model> Model for ModelViewModelWrapper<M> {
    /// The ray is taken into the frame of the surface; what it meets there is
    /// taken back into the scene, with the distance that it has in the frame of
    /// the surface.
    open spec fn spec_intersection(&self, ray: Ray) -> Option<RayIntersection> {
        match self.spec_model().spec_intersection(
            ray.spec_transformed(self.spec_to_model().0, self.spec_to_model().1),
        ) {
            Some(hit) => Some(hit.spec_transformed(self.spec_to_scene().0, self.spec_to_scene().1)),
            None => None,
        }
    }

    fn get_intersection(&self, ray: &Ray) -> (hit: Option<RayIntersection>) {
        proof {
            use_type_invariant(self);
            self.points_to_model.lemma_affine_transforms_all(ray.origin, ray.direction);
            self.vectors_to_model.lemma_affine_transforms_all(ray.origin, ray.direction);
        }
        let local = ray.get_transformed((&self.points_to_model, &self.vectors_to_model));
        match self.model.get_intersection(&local) {
            Some(hit) => {
                proof {
                    self.points_to_scene.lemma_affine_transforms_all(
                        hit.spec_point(),
                        hit.spec_normal(),
                    );
                    self.vectors_to_scene.lemma_affine_transforms_all(
                        hit.spec_point(),
                        hit.spec_normal(),
                    );
                    self.points_to_scene.lemma_affine_transforms_all(
                        hit.spec_ray().origin,
                        hit.spec_ray().direction,
                    );
                    self.vectors_to_scene.lemma_affine_transforms_all(
                        hit.spec_ray().origin,
                        hit.spec_ray().direction,
                    );
                }
                Some(hit.get_transformed((&self.points_to_scene, &self.vectors_to_scene)))
            },
            None => None,
        }
    }
}

/// A sphere, a plane, or a sphere that has been placed in the scene.
#[derive(Clone, Copy)]
pub enum SolidModel {
    Sphere(SolidSphere),
    Plane(SolidPlane),
    Placed(ModelViewModelWrapper<SolidSphere>),
}

impl Model for SolidModel {
    open spec fn spec_intersection(&self, ray: Ray) -> Option<RayIntersection> {
        match self {
            SolidModel::Sphere(sphere) => sphere.spec_intersection(ray),
            SolidModel::Plane(plane) => plane.spec_intersection(ray),
            SolidModel::Placed(placed) => placed.spec_intersection(ray),
        }
    }

    fn get_intersection(&self, ray: &Ray) -> (hit: Option<RayIntersection>) {
        match self {
            SolidModel::Sphere(sphere) => sphere.get_intersection(ray),
            SolidModel::Plane(plane) => plane.get_intersection(ray),
            SolidModel::Placed(placed) => placed.get_intersection(ray),
        }
    }
}

} // verus!
