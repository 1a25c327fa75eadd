//! The meeting of a ray with a surface.

use crate::defs::{distance, lemma_distance_to_self, Matrix4, Point3, Vector3};
use crate::fixed::{Fixed, EPSILON};
use crate::material::Material;
use crate::ray::Ray;
use vstd::prelude::*;

verus! {

/// Why no intersection could be made.
#[derive(Clone, Copy, Debug, PartialEq, Eq, Structural)]
pub enum RayIntersectionError {
    /// The ray would meet the surface where it starts.
    NoRayTravelDistance,
}

/// Where a ray meets a surface: the point, the unit normal of the surface
/// there, the material, how far the ray has come, the ray itself, and whether it
/// started inside the surface. The distance is never within the tolerance of
/// zero.
#[derive(Clone, Copy, Debug)]
pub struct RayIntersection {
    normal: Vector3,
    point: Point3,
    material_at_intersection: Material,
    distance_to_intersection: Fixed,
    was_inside: bool,
    ray: Ray,
}

impl RayIntersection {
    #[verifier::type_invariant]
    spec fn spec_positive_distance(self) -> bool {
        self.distance_to_intersection.raw >= EPSILON
    }

    pub closed spec fn spec_normal(&self) -> Vector3 {
        self.normal
    }

    pub closed spec fn spec_point(&self) -> Point3 {
        self.point
    }

    pub closed spec fn spec_material(&self) -> Material {
        self.material_at_intersection
    }

    pub closed spec fn spec_distance(&self) -> Fixed {
        self.distance_to_intersection
    }

    pub closed spec fn spec_was_inside(&self) -> bool {
        self.was_inside
    }

    pub closed spec fn spec_ray(&self) -> Ray {
        self.ray
    }

    /// The intersection that `new` makes, or why it makes none.
    pub closed spec fn spec_new(
        normal: Vector3,
        point: Point3,
        ray: Ray,
        material: Material,
        was_inside: bool,
    ) -> Result<Self, RayIntersectionError> {
        let distance_to_intersection = ray.origin.spec_distance(point);
        if distance_to_intersection.raw >= EPSILON {
            Ok(
                RayIntersection {
                    normal: normal.spec_normalized(),
                    point,
                    material_at_intersection: material,
                    distance_to_intersection,
                    was_inside,
                    ray,
                },
            )
        } else {
            Err(RayIntersectionError::NoRayTravelDistance)
        }
    }

    /// The intersection of `ray` with a surface at `point`. It fails when the
    /// point lies within the tolerance of the ray's origin, and only then; so it
    /// fails at the origin itself.
    pub fn new(normal: Vector3, point: Point3, ray: &Ray, material: Material, was_inside: bool) -> (made:
        Result<Self, RayIntersectionError>)
        ensures
            made == Self::spec_new(normal, point, *ray, material, was_inside),
            made.is_err() <==> ray.origin.spec_distance(point).raw < EPSILON,
            made.is_ok() ==> ray.origin.spec_distance(point).raw > 0,
            point == ray.origin ==> made.is_err(),
            made matches Err(error) ==> error == RayIntersectionError::NoRayTravelDistance,
            made matches Ok(hit) ==> {
                &&& hit.spec_normal() == normal.spec_normalized()
                &&& hit.spec_point() == point
                &&& hit.spec_material() == material
                &&& hit.spec_distance() == ray.origin.spec_distance(point)
                &&& hit.spec_was_inside() == was_inside
                &&& hit.spec_ray() == *ray
            },
    {
        proof {
            lemma_distance_to_self(ray.origin);
        }
        let distance_to_intersection = distance(ray.get_origin(), &point);
        if !distance_to_intersection.near_zero_eps() {
            Ok(
                Self {
                    normal: normal.normalized(),
                    point,
                    ray: *ray,
                    material_at_intersection: material,
                    distance_to_intersection,
                    was_inside,
                },
            )
        } else {
            Err(RayIntersectionError::NoRayTravelDistance)
        }
    }

    pub fn get_intersection_point(&self) -> (point: &Point3)
        ensures
            *point == self.spec_point(),
    {
        &self.point
    }

    pub fn get_normal_vector(&self) -> (normal: &Vector3)
        ensures
            *normal == self.spec_normal(),
    {
        &self.normal
    }

    /// How far the ray has come. It is positive: at least the tolerance.
    pub fn get_distance_to_intersection(&self) -> (distance: Fixed)
        ensures
            distance == self.spec_distance(),
            distance.raw >= EPSILON,
            distance.raw > 0,
    {
        proof {
            use_type_invariant(self);
        }
        self.distance_to_intersection
    }

    pub fn get_itersector_ray(&self) -> (ray: &Ray)
        ensures
            *ray == self.spec_ray(),
    {
        &self.ray
    }

    /// The direction back along the ray, toward the viewer.
    pub fn get_view_direction(&self) -> (direction: Vector3)
        ensures
            direction == self.spec_ray().direction.neg(),
    {
        self.ray.get_direction().neg()
    }

    pub fn get_material(&self) -> (material: &Material)
        ensures
            *material == self.spec_material(),
    {
        &self.material_at_intersection
    }

    pub fn was_inside(&self) -> (inside: bool)
        ensures
            inside == self.spec_was_inside(),
    {
        self.was_inside
    }

    /// Whether the intersection has an image under the two transformations.
    pub open spec fn spec_transformable(&self, point_tf: Matrix4, vector_tf: Matrix4) -> bool {
        &&& point_tf.transform_point(self.spec_point()).is_some()
        &&& vector_tf.transform_vector(self.spec_normal()).is_some()
        &&& self.spec_ray().spec_transformable(point_tf, vector_tf)
    }

    /// The intersection in another frame: point, normal and ray are
    /// transformed; the material, the distance and the side stay.
    pub closed spec fn spec_transformed(self, point_tf: Matrix4, vector_tf: Matrix4) -> Self {
        RayIntersection {
            normal: vector_tf.transform_vector(self.normal).unwrap().spec_normalized(),
            point: point_tf.transform_point(self.point).unwrap(),
            ray: self.ray.spec_transformed(point_tf, vector_tf),
            ..self
        }
    }

    /// The intersection in another frame: `point_and_dir_mx` holds the
    /// transformation of points and that of directions. Point, normal and ray
    /// are transformed; the material, the distance and the side stay.
    pub fn get_transformed(self, point_and_dir_mx: (&Matrix4, &Matrix4)) -> (image: Self)
        requires
            self.spec_transformable(*point_and_dir_mx.0, *point_and_dir_mx.1),
        ensures
            image == self.spec_transformed(*point_and_dir_mx.0, *point_and_dir_mx.1),
            image.spec_point() == point_and_dir_mx.0.transform_point(self.spec_point()).unwrap(),
            image.spec_normal() == point_and_dir_mx.1.transform_vector(
                self.spec_normal(),
            ).unwrap().spec_normalized(),
            image.spec_ray() == self.spec_ray().spec_transformed(
                *point_and_dir_mx.0,
                *point_and_dir_mx.1,
            ),
            image.spec_material() == self.spec_material(),
            image.spec_distance() == self.spec_distance(),
            image.spec_was_inside() == self.spec_was_inside(),
    {
        proof {
            use_type_invariant(&self);
        }
        let (point_tf_mx, vector_tf_mx) = point_and_dir_mx;
        let point = point_tf_mx.transform_point(self.point);
        let normal = vector_tf_mx.transform_vector(self.normal);
        Self {
            point: point.unwrap(),
            normal: normal.unwrap().normalized(),
            ray: self.ray.get_transformed(point_and_dir_mx),
            material_at_intersection: self.material_at_intersection,
            distance_to_intersection: self.distance_to_intersection,
            was_inside: self.was_inside,
        }
    }
}

} // verus!
