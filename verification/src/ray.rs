//! Rays: a starting point and a direction of travel.

use crate::defs::{Matrix4, Point3, Vector3};
use vstd::prelude::*;

verus! {

/// A half-line that starts at `origin` and runs along `direction`.
#[derive(Clone, Copy, Debug, PartialEq, Eq, Structural)]
pub struct Ray {
    pub origin: Point3,
    pub direction: Vector3,
}

impl Ray {
    #[verifier::allow_in_spec]
    pub fn new(origin: Point3, direction: Vector3) -> Ray
        returns
            (Ray { origin, direction }),
    {
        Ray { origin, direction }
    }

    pub fn get_origin(&self) -> (origin: &Point3)
        ensures
            *origin == self.origin,
    {
        &self.origin
    }

    /// Whether the ray has an image under the two transformations: the image of
    /// its origin has a weight other than zero, and that of its direction the
    /// weight zero.
    pub open spec fn spec_transformable(self, point_tf: Matrix4, vector_tf: Matrix4) -> bool {
        point_tf.transform_point(self.origin).is_some() && vector_tf.transform_vector(
            self.direction,
        ).is_some()
    }

    /// The image of the ray: its origin under the first transformation, and
    /// its direction under the second, brought to unit length.
    pub open spec fn spec_transformed(self, point_tf: Matrix4, vector_tf: Matrix4) -> Ray {
        Ray {
            origin: point_tf.transform_point(self.origin).unwrap(),
            direction: vector_tf.transform_vector(self.direction).unwrap().spec_normalized(),
        }
    }

    /// The ray in another frame: `point_and_dir_mx` holds the transformation of
    /// points and that of directions.
    pub fn get_transformed(&self, point_and_dir_mx: (&Matrix4, &Matrix4)) -> (image: Ray)
        requires
            self.spec_transformable(*point_and_dir_mx.0, *point_and_dir_mx.1),
        ensures
            image == self.spec_transformed(*point_and_dir_mx.0, *point_and_dir_mx.1),
    {
        let (point_tf_mx, vector_tf_mx) = point_and_dir_mx;
        let origin = point_tf_mx.transform_point(self.origin);
        let direction = vector_tf_mx.transform_vector(self.direction);
        Ray { origin: origin.unwrap(), direction: direction.unwrap().normalized() }
    }

    pub fn get_direction(&self) -> (direction: &Vector3)
        ensures
            *direction == self.direction,
    {
        &self.direction
    }
}

} // verus!
