use rtrace::defs::{distance, Matrix4, Point2Int, Point3, Vector3, Vector4};
use rtrace::fixed::Fixed;
use rtrace::intersection::{RayIntersection, RayIntersectionError};
use rtrace::material::Material;
use rtrace::ray::Ray;
use rtrace::color::Color;

fn raw(value: i64) -> Fixed {
    Fixed::from_raw(value)
}

fn whole(value: i32) -> Fixed {
    Fixed::from_int(value)
}

fn point(x: i32, y: i32, z: i32) -> Point3 {
    Point3::new(whole(x), whole(y), whole(z))
}

fn vector(x: i32, y: i32, z: i32) -> Vector3 {
    Vector3::new(whole(x), whole(y), whole(z))
}

fn red() -> Material {
    Material::new_diffuse(Color::new(whole(1), whole(0), whole(0)))
}

fn translation(x: i32, y: i32, z: i32) -> Matrix4 {
    Matrix4::new(
        Vector4::new(whole(1), whole(0), whole(0), whole(x)),
        Vector4::new(whole(0), whole(1), whole(0), whole(y)),
        Vector4::new(whole(0), whole(0), whole(1), whole(z)),
        Vector4::new(whole(0), whole(0), whole(0), whole(1)),
    )
}

#[test]
fn pixel_positions_keep_their_coordinates() {
    let position = Point2Int::new(3, 7);
    assert_eq!(position.x, 3);
    assert_eq!(position.y, 7);
    assert_eq!(position, Point2Int { x: 3, y: 7 });
}

#[test]
fn vector_arithmetic() {
    let a = vector(1, 2, 3);
    let b = vector(4, 5, 6);
    assert_eq!(a.plus(b), vector(5, 7, 9));
    assert_eq!(b.minus(a), vector(3, 3, 3));
    assert_eq!(a.neg(), vector(-1, -2, -3));
    assert_eq!(a.scaled(whole(2)), vector(2, 4, 6));
    assert_eq!(b.divided(whole(2)), Vector3::new(whole(2), raw(2_500_000), whole(3)));
    assert_eq!(a.dot(b), whole(32));
    assert_eq!(a.cross(b), vector(-3, 6, -3));
    assert_eq!(vector(1, 0, 0).cross(vector(0, 1, 0)), vector(0, 0, 1));
}

#[test]
fn lengths_and_unit_vectors() {
    assert_eq!(vector(3, 4, 0).norm(), whole(5));
    assert_eq!(vector(0, 0, 0).norm(), whole(0));
    assert_eq!(vector(1, 1, 1).norm(), raw(1_732_050));
    assert_eq!(vector(0, 0, 2).normalized(), vector(0, 0, 1));
    assert_eq!(vector(3, 4, 0).normalized(), Vector3::new(raw(600_000), raw(800_000), raw(0)));
    assert_eq!(vector(0, 0, 0).normalized(), vector(0, 0, 0));
    let huge = Vector3::new(raw(i64::MAX), raw(i64::MIN), raw(i64::MAX));
    assert_eq!(huge.norm(), raw(i64::MAX));
}

#[test]
fn points_and_distances() {
    assert_eq!(point(4, 6, 8).minus(point(1, 2, 3)), vector(3, 4, 5));
    assert_eq!(point(1, 2, 3).translated(vector(1, 1, 1)), point(2, 3, 4));
    assert_eq!(distance(&point(1, 1, 1), &point(4, 5, 1)), whole(5));
    assert_eq!(distance(&point(4, 5, 1), &point(1, 1, 1)), whole(5));
    assert_eq!(distance(&point(2, 2, 2), &point(2, 2, 2)), whole(0));
}

#[test]
fn homogeneous_transformations() {
    let shift = translation(1, 2, 3);
    assert_eq!(shift.transform_point(point(1, 1, 1)), Some(point(2, 3, 4)));
    assert_eq!(shift.transform_vector(vector(1, 1, 1)), Some(vector(1, 1, 1)));
    assert_eq!(Matrix4::identity().transform_point(point(5, 6, 7)), Some(point(5, 6, 7)));
    let halving = Matrix4::new(
        Vector4::new(whole(1), whole(0), whole(0), whole(0)),
        Vector4::new(whole(0), whole(1), whole(0), whole(0)),
        Vector4::new(whole(0), whole(0), whole(1), whole(0)),
        Vector4::new(whole(0), whole(0), whole(0), whole(2)),
    );
    assert_eq!(halving.transform_point(point(2, 4, 6)), Some(point(1, 2, 3)));
    let flat = Matrix4::new(
        Vector4::new(whole(1), whole(0), whole(0), whole(0)),
        Vector4::new(whole(0), whole(1), whole(0), whole(0)),
        Vector4::new(whole(0), whole(0), whole(1), whole(0)),
        Vector4::new(whole(0), whole(0), whole(0), whole(0)),
    );
    assert_eq!(flat.transform_point(point(2, 4, 6)), None);
    let skewed = Matrix4::new(
        Vector4::new(whole(1), whole(0), whole(0), whole(0)),
        Vector4::new(whole(0), whole(1), whole(0), whole(0)),
        Vector4::new(whole(0), whole(0), whole(1), whole(0)),
        Vector4::new(whole(1), whole(0), whole(0), whole(1)),
    );
    assert_eq!(skewed.transform_vector(vector(1, 0, 0)), None);
    assert_eq!(skewed.transform_vector(vector(0, 1, 0)), Some(vector(0, 1, 0)));
}

#[test]
fn rays_keep_origin_and_direction() {
    let ray = Ray::new(point(1, 2, 3), vector(0, 0, 1));
    assert_eq!(*ray.get_origin(), point(1, 2, 3));
    assert_eq!(*ray.get_direction(), vector(0, 0, 1));
    let shift = translation(1, 0, 0);
    let moved = ray.get_transformed((&shift, &shift));
    assert_eq!(moved, Ray::new(point(2, 2, 3), vector(0, 0, 1)));
}

#[test]
fn intersection_away_from_the_origin_succeeds() {
    let ray = Ray::new(point(0, 0, 0), vector(0, 0, 1));
    let hit = RayIntersection::new(vector(0, 0, -2), point(3, 4, 0), &ray, red(), true).unwrap();
    assert_eq!(hit.get_distance_to_intersection(), whole(5));
    assert!(hit.get_distance_to_intersection().raw > 0);
    assert_eq!(*hit.get_intersection_point(), point(3, 4, 0));
    assert_eq!(*hit.get_normal_vector(), vector(0, 0, -1));
    assert_eq!(*hit.get_itersector_ray(), ray);
    assert_eq!(hit.get_view_direction(), vector(0, 0, -1));
    assert!(hit.was_inside());
    assert!(matches!(hit.get_material(), Material::Diffuse { .. }));
}

#[test]
fn intersection_at_the_origin_fails() {
    let ray = Ray::new(point(1, 2, 3), vector(0, 0, 1));
    let made = RayIntersection::new(vector(0, 0, 1), point(1, 2, 3), &ray, red(), false);
    assert_eq!(made.unwrap_err(), RayIntersectionError::NoRayTravelDistance);
}

#[test]
fn intersection_within_the_tolerance_fails() {
    let ray = Ray::new(point(0, 0, 0), vector(0, 0, 1));
    let near = Point3::new(raw(0), raw(0), raw(9));
    assert!(RayIntersection::new(vector(0, 0, 1), near, &ray, red(), false).is_err());
    let far = Point3::new(raw(0), raw(0), raw(10));
    let hit = RayIntersection::new(vector(0, 0, 1), far, &ray, red(), false).unwrap();
    assert_eq!(hit.get_distance_to_intersection(), raw(10));
}

#[test]
fn transformed_intersection_keeps_distance_material_and_side() {
    let ray = Ray::new(point(0, 0, 0), vector(0, 0, 1));
    let hit = RayIntersection::new(vector(0, 0, -1), point(0, 0, 4), &ray, red(), true).unwrap();
    let shift = translation(10, 20, 30);
    let moved = hit.get_transformed((&shift, &Matrix4::identity()));
    assert_eq!(*moved.get_intersection_point(), point(10, 20, 34));
    assert_eq!(*moved.get_normal_vector(), vector(0, 0, -1));
    assert_eq!(*moved.get_itersector_ray(), Ray::new(point(10, 20, 30), vector(0, 0, 1)));
    assert_eq!(moved.get_distance_to_intersection(), whole(4));
    assert!(moved.was_inside());
    assert!(matches!(moved.get_material(), Material::Diffuse { .. }));
}
