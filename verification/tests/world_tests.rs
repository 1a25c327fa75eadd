use rtrace::color::{Color, FresnelIndex};
use rtrace::complex::Complex;
use rtrace::defs::{Point3, Vector3};
use rtrace::fixed::Fixed;
use rtrace::illuminator::SimpleIlluminator;
use rtrace::intersector::SimpleIntersector;
use rtrace::light::{DotLightSource, LightSource};
use rtrace::material::Material;
use rtrace::model::{Model, SolidModel, SolidPlane, SolidSphere};
use rtrace::ray::Ray;
use rtrace::shading::{power, whole_exponent, SimpleColorCalculator};
use rtrace::world::{RayCaster, World};

fn raw(value: i64) -> Fixed {
    Fixed::from_raw(value)
}

fn whole(value: i32) -> Fixed {
    Fixed::from_int(value)
}

fn point(x: i32, y: i32, z: i32) -> Point3 {
    Point3::new(whole(x), whole(y), whole(z))
}

fn vector(x: i32, y: i32, z: i32) -> Vector3 {
    Vector3::new(whole(x), whole(y), whole(z))
}

fn color(r: i64, g: i64, b: i64) -> Color {
    Color::new(raw(r), raw(g), raw(b))
}

fn index(value: i64) -> FresnelIndex {
    FresnelIndex::new(
        Complex::from_real(raw(value)),
        Complex::from_real(raw(value)),
        Complex::from_real(raw(value)),
    )
}

fn red() -> Material {
    Material::new_diffuse(color(1_000_000, 0, 0))
}

fn white_light(intensity: i32, position: Point3) -> DotLightSource {
    DotLightSource::new_natural(color(1_000_000, 1_000_000, 1_000_000), whole(intensity), position)
}

fn world(models: Vec<SolidModel>, lights: Vec<DotLightSource>, depth: u32) -> World<SolidModel, DotLightSource> {
    World::new(
        SimpleIntersector::new(models),
        SimpleColorCalculator::new(),
        SimpleIlluminator::new(lights),
        depth,
    )
}

fn seen(world: &World<SolidModel, DotLightSource>, ray: Ray) -> Option<(Fixed, Fixed, Fixed)> {
    world.cast_ray(&ray).map(|found| found.get())
}

#[test]
fn ray_through_the_centre_of_a_red_sphere_sees_red() {
    let scene = world(
        vec![SolidModel::Sphere(SolidSphere::new(red()))],
        vec![white_light(20, point(0, 0, -5))],
        8,
    );
    let found = scene.cast_ray(&Ray::new(point(0, 0, -3), vector(0, 0, 1)));
    let (r, g, b) = found.expect("the ray meets the sphere").get();
    assert!(r.raw > g.raw && r.raw > b.raw);
    assert_eq!((r, g, b), (raw(1_250_000), raw(0), raw(0)));
}

#[test]
fn ray_aimed_away_from_all_geometry_sees_nothing() {
    let scene = world(
        vec![SolidModel::Sphere(SolidSphere::new(red()))],
        vec![white_light(20, point(0, 0, -5))],
        8,
    );
    assert_eq!(seen(&scene, Ray::new(point(0, 0, -3), vector(0, 0, -1))), None);
    assert_eq!(seen(&scene, Ray::new(point(0, 0, -3), vector(0, 1, 0))), None);
    let empty = world(vec![], vec![white_light(20, point(0, 0, -5))], 8);
    assert_eq!(seen(&empty, Ray::new(point(0, 0, -3), vector(0, 0, 1))), None);
}

#[test]
fn sphere_is_met_from_outside_and_from_inside() {
    let sphere = SolidSphere::new_positioned(red(), point(0, 0, 5), whole(2));
    let outside = sphere.get_intersection(&Ray::new(point(0, 0, 0), vector(0, 0, 1))).unwrap();
    assert_eq!(*outside.get_intersection_point(), point(0, 0, 3));
    assert_eq!(*outside.get_normal_vector(), vector(0, 0, -1));
    assert_eq!(outside.get_distance_to_intersection(), whole(3));
    assert!(!outside.was_inside());
    let inside = sphere.get_intersection(&Ray::new(point(0, 0, 5), vector(0, 0, 1))).unwrap();
    assert_eq!(*inside.get_intersection_point(), point(0, 0, 7));
    assert_eq!(*inside.get_normal_vector(), vector(0, 0, -1));
    assert_eq!(inside.get_distance_to_intersection(), whole(2));
    assert!(inside.was_inside());
    assert!(sphere.get_intersection(&Ray::new(point(0, 0, 8), vector(0, 0, 1))).is_none());
    assert!(sphere.get_intersection(&Ray::new(point(3, 0, 0), vector(0, 0, 1))).is_none());
    assert!(sphere.get_intersection(&Ray::new(point(0, 0, 0), vector(0, 0, 0))).is_none());
}

#[test]
fn ray_that_starts_on_a_surface_does_not_meet_it_there() {
    let sphere = SolidSphere::new(red());
    assert!(sphere.get_intersection(&Ray::new(point(0, 0, -1), vector(0, 0, -1))).is_none());
    let plane = SolidPlane::new_positioned(red(), point(0, 0, 2), vector(0, 0, -1));
    assert!(plane.get_intersection(&Ray::new(point(1, 1, 2), vector(0, 0, 1))).is_none());
    assert!(plane.get_intersection(&Ray::new(point(1, 1, 2), vector(0, 0, -1))).is_none());
}

#[test]
fn plane_is_met_from_both_sides() {
    let plane = SolidPlane::new_positioned(red(), point(0, 0, 2), vector(0, 0, -1));
    let front = plane.get_intersection(&Ray::new(point(1, 1, -3), vector(0, 0, 1))).unwrap();
    assert_eq!(*front.get_intersection_point(), point(1, 1, 2));
    assert_eq!(*front.get_normal_vector(), vector(0, 0, -1));
    assert_eq!(front.get_distance_to_intersection(), whole(5));
    let back = plane.get_intersection(&Ray::new(point(0, 0, 6), vector(0, 0, -1))).unwrap();
    assert_eq!(*back.get_intersection_point(), point(0, 0, 2));
    assert_eq!(*back.get_normal_vector(), vector(0, 0, 1));
    assert!(plane.get_intersection(&Ray::new(point(0, 0, 0), vector(1, 0, 0))).is_none());
    assert!(plane.get_intersection(&Ray::new(point(0, 0, 0), vector(0, 0, -1))).is_none());
}

#[test]
fn nearest_surface_wins() {
    let far = SolidModel::Sphere(SolidSphere::new_positioned(red(), point(0, 0, 9), whole(1)));
    let near = SolidModel::Sphere(
        SolidSphere::new_positioned(Material::new_light_source(color(0, 1_000_000, 0)), point(0, 0, 4), whole(1)),
    );
    let ray = Ray::new(point(0, 0, 0), vector(0, 0, 1));
    for models in [vec![far, near], vec![near, far]] {
        let hit = SimpleIntersector::new(models).get_nearest_intersection(&ray).unwrap();
        assert_eq!(hit.get_distance_to_intersection(), whole(3));
        assert!(hit.get_material().is_light_source());
    }
    assert!(SimpleIntersector::new(vec![far, near])
        .get_nearest_intersection(&Ray::new(point(0, 0, 0), vector(0, 1, 0)))
        .is_none());
}

#[test]
fn first_of_equally_near_surfaces_wins() {
    let matte = SolidModel::Sphere(SolidSphere::new_positioned(red(), point(0, 0, 4), whole(1)));
    let glowing = SolidModel::Sphere(
        SolidSphere::new_positioned(Material::new_light_source(color(0, 1_000_000, 0)), point(0, 0, 4), whole(1)),
    );
    let ray = Ray::new(point(0, 0, 0), vector(0, 0, 1));
    let first = SimpleIntersector::new(vec![matte, glowing]).get_nearest_intersection(&ray).unwrap();
    assert!(!first.get_material().is_light_source());
    let second = SimpleIntersector::new(vec![glowing, matte]).get_nearest_intersection(&ray).unwrap();
    assert!(second.get_material().is_light_source());
}

#[test]
fn dot_light_thins_out_with_the_square_of_the_distance() {
    let light = white_light(50, point(4, 0, -4));
    let reached = light.get_illumination(&point(0, 0, -1));
    assert_eq!(reached.distance, whole(5));
    assert_eq!(reached.direction, Vector3::new(raw(800_000), raw(0), raw(-600_000)));
    assert_eq!(reached.radiance.get(), (whole(2), whole(2), whole(2)));
}

#[test]
fn light_from_the_side_is_scattered_by_the_cosine() {
    let scene = world(
        vec![SolidModel::Sphere(SolidSphere::new(red()))],
        vec![white_light(50, point(4, 0, -4))],
        8,
    );
    assert_eq!(
        seen(&scene, Ray::new(point(0, 0, -3), vector(0, 0, 1))),
        Some((raw(1_200_000), raw(0), raw(0)))
    );
}

#[test]
fn surface_between_point_and_light_hides_the_light() {
    let sphere = SolidModel::Sphere(SolidSphere::new(red()));
    let ray = Ray::new(point(0, -3, 0), vector(0, 1, 0));
    let light = white_light(50, point(3, -5, 0));
    let open = world(vec![sphere], vec![light], 8);
    assert_eq!(seen(&open, ray), Some((raw(1_600_000), raw(0), raw(0))));
    let blocker = SolidSphere::new_positioned(
        red(),
        Point3::new(raw(1_500_000), whole(-3), whole(0)),
        raw(500_000),
    );
    let shaded = world(vec![sphere, SolidModel::Sphere(blocker)], vec![light], 8);
    assert_eq!(seen(&shaded, ray), Some((raw(0), raw(0), raw(0))));
    let lamp = SolidSphere::new_positioned(
        Material::new_light_source(color(1_000_000, 1_000_000, 1_000_000)),
        Point3::new(raw(1_500_000), whole(-3), whole(0)),
        raw(500_000),
    );
    let lit = world(vec![sphere, SolidModel::Sphere(lamp)], vec![light], 8);
    assert_eq!(seen(&lit, ray), Some((raw(1_600_000), raw(0), raw(0))));
    let beyond = SolidSphere::new_positioned(red(), point(6, -9, 0), whole(1));
    let clear = world(vec![sphere, SolidModel::Sphere(beyond)], vec![light], 8);
    assert_eq!(seen(&clear, ray), Some((raw(1_600_000), raw(0), raw(0))));
}

#[test]
fn source_of_light_shows_its_own_color() {
    let lamp = SolidSphere::new(Material::new_light_source(color(300_000, 200_000, 100_000)));
    let scene = world(vec![SolidModel::Sphere(lamp)], vec![], 0);
    assert_eq!(
        seen(&scene, Ray::new(point(0, 0, -3), vector(0, 0, 1))),
        Some((raw(300_000), raw(200_000), raw(100_000)))
    );
}

#[test]
fn shiny_surface_adds_highlights() {
    let shiny = Material::new_shiny(
        color(500_000, 500_000, 500_000),
        (color(1_000_000, 1_000_000, 1_000_000), whole(3)),
    );
    let scene = world(
        vec![SolidModel::Sphere(SolidSphere::new(shiny))],
        vec![white_light(20, point(0, 0, -5))],
        8,
    );
    assert_eq!(
        seen(&scene, Ray::new(point(0, 0, -3), vector(0, 0, 1))),
        Some((raw(1_875_000), raw(1_875_000), raw(1_875_000)))
    );
}

#[test]
fn powers_and_exponents() {
    assert_eq!(power(raw(500_000), 0), whole(1));
    assert_eq!(power(raw(500_000), 3), raw(125_000));
    assert_eq!(power(whole(-2), 3), whole(-8));
    assert_eq!(whole_exponent(raw(7_900_000)), 7);
    assert_eq!(whole_exponent(whole(-7)), 0);
    assert_eq!(whole_exponent(raw(i64::MAX)), u32::MAX);
}

#[test]
fn mirrored_and_bent_directions() {
    assert_eq!(
        SimpleColorCalculator::reflected(vector(1, 0, 1), vector(0, 0, -1)),
        vector(1, 0, -1)
    );
    assert_eq!(
        SimpleColorCalculator::refracted(vector(0, 0, 1), vector(0, 0, -1), raw(666_666)),
        Some(vector(0, 0, 1))
    );
    let grazing = Vector3::new(raw(800_000), raw(0), raw(600_000));
    assert_eq!(SimpleColorCalculator::refracted(grazing, vector(0, 0, -1), raw(1_500_000)), None);
    assert_eq!(
        SimpleColorCalculator::refracted(grazing, vector(0, 0, -1), whole(1)),
        Some(grazing)
    );
}

#[test]
fn reflectance_follows_from_the_indices() {
    assert_eq!(
        SimpleColorCalculator::reflectance(&index(1_500_000), &index(1_000_000)).get(),
        (raw(40_000), raw(40_000), raw(40_000))
    );
    assert_eq!(
        SimpleColorCalculator::reflectance(&index(170_000), &index(2_000_000)).get(),
        (raw(711_183), raw(711_183), raw(711_183))
    );
    assert_eq!(
        SimpleColorCalculator::reflectance(&index(1_000_000), &index(1_000_000)).get(),
        (raw(0), raw(0), raw(0))
    );
}

fn hall_of_one_mirror(depth: u32) -> World<SolidModel, DotLightSource> {
    let mirror = SolidPlane::new_positioned(
        Material::new_reflective(index(170_000), index(2_000_000)),
        point(0, 0, 2),
        vector(0, 0, -1),
    );
    let ball = SolidSphere::new_positioned(red(), point(0, 0, -6), whole(1));
    world(
        vec![SolidModel::Plane(mirror), SolidModel::Sphere(ball)],
        vec![white_light(8, point(0, 0, -3))],
        depth,
    )
}

#[test]
fn mirror_shows_what_the_mirrored_ray_sees() {
    let ray = Ray::new(point(0, 0, -3), vector(0, 0, 1));
    assert_eq!(seen(&hall_of_one_mirror(1), ray), Some((raw(1_422_366), raw(0), raw(0))));
    assert_eq!(seen(&hall_of_one_mirror(8), ray), Some((raw(1_422_366), raw(0), raw(0))));
}

#[test]
fn without_depth_no_ray_is_followed_on() {
    let ray = Ray::new(point(0, 0, -3), vector(0, 0, 1));
    assert_eq!(seen(&hall_of_one_mirror(0), ray), Some((raw(0), raw(0), raw(0))));
    assert_eq!(
        hall_of_one_mirror(0).cast_ray_depth(&ray, 1).map(|found| found.get()),
        Some((raw(1_422_366), raw(0), raw(0)))
    );
}

fn lens_before_a_backdrop(depth: u32) -> World<SolidModel, DotLightSource> {
    let lens = SolidSphere::new(
        Material::new_reflective_and_refractive(index(1_500_000), index(1_000_000)),
    );
    let backdrop = SolidPlane::new_positioned(
        Material::new_light_source(color(1_000_000, 500_000, 0)),
        point(0, 0, 5),
        vector(0, 0, -1),
    );
    world(vec![SolidModel::Sphere(lens), SolidModel::Plane(backdrop)], vec![], depth)
}

#[test]
fn lens_lets_through_what_it_does_not_mirror() {
    let ray = Ray::new(point(0, 0, -3), vector(0, 0, 1));
    assert_eq!(seen(&lens_before_a_backdrop(3), ray), Some((raw(921_600), raw(460_800), raw(0))));
    assert_eq!(seen(&lens_before_a_backdrop(2), ray), Some((raw(921_600), raw(460_800), raw(0))));
    assert_eq!(seen(&lens_before_a_backdrop(1), ray), Some((raw(0), raw(0), raw(0))));
    assert_eq!(seen(&lens_before_a_backdrop(0), ray), Some((raw(0), raw(0), raw(0))));
}
