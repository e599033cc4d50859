//! Ray--sphere intersection scenarios.

use rust_raytracer::ppm::Color;
use rust_raytracer::ray::Ray;
use rust_raytracer::sphere3d::Sphere3D;
use rust_raytracer::vector_library::Point3D;

const FX: i64 = 65536;

fn fx(v: i64) -> i64 {
    v * FX
}

#[test]
fn intersect_with_ray_straight_on() {
    // Arrange
    let sphere = Sphere3D::new(fx(0), fx(0), fx(-3), fx(1));
    let origin = Point3D::new(fx(0), fx(0), fx(0));
    let target = Point3D::new(fx(0), fx(0), fx(-1));
    let ray = Ray::new(origin, &target);
    let expected = Point3D::new(fx(0), fx(0), fx(-2));

    // Act
    let intersection = sphere.intersect(&ray).expect("should yield an intersection");

    // Assert
    assert_eq!(intersection, expected);
}

#[test]
fn intersect_with_ray_opposite_direction() {
    // Arrange
    let sphere = Sphere3D::new(fx(0), fx(0), fx(-3), fx(1));
    let origin = Point3D::new(fx(0), fx(0), fx(0));
    let target = Point3D::new(fx(0), fx(0), fx(1));
    let ray = Ray::new(origin, &target);

    // Act
    let intersection = sphere.intersect(&ray);

    // Assert
    assert!(intersection.is_none(), "intersection = {:?}", intersection);
}

#[test]
fn intersect_with_ray_miss() {
    // Arrange
    let sphere = Sphere3D::new(fx(0), fx(0), fx(-3), fx(1));
    let origin = Point3D::new(fx(0), fx(0), fx(0));
    let target = Point3D::new(fx(1), fx(0), fx(-1));
    let ray = Ray::new(origin, &target);

    // Act
    let intersection = sphere.intersect(&ray);

    // Assert
    assert!(intersection.is_none(), "intersection = {:?}", intersection);
}

#[test]
fn new_sphere_is_mid_gray() {
    let sphere = Sphere3D::new(fx(1), fx(2), fx(3), fx(1));
    assert_eq!(sphere.color, Color::new(128, 128, 128));
    assert_eq!(sphere.radius, fx(1));
}

#[test]
fn translate_moves_center_and_keeps_radius() {
    let sphere = Sphere3D::new(fx(1), fx(2), fx(3), fx(2));
    let moved = sphere.translate(fx(1), fx(-1), fx(4));
    assert_eq!(moved.center, Point3D::new(fx(2), fx(1), fx(7)));
    assert_eq!(moved.radius, fx(2));
}

#[test]
fn get_normal_points_outward() {
    let sphere = Sphere3D::new(fx(0), fx(0), fx(-3), fx(1));
    let surface = Point3D::new(fx(0), fx(0), fx(-2));
    let normal = sphere.get_normal(&surface);
    assert_eq!(normal.x(), 0);
    assert_eq!(normal.y(), 0);
    assert_eq!(normal.z(), FX);
}
