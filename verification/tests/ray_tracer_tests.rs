//! Pipeline scenarios: nearest-hit resolution, the tie-break rule,
//! camera projection, shading, and a whole-image render.

use rust_raytracer::light::Light;
use rust_raytracer::ppm::Color;
use rust_raytracer::ray::Ray;
use rust_raytracer::ray_tracer::{
    image_coord_to_camera_space, nearest_intersection, render, set_color, Scene, Settings,
};
use rust_raytracer::sphere3d::Sphere3D;
use rust_raytracer::utility::{deg_2_rad, rad_2_deg};
use rust_raytracer::vector_library::Point3D;

const FX: i64 = 65536;

fn fx(v: i64) -> i64 {
    v * FX
}

fn axis_ray() -> Ray {
    let o = Point3D::new(fx(0), fx(0), fx(0));
    let t = Point3D::new(fx(0), fx(0), fx(-1));
    Ray::new(o, &t)
}

#[test]
fn nearest_intersection1() {
    // Arrange
    let sphere1 = Sphere3D::new(fx(0), fx(0), fx(-3), fx(1));
    let sphere2 = Sphere3D::new(fx(0), fx(0), fx(-5), fx(1));
    let scene = Scene {
        objects: vec![sphere1, sphere2],
        light: Light::new(fx(2), fx(1), fx(0), fx(200)),
    };
    let ray = axis_ray();

    // Act
    let (idx, dist) = nearest_intersection(&ray, &scene).expect("should yield intersection");

    // Assert
    assert_eq!(idx, 0);
    assert_eq!(dist, fx(2));
}

#[test]
fn nearest_intersection2() {
    // Arrange
    let sphere1 = Sphere3D::new(fx(0), fx(0), fx(-3), fx(1));
    let sphere2 = Sphere3D::new(fx(0), fx(0), fx(-5), fx(1));
    let scene = Scene {
        objects: vec![sphere2, sphere1],
        light: Light::new(fx(2), fx(1), fx(0), fx(200)),
    };
    let ray = axis_ray();

    // Act
    let (idx, dist) = nearest_intersection(&ray, &scene).expect("should yield intersection");

    // Assert
    assert_eq!(idx, 1);
    assert_eq!(dist, fx(2));
}

#[test]
fn nearest_intersection_side_by_side_nearest_is_first_in_vec() {
    // Arrange
    let sphere1 = Sphere3D::new(fx(0), fx(0), fx(-3), fx(1));
    let sphere2 = Sphere3D::new(fx(2), fx(0), fx(-3), fx(1));
    let scene = Scene {
        objects: vec![sphere1, sphere2],
        light: Light::new(fx(2), fx(1), fx(0), fx(200)),
    };
    let ray = axis_ray();  // Shooting right at sphere1 (left)

    // Act
    let (idx, dist) = nearest_intersection(&ray, &scene).expect("should yield intersection");

    // Assert
    assert_eq!(idx, 0);
    assert_eq!(dist, fx(2));
}

#[test]
fn nearest_intersection_side_by_side_nearest_is_last_in_vec() {
    // Arrange
    let sphere1 = Sphere3D::new(fx(0), fx(0), fx(-3), fx(1));
    let sphere2 = Sphere3D::new(fx(2), fx(0), fx(-3), fx(1));
    let scene = Scene {
        objects: vec![sphere2, sphere1],
        light: Light::new(fx(2), fx(1), fx(0), fx(200)),
    };
    let ray = axis_ray();  // Shooting right at sphere1 (left)

    // Act
    let (idx, dist) = nearest_intersection(&ray, &scene).expect("should yield intersection");

    // Assert
    assert_eq!(idx, 1);
    assert_eq!(dist, fx(2));
}

#[test]
fn nearest_intersection_empty_scene_is_none() {
    let scene = Scene { objects: vec![], light: Light::new(fx(2), fx(1), fx(0), fx(200)) };
    let ray = axis_ray();
    assert!(nearest_intersection(&ray, &scene).is_none());
}

#[test]
fn tie_break_keeps_first_sphere_both_orders() {
    // Two spheres whose near surfaces sit at the same distance 2 along
    // the axis ray: the earlier one in storage order must win.
    let near_small = Sphere3D::new(fx(0), fx(0), fx(-3), fx(1));
    let near_large = Sphere3D::new(fx(0), fx(0), fx(-4), fx(2));
    let light = Light::new(fx(2), fx(1), fx(0), fx(200));

    let scene_a = Scene { objects: vec![near_small, near_large], light };
    let (idx_a, dist_a) = nearest_intersection(&axis_ray(), &scene_a).expect("hit");
    assert_eq!(idx_a, 0);
    assert_eq!(dist_a, fx(2));

    let light = Light::new(fx(2), fx(1), fx(0), fx(200));
    let scene_b = Scene { objects: vec![near_large, near_small], light };
    let (idx_b, dist_b) = nearest_intersection(&axis_ray(), &scene_b).expect("hit");
    assert_eq!(idx_b, 0);
    assert_eq!(dist_b, fx(2));
}

#[test]
fn camera_corner_pixel_stays_inside_unit_square() {
    // Pixel (0,0) of a 2x2 image at 90 degrees: the half-pixel-center
    // convention lands at half the tangent, not at the full corner.
    let settings = Settings {
        width: 2,
        height: 2,
        fov: fx(90),
        ambient_light: 0,
        tan_half_fov: FX,
    };
    let p = image_coord_to_camera_space(0, 0, &settings);
    assert_eq!(p.x(), -FX / 2);
    assert_eq!(p.y(), FX / 2);
    assert_eq!(p.z(), -FX);
    assert!(p.x() != -FX && p.y() != FX);
}

#[test]
fn camera_corner_pixel_larger_image() {
    let settings = Settings {
        width: 4,
        height: 4,
        fov: fx(90),
        ambient_light: 0,
        tan_half_fov: FX,
    };
    let p = image_coord_to_camera_space(0, 0, &settings);
    assert_eq!(p.x(), -3 * FX / 4);
    assert_eq!(p.y(), 3 * FX / 4);
    assert_eq!(p.z(), -FX);
}

#[test]
fn end_to_end_single_sphere_gray_pixel() {
    // One sphere at (0,0,-3) radius 1, light at (2,1,0) intensity 200,
    // no ambient, a single pixel at 90 degrees: a gray strictly between
    // black and white.
    let sphere = Sphere3D::new(fx(0), fx(0), fx(-3), fx(1));
    let scene = Scene {
        objects: vec![sphere],
        light: Light::new(fx(2), fx(1), fx(0), fx(200)),
    };
    let settings = Settings {
        width: 1,
        height: 1,
        fov: fx(90),
        ambient_light: 0,
        tan_half_fov: FX,
    };
    let pixels = render(&settings, &scene);
    assert_eq!(pixels.len(), 1);
    let c = pixels[0];
    assert_eq!(c.r, c.g);
    assert_eq!(c.g, c.b);
    assert!(c.r > 0, "pixel should not be black, got {:?}", c);
    assert!(c.r < 255, "pixel should not be white, got {:?}", c);
}

#[test]
fn render_miss_is_black_and_row_major() {
    // No sphere in front of the camera: every pixel is flat black, and
    // the buffer holds exactly width * height pixels.
    let scene = Scene { objects: vec![], light: Light::new(fx(2), fx(1), fx(0), fx(200)) };
    let settings = Settings {
        width: 3,
        height: 2,
        fov: fx(90),
        ambient_light: 0,
        tan_half_fov: FX,
    };
    let pixels = render(&settings, &scene);
    assert_eq!(pixels.len(), 6);
    for c in &pixels {
        assert_eq!(*c, Color::new(0, 0, 0));
    }
}

#[test]
fn brighter_light_never_darkens_pixel() {
    let settings = Settings {
        width: 1,
        height: 1,
        fov: fx(90),
        ambient_light: 0,
        tan_half_fov: FX,
    };
    let sphere = Sphere3D::new(fx(0), fx(0), fx(-3), fx(1));
    let dim = Scene { objects: vec![sphere], light: Light::new(fx(2), fx(1), fx(0), fx(200)) };
    let sphere = Sphere3D::new(fx(0), fx(0), fx(-3), fx(1));
    let bright = Scene { objects: vec![sphere], light: Light::new(fx(2), fx(1), fx(0), fx(400)) };
    let c_dim = render(&settings, &dim)[0];
    let c_bright = render(&settings, &bright)[0];
    assert!(c_bright.r >= c_dim.r);
    assert!(c_bright.r > c_dim.r, "doubling a weak light should show here");
}

#[test]
fn farther_light_dims_pixel() {
    // The same light direction seen from the hit point (0,0,-2), first
    // at distance 3, then at distance 6: the inverse-square falloff
    // lowers the pixel.
    let settings = Settings {
        width: 1,
        height: 1,
        fov: fx(90),
        ambient_light: 0,
        tan_half_fov: FX,
    };
    let sphere = Sphere3D::new(fx(0), fx(0), fx(-3), fx(1));
    let near = Scene { objects: vec![sphere], light: Light::new(fx(2), fx(1), fx(0), fx(200)) };
    let sphere = Sphere3D::new(fx(0), fx(0), fx(-3), fx(1));
    let far = Scene { objects: vec![sphere], light: Light::new(fx(4), fx(2), fx(2), fx(200)) };
    let c_near = render(&settings, &near)[0];
    let c_far = render(&settings, &far)[0];
    assert!(c_far.r < c_near.r);
}

#[test]
fn set_color_full_ambient_ignores_diffuse_value() {
    let settings = Settings {
        width: 1,
        height: 1,
        fov: fx(90),
        ambient_light: FX,
        tan_half_fov: FX,
    };
    let sphere = Sphere3D::new(fx(0), fx(0), fx(-3), fx(1));
    // With the ambient coefficient at 1, the fraction is 32/255 whatever
    // the diffuse value: floor(128 * 32 / 255) = 16 on each channel.
    let dark = set_color(0, &sphere, &settings);
    let lit = set_color(255 * FX, &sphere, &settings);
    assert_eq!(dark, Color::new(16, 16, 16));
    assert_eq!(lit, Color::new(16, 16, 16));
}

#[test]
fn set_color_no_ambient_scales_channels() {
    let settings = Settings {
        width: 1,
        height: 1,
        fov: fx(90),
        ambient_light: 0,
        tan_half_fov: FX,
    };
    let mut sphere = Sphere3D::new(fx(0), fx(0), fx(-3), fx(1));
    sphere.color = Color::new(255, 128, 0);
    // A full diffuse value keeps each channel: fraction 1 exactly.
    let c = set_color(255 * FX, &sphere, &settings);
    assert_eq!(c, Color::new(255, 128, 0));
    // A zero diffuse value blacks the pixel out.
    let c0 = set_color(0, &sphere, &settings);
    assert_eq!(c0, Color::new(0, 0, 0));
}

#[test]
fn fov_in_radians_comes_from_the_degree_field() {
    let settings = Settings {
        width: 2,
        height: 2,
        fov: fx(90),
        ambient_light: 0,
        tan_half_fov: FX,
    };
    // pi/180 truncates to 1143 on the scale.
    assert_eq!(settings.fov_rad(), 1143 * 90);
}

#[test]
fn angle_conversions_match_fixed_point_formulas() {
    // pi/180 truncates to 1143 on the scale, so 180 degrees comes out
    // just under pi.
    assert_eq!(deg_2_rad(fx(180)), 1143 * 180);
    // The degree product divides back exactly.
    assert_eq!(rad_2_deg(205887), fx(180));
}

#[test]
fn color_new_keeps_channels() {
    let c = Color::new(1, 2, 3);
    assert_eq!(c.r, 1);
    assert_eq!(c.g, 2);
    assert_eq!(c.b, 3);
}
