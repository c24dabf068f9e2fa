//! Rays, reflection, and the two primitive intersection tests.

use visible_raytrace::math::{vec3_dot, vec3_magsq, Vec3};
use visible_raytrace::plane::Plane;
use visible_raytrace::ray::Ray;
use visible_raytrace::sphere::Sphere;

const FS: i64 = 65536;

fn v(x: i64, y: i64, z: i64) -> Vec3 {
    Vec3 { x, y, z }
}

#[test]
fn sphere_intersect_head_on() {
    // Sphere at (0,0,5) of radius 1, ray from the origin along +z: the
    // near crossing is (0,0,4), exactly.
    let sphere = Sphere { center: v(0, 0, 5 * FS), radius: FS };
    let ray = Ray { origin: v(0, 0, 0), direction: v(0, 0, FS) };
    assert_eq!(sphere.intersect(&ray), Some(v(0, 0, 4 * FS)));
}

#[test]
fn sphere_behind_ray_is_missed() {
    let sphere = Sphere { center: v(0, 0, -5 * FS), radius: FS };
    let ray = Ray { origin: v(0, 0, 0), direction: v(0, 0, FS) };
    assert_eq!(sphere.intersect(&ray), None);
}

#[test]
fn sphere_normal_points_toward_center() {
    let sphere = Sphere { center: v(0, 0, 5 * FS), radius: FS };
    assert_eq!(sphere.normal(&v(0, 0, 4 * FS)), v(0, 0, FS));
}

#[test]
fn plane_intersect_head_on() {
    // Plane through (0,0,5) facing -z, ray from the origin along +z:
    // they meet at (0,0,5), exactly.
    let plane = Plane { origin: v(0, 0, 5 * FS), normal: v(0, 0, -FS) };
    let ray = Ray { origin: v(0, 0, 0), direction: v(0, 0, FS) };
    assert_eq!(plane.intersect(&ray), Some(v(0, 0, 5 * FS)));
}

#[test]
fn plane_rejects_ray_from_behind() {
    let plane = Plane { origin: v(0, 0, 5 * FS), normal: v(0, 0, FS) };
    let ray = Ray { origin: v(0, 0, 0), direction: v(0, 0, FS) };
    assert_eq!(plane.intersect(&ray), None);
}

#[test]
fn plane_rejects_parallel_ray() {
    // The ray runs parallel to the plane: its direction is orthogonal to
    // the normal, and the guard reports no hit instead of dividing by the
    // vanishing denominator.
    let plane = Plane { origin: v(0, 0, 5 * FS), normal: v(0, 0, -FS) };
    let ray = Ray { origin: v(0, 0, 0), direction: v(FS, 0, 0) };
    assert_eq!(plane.intersect(&ray), None);
}

#[test]
fn plane_distance_project_facing() {
    let plane = Plane { origin: v(0, 0, 5 * FS), normal: v(0, 0, -FS) };
    let pt = v(0, 0, 0);
    assert!(plane.facing(&pt));
    assert_eq!(plane.distance(&pt), 5 * FS);
    assert_eq!(plane.project(&pt), v(0, 0, 5 * FS));
    assert_eq!(plane.normal(), v(0, 0, -FS));
}

#[test]
fn reflection_preserves_angle_and_magnitude_exactly() {
    // Unit normal along -z, incoming direction (1,2,3): the mirror image
    // is (1,2,-3), so the dot with the normal flips sign and the squared
    // magnitude is unchanged, exactly.
    let n = v(0, 0, -FS);
    let ray = Ray { origin: v(0, 0, 0), direction: v(FS, 2 * FS, 3 * FS) };
    let bounced = ray.reflect(&v(0, 0, 0), &n);
    assert_eq!(bounced.direction, v(FS, 2 * FS, -3 * FS));
    assert_eq!(vec3_dot(bounced.direction, n), -vec3_dot(ray.direction, n));
    assert_eq!(vec3_magsq(bounced.direction), vec3_magsq(ray.direction));
}

#[test]
fn reflection_off_tilted_unit_normal() {
    // A unit normal not aligned with an axis: (3/5, 4/5, 0). The identities
    // hold up to fixed-point rounding.
    let n = v(39322, 52429, 0);
    let ray = Ray { origin: v(0, 0, 0), direction: v(-FS, 0, 0) };
    let bounced = ray.reflect(&v(0, 0, 0), &n);
    let angle_in = vec3_dot(ray.direction, n);
    let angle_out = vec3_dot(bounced.direction, n);
    assert!((angle_in + angle_out).abs() <= 8, "angle off by {}", angle_in + angle_out);
    let diff = vec3_magsq(bounced.direction) - vec3_magsq(ray.direction);
    assert!(diff.abs() <= 8, "magnitude off by {diff}");
}
