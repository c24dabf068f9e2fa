//! Bounce tracing through a scene, and the window animation over a path.

use visible_raytrace::animation::RayAnimation;
use visible_raytrace::engine::{intersect_scene, trace_ray, trace_scene, Primitive, Raycast};
use visible_raytrace::math::Vec3;
use visible_raytrace::path::Path;
use visible_raytrace::ray::Ray;
use visible_raytrace::sphere::Sphere;

const FS: i64 = 65536;

fn v(x: i64, y: i64, z: i64) -> Vec3 {
    Vec3 { x, y, z }
}

fn head_on_scene() -> Vec<Primitive> {
    vec![Primitive::Sphere(Sphere { center: v(0, 0, 5 * FS), radius: FS })]
}

#[test]
fn raycast_reflects_head_on_ray() {
    let sphere = Sphere { center: v(0, 0, 5 * FS), radius: FS };
    let ray = Ray { origin: v(0, 0, 0), direction: v(0, 0, FS) };
    let bounced = sphere.raycast(&ray).unwrap();
    assert_eq!(bounced.origin, v(0, 0, 4 * FS));
    assert_eq!(bounced.direction, v(0, 0, -FS));
}

#[test]
fn intersect_scene_prefers_first_on_tie() {
    // Both spheres are hit at (0,0,4): the head-on sphere reverses the
    // ray, the tangent sphere leaves its direction unchanged. Whichever
    // is listed first wins the tie.
    let head_on = Primitive::Sphere(Sphere { center: v(0, 0, 5 * FS), radius: FS });
    let tangent = Primitive::Sphere(Sphere { center: v(FS, 0, 4 * FS), radius: FS });
    let ray = Ray { origin: v(0, 0, 0), direction: v(0, 0, FS) };

    let first = intersect_scene(&vec![head_on, tangent], &ray).unwrap();
    assert_eq!(first.direction, v(0, 0, -FS));

    let second = intersect_scene(&vec![tangent, head_on], &ray).unwrap();
    assert_eq!(second.direction, v(0, 0, FS));
}

#[test]
fn intersect_scene_empty_reports_no_hit() {
    let ray = Ray { origin: v(0, 0, 0), direction: v(0, 0, FS) };
    assert_eq!(intersect_scene(&vec![], &ray), None);
}

#[test]
fn trace_ray_records_bounces_and_escape() {
    // One bounce off the sphere, then a miss: the path holds the starting
    // origin, the bounce point, and an escape point one direction-length
    // past it.
    let scene = head_on_scene();
    let ray = Ray { origin: v(0, 0, 0), direction: v(0, 0, FS) };
    let path = trace_ray(&scene, &ray, 20);
    assert_eq!(
        path.points(),
        &vec![v(0, 0, 0), v(0, 0, 4 * FS), v(0, 0, 3 * FS)]
    );
    assert_eq!(path.length(), 5 * FS);
}

#[test]
fn trace_ray_zero_bounces_is_one_escape_segment() {
    let scene = head_on_scene();
    let ray = Ray { origin: v(0, 0, 0), direction: v(0, 0, FS) };
    let path = trace_ray(&scene, &ray, 0);
    assert_eq!(path.points(), &vec![v(0, 0, FS)]);
    assert_eq!(path.length(), 0);
}

#[test]
fn trace_scene_keeps_ray_order() {
    let scene = head_on_scene();
    let hit = Ray { origin: v(0, 0, 0), direction: v(0, 0, FS) };
    let miss = Ray { origin: v(0, 0, 0), direction: v(0, FS, 0) };
    let paths = trace_scene(&scene, &vec![hit, miss], 20);
    assert_eq!(paths.len(), 2);
    // The hitting ray bounces once; the missing ray only escapes.
    assert_eq!(paths[0].points().len(), 3);
    assert_eq!(paths[1].points(), &vec![v(0, 0, 0), v(0, FS, 0)]);
}

#[test]
fn animation_runs_finishes_and_resets() {
    // Path of total length 4 with a window of length 1: stepping by 2
    // crosses 4 + 1 = 5 after three steps. The crossing step still
    // reports running; only the next one reports finished, and it stays
    // finished until reset.
    let path = Path::new(vec![v(0, 0, 0), v(0, 0, 4 * FS)]);
    let mut anim = RayAnimation::new(path, FS);
    assert!(anim.step(2 * FS));
    assert!(anim.step(2 * FS));
    assert!(anim.step(2 * FS));
    assert!(!anim.step(2 * FS));
    assert!(!anim.step(2 * FS));
    anim.reset();
    assert_eq!(anim.beginning, 0);
    assert!(anim.step(2 * FS));
}

#[test]
fn animation_draw_yields_visible_window() {
    let path = Path::new(vec![v(0, 0, 0), v(0, 0, 4 * FS)]);
    let mut anim = RayAnimation::new(path, FS);
    assert!(anim.step(2 * FS));
    // Window is [1, 2]: one interpolated piece of the single line.
    let lines = anim.draw().unwrap();
    assert_eq!(lines, vec![(v(0, 0, FS), v(0, 0, 2 * FS))]);
}

#[test]
fn animation_draw_past_the_end_yields_nothing() {
    let path = Path::new(vec![v(0, 0, 0), v(0, 0, 4 * FS)]);
    let mut anim = RayAnimation::new(path, FS);
    while anim.step(2 * FS) {}
    // beginning is 6, the window [5, 4] is degenerate: nothing to draw.
    assert_eq!(anim.draw(), None);
}
