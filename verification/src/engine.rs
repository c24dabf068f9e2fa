//! Scene resolution and bounce tracing.

use vstd::prelude::*;

verus! {

use crate::math::{Vec3, dist_sq, v3_add, vec3_add, vec3_magsq, vec3_sub};
use crate::path::Path;
use crate::plane::Plane;
use crate::ray::Ray;
use crate::sphere::Sphere;

/// The capability "cast a ray against me and, on a hit, hand back the
/// reflected outgoing ray".
pub trait Raycast {
    /// What `raycast` returns, as a mathematical function.
    spec fn raycast_spec(&self, ray: Ray) -> Option<Ray>;

    /// The reflected outgoing ray, if `ray` hits this surface.
    fn raycast(&self, ray: &Ray) -> (r: Option<Ray>)
        ensures
            r == self.raycast_spec(*ray),
    ;
}

/// The closed set of surfaces a scene may hold.
#[derive(Clone, Copy, Debug)]
pub enum Primitive {
    Sphere(Sphere),
    Plane(Plane),
}

impl Raycast for Primitive {
    open spec fn raycast_spec(&self, ray: Ray) -> Option<Ray> {
        match *self {
            Primitive::Sphere(s) => crate::sphere::sphere_raycast(s, ray),
            Primitive::Plane(p) => crate::plane::plane_raycast(p, ray),
        }
    }

    fn raycast(&self, ray: &Ray) -> (r: Option<Ray>) {
        match self {
            Primitive::Sphere(s) => s.raycast(ray),
            Primitive::Plane(p) => p.raycast(ray),
        }
    }
}

/// An ordered collection of primitives; the order breaks ties between
/// equally distant hits.
pub type Scene = Vec<Primitive>;

/// The best hit among the first `n` primitives, with its squared distance
/// from the ray origin. An earlier primitive keeps a tie: a later candidate
/// replaces it only when strictly closer.
pub open spec fn scan_scene(scene: Seq<Primitive>, ray: Ray, n: int) -> Option<(Ray, i64)>
    decreases n,
{
    if n <= 0 {
        None
    } else {
        let prev = scan_scene(scene, ray, n - 1);
        match scene[n - 1].raycast_spec(ray) {
            None => prev,
            Some(c) => {
                let d = dist_sq(ray.origin, c.origin);
                match prev {
                    None => Some((c, d)),
                    Some((b, bd)) => if d < bd {
                        Some((c, d))
                    } else {
                        prev
                    },
                }
            },
        }
    }
}

/// The outgoing ray of the nearest hit in the scene, if any primitive is hit.
pub open spec fn resolve_scene(scene: Seq<Primitive>, ray: Ray) -> Option<Ray> {
    match scan_scene(scene, ray, scene.len() as int) {
        None => None,
        Some((b, bd)) => Some(b),
    }
}

/// Resolve `ray` against every primitive and keep the hit whose bounce point
/// is nearest the ray origin; the first-listed primitive wins ties.
#[verifier::rlimit(50)]
pub fn intersect_scene(scene: &Scene, ray: &Ray) -> (r: Option<Ray>)
    ensures
        r == resolve_scene(scene@, *ray),
{
    let mut best: Option<(Ray, i64)> = None;
    let mut i: usize = 0;
    while i < scene.len()
        invariant
            i <= scene.len(),
            best == scan_scene(scene@, *ray, i as int),
        decreases scene.len() - i,
    {
        match scene[i].raycast(ray) {
            Some(candidate) => {
                let d: i64 = vec3_magsq(vec3_sub(ray.origin, candidate.origin));
                match best {
                    None => {
                        best = Some((candidate, d));
                    },
                    Some((b, bd)) => {
                        if d < bd {
                            best = Some((candidate, d));
                        }
                    },
                }
            },
            None => {},
        }
        i = i + 1;
    }
    match best {
        Some((b, bd)) => Some(b),
        None => None,
    }
}

/// The points a ray's bounce walk records: the origin of each successive
/// ray while the scene keeps resolving, for at most `bounces` bounces, and
/// one final escape point a direction's length past the last origin.
pub open spec fn trace_points(scene: Seq<Primitive>, ray: Ray, bounces: nat) -> Seq<Vec3>
    decreases bounces,
{
    if bounces == 0 {
        seq![v3_add(ray.origin, ray.direction)]
    } else {
        match resolve_scene(scene, ray) {
            Some(next) => seq![ray.origin] + trace_points(scene, next, (bounces - 1) as nat),
            None => seq![ray.origin, v3_add(ray.origin, ray.direction)],
        }
    }
}

/// A bounce walk always records at least the escape point, at least one
/// bounce origin besides it whenever any bounces are allowed, and never
/// more points than bounces plus the start and the escape.
pub proof fn lemma_trace_points_len(scene: Seq<Primitive>, ray: Ray, bounces: nat)
    ensures
        1 <= trace_points(scene, ray, bounces).len() <= bounces + 2,
        bounces >= 1 ==> trace_points(scene, ray, bounces).len() >= 2,
    decreases bounces,
{
    if bounces > 0 {
        match resolve_scene(scene, ray) {
            Some(next) => {
                lemma_trace_points_len(scene, next, (bounces - 1) as nat);
            },
            None => {},
        }
    }
}

/// Follow one ray through up to `max_bounces` mirror bounces and return the
/// polyline it traces, ending with the escape segment along the last
/// unresolved direction.
pub fn trace_ray(scene: &Scene, ray: &Ray, max_bounces: usize) -> (r: Path)
    ensures
        r.wf(),
        r.points@ == trace_points(scene@, *ray, max_bounces as nat),
{
    let mut points: Vec<Vec3> = Vec::new();
    let mut cur: Ray = *ray;
    let mut i: usize = 0;
    let mut hit: bool = true;
    while i < max_bounces && hit
        invariant
            i <= max_bounces,
            hit ==> trace_points(scene@, *ray, max_bounces as nat) == points@ + trace_points(
                scene@,
                cur,
                (max_bounces - i) as nat,
            ),
            !hit ==> trace_points(scene@, *ray, max_bounces as nat) == points@ + seq![
                v3_add(cur.origin, cur.direction),
            ],
        decreases max_bounces - i,
    {
        points.push(cur.origin);
        match intersect_scene(scene, &cur) {
            Some(next) => {
                cur = next;
            },
            None => {
                hit = false;
            },
        }
        i = i + 1;
    }
    proof {
        if hit {
            assert(i == max_bounces);
            assert(trace_points(scene@, cur, 0) == seq![v3_add(cur.origin, cur.direction)]);
        }
    }
    points.push(vec3_add(cur.origin, cur.direction));
    Path::new(points)
}

/// Trace one path per supplied camera ray, in the rays' order.
pub fn trace_scene(scene: &Scene, rays: &Vec<Ray>, max_bounces: usize) -> (r: Vec<Path>)
    ensures
        r@.len() == rays@.len(),
        forall|i: int|
            0 <= i < rays@.len() ==> (#[trigger] r@[i]).wf() && r@[i].points@ == trace_points(
                scene@,
                rays@[i],
                max_bounces as nat,
            ),
{
    let mut paths: Vec<Path> = Vec::new();
    let mut i: usize = 0;
    while i < rays.len()
        invariant
            i <= rays@.len(),
            paths@.len() == i as int,
            forall|j: int|
                0 <= j < i ==> (#[trigger] paths@[j]).wf() && paths@[j].points@ == trace_points(
                    scene@,
                    rays@[j],
                    max_bounces as nat,
                ),
        decreases rays.len() - i,
    {
        let p = trace_ray(scene, &rays[i], max_bounces);
        paths.push(p);
        i = i + 1;
    }
    paths
}

} // verus!
