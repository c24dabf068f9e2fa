//! A mirror sphere, and the quadratic solver behind its intersection test.

use vstd::prelude::*;

verus! {

use crate::math::{
    Vec3, SCALE, dist_sq, v3_add, v3_dot, v3_normalize, v3_scale, v3_sub, s_add, s_div, s_mul,
    s_neg, s_sqrt, s_sub, vec3_add, vec3_dot, vec3_normalize, vec3_scale, vec3_sub, fx_add,
    fx_div, fx_mul, fx_neg, fx_sqrt, fx_sub, vec3_magsq,
};
use crate::ray::{Ray, reflect_dir};
use crate::engine::Raycast;

/// A sphere with a center and a radius.
#[derive(Clone, Copy, Debug, PartialEq, Eq, Structural)]
pub struct Sphere {
    pub center: Vec3,
    pub radius: i64,
}

/// Both roots of `a*t^2 + b*t + c = 0`, largest first.
///
/// There is no result when the discriminant is negative, and none when the
/// leading coefficient rounds to zero: a vanishing `2a` denominator is a
/// numerical degeneracy and reports no roots rather than dividing by it.
pub open spec fn solve_quadratic_spec(a: i64, b: i64, c: i64) -> Option<(i64, i64)> {
    let inside = s_sub(s_mul(b, b), s_mul(s_mul((4 * SCALE) as i64, a), c));
    let a2 = s_add(a, a);
    if inside < 0 || a2 == 0 {
        None
    } else {
        let rest = s_sqrt(inside);
        Some((s_div(s_add(s_neg(b), rest), a2), s_div(s_sub(s_neg(b), rest), a2)))
    }
}

/// Solve `a*t^2 + b*t + c = 0` in fixed point.
pub fn solve_quadratic(a: i64, b: i64, c: i64) -> (r: Option<(i64, i64)>)
    ensures
        r == solve_quadratic_spec(a, b, c),
{
    let inside: i64 = fx_sub(fx_mul(b, b), fx_mul(fx_mul(4 * SCALE, a), c));
    let a2: i64 = fx_add(a, a);
    if inside < 0 || a2 == 0 {
        None
    } else {
        let rest: i64 = fx_sqrt(inside);
        let nb: i64 = fx_neg(b);
        Some((fx_div(fx_add(nb, rest), a2), fx_div(fx_sub(nb, rest), a2)))
    }
}

/// Where a ray meets the sphere, if it does.
///
/// A sphere behind the ray (the dot of the direction with the vector toward
/// the center not positive) reports no hit; otherwise the ray-sphere
/// quadratic decides, and of its two crossing points the one nearer the ray
/// origin (by squared distance) is returned.
pub open spec fn sphere_intersect(s: Sphere, ray: Ray) -> Option<Vec3> {
    if v3_dot(v3_sub(s.center, ray.origin), ray.direction) <= 0 {
        None
    } else {
        let o = v3_sub(ray.origin, s.center);
        let d = ray.direction;
        let dt = v3_dot(d, o);
        match solve_quadratic_spec(
            v3_dot(d, d),
            s_add(dt, dt),
            s_sub(v3_dot(o, o), s_mul(s.radius, s.radius)),
        ) {
            None => None,
            Some((t1, t2)) => {
                let p1 = v3_add(ray.origin, v3_scale(d, t1));
                let p2 = v3_add(ray.origin, v3_scale(d, t2));
                if dist_sq(p1, ray.origin) < dist_sq(p2, ray.origin) {
                    Some(p1)
                } else {
                    Some(p2)
                }
            },
        }
    }
}

/// A hit, reflected: the outgoing ray after a mirror bounce on the sphere.
pub open spec fn sphere_raycast(s: Sphere, ray: Ray) -> Option<Ray> {
    match sphere_intersect(s, ray) {
        Some(pt) => Some(
            Ray {
                origin: pt,
                direction: reflect_dir(ray.direction, v3_normalize(v3_sub(s.center, pt))),
            },
        ),
        None => None,
    }
}

impl Sphere {
    /// The closest intersection point of `ray` with the sphere, if any.
    pub fn intersect(&self, ray: &Ray) -> (r: Option<Vec3>)
        ensures
            r == sphere_intersect(*self, *ray),
    {
        if vec3_dot(vec3_sub(self.center, ray.origin), ray.direction) <= 0 {
            return None;
        }
        let o = vec3_sub(ray.origin, self.center);
        let d = ray.direction;
        let dt: i64 = vec3_dot(d, o);
        let qa: i64 = vec3_dot(d, d);
        let qb: i64 = fx_add(dt, dt);
        let qc: i64 = fx_sub(vec3_dot(o, o), fx_mul(self.radius, self.radius));
        match solve_quadratic(qa, qb, qc) {
            None => None,
            Some((t1, t2)) => {
                let p1 = vec3_add(ray.origin, vec3_scale(d, t1));
                let p2 = vec3_add(ray.origin, vec3_scale(d, t2));
                if vec3_magsq(vec3_sub(p1, ray.origin)) < vec3_magsq(vec3_sub(p2, ray.origin)) {
                    Some(p1)
                } else {
                    Some(p2)
                }
            },
        }
    }

    /// The unit direction from `pt` toward the center. The point need not
    /// lie on the sphere.
    pub fn normal(&self, pt: &Vec3) -> (r: Vec3)
        ensures
            r == v3_normalize(v3_sub(self.center, *pt)),
    {
        vec3_normalize(vec3_sub(self.center, *pt))
    }
}

impl Raycast for Sphere {
    open spec fn raycast_spec(&self, ray: Ray) -> Option<Ray> {
        sphere_raycast(*self, ray)
    }

    /// Intersect, then reflect about the normal at the hit point.
    fn raycast(&self, ray: &Ray) -> (r: Option<Ray>) {
        proof {
            assert(self.raycast_spec(*ray) == sphere_raycast(*self, *ray));
        }
        match self.intersect(ray) {
            Some(pt) => Some(ray.reflect(&pt, &self.normal(&pt))),
            None => None,
        }
    }
}

} // verus!
