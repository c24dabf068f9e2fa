//! An infinite mirror plane.

use vstd::prelude::*;

verus! {

use crate::math::{
    Vec3, v3_add, v3_dot, v3_normalize, v3_scale, v3_sub, s_div, s_neg,
    vec3_add, vec3_dot, vec3_normalize, vec3_scale, vec3_sub, fx_div, fx_neg,
};
use crate::ray::{Ray, reflect_dir};
use crate::engine::Raycast;

/// A plane through `origin` with orientation `normal`. The stored normal
/// need not be unit length; reflection normalizes it first.
#[derive(Clone, Copy, Debug, PartialEq, Eq, Structural)]
pub struct Plane {
    pub origin: Vec3,
    pub normal: Vec3,
}

/// Signed distance from `pt` to the plane, in multiples of `|normal|`.
pub open spec fn plane_distance(p: Plane, pt: Vec3) -> i64 {
    v3_dot(p.normal, v3_sub(pt, p.origin))
}

/// Where a ray meets the plane, if it does.
///
/// A hit requires the ray origin strictly on the side the normal points
/// toward, and a direction strictly toward the plane; a parallel ray (whose
/// dot with the normal rounds to zero) reports no hit rather than dividing
/// by a vanishing denominator.
pub open spec fn plane_intersect(p: Plane, ray: Ray) -> Option<Vec3> {
    let diff = v3_sub(ray.origin, p.origin);
    let denom = v3_dot(ray.direction, p.normal);
    if v3_dot(diff, p.normal) > 0 && denom < 0 {
        let l = s_div(s_neg(v3_dot(p.normal, diff)), denom);
        Some(v3_add(ray.origin, v3_scale(ray.direction, l)))
    } else {
        None
    }
}

/// A hit, reflected: the outgoing ray after a mirror bounce on the plane.
pub open spec fn plane_raycast(p: Plane, ray: Ray) -> Option<Ray> {
    match plane_intersect(p, ray) {
        Some(pt) => Some(
            Ray { origin: pt, direction: reflect_dir(ray.direction, v3_normalize(p.normal)) },
        ),
        None => None,
    }
}

impl Plane {
    /// Whether `pt` lies strictly on the side the normal points toward.
    pub fn facing(&self, pt: &Vec3) -> (r: bool)
        ensures
            r == (v3_dot(v3_sub(*pt, self.origin), self.normal) > 0),
    {
        vec3_dot(vec3_sub(*pt, self.origin), self.normal) > 0
    }

    /// Projection of `pt` onto the plane along the normal.
    pub fn project(&self, pt: &Vec3) -> (r: Vec3)
        ensures
            r == v3_sub(*pt, v3_scale(self.normal, plane_distance(*self, *pt))),
    {
        vec3_sub(*pt, vec3_scale(self.normal, self.distance(pt)))
    }

    /// Signed distance from `pt` to the plane, in multiples of `|normal|`.
    pub fn distance(&self, pt: &Vec3) -> (r: i64)
        ensures
            r == plane_distance(*self, *pt),
    {
        vec3_dot(self.normal, vec3_sub(*pt, self.origin))
    }

    /// The stored normal, scaled to unit length.
    pub fn normal(&self) -> (r: Vec3)
        ensures
            r == v3_normalize(self.normal),
    {
        vec3_normalize(self.normal)
    }

    /// Where `ray` meets the plane. Reports a hit exactly when the ray
    /// starts on the facing side and heads strictly toward the plane.
    pub fn intersect(&self, ray: &Ray) -> (r: Option<Vec3>)
        ensures
            r == plane_intersect(*self, *ray),
            r.is_some() <==> (v3_dot(v3_sub(ray.origin, self.origin), self.normal) > 0
                && v3_dot(ray.direction, self.normal) < 0),
    {
        let diff = vec3_sub(ray.origin, self.origin);
        let above = vec3_dot(diff, self.normal) > 0;
        let denom: i64 = vec3_dot(ray.direction, self.normal);
        if above && denom < 0 {
            let l: i64 = fx_div(fx_neg(vec3_dot(self.normal, diff)), denom);
            Some(vec3_add(ray.origin, vec3_scale(ray.direction, l)))
        } else {
            None
        }
    }

}

impl Raycast for Plane {
    open spec fn raycast_spec(&self, ray: Ray) -> Option<Ray> {
        plane_raycast(*self, ray)
    }

    /// Intersect, then reflect about the unit normal.
    fn raycast(&self, ray: &Ray) -> (r: Option<Ray>) {
        proof {
            assert(self.raycast_spec(*ray) == plane_raycast(*self, *ray));
        }
        match self.intersect(ray) {
            Some(pt) => Some(ray.reflect(&pt, &self.normal())),
            None => None,
        }
    }
}

} // verus!
