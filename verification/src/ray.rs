//! A directed line and its mirror reflection.

use vstd::prelude::*;

verus! {

use crate::math::{Vec3, v3_dot, v3_scale, v3_sub, s_add, vec3_dot, vec3_scale, vec3_sub, fx_add};

/// A ray: an origin and a direction. The direction need not be unit length.
#[derive(Clone, Copy, Debug, PartialEq, Eq, Structural)]
pub struct Ray {
    pub origin: Vec3,
    pub direction: Vec3,
}

/// Mirror image of `d` about the normal `n`: `d - 2 * (n . d) * n`.
///
/// Only a unit-length `n` preserves the magnitude and the angle of `d`;
/// callers normalize before reflecting.
pub open spec fn reflect_dir(d: Vec3, n: Vec3) -> Vec3 {
    v3_sub(d, v3_scale(n, s_add(v3_dot(n, d), v3_dot(n, d))))
}

impl Ray {
    /// The outgoing ray after a mirror bounce at `intersection` with surface
    /// normal `normal`.
    pub fn reflect(&self, intersection: &Vec3, normal: &Vec3) -> (r: Ray)
        ensures
            r.origin == *intersection,
            r.direction == reflect_dir(self.direction, *normal),
    {
        let t: i64 = vec3_dot(*normal, self.direction);
        let k: i64 = fx_add(t, t);
        Ray { origin: *intersection, direction: vec3_sub(self.direction, vec3_scale(*normal, k)) }
    }
}

} // verus!
