//! Rays: an origin and an (unnormalized) direction.

use crate::vec3::{v_add_s, v_scale_s, Vec3};
use vstd::prelude::*;

verus! {

/// A parametric ray `origin + t * direction`.
#[derive(Clone, Copy, Debug, PartialEq, Eq, Structural)]
pub struct Ray {
    pub origin: Vec3,
    pub direction: Vec3,
}

/// The point a ray reaches at parameter `t`.
pub open spec fn ray_at_s(r: Ray, t: i64) -> Vec3 {
    v_add_s(r.origin, v_scale_s(r.direction, t))
}

impl Ray {
    /// Build a ray from origin and direction.
    pub fn new(origin: Vec3, direction: Vec3) -> (r: Ray)
        ensures
            r == (Ray { origin, direction }),
    {
        Ray { origin, direction }
    }

    /// Evaluate the ray at parameter `t`; negative and large `t` are valid.
    pub fn calc_point(&self, t: i64) -> (p: Vec3)
        ensures
            p == ray_at_s(*self, t),
    {
        self.origin.add(&self.direction.scale(t))
    }
}

} // verus!
