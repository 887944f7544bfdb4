//! The record a successful ray/geometry intersection produces.

use crate::materials::Material;
use crate::vec3::Vec3;
use vstd::prelude::*;

verus! {

/// A hit: the ray parameter, the point reached, the outward sphere normal
/// (not flipped toward the ray; the dielectric material resolves sidedness),
/// and the surface's material.
#[derive(Clone, Copy, Debug, PartialEq, Eq, Structural)]
pub struct HitRecord {
    pub t: i64,
    pub p: Vec3,
    pub normal: Vec3,
    pub material: Material,
}

} // verus!
