//! Rays: an origin and a direction, parametrizing the line
//! `origin + t * direction`. The direction need not be unit length.

use vstd::prelude::*;

use crate::vec3::{V3, Vec3};

verus! {

/// A parametrized line through `origin` along `direction`.
#[derive(Clone, Copy, Debug, PartialEq, Eq, Structural)]
pub struct Ray {
    pub origin: Vec3,
    pub direction: Vec3,
}

/// The point at parameter `t` along a ray: `origin + t * direction` in
/// fixed-point arithmetic.
pub open spec fn spec_point_at(r: Ray, t: int) -> V3 {
    r.origin@.vadd(r.direction@.vscale(t))
}

impl Ray {
    /// Builds a ray from origin and direction.
    pub fn new(origin: Vec3, direction: Vec3) -> (r: Ray)
        ensures
            r.origin == origin,
            r.direction == direction,
    {
        Ray { origin, direction }
    }

    /// The ray's origin.
    pub fn origin(&self) -> (r: &Vec3)
        ensures
            r == self.origin,
    {
        &self.origin
    }

    /// The ray's direction.
    pub fn direction(&self) -> (r: &Vec3)
        ensures
            r == self.direction,
    {
        &self.direction
    }

    /// The point at parameter `t` along the ray.
    pub fn point_at_parameter(&self, t: i64) -> (p: Vec3)
        requires
            self.direction@.vscale(t as int).fits(),
            self.origin@.vadd(self.direction@.vscale(t as int)).fits(),
        ensures
            p@ == spec_point_at(*self, t as int),
    {
        self.origin.add(&self.direction.scale(t))
    }
}

} // verus!
