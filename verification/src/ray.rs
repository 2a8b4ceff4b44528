//! A half-line in space: origin plus scaled direction.

use vstd::prelude::*;
use crate::vec3::{vadd, vscale, Point3, Vec3};

verus! {

/// A ray, evaluated at scalar parameters `t`; the direction need not be
/// unit length.
#[derive(Clone, Copy, Debug, PartialEq, Eq, Structural)]
pub struct Ray {
    pub origin: Point3,
    pub direction: Vec3,
}

/// The point a ray reaches at parameter `t`.
pub open spec fn ray_at(ray: Ray, t: int) -> Point3 {
    vadd(ray.origin, vscale(ray.direction, t))
}

impl Ray {
    /// Pack an origin and a direction.
    pub fn new(orig: Point3, dir: Vec3) -> (r: Ray)
        ensures
            r.origin == orig,
            r.direction == dir,
    {
        Ray { origin: orig, direction: dir }
    }

    /// The point at parameter `t`; `t` may be negative (behind the
    /// origin) — callers constrain the range they accept.
    pub fn at(&self, t: i64) -> (r: Point3)
        ensures
            r == ray_at(*self, t as int),
    {
        self.origin.add(self.direction.scale(t))
    }
}

} // verus!
