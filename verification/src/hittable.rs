//! The record a primitive reports for the nearest intersection with a
//! ray.
//!
//! A record carries the index of the struck object's material in the
//! scene's material arena; primitives share materials through those
//! indices rather than owning copies.

use vstd::prelude::*;
use crate::ray::Ray;
use crate::vec3::{vdot, vneg, Point3, Vec3};

verus! {

/// Where and how a ray struck a primitive. `normal` always points
/// against the incident ray; `front_face` records whether the outward
/// side was struck.
#[derive(Clone, Copy, Debug, PartialEq, Eq, Structural)]
pub struct HitRecord {
    pub p: Point3,
    pub normal: Vec3,
    pub material: usize,
    pub t: i64,
    pub front_face: bool,
}

impl HitRecord {
    /// A record for a hit at `p` with parameter `t`, before the normal
    /// has been oriented (the normal starts as a placeholder).
    pub fn with_values(p: Point3, t: i64, material: usize) -> (r: HitRecord)
        ensures
            r.p == p,
            r.normal == p,
            r.material == material,
            r.t == t,
            r.front_face == false,
    {
        HitRecord { p, normal: p, material, t, front_face: false }
    }

    /// Store `outward_normal` oriented against the incident ray, and
    /// record on which side the ray arrived.
    pub fn set_face_normal(&mut self, ray: &Ray, outward_normal: &Vec3)
        ensures
            final(self).front_face == (vdot(ray.direction, *outward_normal) < 0),
            final(self).normal == if vdot(ray.direction, *outward_normal) < 0 {
                *outward_normal
            } else {
                vneg(*outward_normal)
            },
            final(self).p == old(self).p,
            final(self).t == old(self).t,
            final(self).material == old(self).material,
    {
        self.front_face = ray.direction.dot(*outward_normal) < 0;
        if self.front_face {
            self.normal = *outward_normal;
        } else {
            self.normal = outward_normal.neg();
        }
    }
}

} // verus!
