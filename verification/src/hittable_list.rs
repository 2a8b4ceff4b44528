//! The scene aggregate: an unordered list of spheres answering the same
//! intersection protocol by keeping the closest hit.
//!
//! The scan narrows the upper end of the parameter window to the
//! closest hit found so far, so a later member can only replace the
//! record with a strictly closer one.

use vstd::prelude::*;
use crate::hittable::HitRecord;
use crate::ray::Ray;
use crate::sphere::{lemma_sphere_hit_in_window, lemma_sphere_hit_window_narrow, sphere_hit_spec,
    Sphere};

verus! {

/// The record the scan reports from member `i` on, given the narrowed
/// window `(t_min, closest)`.
pub open spec fn scan_from(
    objects: Seq<Sphere>,
    ray: Ray,
    t_min: i64,
    closest: i64,
    i: int,
) -> Option<HitRecord>
    decreases objects.len() - i,
{
    if i < 0 || i >= objects.len() {
        None
    } else {
        match sphere_hit_spec(objects[i], ray, t_min, closest) {
            Some(h) => match scan_from(objects, ray, t_min, h.t, i + 1) {
                Some(h2) => Some(h2),
                None => Some(h),
            },
            None => scan_from(objects, ray, t_min, closest, i + 1),
        }
    }
}

/// The exact record `HittableList::hit` reports.
pub open spec fn list_hit_spec(objects: Seq<Sphere>, ray: Ray, t_min: i64, t_max: i64) -> Option<
    HitRecord,
> {
    scan_from(objects, ray, t_min, t_max, 0)
}

/// What the scan reports from member `i` on is sound and complete for
/// the window it was given: a miss means no member hits inside the
/// window, and a reported record is a member's hit that no other
/// member's hit undercuts.
proof fn lemma_scan_closest(objects: Seq<Sphere>, ray: Ray, t_min: i64, w: i64, i: int)
    requires
        0 <= i <= objects.len(),
    ensures
        scan_from(objects, ray, t_min, w, i) is None ==> forall|k: int|
            i <= k < objects.len() ==> (#[trigger] sphere_hit_spec(objects[k], ray, t_min, w)) is None,
        scan_from(objects, ray, t_min, w, i) matches Some(h) ==> t_min < h.t < w && forall|k: int|
            i <= k < objects.len() ==> (match (#[trigger] sphere_hit_spec(objects[k], ray, t_min, w)) {
                Some(g) => g.t >= h.t,
                None => true,
            }),
    decreases objects.len() - i,
{
    if 0 <= i < objects.len() {
        match sphere_hit_spec(objects[i], ray, t_min, w) {
            Some(h) => {
                lemma_sphere_hit_in_window(objects[i], ray, t_min, w);
                lemma_scan_closest(objects, ray, t_min, h.t, i + 1);
                match scan_from(objects, ray, t_min, h.t, i + 1) {
                    Some(h2) => {
                        assert forall|k: int| i <= k < objects.len() implies (match (
                        #[trigger] sphere_hit_spec(objects[k], ray, t_min, w)) {
                            Some(g) => g.t >= h2.t,
                            None => true,
                        }) by {
                            if k > i {
                                lemma_sphere_hit_window_narrow(objects[k], ray, t_min, h.t, w);
                            }
                        }
                    },
                    None => {
                        assert forall|k: int| i <= k < objects.len() implies (match (
                        #[trigger] sphere_hit_spec(objects[k], ray, t_min, w)) {
                            Some(g) => g.t >= h.t,
                            None => true,
                        }) by {
                            if k > i {
                                lemma_sphere_hit_window_narrow(objects[k], ray, t_min, h.t, w);
                            }
                        }
                    },
                }
            },
            None => {
                lemma_scan_closest(objects, ray, t_min, w, i + 1);
            },
        }
    }
}

/// A record the scan reports is exactly some member's own hit over
/// the scan's full window, and so carries that member's material.
proof fn lemma_scan_member(objects: Seq<Sphere>, ray: Ray, t_min: i64, w: i64, i: int)
    requires
        0 <= i <= objects.len(),
    ensures
        scan_from(objects, ray, t_min, w, i) matches Some(h) ==> exists|k: int|
            i <= k < objects.len() && sphere_hit_spec((#[trigger] objects[k]), ray, t_min, w)
                == Some(h) && h.material == objects[k].material,
    decreases objects.len() - i,
{
    if 0 <= i < objects.len() {
        match sphere_hit_spec(objects[i], ray, t_min, w) {
            Some(h) => {
                lemma_sphere_hit_in_window(objects[i], ray, t_min, w);
                lemma_scan_member(objects, ray, t_min, h.t, i + 1);
                match scan_from(objects, ray, t_min, h.t, i + 1) {
                    Some(h2) => {
                        let k0 = choose|k: int|
                            i + 1 <= k < objects.len() && sphere_hit_spec(
                                objects[k],
                                ray,
                                t_min,
                                h.t,
                            ) == Some(h2) && h2.material == objects[k].material;
                        lemma_sphere_hit_window_narrow(objects[k0], ray, t_min, h.t, w);
                        assert(sphere_hit_spec(objects[k0], ray, t_min, w) == Some(h2));
                    },
                    None => {
                        assert(sphere_hit_spec(objects[i], ray, t_min, w) == Some(h));
                    },
                }
            },
            None => {
                lemma_scan_member(objects, ray, t_min, w, i + 1);
            },
        }
    }
}

/// A record `hit` reports is exactly some member's hit over the full
/// window, with that member's material: the aggregate answers the same
/// protocol as its members.
pub proof fn lemma_list_hit_member(objects: Seq<Sphere>, ray: Ray, t_min: i64, t_max: i64)
    ensures
        list_hit_spec(objects, ray, t_min, t_max) matches Some(h) ==> exists|k: int|
            0 <= k < objects.len() && sphere_hit_spec((#[trigger] objects[k]), ray, t_min, t_max)
                == Some(h) && h.material == objects[k].material,
{
    lemma_scan_member(objects, ray, t_min, t_max, 0);
}

/// The scene inherits the orientation law of its members: a reported
/// normal never points along the incident ray.
pub proof fn lemma_list_hit_normal_against_ray(
    objects: Seq<Sphere>,
    ray: Ray,
    t_min: i64,
    t_max: i64,
)
    ensures
        list_hit_spec(objects, ray, t_min, t_max) matches Some(h) ==> crate::vec3::vdot(
            ray.direction,
            h.normal,
        ) <= 0,
{
    lemma_list_hit_member(objects, ray, t_min, t_max);
    let r = list_hit_spec(objects, ray, t_min, t_max);
    if r is Some {
        let h = r->Some_0;
        let k0 = choose|k: int|
            0 <= k < objects.len() && sphere_hit_spec(objects[k], ray, t_min, t_max) == Some(h)
                && h.material == objects[k].material;
        crate::sphere::lemma_hit_normal_against_ray(objects[k0], ray, t_min, t_max);
    }
}

/// The scene-level law of the intersection protocol: `hit` misses
/// exactly when every member misses the full window, and a reported
/// record lies strictly inside the window with a parameter no larger
/// than any member's own hit there.
pub proof fn lemma_list_hit_closest(objects: Seq<Sphere>, ray: Ray, t_min: i64, t_max: i64)
    ensures
        list_hit_spec(objects, ray, t_min, t_max) is None ==> forall|k: int|
            0 <= k < objects.len() ==> (#[trigger] sphere_hit_spec(objects[k], ray, t_min, t_max)) is None,
        list_hit_spec(objects, ray, t_min, t_max) matches Some(h) ==> t_min < h.t < t_max
            && forall|k: int|
            0 <= k < objects.len() ==> (match (#[trigger] sphere_hit_spec(objects[k], ray, t_min, t_max)) {
                Some(g) => g.t >= h.t,
                None => true,
            }),
{
    lemma_scan_closest(objects, ray, t_min, t_max, 0);
}

/// An unordered collection of spheres.
#[derive(Clone, Debug)]
pub struct HittableList {
    pub objects: Vec<Sphere>,
}

impl HittableList {
    /// An empty scene.
    pub fn new() -> (r: HittableList)
        ensures
            r.objects@.len() == 0,
    {
        HittableList { objects: Vec::new() }
    }

    /// A scene holding one object.
    pub fn from_hittable(object: Sphere) -> (r: HittableList)
        ensures
            r.objects@.len() == 1,
            r.objects@[0] == object,
    {
        let mut list = HittableList { objects: Vec::new() };
        list.add(object);
        list
    }

    /// Remove every object.
    pub fn clear(&mut self)
        ensures
            final(self).objects@.len() == 0,
    {
        self.objects.clear()
    }

    /// Append an object.
    pub fn add(&mut self, object: Sphere)
        ensures
            final(self).objects@ == old(self).objects@.push(object),
    {
        self.objects.push(object)
    }

    /// The closest intersection of `ray` with any member, with
    /// parameter strictly inside `(t_min, t_max)`.
    pub fn hit(&self, ray: &Ray, t_min: i64, t_max: i64) -> (r: Option<HitRecord>)
        ensures
            r == list_hit_spec(self.objects@, *ray, t_min, t_max),
    {
        let mut temp_rec: Option<HitRecord> = None;
        let mut closest_so_far: i64 = t_max;
        let mut idx: usize = 0;

        while idx < self.objects.len()
            invariant
                idx <= self.objects@.len(),
                temp_rec matches Some(h) ==> closest_so_far == h.t,
                temp_rec is None ==> closest_so_far == t_max,
                list_hit_spec(self.objects@, *ray, t_min, t_max) == (match scan_from(
                    self.objects@,
                    *ray,
                    t_min,
                    closest_so_far,
                    idx as int,
                ) {
                    Some(h2) => Some(h2),
                    None => temp_rec,
                }),
            decreases self.objects@.len() - idx,
        {
            match self.objects[idx].hit(ray, t_min, closest_so_far) {
                Some(rec) => {
                    closest_so_far = rec.t;
                    temp_rec = Some(rec);
                },
                None => {},
            }
            idx = idx + 1;
        }

        temp_rec
    }
}

} // verus!
