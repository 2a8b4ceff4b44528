//! The one scene primitive: a sphere, with the ray–sphere intersection
//! protocol.
//!
//! The quadratic is solved in the numerically stable half-b form. A
//! negative radius is allowed as a modeling trick: it flips the outward
//! normal inward, which builds hollow glass shells.

use vstd::prelude::*;
use crate::fixed::{fdiv, fmul, fp_add, fp_div, fp_mul, fp_neg, fp_sqrt, fp_sub, fsqrt,
    lemma_fdiv_monotone, lemma_fdiv_neg_divisor, lemma_sqrt_floor_bounds, sat, ONE};
use crate::hittable::HitRecord;
use crate::ray::{ray_at, Ray};
use crate::vec3::{lemma_vdot_self_nonneg, sat64, vdivs, vdot, vneg, vsub, Point3, Vec3};

verus! {

/// A sphere, referring to its material by arena index.
#[derive(Clone, Copy, Debug, PartialEq, Eq, Structural)]
pub struct Sphere {
    pub center: Point3,
    pub radius: i64,
    pub material: usize,
}

/// The raw outward normal `(p - center) / radius`; a negative radius
/// turns it inward.
pub open spec fn sphere_outward_normal(p: Point3, center: Point3, radius: int) -> Vec3
    recommends
        radius != 0,
{
    vdivs(vsub(p, center), radius)
}

/// The exact record `Sphere::hit` reports: the nearest root of the
/// intersection quadratic strictly inside `(t_min, t_max)`, or nothing.
/// Degenerate spheres (radius zero) and rays whose squared direction
/// rounds to zero report no hit.
pub open spec fn sphere_hit_spec(s: Sphere, ray: Ray, t_min: i64, t_max: i64) -> Option<
    HitRecord,
> {
    if s.radius == 0 {
        None
    } else {
        let oc = vsub(ray.origin, s.center);
        let a = vdot(ray.direction, ray.direction);
        let half_b = vdot(oc, ray.direction);
        let c = sat(vdot(oc, oc) - fmul(s.radius as int, s.radius as int));
        let discriminant = sat(fmul(half_b, half_b) - fmul(a, c));
        if discriminant < 0 {
            None
        } else if a == 0 {
            None
        } else {
            let sqrtd = fsqrt(discriminant);
            let root1 = sat64(fdiv(sat(-sat(sqrtd + half_b)), a));
            let root2 = sat64(fdiv(sat(sqrtd - half_b), a));
            let root = if t_min < root1 && root1 < t_max {
                root1
            } else {
                root2
            };
            if t_min < root && root < t_max {
                let p = ray_at(ray, root as int);
                let outward = sphere_outward_normal(p, s.center, s.radius as int);
                let ff = vdot(ray.direction, outward) < 0;
                Some(
                    HitRecord {
                        p,
                        normal: if ff {
                            outward
                        } else {
                            vneg(outward)
                        },
                        material: s.material,
                        t: root,
                        front_face: ff,
                    },
                )
            } else {
                None
            }
        }
    }
}

/// Flipping the sign of the radius flips the raw outward normal: a
/// hollow-glass shell's inner surface faces the inside.
pub proof fn lemma_negative_radius_flips_normal(p: Point3, center: Point3, radius: int)
    requires
        radius != 0,
    ensures
        sphere_outward_normal(p, center, -radius) == vneg(sphere_outward_normal(p, center, radius)),
{
    let d = vsub(p, center);
    lemma_fdiv_neg_divisor(d.x as int, radius);
    lemma_fdiv_neg_divisor(d.y as int, radius);
    lemma_fdiv_neg_divisor(d.z as int, radius);
}

/// The exact value of `hit_sphere`: the parameter of the nearer
/// quadratic root, or minus one where the ray misses or its squared
/// direction rounds to zero.
pub open spec fn hit_sphere_spec(center: Point3, radius: int, ray: Ray) -> int {
    let oc = vsub(ray.origin, center);
    let a = vdot(ray.direction, ray.direction);
    let half_b = vdot(oc, ray.direction);
    let c = sat(vdot(oc, oc) - fmul(radius, radius));
    let discriminant = sat(fmul(half_b, half_b) - fmul(a, c));
    if discriminant < 0 || a == 0 {
        -(ONE as int)
    } else {
        fdiv(sat(sat(-half_b) - fsqrt(discriminant)), a)
    }
}

/// The parameter at which a ray first meets a sphere, or minus one on
/// a miss: the standalone form of the intersection quadratic.
pub fn hit_sphere(center: Point3, radius: i64, ray: &Ray) -> (r: i64)
    ensures
        r == hit_sphere_spec(center, radius as int, *ray),
{
    let oc: Vec3 = ray.origin.sub(center);
    let a: i64 = ray.direction.length_squared();
    let half_b: i64 = oc.dot(ray.direction);
    let c: i64 = fp_sub(oc.length_squared(), fp_mul(radius, radius));
    let discriminant: i64 = fp_sub(fp_mul(half_b, half_b), fp_mul(a, c));
    if discriminant < 0 {
        -ONE
    } else if a == 0 {
        -ONE
    } else {
        fp_div(fp_sub(fp_neg(half_b), fp_sqrt(discriminant)), a)
    }
}

/// A reported hit lies strictly inside the requested window and
/// carries the sphere's material.
pub proof fn lemma_sphere_hit_in_window(s: Sphere, ray: Ray, t_min: i64, t_max: i64)
    ensures
        sphere_hit_spec(s, ray, t_min, t_max) matches Some(h) ==> t_min < h.t < t_max
            && h.material == s.material,
{
}

/// The stored normal always points against the incident ray, whichever
/// side was struck: its dot product with the ray direction is never
/// positive.
pub proof fn lemma_hit_normal_against_ray(s: Sphere, ray: Ray, t_min: i64, t_max: i64)
    ensures
        sphere_hit_spec(s, ray, t_min, t_max) matches Some(h) ==> vdot(ray.direction, h.normal)
            <= 0,
{
    let r = sphere_hit_spec(s, ray, t_min, t_max);
    if r is Some {
        let h = r->Some_0;
        let outward = sphere_outward_normal(h.p, s.center, s.radius as int);
        if vdot(ray.direction, outward) >= 0 {
            crate::vec3::lemma_vdot_sym(ray.direction, vneg(outward));
            crate::vec3::lemma_vdot_neg_left(outward, ray.direction);
            crate::vec3::lemma_vdot_sym(outward, ray.direction);
        }
    }
}

/// Narrowing the upper end of the window only discards hits at or past
/// the narrowed end: a hit found under the narrow window is exactly the
/// hit under the wide one, and a narrow-window miss means the wide
/// window sees nothing closer than the narrowed end.
pub proof fn lemma_sphere_hit_window_narrow(s: Sphere, ray: Ray, t_min: i64, w1: i64, w2: i64)
    requires
        w1 <= w2,
    ensures
        sphere_hit_spec(s, ray, t_min, w1) matches Some(h) ==> sphere_hit_spec(s, ray, t_min, w2)
            == Some(h),
        sphere_hit_spec(s, ray, t_min, w1) is None ==> (match sphere_hit_spec(
            s,
            ray,
            t_min,
            w2,
        ) {
            Some(g) => g.t >= w1,
            None => true,
        }),
{
    if s.radius != 0 {
        let oc = vsub(ray.origin, s.center);
        let a = vdot(ray.direction, ray.direction);
        let half_b = vdot(oc, ray.direction);
        let c = sat(vdot(oc, oc) - fmul(s.radius as int, s.radius as int));
        let discriminant = sat(fmul(half_b, half_b) - fmul(a, c));
        if discriminant >= 0 && a != 0 {
            let sqrtd = fsqrt(discriminant);
            lemma_sqrt_floor_bounds(discriminant * (ONE as int));
            lemma_vdot_self_nonneg(ray.direction);
            assert(sqrtd >= 0);
            assert(a > 0);
            assert(-sat(sqrtd + half_b) == sat(-(sqrtd + half_b)));
            lemma_fdiv_monotone(sat(-(sqrtd + half_b)), sat(sqrtd - half_b), a);
            let root1 = sat64(fdiv(sat(-sat(sqrtd + half_b)), a));
            let root2 = sat64(fdiv(sat(sqrtd - half_b), a));
            assert(root1 <= root2);
        }
    }
}

impl Sphere {
    /// Pack a center, a radius and a material index.
    pub fn new(center: Point3, radius: i64, material: usize) -> (r: Sphere)
        ensures
            r.center == center,
            r.radius == radius,
            r.material == material,
    {
        Sphere { center, radius, material }
    }

    /// The nearest intersection of `ray` with this sphere whose
    /// parameter lies strictly inside `(t_min, t_max)`.
    pub fn hit(&self, ray: &Ray, t_min: i64, t_max: i64) -> (r: Option<HitRecord>)
        ensures
            r == sphere_hit_spec(*self, *ray, t_min, t_max),
    {
        if self.radius == 0 {
            return None;
        }
        let oc: Vec3 = ray.origin.sub(self.center);
        let a: i64 = ray.direction.length_squared();
        let half_b: i64 = oc.dot(ray.direction);
        let c: i64 = fp_sub(oc.length_squared(), fp_mul(self.radius, self.radius));

        let discriminant: i64 = fp_sub(fp_mul(half_b, half_b), fp_mul(a, c));
        if discriminant < 0 {
            return None;
        }
        if a == 0 {
            return None;
        }
        let sqrtd: i64 = fp_sqrt(discriminant);

        // Take the smaller root if it lies in range, else the larger.
        let mut root: i64 = fp_div(fp_neg(fp_add(sqrtd, half_b)), a);
        if !(t_min < root && root < t_max) {
            root = fp_div(fp_sub(sqrtd, half_b), a);
            if !(t_min < root && root < t_max) {
                return None;
            }
        }

        let p: Point3 = ray.at(root);
        let mut rec: HitRecord = HitRecord::with_values(p, root, self.material);
        let outward_normal: Vec3 = p.sub(self.center).div_s(self.radius);
        rec.set_face_normal(ray, &outward_normal);

        Some(rec)
    }
}

} // verus!
