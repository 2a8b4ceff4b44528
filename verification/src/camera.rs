//! The thin-lens camera: maps normalized image-plane coordinates to
//! world-space rays.
//!
//! The vertical field of view passes through a fixed-point degree→radian
//! conversion and a small polynomial sine/cosine pair whose quotient
//! stands in for the tangent; the polynomials are the camera's own
//! documented approximation and their contracts state them exactly.
//! Construction is checked: a field of view whose cosine rounds to zero
//! or degenerate aim/up directions are rejected rather than divided by.

use vstd::prelude::*;
use crate::fixed::{fdiv, fmul, fp_div, fp_mul, fp_sub, sat, ONE};
use crate::ray::Ray;
use crate::rng::SeededRng;
use crate::vec3::{random_in_unit_disk_spec, sat64, vadd, vcross, vdivs, vdot, vnormalize, vscale,
    vsub, vzero, Point3, Vec3};

verus! {

/// The circle constant on the fixed-point grid.
pub const PI_FP: i64 = 3_141_593;

/// Degrees expressed as a scalar angle: `deg * pi / 180`.
pub open spec fn deg_to_rad_spec(deg: int) -> int {
    fdiv(fmul(deg, PI_FP as int), 180 * (ONE as int))
}

/// Convert an angle in degrees to radians.
pub fn degrees_to_radians(deg: i64) -> (r: i64)
    ensures
        r == deg_to_rad_spec(deg as int),
{
    fp_div(fp_mul(deg, PI_FP), 180 * ONE)
}

/// The camera's sine polynomial (odd terms through the seventh power).
pub open spec fn sin_poly(x: int) -> int {
    let x2 = fmul(x, x);
    let t1 = sat(8_333 - fmul(x2, 198));
    let t2 = sat(166_667 - fmul(x2, t1));
    let t3 = sat(ONE - fmul(x2, t2));
    fmul(x, t3)
}

/// The camera's cosine polynomial (even terms through the sixth power).
pub open spec fn cos_poly(x: int) -> int {
    let x2 = fmul(x, x);
    let u1 = sat(41_667 - fmul(x2, 1_389));
    let u2 = sat(500_000 - fmul(x2, u1));
    sat(ONE - fmul(x2, u2))
}

/// Evaluate the sine polynomial.
pub fn sin_fp(x: i64) -> (r: i64)
    ensures
        r == sin_poly(x as int),
{
    let x2: i64 = fp_mul(x, x);
    let t1: i64 = fp_sub(8_333, fp_mul(x2, 198));
    let t2: i64 = fp_sub(166_667, fp_mul(x2, t1));
    let t3: i64 = fp_sub(ONE, fp_mul(x2, t2));
    fp_mul(x, t3)
}

/// Evaluate the cosine polynomial.
pub fn cos_fp(x: i64) -> (r: i64)
    ensures
        r == cos_poly(x as int),
{
    let x2: i64 = fp_mul(x, x);
    let u1: i64 = fp_sub(41_667, fp_mul(x2, 1_389));
    let u2: i64 = fp_sub(500_000, fp_mul(x2, u1));
    fp_sub(ONE, fp_mul(x2, u2))
}

/// A camera derived once from its configuration and immutable after.
#[derive(Clone, Copy, Debug, PartialEq, Eq, Structural)]
pub struct Camera {
    pub origin: Point3,
    pub lower_left_corner: Point3,
    pub horizontal: Vec3,
    pub vertical: Vec3,
    pub u: Vec3,
    pub v: Vec3,
    pub w: Vec3,
    pub lens_radius: i64,
}

/// The exact camera `Camera::new` derives, or `None` where the
/// configuration degenerates: a field of view whose cosine rounds to
/// nothing positive, an aim direction of zero length, or an up vector
/// parallel to the aim.
pub open spec fn camera_spec(
    lookfrom: Point3,
    lookat: Point3,
    vup: Vec3,
    vfow: int,
    aspect_ratio: int,
    aperture: int,
    focus_dist: int,
) -> Option<Camera> {
    let theta = deg_to_rad_spec(vfow);
    let half_theta = fdiv(theta, 2 * (ONE as int));
    let c = cos_poly(half_theta);
    if c <= 0 {
        None
    } else {
        let h = fdiv(sin_poly(half_theta), c);
        let viewport_height = fmul(2 * (ONE as int), h);
        let viewport_width = fmul(aspect_ratio, viewport_height);
        let aim = vsub(lookfrom, lookat);
        if vdot(aim, aim) == 0 {
            None
        } else {
            let w = vnormalize(aim);
            let cu = vcross(vup, w);
            if vdot(cu, cu) == 0 {
                None
            } else {
                let u = vnormalize(cu);
                let v = vcross(w, u);
                let horizontal = vscale(u, fmul(focus_dist, viewport_width));
                let vertical = vscale(v, fmul(focus_dist, viewport_height));
                let lower_left_corner = vsub(
                    vsub(
                        vsub(lookfrom, vdivs(horizontal, 2 * (ONE as int))),
                        vdivs(vertical, 2 * (ONE as int)),
                    ),
                    vscale(w, focus_dist),
                );
                Some(
                    Camera {
                        origin: lookfrom,
                        lower_left_corner,
                        horizontal,
                        vertical,
                        u,
                        v,
                        w,
                        lens_radius: sat64(fdiv(aperture, 2 * (ONE as int))),
                    },
                )
            }
        }
    }
}

/// The ray a camera fires for image coordinates `(s, t)` given a lens
/// offset.
pub open spec fn cam_ray_spec(cam: Camera, s: int, t: int, offset: Vec3) -> Ray {
    Ray {
        origin: vadd(cam.origin, offset),
        direction: vsub(
            vsub(
                vadd(
                    vadd(cam.lower_left_corner, vscale(cam.horizontal, s)),
                    vscale(cam.vertical, t),
                ),
                cam.origin,
            ),
            offset,
        ),
    }
}

/// The lens offset produced by a disk draw `d`.
pub open spec fn lens_offset_spec(cam: Camera, d: Vec3) -> Vec3 {
    let rd = vscale(d, cam.lens_radius as int);
    vadd(vscale(cam.u, rd.x as int), vscale(cam.v, rd.y as int))
}

/// The exact ray and final generator state of `Camera::get_ray`: a
/// pinhole camera consumes no draws; one with an aperture consumes a
/// disk draw for the lens offset.
pub open spec fn get_ray_spec(cam: Camera, s: int, t: int, st: u64) -> (Ray, u64) {
    if cam.lens_radius != 0 {
        let d = random_in_unit_disk_spec(st);
        (cam_ray_spec(cam, s, t, lens_offset_spec(cam, d.0)), d.1)
    } else {
        (cam_ray_spec(cam, s, t, vzero()), st)
    }
}

impl Camera {
    /// Derive a camera from its configuration, rejecting degenerate
    /// configurations instead of dividing by rounded-away quantities.
    pub fn new(
        lookfrom: &Point3,
        lookat: &Point3,
        vup: &Vec3,
        vfow: i64,
        aspect_ratio: i64,
        aperture: i64,
        focus_dist: i64,
    ) -> (r: Option<Camera>)
        ensures
            r == camera_spec(
                *lookfrom,
                *lookat,
                *vup,
                vfow as int,
                aspect_ratio as int,
                aperture as int,
                focus_dist as int,
            ),
    {
        let theta: i64 = degrees_to_radians(vfow);
        let half_theta: i64 = fp_div(theta, 2 * ONE);
        let c: i64 = cos_fp(half_theta);
        if c <= 0 {
            return None;
        }
        let h: i64 = fp_div(sin_fp(half_theta), c);
        let viewport_height: i64 = fp_mul(2 * ONE, h);
        let viewport_width: i64 = fp_mul(aspect_ratio, viewport_height);

        let aim: Vec3 = lookfrom.sub(*lookat);
        if aim.length_squared() == 0 {
            return None;
        }
        let w: Vec3 = aim.normalize();
        let cu: Vec3 = vup.cross(w);
        if cu.length_squared() == 0 {
            return None;
        }
        let u: Vec3 = cu.normalize();
        let v: Vec3 = w.cross(u);

        let horizontal: Vec3 = u.scale(fp_mul(focus_dist, viewport_width));
        let vertical: Vec3 = v.scale(fp_mul(focus_dist, viewport_height));
        let origin: Point3 = *lookfrom;
        let lower_left_corner: Point3 = origin.sub(horizontal.div_s(2 * ONE)).sub(
            vertical.div_s(2 * ONE),
        ).sub(w.scale(focus_dist));

        Some(
            Camera {
                origin,
                lower_left_corner,
                horizontal,
                vertical,
                u,
                v,
                w,
                lens_radius: fp_div(aperture, 2 * ONE),
            },
        )
    }

    /// The ray for normalized image coordinates `(s, t)`; a camera with
    /// an aperture perturbs the origin within its lens disk.
    pub fn get_ray(&self, s: i64, t: i64, rng: &mut SeededRng) -> (r: Ray)
        ensures
            (r, final(rng).state) == get_ray_spec(*self, s as int, t as int, old(rng).state),
            self.lens_radius == 0 ==> r == cam_ray_spec(*self, s as int, t as int, vzero()),
            self.lens_radius != 0 ==> exists|d: Vec3|
                (0 < vdot(d, d) < ONE as int && d.z == 0) && r == cam_ray_spec(
                    *self,
                    s as int,
                    t as int,
                    lens_offset_spec(*self, d),
                ),
    {
        let draw: Vec3;
        let offset: Vec3;
        if self.lens_radius != 0 {
            draw = Vec3::random_in_unit_disk(rng);
            let rd: Vec3 = draw.scale(self.lens_radius);
            offset = self.u.scale(rd.x).add(self.v.scale(rd.y));
        } else {
            draw = Vec3::new(0, 0, 0);
            offset = Vec3::new(0, 0, 0);
        }

        let direction: Vec3 = self.lower_left_corner.add(self.horizontal.scale(s)).add(
            self.vertical.scale(t),
        ).sub(self.origin).sub(offset);
        let r: Ray = Ray::new(self.origin.add(offset), direction);
        proof {
            if self.lens_radius == 0 {
                assert(lens_offset_spec(*self, vzero()) == vzero()) by {
                    assert(fmul(0, self.lens_radius as int) == 0);
                    assert(fmul(self.u.x as int, 0) == 0);
                    assert(fmul(self.u.y as int, 0) == 0);
                    assert(fmul(self.u.z as int, 0) == 0);
                    assert(fmul(self.v.x as int, 0) == 0);
                    assert(fmul(self.v.y as int, 0) == 0);
                    assert(fmul(self.v.z as int, 0) == 0);
                }
            }
            assert(r == cam_ray_spec(*self, s as int, t as int, lens_offset_spec(*self, draw)));
        }
        r
    }
}

} // verus!
