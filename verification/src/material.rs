//! Surface materials: Lambertian diffuse, fuzzy metal, and refractive
//! dielectric.
//!
//! Scattering turns an incoming ray and a hit into an attenuation color
//! and an outgoing ray. The random draws feed pure decision functions
//! with exact contracts, so every deterministic part of a scatter —
//! the attenuation, the degenerate-direction guard, total internal
//! reflection — is pinned even though the draw itself is not.

use vstd::prelude::*;
use crate::fixed::{fdiv, fmul, fp_add, fp_div, fp_min, fp_mul, fp_neg, fp_sqrt, fp_sub, fsqrt,
    lemma_fdiv_nonneg, sat, ONE};
use crate::hittable::HitRecord;
use crate::ray::Ray;
use crate::rng::{mix_state, unit_draw, SeededRng};
use crate::vec3::{random_in_unit_sphere_spec, random_unit_vector_spec, vadd, vdot,
    vnormalize, vreflect, vrefract, vscale, vzero, Color, Vec3};

verus! {

/// Full transmission: no channel is attenuated.
pub open spec fn white() -> Color {
    Vec3 { x: ONE, y: ONE, z: ONE }
}

/// A diffuse surface reflecting `albedo` of each channel.
#[derive(Clone, Copy, Debug, PartialEq, Eq, Structural)]
pub struct Lambertian {
    pub albedo: Color,
}

/// A specular surface; `fuzz` widens the reflection lobe. A fuzzed
/// reflection that ends up pointing into the surface is handed on as it
/// is — the integrator's depth cutoff absorbs such paths — rather than
/// rejected here.
#[derive(Clone, Copy, Debug, PartialEq, Eq, Structural)]
pub struct Metal {
    pub albedo: Color,
    pub fuzz: i64,
}

/// A transparent refractive surface with the given refractive index.
#[derive(Clone, Copy, Debug, PartialEq, Eq, Structural)]
pub struct Dielectric {
    pub ir: i64,
}

/// The closed set of material variants a primitive can carry.
#[derive(Clone, Copy, Debug, PartialEq, Eq, Structural)]
pub enum Material {
    Lambertian(Lambertian),
    Metal(Metal),
    Dielectric(Dielectric),
}

/// What every scatter call needs of its material: a dielectric's index
/// must be positive so the refraction ratio is defined.
pub open spec fn material_wf(m: Material) -> bool {
    match m {
        Material::Dielectric(d) => d.ir > 0,
        _ => true,
    }
}

/// A color whose channels all lie in the unit brightness interval.
pub open spec fn albedo_in_unit(c: Color) -> bool {
    0 <= c.x <= ONE && 0 <= c.y <= ONE && 0 <= c.z <= ONE
}

/// A material whose attenuation cannot brighten a channel: diffuse and
/// metal albedos lie in the unit cube (a dielectric always attenuates
/// by plain white).
pub open spec fn material_albedo_ok(m: Material) -> bool {
    match m {
        Material::Lambertian(l) => albedo_in_unit(l.albedo),
        Material::Metal(mt) => albedo_in_unit(mt.albedo),
        Material::Dielectric(_) => true,
    }
}

/// Every material of an arena is albedo-bounded.
pub open spec fn materials_albedo_ok(materials: Seq<Material>) -> bool {
    forall|k: int| 0 <= k < materials.len() ==> material_albedo_ok(#[trigger] materials[k])
}

/// Whatever an albedo-bounded material scatters, the attenuation it
/// hands back lies in the unit cube: one bounce can only dim a
/// channel, never brighten it.
pub proof fn lemma_scatter_attenuation_in_unit(m: Material, ray_in: Ray, rec: HitRecord, s: u64)
    requires
        material_albedo_ok(m),
    ensures
        match scatter_spec(m, ray_in, rec, s).0 {
            Some(pair) => albedo_in_unit(pair.0),
            None => true,
        },
{
}

/// The diffuse scatter direction: the normal plus a unit draw, falling
/// back to the normal itself when the sum degenerates to zero.
pub open spec fn lambertian_dir(normal: Vec3, unit_draw: Vec3) -> Vec3 {
    if vadd(normal, unit_draw) == vzero() {
        normal
    } else {
        vadd(normal, unit_draw)
    }
}

/// The cosine the dielectric sees between the reversed unit direction
/// and the normal, capped at one.
pub open spec fn cos_theta_spec(unit_direction: Vec3, normal: Vec3) -> int {
    let c0 = sat(-vdot(unit_direction, normal));
    if c0 <= ONE as int {
        c0
    } else {
        ONE as int
    }
}

/// The matching sine, with the radicand clamped at zero where rounding
/// would drive it negative.
pub open spec fn sin_theta_spec(unit_direction: Vec3, normal: Vec3) -> int {
    let c = cos_theta_spec(unit_direction, normal);
    let k = sat(ONE - fmul(c, c));
    if k < 0 {
        fsqrt(0)
    } else {
        fsqrt(k)
    }
}

/// Schlick's approximation of Fresnel reflectance.
pub open spec fn reflectance_spec(cosine: int, ref_idx: int) -> int {
    let r0 = fdiv(sat(ONE - ref_idx), sat(ONE + ref_idx));
    let r0sq = fmul(r0, r0);
    let p1 = sat(ONE - cosine);
    let p2 = fmul(p1, p1);
    let p4 = fmul(p2, p2);
    let p5 = fmul(p4, p1);
    sat(r0sq + fmul(sat(ONE - r0sq), p5))
}

/// The dielectric's outgoing direction: reflect on total internal
/// reflection or a winning reflectance draw, refract otherwise.
pub open spec fn dielectric_dir_spec(
    unit_direction: Vec3,
    normal: Vec3,
    refraction_ratio: int,
    reflect_draw: int,
) -> Vec3 {
    let cos_theta = cos_theta_spec(unit_direction, normal);
    let sin_theta = sin_theta_spec(unit_direction, normal);
    let cannot_refract = fmul(refraction_ratio, sin_theta) > ONE as int;
    if cannot_refract || reflectance_spec(cos_theta, refraction_ratio) > reflect_draw {
        vreflect(unit_direction, normal)
    } else {
        vrefract(unit_direction, normal, refraction_ratio)
    }
}

/// The exact attenuation, outgoing ray and final generator state of
/// `Material::scatter`: the deterministic scattering law applied to
/// the draws the generator state yields.
pub open spec fn scatter_spec(m: Material, ray_in: Ray, rec: HitRecord, s: u64) -> (
    Option<(Color, Ray)>,
    u64,
) {
    match m {
        Material::Lambertian(l) => {
            let d = random_unit_vector_spec(s);
            (
                Some(
                    (l.albedo, Ray { origin: rec.p, direction: lambertian_dir(rec.normal, d.0) }),
                ),
                d.1,
            )
        },
        Material::Metal(mt) => {
            let d = random_in_unit_sphere_spec(s);
            (
                Some(
                    (
                        mt.albedo,
                        Ray {
                            origin: rec.p,
                            direction: vadd(
                                vreflect(vnormalize(ray_in.direction), rec.normal),
                                vscale(d.0, mt.fuzz as int),
                            ),
                        },
                    ),
                ),
                d.1,
            )
        },
        Material::Dielectric(di) => {
            let ratio = if rec.front_face {
                fdiv(ONE as int, di.ir as int)
            } else {
                di.ir as int
            };
            (
                Some(
                    (
                        white(),
                        Ray {
                            origin: rec.p,
                            direction: dielectric_dir_spec(
                                vnormalize(ray_in.direction),
                                rec.normal,
                                ratio,
                                unit_draw(s) as int,
                            ),
                        },
                    ),
                ),
                mix_state(s),
            )
        },
    }
}

/// The diffuse scatter direction for a given unit draw; the zero-sum
/// guard falls back to the normal.
pub fn lambertian_scatter_direction(normal: Vec3, unit_draw: Vec3) -> (r: Vec3)
    ensures
        r == lambertian_dir(normal, unit_draw),
{
    let mut scatter_direction: Vec3 = normal.add(unit_draw);
    if scatter_direction.near_zero() {
        scatter_direction = normal;
    }
    scatter_direction
}

/// The dielectric's outgoing direction for a given reflectance draw.
/// Under total internal reflection the draw is immaterial: the ray
/// always reflects.
pub fn dielectric_direction(
    unit_direction: Vec3,
    normal: Vec3,
    refraction_ratio: i64,
    reflect_draw: i64,
) -> (r: Vec3)
    requires
        refraction_ratio >= 0,
    ensures
        r == dielectric_dir_spec(
            unit_direction,
            normal,
            refraction_ratio as int,
            reflect_draw as int,
        ),
        fmul(refraction_ratio as int, sin_theta_spec(unit_direction, normal)) > ONE as int ==> r
            == vreflect(unit_direction, normal),
{
    let cos_theta: i64 = fp_min(fp_neg(unit_direction.dot(normal)), ONE);
    let k: i64 = fp_sub(ONE, fp_mul(cos_theta, cos_theta));
    let k_clamped: i64 = if k < 0 {
        0
    } else {
        k
    };
    let sin_theta: i64 = fp_sqrt(k_clamped);

    let cannot_refract: bool = fp_mul(refraction_ratio, sin_theta) > ONE;

    if cannot_refract || Dielectric::reflectance(cos_theta, refraction_ratio) > reflect_draw {
        unit_direction.reflect(normal)
    } else {
        unit_direction.refract(normal, refraction_ratio)
    }
}

impl Lambertian {
    /// A diffuse material with the given albedo.
    pub fn with_values(albedo: &Color) -> (r: Lambertian)
        ensures
            r.albedo == *albedo,
    {
        Lambertian { albedo: *albedo }
    }
}

impl Metal {
    /// A metal with the given albedo; fuzz is clamped to at most one
    /// (negative fuzz only sharpens the reflection and stays as given).
    pub fn with_values(albedo: &Color, f: i64) -> (r: Metal)
        ensures
            r.albedo == *albedo,
            r.fuzz == if f <= ONE {
                f as int
            } else {
                ONE as int
            },
    {
        Metal { albedo: *albedo, fuzz: fp_min(f, ONE) }
    }
}

impl Dielectric {
    /// A refractive material; the index must be positive for the
    /// entering and exiting refraction ratios to be defined.
    pub fn with_values(index_of_refraction: i64) -> (r: Dielectric)
        requires
            index_of_refraction > 0,
        ensures
            r.ir == index_of_refraction,
    {
        Dielectric { ir: index_of_refraction }
    }

    /// Schlick's approximation of Fresnel reflectance.
    pub fn reflectance(cosine: i64, ref_idx: i64) -> (r: i64)
        requires
            ref_idx != -ONE,
        ensures
            r == reflectance_spec(cosine as int, ref_idx as int),
    {
        let mut r0: i64 = fp_div(fp_sub(ONE, ref_idx), fp_add(ONE, ref_idx));
        r0 = fp_mul(r0, r0);
        let p1: i64 = fp_sub(ONE, cosine);
        let p2: i64 = fp_mul(p1, p1);
        let p4: i64 = fp_mul(p2, p2);
        let p5: i64 = fp_mul(p4, p1);
        fp_add(r0, fp_mul(fp_sub(ONE, r0), p5))
    }
}

impl Material {
    /// Turn an incoming ray and a hit into an attenuation color and an
    /// outgoing ray. Every variant of this library scatters; the
    /// `Option` is the protocol's room for absorbing materials.
    pub fn scatter(&self, ray_in: &Ray, rec: &HitRecord, rng: &mut SeededRng) -> (r: Option<
        (Color, Ray),
    >)
        requires
            vdot(ray_in.direction, ray_in.direction) != 0,
            material_wf(*self),
        ensures
            (r, final(rng).state) == scatter_spec(*self, *ray_in, *rec, old(rng).state),
            r is Some,
            r matches Some((att, sc)) ==> sc.origin == rec.p,
            r matches Some((att, sc)) ==> (*self matches Material::Lambertian(l) ==> (att
                == l.albedo && exists|v: Vec3|
                (0 < vdot(v, v) < ONE as int) && sc.direction == lambertian_dir(
                    rec.normal,
                    vnormalize(v),
                ))),
            r matches Some((att, sc)) ==> (*self matches Material::Metal(m) ==> (att == m.albedo
                && exists|b: Vec3|
                (0 < vdot(b, b) < ONE as int) && sc.direction == vadd(
                    vreflect(vnormalize(ray_in.direction), rec.normal),
                    vscale(b, m.fuzz as int),
                ))),
            r matches Some((att, sc)) ==> (*self matches Material::Dielectric(d) ==> {
                let ratio = if rec.front_face {
                    fdiv(ONE as int, d.ir as int)
                } else {
                    d.ir as int
                };
                att == white() && (sc.direction == vreflect(
                    vnormalize(ray_in.direction),
                    rec.normal,
                ) || sc.direction == vrefract(vnormalize(ray_in.direction), rec.normal, ratio)) && (
                fmul(ratio, sin_theta_spec(vnormalize(ray_in.direction), rec.normal)) > ONE as int
                    ==> sc.direction == vreflect(vnormalize(ray_in.direction), rec.normal))
            }),
    {
        match self {
            Material::Lambertian(l) => {
                let unit_draw: Vec3 = Vec3::random_unit_vector(rng);
                let scatter_direction: Vec3 = lambertian_scatter_direction(rec.normal, unit_draw);
                let scattered: Ray = Ray::new(rec.p, scatter_direction);
                let attenuation: Color = l.albedo;
                proof {
                    let v0 = choose|v: Vec3|
                        (0 < vdot(v, v) < ONE as int) && unit_draw == vnormalize(v);
                    assert((0 < vdot(v0, v0) < ONE as int) && scattered.direction
                        == lambertian_dir(rec.normal, vnormalize(v0)));
                }
                Some((attenuation, scattered))
            },
            Material::Metal(m) => {
                let reflected: Vec3 = ray_in.direction.normalize().reflect(rec.normal);
                let ball: Vec3 = Vec3::random_in_unit_sphere(rng);
                let scattered: Ray = Ray::new(rec.p, reflected.add(ball.scale(m.fuzz)));
                let attenuation: Color = m.albedo;
                proof {
                    assert((0 < vdot(ball, ball) < ONE as int) && scattered.direction == vadd(
                        vreflect(vnormalize(ray_in.direction), rec.normal),
                        vscale(ball, m.fuzz as int),
                    ));
                }
                Some((attenuation, scattered))
            },
            Material::Dielectric(d) => {
                let attenuation: Color = Vec3::new(ONE, ONE, ONE);
                let refraction_ratio: i64 = if rec.front_face {
                    proof {
                        lemma_fdiv_nonneg(ONE as int, d.ir as int);
                    }
                    fp_div(ONE, d.ir)
                } else {
                    d.ir
                };
                let unit_direction: Vec3 = ray_in.direction.normalize();
                let reflect_draw: i64 = rng.next_unit();
                let direction: Vec3 = dielectric_direction(
                    unit_direction,
                    rec.normal,
                    refraction_ratio,
                    reflect_draw,
                );
                let scattered: Ray = Ray::new(rec.p, direction);
                Some((attenuation, scattered))
            },
        }
    }
}

} // verus!
