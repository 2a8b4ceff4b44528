//! The radiance integrator and the per-pixel render driver.
//!
//! `ray_color` recursively follows a ray through the scene: a depth
//! budget of zero is black, a miss is the sky gradient, and a hit
//! scatters and attenuates the radiance of the scattered ray. The
//! driver draws jittered samples per pixel from a per-pixel-seeded
//! stream, averages them, and resolves each pixel to bytes in raster
//! order.
//!
//! Every function here is pinned to a spec mirror that threads the
//! generator state: a pixel is exactly `pixel_spec` of its coordinates
//! and the base seed, and an image is exactly `render_spec`. Pixels are
//! therefore independent of the order they are computed in, which is
//! what lets a parallel driver assemble the same image.

use vstd::prelude::*;
use crate::camera::{get_ray_spec, Camera};
use crate::color::{resolve_channel, resolve_color, Rgb};
use crate::fixed::{fdiv, fmul, fp_add, fp_div, fp_mul, fp_sub, iabs, int_to_fp, sat, ONE,
    SAT_MAX};
use crate::hittable_list::{lemma_list_hit_member, list_hit_spec, HittableList};
use crate::material::{material_wf, scatter_spec, white, Material};
use crate::ray::Ray;
use crate::rng::{mix_output, mix_state, random_seed, unit_draw, SeededRng};
use crate::sphere::{sphere_hit_spec, Sphere};
use crate::vec3::{lemma_vmul_zero_left, sat64, vadd, vdot, vmul, vnormalize, vscale, vzero,
    Color, Vec3};

verus! {

/// Rays closer to their origin than this are ignored, which keeps a
/// scattered ray from re-hitting its own surface ("shadow acne").
pub const T_EPS: i64 = 1_000;

/// Stand-in for an unbounded upper end of the parameter window.
pub const T_LIMIT: i64 = SAT_MAX;

/// The sky: a vertical gradient between white and sky blue, keyed on
/// the normalized direction's vertical component.
pub open spec fn background_spec(ray: Ray) -> Color
    recommends
        vdot(ray.direction, ray.direction) != 0,
{
    let ud = vnormalize(ray.direction);
    let t = fmul(500_000, sat(ud.y + ONE));
    vadd(vscale(white(), sat(ONE - t)), vscale(sky_blue(), t))
}

/// The far color of the sky gradient.
pub open spec fn sky_blue() -> Color {
    Vec3 { x: 500_000, y: 700_000, z: ONE }
}

/// Every sphere's material index points into the arena, at a
/// well-formed material.
pub open spec fn scene_wf(objects: Seq<Sphere>, materials: Seq<Material>) -> bool {
    forall|i: int|
        0 <= i < objects.len() ==> (#[trigger] objects[i]).material < materials.len()
            && material_wf(materials[objects[i].material as int])
}

/// Scaling by exactly one is the identity on the scalar range.
proof fn lemma_fmul_one(z: int)
    requires
        -(SAT_MAX as int) <= z <= SAT_MAX as int,
    ensures
        fmul(ONE as int, z) == z,
{
    let iz = iabs(z);
    assert(iabs((ONE as int) * z) == (ONE as int) * iz) by (nonlinear_arith)
        requires
            iz == if z < 0 {
                -z
            } else {
                z
            },
            iabs((ONE as int) * z) == if (ONE as int) * z < 0 {
                -((ONE as int) * z)
            } else {
                (ONE as int) * z
            },
    ;
    vstd::arithmetic::div_mod::lemma_div_multiples_vanish(iz, ONE as int);
}

/// Scaling by one half is truncated halving: twice the result brackets
/// the scalar within one step, without changing its sign.
proof fn lemma_fmul_half_bracket(t: int)
    requires
        -3_000_000 <= t <= 3_000_000,
    ensures
        t - 1 <= 2 * fmul(500_000, t) <= t + 1,
        t >= 0 ==> fmul(500_000, t) >= 0,
        t <= 0 ==> fmul(500_000, t) <= 0,
{
    let it = iabs(t);
    assert(iabs(500_000 * t) == 500_000 * it) by (nonlinear_arith)
        requires
            it == if t < 0 {
                -t
            } else {
                t
            },
            iabs(500_000 * t) == if 500_000 * t < 0 {
                -(500_000 * t)
            } else {
                500_000 * t
            },
    ;
    let q = (500_000 * it) / (ONE as int);
    vstd::arithmetic::div_mod::lemma_fundamental_div_mod(500_000 * it, ONE as int);
    vstd::arithmetic::div_mod::lemma_mod_bound(500_000 * it, ONE as int);
    vstd::arithmetic::div_mod::lemma_div_pos_is_pos(500_000 * it, ONE as int);
    assert(2 * q <= it <= 2 * q + 1) by (nonlinear_arith)
        requires
            500_000 * it == 1_000_000 * q + (500_000 * it) % 1_000_000,
            0 <= (500_000 * it) % 1_000_000 < 1_000_000,
    ;
}

/// Scaling by seven tenths: ten times the result brackets seven times
/// the scalar within ten steps, without changing its sign.
proof fn lemma_fmul_frac_bracket(t: int)
    requires
        -3_000_000 <= t <= 3_000_000,
    ensures
        7 * t - 10 <= 10 * fmul(700_000, t) <= 7 * t + 10,
        t >= 0 ==> fmul(700_000, t) >= 0,
        t <= 0 ==> fmul(700_000, t) <= 0,
{
    let it = iabs(t);
    assert(iabs(700_000 * t) == 700_000 * it) by (nonlinear_arith)
        requires
            it == if t < 0 {
                -t
            } else {
                t
            },
            iabs(700_000 * t) == if 700_000 * t < 0 {
                -(700_000 * t)
            } else {
                700_000 * t
            },
    ;
    let q = (700_000 * it) / (ONE as int);
    vstd::arithmetic::div_mod::lemma_fundamental_div_mod(700_000 * it, ONE as int);
    vstd::arithmetic::div_mod::lemma_mod_bound(700_000 * it, ONE as int);
    vstd::arithmetic::div_mod::lemma_div_pos_is_pos(700_000 * it, ONE as int);
    assert(10 * q <= 7 * it <= 10 * q + 10) by (nonlinear_arith)
        requires
            700_000 * it == 1_000_000 * q + (700_000 * it) % 1_000_000,
            0 <= (700_000 * it) % 1_000_000 < 1_000_000,
    ;
}

/// The sky gradient stays within the unit brightness interval, up to
/// the rounding slack of direction normalization, for every ray whose
/// vertical direction component is of reasonable size (within three
/// million units; past that the fixed-point grid saturates and the
/// lerp parameter loses its meaning).
pub proof fn lemma_background_in_range(ray: Ray)
    requires
        vdot(ray.direction, ray.direction) != 0,
        iabs(ray.direction.y as int) <= 3_000_000_000_000,
    ensures
        0 <= background_spec(ray).x <= ONE + 125_501,
        0 <= background_spec(ray).y <= ONE + 125_501,
        background_spec(ray).z == ONE,
{
    crate::vec3::lemma_unit_component_bound(ray.direction);
    let uy = vnormalize(ray.direction).y as int;
    let s1 = sat(uy + ONE);
    assert(-502_000 <= s1 <= 2_502_000);

    // The lerp parameter is half of `s1`, truncated toward zero.
    let t = fmul(500_000, s1);
    lemma_fmul_half_bracket(s1);
    assert(-251_000 <= t <= 1_251_000);

    // Each scaled term brackets its exact rational value.
    let w1 = sat((ONE as int) - t);
    assert(w1 == (ONE as int) - t);
    lemma_fmul_one(w1);
    lemma_fmul_one(t);
    lemma_fmul_half_bracket(t);
    lemma_fmul_frac_bracket(t);
}

/// The exact color and final generator state of `ray_color`: the
/// radiance-transport law itself. A spent depth budget or a degenerate
/// direction is black; a miss is the sky; a hit scatters at the struck
/// material and attenuates the radiance of the scattered ray, drawing
/// from the generator state the scatter leaves behind.
pub open spec fn ray_color_spec(
    ray: Ray,
    objects: Seq<Sphere>,
    materials: Seq<Material>,
    depth: int,
    st: u64,
) -> (Color, u64)
    decreases depth,
{
    if depth <= 0 {
        (vzero(), st)
    } else if vdot(ray.direction, ray.direction) == 0 {
        (vzero(), st)
    } else {
        match list_hit_spec(objects, ray, T_EPS, T_LIMIT) {
            Some(h) => {
                let sc = scatter_spec(materials[h.material as int], ray, h, st);
                match sc.0 {
                    Some(pair) => {
                        let rest = ray_color_spec(pair.1, objects, materials, depth - 1, sc.1);
                        (vmul(pair.0, rest.0), rest.1)
                    },
                    None => (vzero(), sc.1),
                }
            },
            None => (background_spec(ray), st),
        }
    }
}

/// The bounce-wise range law of the integrator, for scenes whose
/// materials are albedo-bounded: a miss with a reasonably sized
/// direction lands in the unit brightness interval up to normalization
/// slack, and a hit attenuates the scattered radiance channel by
/// channel without ever brightening or dropping below zero. The two
/// together are the radiance recursion's shape of "background in
/// range, each bounce multiplies by an attenuation in the unit cube";
/// only rays whose direction leaves the tame part of the grid (beyond
/// three million units) escape the miss bound.
#[verifier::rlimit(80)]
#[verifier::spinoff_prover]
pub proof fn lemma_ray_color_spec_step_range(
    ray: Ray,
    objects: Seq<Sphere>,
    materials: Seq<Material>,
    depth: int,
    st: u64,
)
    requires
        scene_wf(objects, materials),
        crate::material::materials_albedo_ok(materials),
    ensures
        depth <= 0 || vdot(ray.direction, ray.direction) == 0 ==> ray_color_spec(
            ray,
            objects,
            materials,
            depth,
            st,
        ).0 == vzero(),
        (depth > 0 && vdot(ray.direction, ray.direction) != 0 && iabs(ray.direction.y as int)
            <= 3_000_000_000_000 && list_hit_spec(objects, ray, T_EPS, T_LIMIT) is None) ==> {
            let c = ray_color_spec(ray, objects, materials, depth, st).0;
            (0 <= c.x <= ONE + 125_501) && (0 <= c.y <= ONE + 125_501) && c.z == ONE
        },
        (depth > 0 && vdot(ray.direction, ray.direction) != 0) ==> (match list_hit_spec(
            objects,
            ray,
            T_EPS,
            T_LIMIT,
        ) {
            Some(h) => {
                let sc = scatter_spec(materials[h.material as int], ray, h, st);
                match sc.0 {
                    Some(pair) => {
                        let c = ray_color_spec(ray, objects, materials, depth, st).0;
                        let rest = ray_color_spec(pair.1, objects, materials, depth - 1, sc.1).0;
                        &&& (0 <= rest.x ==> 0 <= c.x <= rest.x)
                        &&& (0 <= rest.y ==> 0 <= c.y <= rest.y)
                        &&& (0 <= rest.z ==> 0 <= c.z <= rest.z)
                    },
                    None => ray_color_spec(ray, objects, materials, depth, st).0 == vzero(),
                }
            },
            None => true,
        }),
{
    if depth > 0 && vdot(ray.direction, ray.direction) != 0 {
        match list_hit_spec(objects, ray, T_EPS, T_LIMIT) {
            Some(h) => {
                lemma_list_hit_member(objects, ray, T_EPS, T_LIMIT);
                let k0 = choose|k: int|
                    0 <= k < objects.len() && sphere_hit_spec(objects[k], ray, T_EPS, T_LIMIT)
                        == Some(h) && h.material == objects[k].material;
                assert(crate::material::material_albedo_ok(materials[h.material as int]));
                crate::material::lemma_scatter_attenuation_in_unit(
                    materials[h.material as int],
                    ray,
                    h,
                    st,
                );
                let sc = scatter_spec(materials[h.material as int], ray, h, st);
                match sc.0 {
                    Some(pair) => {
                        let rest = ray_color_spec(pair.1, objects, materials, depth - 1, sc.1).0;
                        assert(ray_color_spec(ray, objects, materials, depth, st).0 == vmul(
                            pair.0,
                            rest,
                        ));
                        if 0 <= rest.x && 0 <= rest.y && 0 <= rest.z {
                            crate::vec3::lemma_vmul_unit_contract(pair.0, rest);
                        } else {
                            if 0 <= rest.x {
                                crate::fixed::lemma_fmul_unit_contract(
                                    pair.0.x as int,
                                    rest.x as int,
                                );
                            }
                            if 0 <= rest.y {
                                crate::fixed::lemma_fmul_unit_contract(
                                    pair.0.y as int,
                                    rest.y as int,
                                );
                            }
                            if 0 <= rest.z {
                                crate::fixed::lemma_fmul_unit_contract(
                                    pair.0.z as int,
                                    rest.z as int,
                                );
                            }
                        }
                    },
                    None => {
                        assert(ray_color_spec(ray, objects, materials, depth, st).0 == vzero());
                    },
                }
            },
            None => {
                if iabs(ray.direction.y as int) <= 3_000_000_000_000 {
                    lemma_background_in_range(ray);
                }
            },
        }
    }
}

/// The radiance arriving along `ray`, followed through at most `depth`
/// bounces.
pub fn ray_color(
    ray: &Ray,
    world: &HittableList,
    materials: &Vec<Material>,
    depth: i32,
    rng: &mut SeededRng,
) -> (c: Color)
    requires
        scene_wf(world.objects@, materials@),
    ensures
        (c, final(rng).state) == ray_color_spec(
            *ray,
            world.objects@,
            materials@,
            depth as int,
            old(rng).state,
        ),
        depth <= 0 ==> c == vzero(),
        depth > 0 && vdot(ray.direction, ray.direction) == 0 ==> c == vzero(),
        depth > 0 && vdot(ray.direction, ray.direction) != 0 && list_hit_spec(
            world.objects@,
            *ray,
            T_EPS,
            T_LIMIT,
        ) is None ==> c == background_spec(*ray),
        (depth > 0 && vdot(ray.direction, ray.direction) != 0 && (match list_hit_spec(
            world.objects@,
            *ray,
            T_EPS,
            T_LIMIT,
        ) {
            Some(h) => materials@[h.material as int] == Material::Lambertian(
                crate::material::Lambertian { albedo: vzero() },
            ),
            None => false,
        })) ==> c == vzero(),
    decreases depth,
{
    // Energy budget exhausted: no light is gathered.
    if depth <= 0 {
        return Vec3::new(0, 0, 0);
    }
    // A degenerate direction cannot be normalized or scattered.
    if ray.direction.length_squared() == 0 {
        return Vec3::new(0, 0, 0);
    }

    proof {
        lemma_list_hit_member(world.objects@, *ray, T_EPS, T_LIMIT);
    }
    match world.hit(ray, T_EPS, T_LIMIT) {
        Some(hit_record) => {
            let m: &Material = &materials[hit_record.material];
            match m.scatter(ray, &hit_record, rng) {
                Some((attenuation, scattered)) => {
                    let rest: Color = ray_color(&scattered, world, materials, depth - 1, rng);
                    proof {
                        lemma_vmul_zero_left(rest);
                    }
                    attenuation.mul(rest)
                },
                None => Vec3::new(0, 0, 0),
            }
        },
        None => {
            let unit_direction: Vec3 = ray.direction.normalize();
            let t: i64 = fp_mul(500_000, fp_add(unit_direction.y, ONE));
            Vec3::new(ONE, ONE, ONE).scale(fp_sub(ONE, t)).add(
                Vec3::new(500_000, 700_000, ONE).scale(t),
            )
        },
    }
}

/// The configuration bounds the renderer accepts: at least two pixels
/// a side so pixel coordinates normalize, and sizes small enough that
/// every derived scalar stays on the fixed-point grid.
pub open spec fn config_ok(width: int, height: int, samples_per_pixel: int, max_depth: int) -> bool {
    2 <= width <= 10_000 && 2 <= height <= 10_000 && 1 <= samples_per_pixel <= 1_000_000 && 0
        <= max_depth <= 10_000
}

/// Why a configuration was rejected.
#[derive(Clone, Copy, Debug, PartialEq, Eq, Structural)]
pub enum ConfigError {
    InvalidDimensions,
    InvalidSamples,
    InvalidDepth,
}

/// Validated render parameters.
#[derive(Clone, Copy, Debug, PartialEq, Eq, Structural)]
pub struct RenderConfig {
    pub image_width: i32,
    pub image_height: i32,
    pub samples_per_pixel: i32,
    pub max_depth: i32,
}

impl RenderConfig {
    /// Accept a configuration exactly when it is within bounds, naming
    /// the first reason it is not.
    pub fn new(image_width: i32, image_height: i32, samples_per_pixel: i32, max_depth: i32) -> (r:
        Result<RenderConfig, ConfigError>)
        ensures
            !(2 <= image_width <= 10_000 && 2 <= image_height <= 10_000) ==> r == Err::<
                RenderConfig,
                ConfigError,
            >(ConfigError::InvalidDimensions),
            (2 <= image_width <= 10_000 && 2 <= image_height <= 10_000) && !(1 <= samples_per_pixel
                <= 1_000_000) ==> r == Err::<RenderConfig, ConfigError>(ConfigError::InvalidSamples),
            (2 <= image_width <= 10_000 && 2 <= image_height <= 10_000) && (1 <= samples_per_pixel
                <= 1_000_000) && !(0 <= max_depth <= 10_000) ==> r == Err::<
                RenderConfig,
                ConfigError,
            >(ConfigError::InvalidDepth),
            config_ok(
                image_width as int,
                image_height as int,
                samples_per_pixel as int,
                max_depth as int,
            ) ==> r == Ok::<RenderConfig, ConfigError>(
                RenderConfig { image_width, image_height, samples_per_pixel, max_depth },
            ),
            r is Ok <==> config_ok(
                image_width as int,
                image_height as int,
                samples_per_pixel as int,
                max_depth as int,
            ),
    {
        if !(2 <= image_width && image_width <= 10_000 && 2 <= image_height && image_height
            <= 10_000) {
            Err(ConfigError::InvalidDimensions)
        } else if !(1 <= samples_per_pixel && samples_per_pixel <= 1_000_000) {
            Err(ConfigError::InvalidSamples)
        } else if !(0 <= max_depth && max_depth <= 10_000) {
            Err(ConfigError::InvalidDepth)
        } else {
            Ok(RenderConfig { image_width, image_height, samples_per_pixel, max_depth })
        }
    }
}

/// The seed of the random stream for pixel `(i, j)`: the base seed
/// mixed once, tagged with the packed pixel coordinates.
pub open spec fn pixel_seed_spec(base: u64, i: u64, j: u64) -> u64 {
    mix_output(base) ^ ((i << 32u64) | j)
}

/// Derive the seed of a pixel's random stream.
pub fn pixel_seed(base: u64, i: u32, j: u32) -> (r: u64)
    ensures
        r == pixel_seed_spec(base, i as u64, j as u64),
{
    let mut s: SeededRng = SeededRng::seeded(base);
    let m: u64 = s.next_u64();
    m ^ (((i as u64) << 32u64) | (j as u64))
}

/// Distinct pixels draw from distinct streams: the per-pixel seeds are
/// injective in the pixel coordinates, which is what makes the pixels
/// independent and a parallel render equal to a sequential one.
pub proof fn lemma_pixel_seed_injective(base: u64, i1: u64, j1: u64, i2: u64, j2: u64)
    requires
        i1 < 0x1_0000_0000,
        j1 < 0x1_0000_0000,
        i2 < 0x1_0000_0000,
        j2 < 0x1_0000_0000,
        pixel_seed_spec(base, i1, j1) == pixel_seed_spec(base, i2, j2),
    ensures
        i1 == i2,
        j1 == j2,
{
    let m = mix_output(base);
    assert(m ^ ((i1 << 32u64) | j1) == m ^ ((i2 << 32u64) | j2) && i1 < 0x1_0000_0000 && j1
        < 0x1_0000_0000 && i2 < 0x1_0000_0000 && j2 < 0x1_0000_0000 ==> i1 == i2 && j1 == j2)
        by (bit_vector);
}

/// One pass of the per-pixel sample loop, folded over the remaining
/// samples: two jitter draws, the camera ray, the integrator, and the
/// running sum, threading the generator state throughout.
pub open spec fn sample_scan(
    objects: Seq<Sphere>,
    materials: Seq<Material>,
    cam: Camera,
    cfg: RenderConfig,
    i: int,
    jb: int,
    st: u64,
    samples_left: int,
    acc: Color,
) -> (Color, u64)
    decreases samples_left,
{
    if samples_left <= 0 {
        (acc, st)
    } else {
        let ju = unit_draw(st);
        let s1 = mix_state(st);
        let jv = unit_draw(s1);
        let s2 = mix_state(s1);
        let u = sat64(fdiv(sat(i * (ONE as int) + ju), (cfg.image_width - 1) * (ONE as int)));
        let v = sat64(fdiv(sat(jb * (ONE as int) + jv), (cfg.image_height - 1) * (ONE as int)));
        let rr = get_ray_spec(cam, u as int, v as int, s2);
        let cc = ray_color_spec(rr.0, objects, materials, cfg.max_depth as int, rr.1);
        sample_scan(objects, materials, cam, cfg, i, jb, cc.1, samples_left - 1, vadd(acc, cc.0))
    }
}

/// The exact pixel `render_pixel` produces: the resolved average of
/// the sample scan seeded for pixel `(i, j)`; `j` counts rows from the
/// top of the image.
pub open spec fn pixel_spec(
    objects: Seq<Sphere>,
    materials: Seq<Material>,
    cam: Camera,
    cfg: RenderConfig,
    base_seed: u64,
    i: int,
    j: int,
) -> Rgb {
    let seed = pixel_seed_spec(base_seed, i as u64, j as u64);
    let jb = cfg.image_height - 1 - j;
    let res = sample_scan(
        objects,
        materials,
        cam,
        cfg,
        i,
        jb,
        seed,
        cfg.samples_per_pixel as int,
        vzero(),
    );
    Rgb {
        r: resolve_channel(res.0.x as int, cfg.samples_per_pixel as int) as u8,
        g: resolve_channel(res.0.y as int, cfg.samples_per_pixel as int) as u8,
        b: resolve_channel(res.0.z as int, cfg.samples_per_pixel as int) as u8,
    }
}

/// The whole image in raster order: entry `k` of the buffer is the
/// pixel of column `k % width` in row `k / width` from the top.
pub open spec fn render_spec(
    objects: Seq<Sphere>,
    materials: Seq<Material>,
    cam: Camera,
    cfg: RenderConfig,
    base_seed: u64,
) -> Seq<Rgb> {
    Seq::new(
        (cfg.image_width * cfg.image_height) as nat,
        |k: int|
            pixel_spec(
                objects,
                materials,
                cam,
                cfg,
                base_seed,
                k % (cfg.image_width as int),
                k / (cfg.image_width as int),
            ),
    )
}

/// Render one pixel: average `samples_per_pixel` jittered samples of
/// `ray_color` drawn from the pixel's own seeded stream. `j` counts
/// rows from the top of the image.
pub fn render_pixel(
    world: &HittableList,
    materials: &Vec<Material>,
    cam: &Camera,
    cfg: &RenderConfig,
    base_seed: u64,
    i: i32,
    j: i32,
) -> (r: Rgb)
    requires
        scene_wf(world.objects@, materials@),
        config_ok(
            cfg.image_width as int,
            cfg.image_height as int,
            cfg.samples_per_pixel as int,
            cfg.max_depth as int,
        ),
        0 <= i < cfg.image_width,
        0 <= j < cfg.image_height,
    ensures
        r == pixel_spec(world.objects@, materials@, *cam, *cfg, base_seed, i as int, j as int),
{
    let seed_val: u64 = pixel_seed(base_seed, i as u32, j as u32);
    proof {
        assert((i as u32) as u64 == (i as int) as u64);
        assert((j as u32) as u64 == (j as int) as u64);
    }
    let mut rng: SeededRng = SeededRng::seeded(seed_val);
    let ghost seed0: u64 = rng.state;
    let mut pixel_color: Color = Vec3::new(0, 0, 0);
    let jb: i32 = cfg.image_height - 1 - j;

    let mut s_idx: i32 = 0;
    while s_idx < cfg.samples_per_pixel
        invariant
            scene_wf(world.objects@, materials@),
            config_ok(
                cfg.image_width as int,
                cfg.image_height as int,
                cfg.samples_per_pixel as int,
                cfg.max_depth as int,
            ),
            0 <= i < cfg.image_width,
            0 <= jb < cfg.image_height,
            0 <= s_idx <= cfg.samples_per_pixel,
            sample_scan(
                world.objects@,
                materials@,
                *cam,
                *cfg,
                i as int,
                jb as int,
                seed0,
                cfg.samples_per_pixel as int,
                vzero(),
            ) == sample_scan(
                world.objects@,
                materials@,
                *cam,
                *cfg,
                i as int,
                jb as int,
                rng.state,
                cfg.samples_per_pixel - s_idx,
                pixel_color,
            ),
        decreases cfg.samples_per_pixel - s_idx,
    {
        let ghost st_pre: u64 = rng.state;
        let ghost acc_pre: Color = pixel_color;
        let ghost left_pre: int = cfg.samples_per_pixel - s_idx;
        let ju: i64 = rng.next_unit();
        let jv: i64 = rng.next_unit();
        let u: i64 = fp_div(
            fp_add(int_to_fp(i as i64), ju),
            int_to_fp((cfg.image_width - 1) as i64),
        );
        let v: i64 = fp_div(
            fp_add(int_to_fp(jb as i64), jv),
            int_to_fp((cfg.image_height - 1) as i64),
        );
        let ray: Ray = cam.get_ray(u, v, &mut rng);
        let sample: Color = ray_color(&ray, world, materials, cfg.max_depth, &mut rng);
        pixel_color = pixel_color.add(sample);
        proof {
            assert(sample_scan(
                world.objects@,
                materials@,
                *cam,
                *cfg,
                i as int,
                jb as int,
                st_pre,
                left_pre,
                acc_pre,
            ) == sample_scan(
                world.objects@,
                materials@,
                *cam,
                *cfg,
                i as int,
                jb as int,
                rng.state,
                left_pre - 1,
                pixel_color,
            ));
        }
        s_idx = s_idx + 1;
    }

    proof {
        crate::color::lemma_resolve_channel_in_range(
            pixel_color.x as int,
            cfg.samples_per_pixel as int,
        );
        crate::color::lemma_resolve_channel_in_range(
            pixel_color.y as int,
            cfg.samples_per_pixel as int,
        );
        crate::color::lemma_resolve_channel_in_range(
            pixel_color.z as int,
            cfg.samples_per_pixel as int,
        );
    }
    resolve_color(pixel_color, cfg.samples_per_pixel)
}

/// Render the whole image sequentially into a row-major buffer, top
/// row first: the pixel for column `i` of row `j` (from the top) is at
/// index `j * width + i`.
pub fn render(
    world: &HittableList,
    materials: &Vec<Material>,
    cam: &Camera,
    cfg: &RenderConfig,
    base_seed: u64,
) -> (r: Vec<Rgb>)
    requires
        scene_wf(world.objects@, materials@),
        config_ok(
            cfg.image_width as int,
            cfg.image_height as int,
            cfg.samples_per_pixel as int,
            cfg.max_depth as int,
        ),
    ensures
        r@.len() == cfg.image_width * cfg.image_height,
        r@ == render_spec(world.objects@, materials@, *cam, *cfg, base_seed),
{
    let mut pixels: Vec<Rgb> = Vec::new();
    let mut j: i32 = 0;
    while j < cfg.image_height
        invariant
            scene_wf(world.objects@, materials@),
            config_ok(
                cfg.image_width as int,
                cfg.image_height as int,
                cfg.samples_per_pixel as int,
                cfg.max_depth as int,
            ),
            0 <= j <= cfg.image_height,
            pixels@.len() == j * cfg.image_width,
            forall|k: int|
                0 <= k < pixels@.len() ==> (#[trigger] pixels@[k]) == pixel_spec(
                    world.objects@,
                    materials@,
                    *cam,
                    *cfg,
                    base_seed,
                    k % (cfg.image_width as int),
                    k / (cfg.image_width as int),
                ),
        decreases cfg.image_height - j,
    {
        let mut i: i32 = 0;
        while i < cfg.image_width
            invariant
                scene_wf(world.objects@, materials@),
                config_ok(
                    cfg.image_width as int,
                    cfg.image_height as int,
                    cfg.samples_per_pixel as int,
                    cfg.max_depth as int,
                ),
                0 <= j < cfg.image_height,
                0 <= i <= cfg.image_width,
                pixels@.len() == j * cfg.image_width + i,
                forall|k: int|
                    0 <= k < pixels@.len() ==> (#[trigger] pixels@[k]) == pixel_spec(
                        world.objects@,
                        materials@,
                        *cam,
                        *cfg,
                        base_seed,
                        k % (cfg.image_width as int),
                        k / (cfg.image_width as int),
                    ),
            decreases cfg.image_width - i,
        {
            let px: Rgb = render_pixel(world, materials, cam, cfg, base_seed, i, j);
            pixels.push(px);
            proof {
                vstd::arithmetic::div_mod::lemma_fundamental_div_mod_converse(
                    (j as int) * (cfg.image_width as int) + (i as int),
                    cfg.image_width as int,
                    j as int,
                    i as int,
                );
            }
            i = i + 1;
        }
        proof {
            assert((j as int + 1) * (cfg.image_width as int) == (j as int) * (
            cfg.image_width as int) + (cfg.image_width as int)) by (nonlinear_arith);
        }
        j = j + 1;
    }
    proof {
        assert((cfg.image_height as int) * (cfg.image_width as int) == (cfg.image_width as int) * (
        cfg.image_height as int)) by (nonlinear_arith);
        assert(pixels@ =~= render_spec(world.objects@, materials@, *cam, *cfg, base_seed));
    }
    pixels
}

/// Render with a fresh entropy seed from the system's generator.
pub fn render_with_entropy(
    world: &HittableList,
    materials: &Vec<Material>,
    cam: &Camera,
    cfg: &RenderConfig,
) -> (r: Vec<Rgb>)
    requires
        scene_wf(world.objects@, materials@),
        config_ok(
            cfg.image_width as int,
            cfg.image_height as int,
            cfg.samples_per_pixel as int,
            cfg.max_depth as int,
        ),
    ensures
        r@.len() == cfg.image_width * cfg.image_height,
        exists|seed: u64| r@ == render_spec(world.objects@, materials@, *cam, *cfg, seed),
{
    let seed: u64 = random_seed();
    let image: Vec<Rgb> = render(world, materials, cam, cfg, seed);
    proof {
        assert(image@ == render_spec(world.objects@, materials@, *cam, *cfg, seed));
    }
    image
}

} // verus!

