use path_tracer::camera::Camera;
use path_tracer::color::{resolve_color, Rgb};
use path_tracer::fixed::ONE;
use path_tracer::hittable_list::HittableList;
use path_tracer::material::{Lambertian, Material};
use path_tracer::ray::Ray;
use path_tracer::render::{
    pixel_seed, ray_color, render, render_pixel, render_with_entropy, ConfigError, RenderConfig,
};
use path_tracer::rng::SeededRng;
use path_tracer::sphere::Sphere;
use path_tracer::vec3::Vec3;

#[test]
fn depth_zero_is_black_whatever_the_scene() {
    let mut world: HittableList = HittableList::new();
    world.add(Sphere::new(Vec3::new(0, 0, 0), ONE, 0));
    let materials: Vec<Material> = vec![Material::Lambertian(Lambertian::with_values(
        &Vec3::new(800_000, 700_000, 600_000),
    ))];
    let ray: Ray = Ray::new(Vec3::new(0, 0, 5 * ONE), Vec3::new(0, 0, -ONE));
    let mut rng: SeededRng = SeededRng::seeded(11);
    let c: Vec3 = ray_color(&ray, &world, &materials, 0, &mut rng);
    assert_eq!(c, Vec3::new(0, 0, 0));
}

#[test]
fn a_miss_is_the_exact_sky_lerp() {
    let world: HittableList = HittableList::new();
    let materials: Vec<Material> = Vec::new();
    let mut rng: SeededRng = SeededRng::seeded(11);

    // Straight up: the gradient parameter is one, the sky color alone.
    let up: Ray = Ray::new(Vec3::new(0, 0, 0), Vec3::new(0, ONE, 0));
    let c: Vec3 = ray_color(&up, &world, &materials, 10, &mut rng);
    assert_eq!(c, Vec3::new(500_000, 700_000, ONE));

    // Straight down: the parameter is zero, white alone.
    let down: Ray = Ray::new(Vec3::new(0, 0, 0), Vec3::new(0, -ONE, 0));
    let d: Vec3 = ray_color(&down, &world, &materials, 10, &mut rng);
    assert_eq!(d, Vec3::new(ONE, ONE, ONE));

    // Horizontal: the exact midpoint of the lerp.
    let flat: Ray = Ray::new(Vec3::new(0, 0, 0), Vec3::new(ONE, 0, 0));
    let f: Vec3 = ray_color(&flat, &world, &materials, 10, &mut rng);
    assert_eq!(f, Vec3::new(750_000, 850_000, ONE));
}

#[test]
fn a_black_diffuse_hit_is_black_whatever_the_draws() {
    let mut world: HittableList = HittableList::new();
    world.add(Sphere::new(Vec3::new(0, 0, -3 * ONE), ONE, 0));
    let materials: Vec<Material> =
        vec![Material::Lambertian(Lambertian::with_values(&Vec3::new(0, 0, 0)))];
    let ray: Ray = Ray::new(Vec3::new(0, 0, 0), Vec3::new(0, 0, -ONE));
    for seed in [1u64, 2, 3, 4, 5] {
        let mut rng: SeededRng = SeededRng::seeded(seed);
        let c: Vec3 = ray_color(&ray, &world, &materials, 7, &mut rng);
        assert_eq!(c, Vec3::new(0, 0, 0));
    }
}

#[test]
fn resolve_color_averages_gammas_and_clamps() {
    let c: Rgb = resolve_color(Vec3::new(ONE, 250_000, 0), 1);
    assert_eq!(c, Rgb { r: 255, g: 128, b: 0 });
    // Four samples adding up to one unit average to a quarter.
    let d: Rgb = resolve_color(Vec3::new(ONE, 0, 0), 4);
    assert_eq!(d, Rgb { r: 128, g: 0, b: 0 });
    // Negative accumulations resolve to black, not to wrapped bytes.
    let e: Rgb = resolve_color(Vec3::new(-ONE, -1, 0), 1);
    assert_eq!(e, Rgb { r: 0, g: 0, b: 0 });
}

#[test]
fn config_rejects_each_bad_parameter_with_its_own_error() {
    assert_eq!(
        RenderConfig::new(1, 100, 10, 5),
        Err(ConfigError::InvalidDimensions)
    );
    assert_eq!(
        RenderConfig::new(100, 20_000, 10, 5),
        Err(ConfigError::InvalidDimensions)
    );
    assert_eq!(
        RenderConfig::new(100, 100, 0, 5),
        Err(ConfigError::InvalidSamples)
    );
    assert_eq!(
        RenderConfig::new(100, 100, 10, -1),
        Err(ConfigError::InvalidDepth)
    );
    let ok: RenderConfig = RenderConfig::new(100, 50, 10, 5).expect("a sane configuration");
    assert_eq!(ok.image_width, 100);
    assert_eq!(ok.image_height, 50);
    assert_eq!(ok.samples_per_pixel, 10);
    assert_eq!(ok.max_depth, 5);
}

fn black_shell_scene() -> (HittableList, Vec<Material>, Camera, RenderConfig) {
    // The camera sits at the center of a giant sphere painted with a
    // perfectly black diffuse coat: every ray hits it and every path
    // is absorbed into black.
    let mut world: HittableList = HittableList::new();
    world.add(Sphere::new(Vec3::new(0, 0, 0), 100 * ONE, 0));
    let materials: Vec<Material> =
        vec![Material::Lambertian(Lambertian::with_values(&Vec3::new(0, 0, 0)))];
    let cam: Camera = Camera::new(
        &Vec3::new(0, 0, 0),
        &Vec3::new(0, 0, -ONE),
        &Vec3::new(0, ONE, 0),
        90 * ONE,
        ONE,
        0,
        ONE,
    )
    .expect("the camera is not degenerate");
    let cfg: RenderConfig = RenderConfig::new(4, 4, 1, 8).expect("a sane configuration");
    (world, materials, cam, cfg)
}

#[test]
fn a_black_shell_renders_to_all_zero_pixels() {
    let (world, materials, cam, cfg) = black_shell_scene();
    let image: Vec<Rgb> = render(&world, &materials, &cam, &cfg, 42);
    assert_eq!(image.len(), 16);
    for px in image {
        assert_eq!(px, Rgb { r: 0, g: 0, b: 0 });
    }
}

#[test]
fn rendering_is_reproducible_for_a_fixed_seed() {
    let (world, materials, cam, cfg) = black_shell_scene();
    let a: Vec<Rgb> = render(&world, &materials, &cam, &cfg, 42);
    let b: Vec<Rgb> = render(&world, &materials, &cam, &cfg, 42);
    assert_eq!(a, b);
}

#[test]
fn pixels_can_be_computed_in_any_order() {
    // Per-pixel seeding makes every pixel a function of its own
    // coordinates: assembling the image backwards pixel by pixel gives
    // exactly the raster-order render.
    let mut world: HittableList = HittableList::new();
    world.add(Sphere::new(Vec3::new(0, 0, -3 * ONE), ONE, 0));
    let materials: Vec<Material> = vec![Material::Lambertian(Lambertian::with_values(
        &Vec3::new(500_000, 400_000, 300_000),
    ))];
    let cam: Camera = Camera::new(
        &Vec3::new(0, 0, 0),
        &Vec3::new(0, 0, -ONE),
        &Vec3::new(0, ONE, 0),
        90 * ONE,
        ONE,
        100_000,
        3 * ONE,
    )
    .expect("the camera is not degenerate");
    let cfg: RenderConfig = RenderConfig::new(5, 4, 2, 6).expect("a sane configuration");

    let raster: Vec<Rgb> = render(&world, &materials, &cam, &cfg, 7);
    let mut backwards: Vec<Rgb> = Vec::new();
    for j in (0..cfg.image_height).rev() {
        for i in (0..cfg.image_width).rev() {
            backwards.push(render_pixel(&world, &materials, &cam, &cfg, 7, i, j));
        }
    }
    backwards.reverse();
    assert_eq!(raster, backwards);
}

#[test]
fn entropy_render_has_the_right_shape() {
    let (world, materials, cam, cfg) = black_shell_scene();
    let image: Vec<Rgb> = render_with_entropy(&world, &materials, &cam, &cfg);
    assert_eq!(image.len(), 16);
}

#[test]
fn ray_color_is_a_function_of_ray_and_generator_state() {
    let mut world: HittableList = HittableList::new();
    world.add(Sphere::new(Vec3::new(0, 0, -3 * ONE), ONE, 0));
    let materials: Vec<Material> = vec![Material::Lambertian(Lambertian::with_values(
        &Vec3::new(600_000, 500_000, 400_000),
    ))];
    let ray: Ray = Ray::new(Vec3::new(0, 0, 0), Vec3::new(100_000, 0, -ONE));
    let mut a: SeededRng = SeededRng::seeded(77);
    let mut b: SeededRng = SeededRng::seeded(77);
    let ca: Vec3 = ray_color(&ray, &world, &materials, 6, &mut a);
    let cb: Vec3 = ray_color(&ray, &world, &materials, 6, &mut b);
    assert_eq!(ca, cb);
    assert_eq!(a.state, b.state);
}

#[test]
fn render_is_a_function_of_the_base_seed() {
    let (world, materials, cam, _) = black_shell_scene();
    let cfg: RenderConfig = RenderConfig::new(3, 3, 2, 4).expect("a sane configuration");
    let a: Vec<Rgb> = render(&world, &materials, &cam, &cfg, 1234);
    let b: Vec<Rgb> = render(&world, &materials, &cam, &cfg, 1234);
    assert_eq!(a, b);
}

#[test]
fn pixel_seeds_differ_between_pixels() {
    let s00: u64 = pixel_seed(9, 0, 0);
    let s01: u64 = pixel_seed(9, 0, 1);
    let s10: u64 = pixel_seed(9, 1, 0);
    assert_ne!(s00, s01);
    assert_ne!(s00, s10);
    assert_ne!(s01, s10);
    // The same pixel under the same base seed is the same stream.
    assert_eq!(s00, pixel_seed(9, 0, 0));
}
