use path_tracer::fixed::{SAT_MAX, ONE};
use path_tracer::hittable::HitRecord;
use path_tracer::material::{
    dielectric_direction, lambertian_scatter_direction, Dielectric, Lambertian, Material, Metal,
};
use path_tracer::ray::Ray;
use path_tracer::rng::SeededRng;
use path_tracer::sphere::Sphere;
use path_tracer::vec3::Vec3;

#[test]
fn lambertian_with_a_zero_draw_scatters_along_the_normal() {
    let normal: Vec3 = Vec3::new(0, ONE, 0);
    let dir: Vec3 = lambertian_scatter_direction(normal, Vec3::new(0, 0, 0));
    assert_eq!(dir, normal);
}

#[test]
fn lambertian_guards_the_degenerate_opposite_draw() {
    let normal: Vec3 = Vec3::new(0, ONE, 0);
    let dir: Vec3 = lambertian_scatter_direction(normal, Vec3::new(0, -ONE, 0));
    assert_eq!(dir, normal);
}

#[test]
fn lambertian_adds_a_generic_draw_to_the_normal() {
    let normal: Vec3 = Vec3::new(0, ONE, 0);
    let draw: Vec3 = Vec3::new(100_000, -200_000, 300_000);
    let dir: Vec3 = lambertian_scatter_direction(normal, draw);
    assert_eq!(dir, Vec3::new(100_000, 800_000, 300_000));
}

#[test]
fn total_internal_reflection_ignores_the_draw() {
    // A grazing ray: the direction is perpendicular to the normal, so
    // sine is one and ratio * sine exceeds one for glass.
    let ud: Vec3 = Vec3::new(ONE, 0, 0);
    let n: Vec3 = Vec3::new(0, ONE, 0);
    let reflected: Vec3 = ud.reflect(n);
    for draw in [0i64, 1, 499_999, 999_999] {
        assert_eq!(dielectric_direction(ud, n, 1_500_000, draw), reflected);
    }
}

#[test]
fn schlick_reflectance_at_normal_incidence() {
    // cosine 1 kills the fifth-power term: only r0 = ((1-n)/(1+n))^2
    // remains, 0.04 for glass.
    assert_eq!(Dielectric::reflectance(ONE, 1_500_000), 40_000);
}

#[test]
fn metal_fuzz_is_clamped_to_one() {
    let m: Metal = Metal::with_values(&Vec3::new(ONE, ONE, ONE), 3 * ONE);
    assert_eq!(m.fuzz, ONE);
    let sharp: Metal = Metal::with_values(&Vec3::new(ONE, ONE, ONE), -500_000);
    assert_eq!(sharp.fuzz, -500_000);
}

#[test]
fn scatter_attenuations_follow_the_material() {
    let rec_ray: Ray = Ray::new(Vec3::new(0, 0, 5 * ONE), Vec3::new(0, 0, -ONE));
    let sphere: Sphere = Sphere::new(Vec3::new(0, 0, 0), ONE, 0);
    let rec: HitRecord = sphere.hit(&rec_ray, 1_000, SAT_MAX).expect("frontal hit");
    let mut rng: SeededRng = SeededRng::seeded(5);

    let albedo: Vec3 = Vec3::new(800_000, 600_000, 400_000);
    let lam: Material = Material::Lambertian(Lambertian::with_values(&albedo));
    let (att, sc) = lam.scatter(&rec_ray, &rec, &mut rng).expect("lambertian always scatters");
    assert_eq!(att, albedo);
    assert_eq!(sc.origin, rec.p);

    let met: Material = Material::Metal(Metal::with_values(&albedo, 0));
    let (matt, msc) = met.scatter(&rec_ray, &rec, &mut rng).expect("metal always scatters");
    assert_eq!(matt, albedo);
    // With zero fuzz the metal direction is the pure mirror reflection.
    assert_eq!(msc.direction, rec_ray.direction.normalize().reflect(rec.normal));

    let die: Material = Material::Dielectric(Dielectric::with_values(1_500_000));
    let (datt, dsc) = die.scatter(&rec_ray, &rec, &mut rng).expect("dielectric always scatters");
    assert_eq!(datt, Vec3::new(ONE, ONE, ONE));
    assert_eq!(dsc.origin, rec.p);
}
