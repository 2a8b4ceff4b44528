use path_tracer::camera::{degrees_to_radians, Camera};
use path_tracer::fixed::ONE;
use path_tracer::ray::Ray;
use path_tracer::rng::SeededRng;
use path_tracer::vec3::Vec3;

#[test]
fn degrees_convert_exactly_at_half_turn() {
    assert_eq!(degrees_to_radians(180 * ONE), 3_141_593);
    assert_eq!(degrees_to_radians(0), 0);
}

fn simple_camera(aperture: i64) -> Camera {
    Camera::new(
        &Vec3::new(0, 0, 0),
        &Vec3::new(0, 0, -ONE),
        &Vec3::new(0, ONE, 0),
        90 * ONE,
        ONE,
        aperture,
        ONE,
    )
    .expect("a frontal pinhole camera is not degenerate")
}

#[test]
fn camera_rejects_a_zero_aim() {
    let c: Option<Camera> = Camera::new(
        &Vec3::new(ONE, 0, 0),
        &Vec3::new(ONE, 0, 0),
        &Vec3::new(0, ONE, 0),
        90 * ONE,
        ONE,
        0,
        ONE,
    );
    assert!(c.is_none());
}

#[test]
fn camera_rejects_an_up_vector_parallel_to_the_aim() {
    let c: Option<Camera> = Camera::new(
        &Vec3::new(0, 0, 0),
        &Vec3::new(0, 0, -ONE),
        &Vec3::new(0, 0, ONE),
        90 * ONE,
        ONE,
        0,
        ONE,
    );
    assert!(c.is_none());
}

#[test]
fn camera_basis_is_derived_from_the_aim() {
    let cam: Camera = simple_camera(0);
    assert_eq!(cam.w, Vec3::new(0, 0, ONE));
    assert_eq!(cam.u, Vec3::new(ONE, 0, 0));
    assert_eq!(cam.v, Vec3::new(0, ONE, 0));
    assert_eq!(cam.origin, Vec3::new(0, 0, 0));
    assert_eq!(cam.lens_radius, 0);
}

#[test]
fn pinhole_rays_are_deterministic() {
    let cam: Camera = simple_camera(0);
    let mut rng: SeededRng = SeededRng::seeded(1);
    let a: Ray = cam.get_ray(250_000, 750_000, &mut rng);
    let b: Ray = cam.get_ray(250_000, 750_000, &mut rng);
    assert_eq!(a, b);
    assert_eq!(a.origin, cam.origin);
}

#[test]
fn center_ray_of_a_pinhole_camera_aims_forward() {
    let cam: Camera = simple_camera(0);
    let mut rng: SeededRng = SeededRng::seeded(1);
    let r: Ray = cam.get_ray(500_000, 500_000, &mut rng);
    // The middle of the viewport lies straight ahead: no horizontal or
    // vertical component beyond rounding of the viewport extents.
    assert_eq!(r.origin, Vec3::new(0, 0, 0));
    assert!(r.direction.z < 0);
    assert!(r.direction.x.abs() <= 10);
    assert!(r.direction.y.abs() <= 10);
}

#[test]
fn lens_rays_start_on_the_lens_disk() {
    let cam: Camera = simple_camera(200_000);
    let mut rng: SeededRng = SeededRng::seeded(3);
    let r: Ray = cam.get_ray(500_000, 500_000, &mut rng);
    let off: Vec3 = r.origin.sub(cam.origin);
    // The offset stays on the lens plane, within the lens radius
    // (0.1 here) up to fixed-point rounding.
    assert!(off.length() <= cam.lens_radius + 100);
    assert!(off.length() > 0 || off == Vec3::new(0, 0, 0));
}
