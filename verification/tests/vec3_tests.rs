use path_tracer::fixed::ONE;
use path_tracer::rng::SeededRng;
use path_tracer::vec3::Vec3;

#[test]
fn componentwise_arithmetic() {
    let a: Vec3 = Vec3::new(1_000_000, 2_000_000, 3_000_000);
    let b: Vec3 = Vec3::new(4_000_000, 5_000_000, 6_000_000);
    assert_eq!(a.add(b), Vec3::new(5_000_000, 7_000_000, 9_000_000));
    assert_eq!(b.sub(a), Vec3::new(3_000_000, 3_000_000, 3_000_000));
    assert_eq!(a.neg(), Vec3::new(-1_000_000, -2_000_000, -3_000_000));
    assert_eq!(a.mul(b), Vec3::new(4_000_000, 10_000_000, 18_000_000));
    assert_eq!(a.scale(2_000_000), Vec3::new(2_000_000, 4_000_000, 6_000_000));
    assert_eq!(a.div_s(2_000_000), Vec3::new(500_000, 1_000_000, 1_500_000));
}

#[test]
fn dot_and_lengths() {
    let a: Vec3 = Vec3::new(1_000_000, 2_000_000, 3_000_000);
    let b: Vec3 = Vec3::new(4_000_000, 5_000_000, 6_000_000);
    assert_eq!(a.dot(b), 32_000_000);
    assert_eq!(a.length_squared(), 14_000_000);
    let c: Vec3 = Vec3::new(3_000_000, 4_000_000, 0);
    assert_eq!(c.length(), 5_000_000);
}

#[test]
fn cross_of_axes() {
    let x: Vec3 = Vec3::new(ONE, 0, 0);
    let y: Vec3 = Vec3::new(0, ONE, 0);
    assert_eq!(x.cross(y), Vec3::new(0, 0, ONE));
    assert_eq!(y.cross(x), Vec3::new(0, 0, -ONE));
}

#[test]
fn normalize_scales_to_unit_length() {
    let c: Vec3 = Vec3::new(3_000_000, 4_000_000, 0);
    assert_eq!(c.normalize(), Vec3::new(600_000, 800_000, 0));
}

#[test]
fn near_zero_is_exactly_zero_at_this_resolution() {
    assert!(Vec3::new(0, 0, 0).near_zero());
    assert!(!Vec3::new(1, 0, 0).near_zero());
}

#[test]
fn reflect_about_a_normal() {
    let v: Vec3 = Vec3::new(ONE, -ONE, 0);
    let n: Vec3 = Vec3::new(0, ONE, 0);
    assert_eq!(v.reflect(n), Vec3::new(ONE, ONE, 0));
}

#[test]
fn refract_straight_through_at_equal_indices() {
    let uv: Vec3 = Vec3::new(0, 0, -ONE);
    let n: Vec3 = Vec3::new(0, 0, ONE);
    assert_eq!(uv.refract(n, ONE), Vec3::new(0, 0, -ONE));
}

#[test]
fn seeded_streams_are_reproducible() {
    let mut a: SeededRng = SeededRng::seeded(7);
    let mut b: SeededRng = SeededRng::seeded(7);
    for _ in 0..16 {
        assert_eq!(a.next_u64(), b.next_u64());
    }
    let mut c: SeededRng = SeededRng::seeded(8);
    let first_a: u64 = SeededRng::seeded(7).next_u64();
    assert_ne!(c.next_u64(), first_a);
}

#[test]
fn unit_draws_stay_in_range() {
    let mut rng: SeededRng = SeededRng::seeded(123);
    for _ in 0..100 {
        let u: i64 = rng.next_unit();
        assert!(0 <= u && u < ONE);
        let v: i64 = rng.next_in_range(-ONE, ONE);
        assert!(-ONE <= v && v < ONE);
    }
}

#[test]
fn ball_and_disk_draws_are_inside_and_nonzero() {
    let mut rng: SeededRng = SeededRng::seeded(99);
    for _ in 0..50 {
        let p: Vec3 = Vec3::random_in_unit_sphere(&mut rng);
        let ls: i64 = p.length_squared();
        assert!(0 < ls && ls < ONE);
        let d: Vec3 = Vec3::random_in_unit_disk(&mut rng);
        assert_eq!(d.z, 0);
        let dls: i64 = d.length_squared();
        assert!(0 < dls && dls < ONE);
        let h: Vec3 = Vec3::random_in_hemisphere(&mut rng, Vec3::new(0, ONE, 0));
        assert!(h.dot(Vec3::new(0, ONE, 0)) >= 0);
    }
}
