use path_tracer::fixed::{SAT_MAX, ONE};
use path_tracer::hittable::HitRecord;
use path_tracer::hittable_list::HittableList;
use path_tracer::ray::Ray;
use path_tracer::sphere::{hit_sphere, Sphere};
use path_tracer::vec3::Vec3;

fn axis_ray() -> Ray {
    Ray::new(Vec3::new(0, 0, 5 * ONE), Vec3::new(0, 0, -ONE))
}

#[test]
fn frontal_hit_on_unit_sphere() {
    let s: Sphere = Sphere::new(Vec3::new(0, 0, 0), ONE, 0);
    let r: Ray = axis_ray();
    let rec: HitRecord = s.hit(&r, 1_000, SAT_MAX).expect("the ray points at the sphere");
    assert_eq!(rec.t, 4 * ONE);
    assert_eq!(rec.p, Vec3::new(0, 0, ONE));
    assert_eq!(rec.normal, Vec3::new(0, 0, ONE));
    assert!(rec.front_face);
    assert_eq!(rec.material, 0);
}

#[test]
fn hit_sphere_reports_the_near_root() {
    let r: Ray = axis_ray();
    assert_eq!(hit_sphere(Vec3::new(0, 0, 0), ONE, &r), 4 * ONE);
}

#[test]
fn hit_sphere_reports_minus_one_on_a_miss() {
    let r: Ray = Ray::new(Vec3::new(0, 5 * ONE, 5 * ONE), Vec3::new(0, 0, -ONE));
    assert_eq!(hit_sphere(Vec3::new(0, 0, 0), ONE, &r), -ONE);
}

#[test]
fn negative_radius_sphere_reports_inward_normal() {
    // A ray starting at the center of a hollow-glass (negative-radius)
    // sphere exits through the shell; the naive outward formula would
    // give the direction of the exit point, but the negated radius
    // turns the reported normal to the inside.
    let s: Sphere = Sphere::new(Vec3::new(0, 0, 0), -ONE, 0);
    let r: Ray = Ray::new(Vec3::new(0, 0, 0), Vec3::new(0, 0, -ONE));
    let rec: HitRecord = s.hit(&r, 1_000, SAT_MAX).expect("the ray exits the shell");
    assert_eq!(rec.t, ONE);
    assert_eq!(rec.p, Vec3::new(0, 0, -ONE));
    // Naive outward direction at the exit point would be (0, 0, -1);
    // the negative radius flips it.
    assert_eq!(rec.normal, Vec3::new(0, 0, ONE));
    assert!(rec.front_face);
}

#[test]
fn window_bounds_are_exclusive() {
    let s: Sphere = Sphere::new(Vec3::new(0, 0, 0), ONE, 0);
    let r: Ray = axis_ray();
    // The near root lies exactly at the upper bound and the far root
    // beyond it: an exclusive window reports no hit.
    assert_eq!(s.hit(&r, 1_000, 4 * ONE), None);
    // The far root exactly at the bound is rejected too.
    assert_eq!(s.hit(&r, 1_000, 6 * ONE).expect("near root accepted").t, 4 * ONE);
    assert_eq!(s.hit(&r, 5 * ONE, 6 * ONE), None);
}

#[test]
fn list_keeps_the_closest_hit_regardless_of_order() {
    let near: Sphere = Sphere::new(Vec3::new(0, 0, -2 * ONE), 500_000, 0);
    let far: Sphere = Sphere::new(Vec3::new(0, 0, -5 * ONE), 500_000, 1);
    let r: Ray = Ray::new(Vec3::new(0, 0, 0), Vec3::new(0, 0, -ONE));

    let mut a: HittableList = HittableList::new();
    a.add(near);
    a.add(far);
    let mut b: HittableList = HittableList::new();
    b.add(far);
    b.add(near);

    let ra: HitRecord = a.hit(&r, 1_000, SAT_MAX).expect("both spheres are ahead");
    let rb: HitRecord = b.hit(&r, 1_000, SAT_MAX).expect("both spheres are ahead");
    assert_eq!(ra, rb);
    assert_eq!(ra.t, 1_500_000);
    assert_eq!(ra.material, 0);
}

#[test]
fn empty_list_reports_no_hit() {
    let list: HittableList = HittableList::new();
    let r: Ray = axis_ray();
    assert_eq!(list.hit(&r, 1_000, SAT_MAX), None);
}

#[test]
fn list_construction_and_clear() {
    let s: Sphere = Sphere::new(Vec3::new(0, 0, 0), ONE, 0);
    let mut list: HittableList = HittableList::from_hittable(s);
    let r: Ray = axis_ray();
    assert!(list.hit(&r, 1_000, SAT_MAX).is_some());
    list.clear();
    assert_eq!(list.hit(&r, 1_000, SAT_MAX), None);
}

#[test]
fn ray_at_walks_the_parameter() {
    let r: Ray = Ray::new(Vec3::new(ONE, 0, 0), Vec3::new(0, 2 * ONE, 0));
    assert_eq!(r.at(500_000), Vec3::new(ONE, ONE, 0));
    assert_eq!(r.at(-500_000), Vec3::new(ONE, -ONE, 0));
}
