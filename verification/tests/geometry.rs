use raytracer::infinite_plane::InfinitePlane;
use raytracer::material::Material;
use raytracer::object::Object;
use raytracer::ray::{Ray, Segment};
use raytracer::sphere::Sphere;
use raytracer::vec3::Vec3;

const S: i64 = 65536;

#[test]
fn vec3_length_of_3_4_5_triangle() {
    let v = Vec3::new(3 * S, 4 * S, 0);
    assert_eq!(v.length(), 5 * S);
}

#[test]
fn vec3_normalized_truncates_toward_zero() {
    let v = Vec3::new(3 * S, 4 * S, 0);
    let n = v.normalized();
    // 0.6 and 0.8, truncated at the last fixed-point step
    assert_eq!(n, Vec3::new(39321, 52428, 0));
}

#[test]
fn zero_vector_normalizes_to_zero() {
    let v = Vec3::new(0, 0, 0);
    assert_eq!(v.normalized(), Vec3::new(0, 0, 0));
}

#[test]
fn sphere_through_center_hits_at_exact_distance() {
    // Origin outside, direction through the center: the entry point lies
    // at distance (distance to center) - radius from the origin.
    let sphere = Sphere::new(2 * S, Vec3::new(0, 0, 10 * S), Material::default());
    let ray = Ray::new(Vec3::new(0, 0, 0), Vec3::new(0, 0, S));
    let hit = sphere.intersects_ray(&ray);
    assert_eq!(
        hit,
        Some((8 * S, Vec3::new(0, 0, 8 * S), Vec3::new(0, 0, -S)))
    );
}

#[test]
fn sphere_hit_point_lies_on_surface() {
    // Ray through the center of a 3-4-5 configuration: the hit point is
    // exactly one radius away from the center, and the normal matches
    // (p - c) / r within one fixed-point step per component.
    let sphere = Sphere::new(5 * S, Vec3::new(0, 6 * S, 8 * S), Material::default());
    let ray = Ray::new(Vec3::new(0, 0, 0), Vec3::new(0, 3 * S, 4 * S));
    let (t, p, n) = sphere.intersects_ray(&ray).expect("ray through center must hit");
    assert!(t > 0);
    let from_center = p.sub(&sphere.position);
    assert_eq!(from_center.length(), 5 * S);
    // (p - c) / r = (0, -0.6, -0.8)
    assert!((n.x - 0).abs() <= 1);
    assert!((n.y - (-39322)).abs() <= 1);
    assert!((n.z - (-52429)).abs() <= 1);
}

#[test]
fn sphere_off_axis_ray_misses() {
    let sphere = Sphere::new(2 * S, Vec3::new(0, 0, 10 * S), Material::default());
    let ray = Ray::new(Vec3::new(0, 0, 0), Vec3::new(0, S, 0));
    assert_eq!(sphere.intersects_ray(&ray), None);
}

#[test]
fn plane_straight_down_hit() {
    let plane = InfinitePlane::new(
        Vec3::new(0, -2 * S, 0),
        Vec3::new(0, S, 0),
        Material::default(),
    );
    let ray = Ray::new(Vec3::new(0, 0, 0), Vec3::new(0, -S, 0));
    assert_eq!(
        plane.intersects_ray(&ray),
        Some((2 * S, Vec3::new(0, -2 * S, 0), Vec3::new(0, S, 0)))
    );
}

#[test]
fn plane_parallel_ray_misses_from_any_origin() {
    let plane = InfinitePlane::new(
        Vec3::new(0, -2 * S, 0),
        Vec3::new(0, S, 0),
        Material::default(),
    );
    // direction . normal == 0 exactly, from several origins
    let origins = [
        Vec3::new(0, 0, 0),
        Vec3::new(7 * S, 5 * S, -3 * S),
        Vec3::new(0, -10 * S, 0),
    ];
    for o in origins {
        let ray = Ray::new(o, Vec3::new(S, 0, 0));
        assert_eq!(plane.intersects_ray(&ray), None);
    }
}

#[test]
fn plane_crossing_behind_origin_misses() {
    let plane = InfinitePlane::new(
        Vec3::new(0, -2 * S, 0),
        Vec3::new(0, S, 0),
        Material::default(),
    );
    let ray = Ray::new(Vec3::new(0, 0, 0), Vec3::new(0, S, 0));
    assert_eq!(plane.intersects_ray(&ray), None);
}

#[test]
fn segment_reaching_the_plane_hits() {
    let plane = InfinitePlane::new(
        Vec3::new(0, -2 * S, 0),
        Vec3::new(0, S, 0),
        Material::default(),
    );
    let seg = Segment::new(Vec3::new(0, 0, 0), Vec3::new(0, -4 * S, 0));
    let (t, p, _) = plane.intersects_segment(&seg).expect("segment crosses the plane");
    assert_eq!(t, 2 * S);
    assert_eq!(p, Vec3::new(0, -2 * S, 0));
}

#[test]
fn segment_stopping_short_misses() {
    let plane = InfinitePlane::new(
        Vec3::new(0, -2 * S, 0),
        Vec3::new(0, S, 0),
        Material::default(),
    );
    let seg = Segment::new(Vec3::new(0, 0, 0), Vec3::new(0, -S, 0));
    assert_eq!(plane.intersects_segment(&seg), None);
}

#[test]
fn segment_into_sphere_hits_within_length() {
    let sphere = Sphere::new(2 * S, Vec3::new(0, 0, 10 * S), Material::default());
    let seg = Segment::new(Vec3::new(0, 0, 0), Vec3::new(0, 0, 9 * S));
    let (t, p, _) = sphere.intersects_segment(&seg).expect("segment enters the sphere");
    assert_eq!(t, 8 * S);
    assert_eq!(p, Vec3::new(0, 0, 8 * S));
    let short = Segment::new(Vec3::new(0, 0, 0), Vec3::new(0, 0, 7 * S));
    assert_eq!(sphere.intersects_segment(&short), None);
}

#[test]
fn object_dispatches_to_owned_shape() {
    let sphere = Sphere::new(2 * S, Vec3::new(0, 0, 10 * S), Material::default());
    let obj = Object::Sphere(sphere);
    let ray = Ray::new(Vec3::new(0, 0, 0), Vec3::new(0, 0, S));
    assert_eq!(
        obj.intersects(&ray),
        Some((8 * S, Vec3::new(0, 0, 8 * S), Vec3::new(0, 0, -S)))
    );
    assert_eq!(*obj.material(), Material::default());
}
