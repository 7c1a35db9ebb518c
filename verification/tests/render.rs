use raytracer::camera::Camera;
use raytracer::color::Color;
use raytracer::light::{AmbientLight, PointLight};
use raytracer::material::Material;
use raytracer::object::Object;
use raytracer::phong::ShadeConfig;
use raytracer::sphere::Sphere;
use raytracer::vec3::Vec3;

const S: i64 = 65536;

#[test]
fn empty_scene_renders_opaque_black() {
    let cam = Camera::new(Vec3::new(0, 0, 0), Vec3::new(0, 0, 0), 60 * S, (2, 2));
    let objects: Vec<Object> = Vec::new();
    let lights: Vec<PointLight> = Vec::new();
    let ambient = AmbientLight::new(Color::new(S, S, S, S), 6554);
    let cfg = ShadeConfig::default();
    let buf = cam.render_scene(&objects, &lights, &ambient, &cfg);
    assert_eq!(buf.len(), 2 * 2 * 4);
    for px in buf.chunks(4) {
        assert_eq!(px, &[0, 0, 0, 255]);
    }
}

#[test]
fn end_to_end_small_render() {
    // A radius-2 sphere ten units ahead, one point light, a dim ambient
    // light, a 60-degree 4x4 viewport: the four central pixels graze the
    // sphere and must be shaded, the four corner rays point well away from
    // its small angular extent and must stay background black.
    let blue = Material::new(
        Color::new(0, 0, S, S),
        Color::new(0, 0, S, S),
        Color::new(S, S, S, S),
        32,
    );
    let objects = vec![Object::Sphere(Sphere::new(2 * S, Vec3::new(0, 0, 10 * S), blue))];
    let lights = vec![PointLight::new(Vec3::new(5 * S, 5 * S, 0), Color::new(S, S, S, S), S)];
    let ambient = AmbientLight::new(Color::new(S, S, S, S), 6554);
    let cfg = ShadeConfig::default();
    let cam = Camera::new(Vec3::new(0, 0, 0), Vec3::new(0, 0, 0), 60 * S, (4, 4));
    let buf = cam.render_scene(&objects, &lights, &ambient, &cfg);
    assert_eq!(buf.len(), 4 * 4 * 4);
    for y in 0..4usize {
        for x in 0..4usize {
            let idx = (y * 4 + x) * 4;
            let px = &buf[idx..idx + 4];
            assert_eq!(px[3], 255, "alpha at ({x},{y})");
            let corner = (x == 0 || x == 3) && (y == 0 || y == 3);
            let center = (x == 1 || x == 2) && (y == 1 || y == 2);
            if corner {
                assert_eq!(px, &[0, 0, 0, 255], "corner ({x},{y}) must be background");
            }
            if center {
                // the ambient seed alone guarantees a clearly blue pixel
                assert!(px[2] >= 25, "center ({x},{y}) must be a shaded hit");
            }
        }
    }
}

#[test]
fn render_pixel_matches_render_scene() {
    let objects = vec![Object::Sphere(Sphere::new(
        2 * S,
        Vec3::new(0, 0, 10 * S),
        Material::default(),
    ))];
    let lights = vec![PointLight::new(Vec3::new(5 * S, 5 * S, 0), Color::new(S, S, S, S), S)];
    let ambient = AmbientLight::new(Color::new(S, S, S, S), 6554);
    let cfg = ShadeConfig::default();
    let cam = Camera::new(Vec3::new(0, 0, 0), Vec3::new(0, 0, 0), 60 * S, (3, 3));
    let buf = cam.render_scene(&objects, &lights, &ambient, &cfg);
    for y in 0..3u32 {
        for x in 0..3u32 {
            let (r, g, b) = cam.render_pixel(&objects, &lights, &ambient, &cfg, x, y);
            let idx = ((y * 3 + x) * 4) as usize;
            assert_eq!(&buf[idx..idx + 4], &[r, g, b, 255]);
        }
    }
}
