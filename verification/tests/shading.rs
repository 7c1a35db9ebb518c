use raytracer::color::Color;
use raytracer::fixed::fp_pow;
use raytracer::light::{AmbientLight, PointLight};
use raytracer::material::Material;
use raytracer::phong::{shade_multi_light, ShadeConfig};
use raytracer::trig::{sin_deg, tan_deg};
use raytracer::vec3::Vec3;

const S: i64 = 65536;

#[test]
fn color_add_saturates_red() {
    // 0.9 + 0.5 clamps to 1.0; the other channels stay put.
    let a = Color::new(58982, 0, 0, S);
    let b = Color::new(32768, 0, 0, S);
    let c = a.add(&b);
    assert_eq!(c, Color::new(S, 0, 0, S));
}

#[test]
fn color_add_below_saturation_is_exact() {
    let a = Color::new(16384, 8192, 0, S);
    let b = Color::new(32768, 8192, 4096, S);
    assert_eq!(a.add(&b), Color::new(49152, 16384, 4096, S));
}

#[test]
fn color_mul_is_channelwise() {
    let a = Color::new(32768, S, 0, S);
    let b = Color::new(32768, 16384, S, 16384);
    // alpha comes from the left operand
    assert_eq!(a.mul(&b), Color::new(16384, 16384, 0, S));
}

#[test]
fn color_scale_clamps_and_keeps_alpha() {
    let a = Color::new(49152, 16384, 0, 32768);
    assert_eq!(a.scale(2 * S), Color::new(S, 32768, 0, 32768));
    assert_eq!(a.scale(-S), Color::new(0, 0, 0, 32768));
}

#[test]
fn color_try_new_rejects_out_of_range() {
    assert_eq!(Color::try_new(S + 1, 0, 0, 0), None);
    assert_eq!(Color::try_new(0, -1, 0, 0), None);
    assert_eq!(Color::try_new(S, 0, 32768, S), Some(Color::new(S, 0, 32768, S)));
}

#[test]
fn material_default_is_soft_blue() {
    let m = Material::default();
    assert_eq!(m.ambient, Color::new(0, 0, 26214, S));
    assert_eq!(m.diffuse, Color::new(0, 0, 45875, S));
    assert_eq!(m.specular, Color::new(S, S, S, S));
    assert_eq!(m.shininess, 32);
}

#[test]
fn point_light_getters_return_fields() {
    let l = PointLight::new(Vec3::new(S, 2 * S, 3 * S), Color::new(S, S, S, S), 32768);
    assert_eq!(l.position(), Vec3::new(S, 2 * S, 3 * S));
    assert_eq!(l.color(), Color::new(S, S, S, S));
    assert_eq!(l.intensity(), 32768);
}

#[test]
fn fp_pow_squares_a_half() {
    assert_eq!(fp_pow(32768, 0), S);
    assert_eq!(fp_pow(32768, 1), 32768);
    assert_eq!(fp_pow(32768, 2), 16384);
}

#[test]
fn sin_30_degrees_is_exactly_half() {
    assert_eq!(sin_deg(30 * S), 32768);
}

#[test]
fn tan_45_degrees_is_exactly_one() {
    assert_eq!(tan_deg(45 * S), S);
}

fn test_material() -> Material {
    Material::new(
        Color::new(S, 16384, 0, S),   // ambient
        Color::new(S, S, S, S),       // diffuse
        Color::new(S, S, S, S),       // specular
        32,
    )
}

#[test]
fn back_light_contributes_nothing() {
    // The light sits strictly behind the surface: only the ambient seed
    // remains, however bright or close the light is.
    let mat = Material::new(
        Color::new(32768, 16384, 0, S),
        Color::new(S, S, S, S),
        Color::new(S, S, S, S),
        32,
    );
    let ambient = AmbientLight::new(Color::new(S, S, S, S), 6554);
    let cfg = ShadeConfig::default();
    let behind = vec![PointLight::new(Vec3::new(0, 0, -5 * S), Color::new(S, S, S, S), S)];
    let far_behind =
        vec![PointLight::new(Vec3::new(0, 0, -500 * S), Color::new(S, S, S, S), 1073741824)];
    let expected = Color::new(3277, 1638, 0, S);
    let c1 = shade_multi_light(
        Vec3::new(0, 0, S),
        Vec3::new(0, 0, S),
        Vec3::new(0, 0, 0),
        &behind,
        &mat,
        &ambient,
        &cfg,
    );
    let c2 = shade_multi_light(
        Vec3::new(0, 0, S),
        Vec3::new(0, 0, S),
        Vec3::new(0, 0, 0),
        &far_behind,
        &mat,
        &ambient,
        &cfg,
    );
    assert_eq!(c1, expected);
    assert_eq!(c2, expected);
}

#[test]
fn shade_single_light_exact_value() {
    // Light straight ahead of the surface at distance 5: the diffuse and
    // specular terms are both full, the attenuation and the rescalings are
    // exact fixed-point values.
    let mat = Material::new(
        Color::new(S, S, S, S),
        Color::new(S, S, S, S),
        Color::new(S, S, S, S),
        32,
    );
    let ambient = AmbientLight::new(Color::new(S, S, S, S), 6554);
    let cfg = ShadeConfig::default();
    let lights = vec![PointLight::new(Vec3::new(0, 0, 5 * S), Color::new(S, S, S, S), 16384)];
    let c = shade_multi_light(
        Vec3::new(0, 0, S),
        Vec3::new(0, 0, S),
        Vec3::new(0, 0, 0),
        &lights,
        &mat,
        &ambient,
        &cfg,
    );
    // attenuation = S^2 / (S + 3277*5 + 655*25) = 43694;
    // (diffuse + specular) * attenuation * intensity = 21847 per channel;
    // plus the ambient seed 6554.
    assert_eq!(c, Color::new(28401, 28401, 28401, S));
}

#[test]
fn shade_saturates_under_strong_light() {
    let mat = test_material();
    let ambient = AmbientLight::new(Color::new(S, S, S, S), 6554);
    let cfg = ShadeConfig::default();
    let lights = vec![PointLight::new(Vec3::new(0, 0, 5 * S), Color::new(S, S, S, S), 1073741824)];
    let c = shade_multi_light(
        Vec3::new(0, 0, S),
        Vec3::new(0, 0, S),
        Vec3::new(0, 0, 0),
        &lights,
        &mat,
        &ambient,
        &cfg,
    );
    assert_eq!(c.r, S);
    assert_eq!(c.g, S);
    assert_eq!(c.b, S);
    assert_eq!(c.a, S);
}

#[test]
fn shade_output_always_in_range_and_opaque() {
    let mat = test_material();
    let ambient = AmbientLight::new(Color::new(S, 32768, 16384, S), 13107);
    let cfg = ShadeConfig::default();
    let lights = vec![
        PointLight::new(Vec3::new(5 * S, 5 * S, 0), Color::new(S, S, S, S), S),
        PointLight::new(Vec3::new(-7 * S, 2 * S, 3 * S), Color::new(32768, S, 16384, S), 3 * S),
        PointLight::new(Vec3::new(0, 0, 0), Color::new(S, 0, S, S), 98304),
    ];
    let points = [
        Vec3::new(0, 0, 0),
        Vec3::new(2 * S, -3 * S, 7 * S),
        Vec3::new(-S, -S, -S),
    ];
    for p in points {
        let c = shade_multi_light(
            Vec3::new(13, -7, 65521),
            Vec3::new(-4 * S, 3 * S, -12 * S),
            p,
            &lights,
            &mat,
            &ambient,
            &cfg,
        );
        assert!(0 <= c.r && c.r <= S);
        assert!(0 <= c.g && c.g <= S);
        assert!(0 <= c.b && c.b <= S);
        assert_eq!(c.a, S);
    }
}
