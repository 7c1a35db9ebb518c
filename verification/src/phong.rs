//! Multi-light Phong shading: an ambient seed plus, per light, diffuse and
//! specular terms scaled by distance attenuation, accumulated and clamped
//! into range.

use vstd::prelude::*;

verus! {

use crate::color::Color;
use crate::fixed::{
    clip, clip_i128, fp_pow, lemma_mul_bounds_abs, lemma_sqrt_dominates, lemma_square_bounds,
    lemma_tdiv_bound, lemma_tdiv_nonneg, pow_fp, sqrt_of, tdiv, tdiv_i128, isqrt_u128, EPS,
    SCALE,
};
use crate::light::{AmbientLight, PointLight, INTENSITY_MAX};
use crate::material::Material;
use crate::ray::POINT_MAX;
use crate::vec3::{dot_fp, unit_vec, Vec3, NORM_MAX};

/// Largest value one light can add to one channel before the final clamp.
pub const CONTRIB_MAX: i64 = 4294967296;

/// Attenuation coefficients: the falloff is `1 / (1 + lin*d + quad*d^2)`.
/// They are configuration, not constants of the model.
#[derive(Clone, Copy, Debug, PartialEq, Eq, Structural)]
pub struct ShadeConfig {
    pub atten_linear: i64,
    pub atten_quad: i64,
}

impl ShadeConfig {
    pub open spec fn wf(&self) -> bool {
        0 <= self.atten_linear <= SCALE && 0 <= self.atten_quad <= SCALE
    }

    pub fn new(atten_linear: i64, atten_quad: i64) -> (c: ShadeConfig)
        requires
            0 <= atten_linear <= SCALE,
            0 <= atten_quad <= SCALE,
        ensures
            c == (ShadeConfig { atten_linear, atten_quad }),
            c.wf(),
    {
        ShadeConfig { atten_linear, atten_quad }
    }
}

impl Default for ShadeConfig {
    /// The stock falloff: 0.05 linear, 0.01 quadratic.
    fn default() -> (c: ShadeConfig)
        ensures
            c == (ShadeConfig { atten_linear: 3277, atten_quad: 655 }),
            c.wf(),
    {
        ShadeConfig { atten_linear: 3277, atten_quad: 655 }
    }
}

/// Squared distance from the shaded point to the light, raw units,
/// floored at `EPS` to avoid a division blow-up.
pub open spec fn d2_floored_raw(l: PointLight, point: Vec3) -> int {
    let d2 = (l.position.x - point.x) * (l.position.x - point.x) + (l.position.y - point.y) * (
    l.position.y - point.y) + (l.position.z - point.z) * (l.position.z - point.z);
    if d2 < EPS * SCALE {
        EPS * SCALE
    } else {
        d2
    }
}

/// Fixed-point distance from the shaded point to the light.
pub open spec fn dist_of(l: PointLight, point: Vec3) -> int {
    sqrt_of(d2_floored_raw(l, point))
}

/// Fixed-point squared distance, floored at `EPS`, for the attenuation term.
pub open spec fn d2_fp(l: PointLight, point: Vec3) -> int {
    let d2 = tdiv(
        (l.position.x - point.x) * (l.position.x - point.x) + (l.position.y - point.y) * (
        l.position.y - point.y) + (l.position.z - point.z) * (l.position.z - point.z),
        SCALE as int,
    );
    if d2 < EPS {
        EPS as int
    } else {
        d2
    }
}

/// Unit direction from the shaded point toward the light.
pub open spec fn light_dir(l: PointLight, point: Vec3) -> Vec3 {
    let dist = dist_of(l, point);
    Vec3 {
        x: tdiv((l.position.x - point.x) * SCALE, dist) as i64,
        y: tdiv((l.position.y - point.y) * SCALE, dist) as i64,
        z: tdiv((l.position.z - point.z) * SCALE, dist) as i64,
    }
}

/// `n . light_dir`, the Lambertian factor before its floor at zero.
pub open spec fn ndotl_of(n: Vec3, l: PointLight, point: Vec3) -> int {
    dot_fp(n, light_dir(l, point))
}

/// The normalized reflection of the light direction about the normal.
pub open spec fn reflect_of(n: Vec3, l: PointLight, point: Vec3) -> Vec3 {
    let ld = light_dir(l, point);
    let nd = ndotl_of(n, l, point);
    unit_vec(
        Vec3 {
            x: (tdiv(n.x * (2 * nd), SCALE as int) - ld.x) as i64,
            y: (tdiv(n.y * (2 * nd), SCALE as int) - ld.y) as i64,
            z: (tdiv(n.z * (2 * nd), SCALE as int) - ld.z) as i64,
        },
    )
}

/// The specular factor: `max(0, reflect . view) ^ shininess`, with the base
/// clamped to one (normalized vectors exceed one only by rounding).
pub open spec fn spec_factor_of(n: Vec3, v: Vec3, l: PointLight, point: Vec3, shininess: u32) -> int {
    pow_fp(clip(dot_fp(reflect_of(n, l, point), v), 0, SCALE as int), shininess as nat)
}

/// Distance attenuation `1 / (1 + lin*d + quad*d^2)`.
pub open spec fn attenuation(l: PointLight, point: Vec3, cfg: ShadeConfig) -> int {
    tdiv(
        SCALE * SCALE,
        SCALE + tdiv(cfg.atten_linear * dist_of(l, point), SCALE as int) + tdiv(
            cfg.atten_quad * d2_fp(l, point),
            SCALE as int,
        ),
    )
}

/// One channel of one light's contribution: `(diffuse + specular) * light
/// color * attenuation * intensity`, each product rescaled.
pub open spec fn contrib_chan(d: int, s: int, lc: int, at: int, inten: int) -> int {
    tdiv(tdiv(tdiv((d + s) * lc, SCALE as int) * at, SCALE as int) * inten, SCALE as int)
}

/// One light's contribution to the three channels. A light at or behind
/// the surface contributes nothing at all, specular included.
pub open spec fn light_contrib(
    n: Vec3,
    v: Vec3,
    point: Vec3,
    l: PointLight,
    mat: Material,
    cfg: ShadeConfig,
) -> (int, int, int) {
    let nd = ndotl_of(n, l, point);
    if nd <= 0 {
        (0, 0, 0)
    } else {
        let sf = spec_factor_of(n, v, l, point, mat.shininess);
        let at = attenuation(l, point, cfg);
        (
            contrib_chan(
                tdiv(mat.diffuse.r * nd, SCALE as int),
                tdiv(mat.specular.r * sf, SCALE as int),
                l.color.r as int,
                at,
                l.intensity as int,
            ),
            contrib_chan(
                tdiv(mat.diffuse.g * nd, SCALE as int),
                tdiv(mat.specular.g * sf, SCALE as int),
                l.color.g as int,
                at,
                l.intensity as int,
            ),
            contrib_chan(
                tdiv(mat.diffuse.b * nd, SCALE as int),
                tdiv(mat.specular.b * sf, SCALE as int),
                l.color.b as int,
                at,
                l.intensity as int,
            ),
        )
    }
}

/// The contributions of the first `k` lights, summed channel-wise.
pub open spec fn acc_contrib(
    n: Vec3,
    v: Vec3,
    point: Vec3,
    lights: Seq<PointLight>,
    mat: Material,
    cfg: ShadeConfig,
    k: int,
) -> (int, int, int)
    decreases k,
{
    if k <= 0 {
        (0, 0, 0)
    } else {
        let prev = acc_contrib(n, v, point, lights, mat, cfg, k - 1);
        let c = light_contrib(n, v, point, lights[k - 1], mat, cfg);
        (prev.0 + c.0, prev.1 + c.1, prev.2 + c.2)
    }
}

/// One channel of the ambient seed: ambient color times ambient intensity
/// times the material's ambient channel.
pub open spec fn ambient_chan(ac: int, ai: int, mc: int) -> int {
    tdiv(tdiv(ac * ai, SCALE as int) * mc, SCALE as int)
}

/// The full shading function: ambient seed plus all light contributions,
/// clamped into range, fully opaque.
pub open spec fn shade_spec(
    normal: Vec3,
    view_dir: Vec3,
    point: Vec3,
    lights: Seq<PointLight>,
    mat: Material,
    amb: AmbientLight,
    cfg: ShadeConfig,
) -> Color {
    let n = unit_vec(normal);
    let v = unit_vec(view_dir);
    let acc = acc_contrib(n, v, point, lights, mat, cfg, lights.len() as int);
    Color {
        r: clip(
            ambient_chan(amb.color.r as int, amb.intensity as int, mat.ambient.r as int) + acc.0,
            0,
            SCALE as int,
        ) as i64,
        g: clip(
            ambient_chan(amb.color.g as int, amb.intensity as int, mat.ambient.g as int) + acc.1,
            0,
            SCALE as int,
        ) as i64,
        b: clip(
            ambient_chan(amb.color.b as int, amb.intensity as int, mat.ambient.b as int) + acc.2,
            0,
            SCALE as int,
        ) as i64,
        a: SCALE,
    }
}

/// One channel of the ambient seed.
fn ambient_one(ac: i64, ai: i64, mc: i64) -> (r: i64)
    requires
        0 <= ac <= SCALE,
        0 <= ai <= INTENSITY_MAX,
        0 <= mc <= SCALE,
    ensures
        r == ambient_chan(ac as int, ai as int, mc as int),
        0 <= r <= INTENSITY_MAX,
{
    proof {
        lemma_mul_bounds_abs(ac as int, ai as int, 65536, 1073741824);
        lemma_tdiv_nonneg(ac as int * ai as int, 65536);
        lemma_tdiv_bound(ac as int * ai as int, 65536, 1073741824);
        let t0 = tdiv(ac as int * ai as int, 65536);
        lemma_mul_bounds_abs(t0, mc as int, 1073741824, 65536);
        lemma_tdiv_nonneg(t0 * mc as int, 65536);
        lemma_tdiv_bound(t0 * mc as int, 65536, 1073741824);
    }
    let t0: i128 = tdiv_i128((ac as i128) * (ai as i128), 65536);
    let t1: i128 = tdiv_i128(t0 * (mc as i128), 65536);
    t1 as i64
}

/// One channel of one light's contribution.
fn contrib_chan_exec(d: i64, s: i64, lc: i64, at: i64, inten: i64) -> (r: i64)
    requires
        0 <= d <= 196608,
        0 <= s <= SCALE,
        0 <= lc <= SCALE,
        0 <= at <= SCALE,
        0 <= inten <= INTENSITY_MAX,
    ensures
        r == contrib_chan(d as int, s as int, lc as int, at as int, inten as int),
        0 <= r <= CONTRIB_MAX,
{
    proof {
        let u0 = d as int + s as int;
        lemma_mul_bounds_abs(u0, lc as int, 262144, 65536);
        lemma_tdiv_nonneg(u0 * lc as int, 65536);
        lemma_tdiv_bound(u0 * lc as int, 65536, 262144);
        let x1 = tdiv(u0 * lc as int, 65536);
        lemma_mul_bounds_abs(x1, at as int, 262144, 65536);
        lemma_tdiv_nonneg(x1 * at as int, 65536);
        lemma_tdiv_bound(x1 * at as int, 65536, 262144);
        let x2 = tdiv(x1 * at as int, 65536);
        lemma_mul_bounds_abs(x2, inten as int, 262144, 1073741824);
        lemma_tdiv_nonneg(x2 * inten as int, 65536);
        lemma_tdiv_bound(x2 * inten as int, 65536, 4294967296);
        assert(262144int * 1073741824int == 4294967296int * 65536);
    }
    let x1: i128 = tdiv_i128(((d + s) as i128) * (lc as i128), 65536);
    let x2: i128 = tdiv_i128(x1 * (at as i128), 65536);
    let x3: i128 = tdiv_i128(x2 * (inten as i128), 65536);
    x3 as i64
}

/// One light's full contribution to the three channels.
fn light_contrib_one(
    n: Vec3,
    v: Vec3,
    point: Vec3,
    l: &PointLight,
    mat: &Material,
    cfg: &ShadeConfig,
) -> (c: (i64, i64, i64))
    requires
        n.in_range(SCALE as int),
        v.in_range(SCALE as int),
        point.in_range(POINT_MAX as int),
        l.wf(),
        mat.wf(),
        cfg.wf(),
    ensures
        (c.0 as int, c.1 as int, c.2 as int) == light_contrib(n, v, point, *l, *mat, *cfg),
        0 <= c.0 <= CONTRIB_MAX,
        0 <= c.1 <= CONTRIB_MAX,
        0 <= c.2 <= CONTRIB_MAX,
{
    let tlx: i64 = l.position.x - point.x;
    let tly: i64 = l.position.y - point.y;
    let tlz: i64 = l.position.z - point.z;
    proof {
        lemma_square_bounds(tlx as int, 2251799813685248);
        lemma_square_bounds(tly as int, 2251799813685248);
        lemma_square_bounds(tlz as int, 2251799813685248);
    }
    let d2_unf: i128 = (tlx as i128) * (tlx as i128) + (tly as i128) * (tly as i128) + (tlz as i128)
        * (tlz as i128);
    let d2f: i128 = if d2_unf < 1048576 {
        1048576
    } else {
        d2_unf
    };
    proof {
        assert(4503599627370496int * 4503599627370496int > 3 * (2251799813685248int
            * 2251799813685248int));
        crate::fixed::lemma_sqrt_lt(d2f as int, 4503599627370496);
        crate::fixed::lemma_sqrt_dominates(d2f as int, 1024);
        crate::fixed::lemma_sqrt_dominates(d2f as int, tlx as int);
        crate::fixed::lemma_sqrt_dominates(d2f as int, tly as int);
        crate::fixed::lemma_sqrt_dominates(d2f as int, tlz as int);
    }
    let dist: i128 = isqrt_u128(d2f as u128) as i128;
    proof {
        lemma_tdiv_bound(tlx as int * 65536, dist as int, 65536);
        lemma_tdiv_bound(tly as int * 65536, dist as int, 65536);
        lemma_tdiv_bound(tlz as int * 65536, dist as int, 65536);
    }
    let ldx: i64 = tdiv_i128((tlx as i128) * 65536, dist) as i64;
    let ldy: i64 = tdiv_i128((tly as i128) * 65536, dist) as i64;
    let ldz: i64 = tdiv_i128((tlz as i128) * 65536, dist) as i64;
    let ld = Vec3 { x: ldx, y: ldy, z: ldz };
    proof {
        lemma_mul_bounds_abs(n.x as int, ld.x as int, 65536, 65536);
        lemma_mul_bounds_abs(n.y as int, ld.y as int, 65536, 65536);
        lemma_mul_bounds_abs(n.z as int, ld.z as int, 65536, 65536);
        lemma_tdiv_bound(crate::vec3::dot_raw(n, ld), 65536, 196608);
    }
    let nd: i64 = n.dot(&ld);
    if nd <= 0 {
        return (0, 0, 0);
    }
    proof {
        lemma_mul_bounds_abs(mat.diffuse.r as int, nd as int, 65536, 196608);
        lemma_mul_bounds_abs(mat.diffuse.g as int, nd as int, 65536, 196608);
        lemma_mul_bounds_abs(mat.diffuse.b as int, nd as int, 65536, 196608);
        lemma_tdiv_nonneg(mat.diffuse.r as int * nd as int, 65536);
        lemma_tdiv_nonneg(mat.diffuse.g as int * nd as int, 65536);
        lemma_tdiv_nonneg(mat.diffuse.b as int * nd as int, 65536);
        lemma_tdiv_bound(mat.diffuse.r as int * nd as int, 65536, 196608);
        lemma_tdiv_bound(mat.diffuse.g as int * nd as int, 65536, 196608);
        lemma_tdiv_bound(mat.diffuse.b as int * nd as int, 65536, 196608);
    }
    let diff_r: i64 = tdiv_i128((mat.diffuse.r as i128) * (nd as i128), 65536) as i64;
    let diff_g: i64 = tdiv_i128((mat.diffuse.g as i128) * (nd as i128), 65536) as i64;
    let diff_b: i64 = tdiv_i128((mat.diffuse.b as i128) * (nd as i128), 65536) as i64;
    proof {
        lemma_mul_bounds_abs(n.x as int, 2 * nd as int, 65536, 393216);
        lemma_mul_bounds_abs(n.y as int, 2 * nd as int, 65536, 393216);
        lemma_mul_bounds_abs(n.z as int, 2 * nd as int, 65536, 393216);
        lemma_tdiv_bound(n.x as int * (2 * nd as int), 65536, 393216);
        lemma_tdiv_bound(n.y as int * (2 * nd as int), 65536, 393216);
        lemma_tdiv_bound(n.z as int * (2 * nd as int), 65536, 393216);
    }
    let rx: i64 = tdiv_i128((n.x as i128) * (2 * (nd as i128)), 65536) as i64 - ldx;
    let ry: i64 = tdiv_i128((n.y as i128) * (2 * (nd as i128)), 65536) as i64 - ldy;
    let rz: i64 = tdiv_i128((n.z as i128) * (2 * (nd as i128)), 65536) as i64 - ldz;
    let rn: Vec3 = Vec3 { x: rx, y: ry, z: rz }.normalized();
    let sa: i64 = rn.dot(&v);
    let base: i64 = if sa < 0 {
        0
    } else if sa > SCALE {
        SCALE
    } else {
        sa
    };
    let sf: i64 = fp_pow(base, mat.shininess);
    proof {
        lemma_mul_bounds_abs(mat.specular.r as int, sf as int, 65536, 65536);
        lemma_mul_bounds_abs(mat.specular.g as int, sf as int, 65536, 65536);
        lemma_mul_bounds_abs(mat.specular.b as int, sf as int, 65536, 65536);
        lemma_tdiv_nonneg(mat.specular.r as int * sf as int, 65536);
        lemma_tdiv_nonneg(mat.specular.g as int * sf as int, 65536);
        lemma_tdiv_nonneg(mat.specular.b as int * sf as int, 65536);
        lemma_tdiv_bound(mat.specular.r as int * sf as int, 65536, 65536);
        lemma_tdiv_bound(mat.specular.g as int * sf as int, 65536, 65536);
        lemma_tdiv_bound(mat.specular.b as int * sf as int, 65536, 65536);
    }
    let spec_r: i64 = tdiv_i128((mat.specular.r as i128) * (sf as i128), 65536) as i64;
    let spec_g: i64 = tdiv_i128((mat.specular.g as i128) * (sf as i128), 65536) as i64;
    let spec_b: i64 = tdiv_i128((mat.specular.b as i128) * (sf as i128), 65536) as i64;
    proof {
        lemma_tdiv_bound(d2_unf as int, 65536, 309485009821345068724781056int);
        lemma_tdiv_nonneg(d2_unf as int, 65536);
    }
    let q2: i128 = tdiv_i128(d2_unf, 65536);
    let d2fp: i128 = if q2 < 16 {
        16
    } else {
        q2
    };
    proof {
        lemma_mul_bounds_abs(cfg.atten_linear as int, dist as int, 65536, 4503599627370496);
        lemma_tdiv_nonneg(cfg.atten_linear as int * dist as int, 65536);
        lemma_tdiv_bound(cfg.atten_linear as int * dist as int, 65536, 4503599627370496);
        lemma_mul_bounds_abs(cfg.atten_quad as int, d2fp as int, 65536,
            309485009821345068724781056int);
        lemma_tdiv_nonneg(cfg.atten_quad as int * d2fp as int, 65536);
        lemma_tdiv_bound(cfg.atten_quad as int * d2fp as int, 65536,
            309485009821345068724781056int);
    }
    let t1: i128 = tdiv_i128((cfg.atten_linear as i128) * dist, 65536);
    let t2: i128 = tdiv_i128((cfg.atten_quad as i128) * d2fp, 65536);
    let denom: i128 = 65536 + t1 + t2;
    proof {
        lemma_tdiv_nonneg(65536int * 65536, denom as int);
        lemma_tdiv_bound(65536int * 65536, denom as int, 65536);
    }
    let at: i64 = tdiv_i128(65536 * 65536, denom) as i64;
    let cr: i64 = contrib_chan_exec(diff_r, spec_r, l.color.r, at, l.intensity);
    let cg: i64 = contrib_chan_exec(diff_g, spec_g, l.color.g, at, l.intensity);
    let cb: i64 = contrib_chan_exec(diff_b, spec_b, l.color.b, at, l.intensity);
    (cr, cg, cb)
}

/// Shade one point with every light in the scene: normalize the inputs,
/// seed with the ambient term, add each light's diffuse and specular
/// contribution under distance attenuation, and clamp into range. The
/// result is a pure function of the arguments and always fully opaque.
pub fn shade_multi_light(
    normal: Vec3,
    view_dir: Vec3,
    point: Vec3,
    lights: &Vec<PointLight>,
    material: &Material,
    ambient_light: &AmbientLight,
    config: &ShadeConfig,
) -> (c: Color)
    requires
        normal.in_range(NORM_MAX as int),
        view_dir.in_range(NORM_MAX as int),
        point.in_range(POINT_MAX as int),
        forall|i: int| 0 <= i < lights@.len() ==> lights@[i].wf(),
        material.wf(),
        ambient_light.wf(),
        config.wf(),
    ensures
        c == shade_spec(normal, view_dir, point, lights@, *material, *ambient_light, *config),
        c.valid(),
        c.a == SCALE,
{
    let n: Vec3 = normal.normalized();
    let v: Vec3 = view_dir.normalized();
    let mut accr: i128 = 0;
    let mut accg: i128 = 0;
    let mut accb: i128 = 0;
    let mut i: usize = 0;
    while i < lights.len()
        invariant
            i <= lights@.len(),
            n == unit_vec(normal),
            v == unit_vec(view_dir),
            n.in_range(SCALE as int),
            v.in_range(SCALE as int),
            point.in_range(POINT_MAX as int),
            forall|j: int| 0 <= j < lights@.len() ==> lights@[j].wf(),
            material.wf(),
            config.wf(),
            accr == acc_contrib(n, v, point, lights@, *material, *config, i as int).0,
            accg == acc_contrib(n, v, point, lights@, *material, *config, i as int).1,
            accb == acc_contrib(n, v, point, lights@, *material, *config, i as int).2,
            0 <= accr <= i as int * CONTRIB_MAX,
            0 <= accg <= i as int * CONTRIB_MAX,
            0 <= accb <= i as int * CONTRIB_MAX,
        decreases lights@.len() - i,
    {
        let l: PointLight = lights[i];
        let c = light_contrib_one(n, v, point, &l, material, config);
        accr = accr + (c.0 as i128);
        accg = accg + (c.1 as i128);
        accb = accb + (c.2 as i128);
        i = i + 1;
    }
    let ar: i64 = ambient_one(ambient_light.color.r, ambient_light.intensity, material.ambient.r);
    let ag: i64 = ambient_one(ambient_light.color.g, ambient_light.intensity, material.ambient.g);
    let ab: i64 = ambient_one(ambient_light.color.b, ambient_light.intensity, material.ambient.b);
    let r: i64 = clip_i128((ar as i128) + accr, 0, SCALE);
    let g: i64 = clip_i128((ag as i128) + accg, 0, SCALE);
    let b: i64 = clip_i128((ab as i128) + accb, 0, SCALE);
    Color { r, g, b, a: SCALE }
}

/// A light at or behind the surface (`normal . light_dir <= 0`) contributes
/// zero diffuse and zero specular, whatever its distance and intensity.
pub proof fn lemma_back_light_dark(
    n: Vec3,
    v: Vec3,
    point: Vec3,
    l: PointLight,
    mat: Material,
    cfg: ShadeConfig,
)
    requires
        ndotl_of(n, l, point) <= 0,
    ensures
        light_contrib(n, v, point, l, mat, cfg) == (0int, 0int, 0int),
{
}

/// The shading output always has channels within `[0, SCALE]` and is fully
/// opaque, whatever the inputs.
pub proof fn lemma_shade_in_range(
    normal: Vec3,
    view_dir: Vec3,
    point: Vec3,
    lights: Seq<PointLight>,
    mat: Material,
    amb: AmbientLight,
    cfg: ShadeConfig,
)
    ensures
        shade_spec(normal, view_dir, point, lights, mat, amb, cfg).valid(),
        shade_spec(normal, view_dir, point, lights, mat, amb, cfg).a == SCALE,
{
}

} // verus!
