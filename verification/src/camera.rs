//! The pinhole camera: maps each output pixel to a world-space ray, drives
//! the per-pixel nearest-hit search over the scene, and composes the final
//! RGBA8 buffer.
//!
//! +Z is forward, in a right-handed coordinate system. The camera only
//! translates: the rotation field is stored but never applied to ray
//! directions — a documented non-goal, not an oversight.

use vstd::prelude::*;

verus! {

use crate::color::Color;
use crate::fixed::{clip, clip_i128, lemma_tdiv_bound, lemma_tdiv_nonneg, tdiv, tdiv_i128, SCALE};
use crate::light::{AmbientLight, PointLight};
use crate::material::Material;
use crate::object::Object;
use crate::phong::{shade_spec, shade_multi_light, ShadeConfig};
use crate::ray::{Ray, POINT_MAX};
use crate::trig::{tan_deg, tan_deg_spec, DEG_180};
use crate::vec3::{unit_vec, vsub, Vec3, COORD_MAX};

#[derive(Clone, Copy, Debug)]
pub struct Camera {
    pub position: Vec3,
    /// Reserved: stored with the camera but never applied to ray directions.
    pub rotation: Vec3,
    /// Field of view in degrees, fixed point, strictly between 0 and 180.
    pub fov: i64,
    /// Output resolution (width, height) in pixels.
    pub resolution: (u32, u32),
}

/// The nearest hit among the first `k` objects, with the index of the
/// object that produced it. A later object replaces the best hit only when
/// its parameter is strictly smaller, so among equals the earliest object
/// wins.
pub open spec fn best_hit(objects: Seq<Object>, ray: Ray, k: int) -> Option<
    (int, (i64, Vec3, Vec3)),
>
    decreases k,
{
    if k <= 0 {
        None
    } else {
        let prev = best_hit(objects, ray, k - 1);
        match objects[k - 1].hit_spec(ray) {
            None => prev,
            Some(h) => match prev {
                None => Some((k - 1, h)),
                Some(ph) => if h.0 < ph.1.0 {
                    Some((k - 1, h))
                } else {
                    prev
                },
            },
        }
    }
}

/// The four bytes of pixel `(x, y)` in `buf` are exactly what the pixel
/// pipeline prescribes: the quantized shading channels, then full alpha.
pub open spec fn pixel_ok(
    cam: Camera,
    objects: Seq<Object>,
    lights: Seq<PointLight>,
    amb: AmbientLight,
    cfg: ShadeConfig,
    buf: Seq<u8>,
    x: int,
    y: int,
) -> bool {
    let w = cam.resolution.0 as int;
    let idx = 4 * (y * w + x);
    let pc = cam.pixel_color_spec(objects, lights, amb, cfg, x, y);
    &&& 0 <= idx
    &&& idx + 3 < buf.len()
    &&& buf[idx] == pc.0
    &&& buf[idx + 1] == pc.1
    &&& buf[idx + 2] == pc.2
    &&& buf[idx + 3] == 255
}

/// Translating a point into world space and back returns the point, and so
/// does the reverse composition, for every point and camera position in
/// the coordinate range.
pub proof fn lemma_camera_world_round_trip(cam: Camera, p: Vec3)
    requires
        cam.position.in_range(COORD_MAX as int),
        p.in_range(COORD_MAX as int),
    ensures
        cam.world_to_camera_spec(cam.camera_to_world_spec(p)) == p,
        cam.camera_to_world_spec(cam.world_to_camera_spec(p)) == p,
{
}

impl Camera {
    pub open spec fn wf(&self) -> bool {
        self.position.in_range(COORD_MAX as int) && 0 < self.fov < DEG_180
    }

    /// Width over height, fixed point; a zero height falls back to one.
    pub open spec fn aspect_spec(&self) -> int {
        if self.resolution.1 > 0 {
            tdiv(self.resolution.0 * SCALE, self.resolution.1 as int)
        } else {
            SCALE as int
        }
    }

    /// `tan(fov / 2)`: half the viewport height at unit depth.
    pub open spec fn half_h_spec(&self) -> int {
        tan_deg_spec(tdiv(self.fov as int, 2))
    }

    /// Half the viewport width at unit depth.
    pub open spec fn half_w_spec(&self) -> int {
        tdiv(self.aspect_spec() * self.half_h_spec(), SCALE as int)
    }

    /// Screen x of the pixel center, in `[-1, 1]`.
    pub open spec fn sx_spec(&self, x: int) -> int {
        tdiv((2 * x + 1) * SCALE, self.resolution.0 as int) - SCALE
    }

    /// Screen y of the pixel center, in `[-1, 1]`, flipped so that row zero
    /// is the top of the image.
    pub open spec fn sy_spec(&self, y: int) -> int {
        SCALE - tdiv((2 * y + 1) * SCALE, self.resolution.1 as int)
    }

    /// View-space x of the ray direction, clamped into the representable
    /// coordinate range (the clamp binds only for degenerate fields of
    /// view or extreme aspect ratios).
    pub open spec fn dir_cx_spec(&self, x: int) -> int {
        clip(
            tdiv(self.sx_spec(x) * self.half_w_spec(), SCALE as int),
            -COORD_MAX as int,
            COORD_MAX as int,
        )
    }

    /// View-space y of the ray direction, clamped likewise.
    pub open spec fn dir_cy_spec(&self, y: int) -> int {
        clip(
            tdiv(self.sy_spec(y) * self.half_h_spec(), SCALE as int),
            -COORD_MAX as int,
            COORD_MAX as int,
        )
    }

    /// The world-space ray cast through pixel `(x, y)`: unit depth forward,
    /// normalized, from the camera position. Rotation is not applied.
    pub open spec fn pixel_ray_spec(&self, x: int, y: int) -> Ray {
        Ray {
            origin: self.position,
            direction: unit_vec(
                Vec3 { x: self.dir_cx_spec(x) as i64, y: self.dir_cy_spec(y) as i64, z: SCALE },
            ),
        }
    }

    /// Shift a point by the camera position: view space into world space.
    pub open spec fn camera_to_world_spec(&self, pos: Vec3) -> Vec3 {
        Vec3 {
            x: (pos.x + self.position.x) as i64,
            y: (pos.y + self.position.y) as i64,
            z: (pos.z + self.position.z) as i64,
        }
    }

    /// Shift a point back by the camera position: world space into view
    /// space.
    pub open spec fn world_to_camera_spec(&self, world: Vec3) -> Vec3 {
        Vec3 {
            x: (world.x - self.position.x) as i64,
            y: (world.y - self.position.y) as i64,
            z: (world.z - self.position.z) as i64,
        }
    }

    /// The three color channels written for pixel `(x, y)`, before the
    /// constant alpha: black on a miss, the quantized shading on a hit.
    pub open spec fn pixel_color_spec(
        &self,
        objects: Seq<Object>,
        lights: Seq<PointLight>,
        amb: AmbientLight,
        cfg: ShadeConfig,
        x: int,
        y: int,
    ) -> (int, int, int) {
        let ray = self.pixel_ray_spec(x, y);
        match best_hit(objects, ray, objects.len() as int) {
            None => (0, 0, 0),
            Some((idx, h)) => {
                let col = shade_spec(
                    h.2,
                    vsub(self.position, h.1),
                    h.1,
                    lights,
                    objects[idx].material_spec(),
                    amb,
                    cfg,
                );
                (
                    tdiv(col.r * 255, SCALE as int),
                    tdiv(col.g * 255, SCALE as int),
                    tdiv(col.b * 255, SCALE as int),
                )
            },
        }
    }

    pub fn new(position: Vec3, rotation: Vec3, fov: i64, resolution: (u32, u32)) -> (c: Camera)
        requires
            position.in_range(COORD_MAX as int),
            0 < fov < DEG_180,
        ensures
            c.position == position,
            c.rotation == rotation,
            c.fov == fov,
            c.resolution == resolution,
            c.wf(),
    {
        Camera { position, rotation, fov, resolution }
    }

    pub fn set_resolution(&mut self, resolution: (u32, u32))
        ensures
            final(self).resolution == resolution,
            final(self).position == old(self).position,
            final(self).rotation == old(self).rotation,
            final(self).fov == old(self).fov,
    {
        self.resolution = resolution;
    }

    /// Convert a point from camera (view) space into world space
    /// (translation only).
    pub fn camera_to_world(&self, pos: Vec3) -> (w: Vec3)
        requires
            self.position.in_range(COORD_MAX as int),
            pos.in_range(COORD_MAX as int),
        ensures
            w == self.camera_to_world_spec(pos),
            w.x == pos.x + self.position.x,
            w.y == pos.y + self.position.y,
            w.z == pos.z + self.position.z,
    {
        pos.add(&self.position)
    }

    /// Convert a point from world space into camera (view) space (inverse
    /// translation only).
    pub fn world_to_camera(&self, world: Vec3) -> (c: Vec3)
        requires
            self.position.in_range(COORD_MAX as int),
            world.in_range(COORD_MAX as int),
        ensures
            c == self.world_to_camera_spec(world),
            c.x == world.x - self.position.x,
            c.y == world.y - self.position.y,
            c.z == world.z - self.position.z,
    {
        world.sub(&self.position)
    }

    /// Build the ray for pixel `(x, y)`.
    fn pixel_ray(&self, x: u32, y: u32) -> (ray: Ray)
        requires
            self.wf(),
            x < self.resolution.0,
            y < self.resolution.1,
        ensures
            ray == self.pixel_ray_spec(x as int, y as int),
            ray.origin == self.position,
            ray.direction.in_range(SCALE as int),
            ray.wf(),
    {
        let w: u32 = self.resolution.0;
        let h: u32 = self.resolution.1;
        let aspect: i128 = tdiv_i128((w as i128) * 65536, h as i128);
        proof {
            lemma_tdiv_nonneg(w as int * 65536, h as int);
            lemma_tdiv_bound(w as int * 65536, h as int, 281474976710656int);
            assert(w as int * 65536 <= 281474976710656int * h as int) by (nonlinear_arith)
                requires
                    w <= 0xffffffffu32,
                    h >= 1,
            ;
        }
        let half: i64 = ((self.fov as u64) / 2) as i64;
        proof {
            lemma_tdiv_nonneg(self.fov as int, 2);
        }
        let hh: i64 = tan_deg(half);
        proof {
            crate::fixed::lemma_mul_bounds_abs(aspect as int, hh as int, 281474976710656int,
                4294967296int);
            lemma_tdiv_bound(aspect as int * hh as int, 65536,
                18446744073709551616int);
        }
        let hw: i128 = tdiv_i128(aspect * (hh as i128), 65536);
        proof {
            lemma_tdiv_nonneg((2 * x as int + 1) * 65536, w as int);
            lemma_tdiv_bound((2 * x as int + 1) * 65536, w as int, 131072);
            assert((2 * x as int + 1) * 65536 <= 131072 * w as int) by (nonlinear_arith)
                requires
                    x < w,
            ;
            lemma_tdiv_nonneg((2 * y as int + 1) * 65536, h as int);
            lemma_tdiv_bound((2 * y as int + 1) * 65536, h as int, 131072);
            assert((2 * y as int + 1) * 65536 <= 131072 * h as int) by (nonlinear_arith)
                requires
                    y < h,
            ;
        }
        let sx: i128 = tdiv_i128((2 * (x as i128) + 1) * 65536, w as i128) - 65536;
        let sy: i128 = 65536 - tdiv_i128((2 * (y as i128) + 1) * 65536, h as i128);
        proof {
            crate::fixed::lemma_mul_bounds_abs(sx as int, hw as int, 65536,
                18446744073709551616int);
            lemma_tdiv_bound(sx as int * hw as int, 65536, 18446744073709551616int);
            crate::fixed::lemma_mul_bounds_abs(sy as int, hh as int, 65536, 4294967296int);
            lemma_tdiv_bound(sy as int * hh as int, 65536, 4294967296int);
        }
        let cx: i64 = clip_i128(tdiv_i128(sx * hw, 65536), -COORD_MAX, COORD_MAX);
        let cy: i64 = clip_i128(tdiv_i128(sy * (hh as i128), 65536), -COORD_MAX, COORD_MAX);
        let dir: Vec3 = Vec3 { x: cx, y: cy, z: SCALE }.normalized();
        Ray { origin: self.position, direction: dir }
    }

    /// Render a single pixel: cast its ray, find the nearest hit, shade it
    /// (or return black on a miss).
    pub fn render_pixel(
        &self,
        objects: &Vec<Object>,
        lights: &Vec<PointLight>,
        ambient_light: &AmbientLight,
        config: &ShadeConfig,
        x: u32,
        y: u32,
    ) -> (px: (u8, u8, u8))
        requires
            self.wf(),
            x < self.resolution.0,
            y < self.resolution.1,
            forall|i: int| 0 <= i < objects@.len() ==> objects@[i].wf(),
            forall|i: int| 0 <= i < lights@.len() ==> lights@[i].wf(),
            ambient_light.wf(),
            config.wf(),
        ensures
            ({
                let pc = self.pixel_color_spec(
                    objects@,
                    lights@,
                    *ambient_light,
                    *config,
                    x as int,
                    y as int,
                );
                px.0 == pc.0 && px.1 == pc.1 && px.2 == pc.2
            }),
    {
        let ray: Ray = self.pixel_ray(x, y);
        let mut best: Option<(usize, (i64, Vec3, Vec3))> = None;
        let mut i: usize = 0;
        while i < objects.len()
            invariant
                i <= objects@.len(),
                ray.wf(),
                forall|j: int| 0 <= j < objects@.len() ==> objects@[j].wf(),
                match best {
                    None => best_hit(objects@, ray, i as int) is None,
                    Some(b) => {
                        &&& best_hit(objects@, ray, i as int) == Some((b.0 as int, b.1))
                        &&& b.0 < i
                        &&& b.1.1.in_range(POINT_MAX as int)
                        &&& b.1.2.in_range(SCALE as int)
                    },
                },
            decreases objects@.len() - i,
        {
            let o: Object = objects[i];
            if let Some(h) = o.intersects(&ray) {
                let replace: bool = match &best {
                    None => true,
                    Some(b) => h.0 < b.1.0,
                };
                if replace {
                    best = Some((i, h));
                }
            }
            i = i + 1;
        }
        match best {
            None => (0, 0, 0),
            Some((bi, h)) => {
                let view: Vec3 = self.position.sub(&h.1);
                let mat: &Material = objects[bi].material();
                let col: Color = shade_multi_light(
                    h.2,
                    view,
                    h.1,
                    lights,
                    mat,
                    ambient_light,
                    config,
                );
                proof {
                    lemma_tdiv_nonneg(col.r as int * 255, 65536);
                    lemma_tdiv_nonneg(col.g as int * 255, 65536);
                    lemma_tdiv_nonneg(col.b as int * 255, 65536);
                    lemma_tdiv_bound(col.r as int * 255, 65536, 255);
                    lemma_tdiv_bound(col.g as int * 255, 65536, 255);
                    lemma_tdiv_bound(col.b as int * 255, 65536, 255);
                }
                let qr: u8 = ((col.r as u64) * 255 / 65536) as u8;
                let qg: u8 = ((col.g as u64) * 255 / 65536) as u8;
                let qb: u8 = ((col.b as u64) * 255 / 65536) as u8;
                (qr, qg, qb)
            },
        }
    }

    /// Render the whole scene into an RGBA8 byte buffer of length
    /// `width * height * 4`, row-major with the top row first; alpha is
    /// always 255, and a missed pixel is opaque black.
    pub fn render_scene(
        &self,
        objects: &Vec<Object>,
        lights: &Vec<PointLight>,
        ambient_light: &AmbientLight,
        config: &ShadeConfig,
    ) -> (buffer: Vec<u8>)
        requires
            self.wf(),
            forall|i: int| 0 <= i < objects@.len() ==> objects@[i].wf(),
            forall|i: int| 0 <= i < lights@.len() ==> lights@[i].wf(),
            ambient_light.wf(),
            config.wf(),
            (self.resolution.0 as int) * (self.resolution.1 as int) * 4 <= 0xffffffff,
        ensures
            buffer@.len() == 4 * (self.resolution.1 as int) * (self.resolution.0 as int),
            forall|xi: int, yi: int|
                0 <= xi < self.resolution.0 && 0 <= yi < self.resolution.1
                    ==> #[trigger] pixel_ok(
                    *self,
                    objects@,
                    lights@,
                    *ambient_light,
                    *config,
                    buffer@,
                    xi,
                    yi,
                ),
    {
        let w: u32 = self.resolution.0;
        let h: u32 = self.resolution.1;
        let mut buffer: Vec<u8> = Vec::new();
        let mut y: u32 = 0;
        while y < h
            invariant
                y <= h,
                w == self.resolution.0,
                h == self.resolution.1,
                self.wf(),
                forall|i: int| 0 <= i < objects@.len() ==> objects@[i].wf(),
                forall|i: int| 0 <= i < lights@.len() ==> lights@[i].wf(),
                ambient_light.wf(),
                config.wf(),
                (w as int) * (h as int) * 4 <= 0xffffffff,
                buffer@.len() == 4 * (y as int) * (w as int),
                forall|xi: int, yi: int|
                    0 <= xi < w && 0 <= yi < y ==> #[trigger] pixel_ok(
                        *self,
                        objects@,
                        lights@,
                        *ambient_light,
                        *config,
                        buffer@,
                        xi,
                        yi,
                    ),
            decreases h - y,
        {
            let mut x: u32 = 0;
            while x < w
                invariant
                    x <= w,
                    y < h,
                    w == self.resolution.0,
                    h == self.resolution.1,
                    self.wf(),
                    forall|i: int| 0 <= i < objects@.len() ==> objects@[i].wf(),
                    forall|i: int| 0 <= i < lights@.len() ==> lights@[i].wf(),
                    ambient_light.wf(),
                    config.wf(),
                    (w as int) * (h as int) * 4 <= 0xffffffff,
                    buffer@.len() == 4 * (y as int) * (w as int) + 4 * (x as int),
                    forall|xi: int, yi: int|
                        0 <= xi < w && 0 <= yi < y ==> #[trigger] pixel_ok(
                            *self,
                            objects@,
                            lights@,
                            *ambient_light,
                            *config,
                            buffer@,
                            xi,
                            yi,
                        ),
                    forall|xi: int|
                        0 <= xi < x ==> #[trigger] pixel_ok(
                            *self,
                            objects@,
                            lights@,
                            *ambient_light,
                            *config,
                            buffer@,
                            xi,
                            y as int,
                        ),
                decreases w - x,
            {
                let ghost prior: Seq<u8> = buffer@;
                let px = self.render_pixel(objects, lights, ambient_light, config, x, y);
                buffer.push(px.0);
                buffer.push(px.1);
                buffer.push(px.2);
                buffer.push(255);
                proof {
                    assert forall|xi: int, yi: int| 0 <= xi < w && 0 <= yi < y implies
                        #[trigger] pixel_ok(
                        *self,
                        objects@,
                        lights@,
                        *ambient_light,
                        *config,
                        buffer@,
                        xi,
                        yi,
                    ) by {
                        assert(pixel_ok(
                            *self,
                            objects@,
                            lights@,
                            *ambient_light,
                            *config,
                            prior,
                            xi,
                            yi,
                        ));
                        assert(4 * (yi * (w as int) + xi) + 3 < prior.len()) by (nonlinear_arith)
                            requires
                                0 <= xi < w as int,
                                0 <= yi < y as int,
                                prior.len() == 4 * (y as int) * (w as int) + 4 * (x as int),
                                0 <= x as int,
                        ;
                    }
                    assert forall|xi: int| 0 <= xi < x + 1 implies #[trigger] pixel_ok(
                        *self,
                        objects@,
                        lights@,
                        *ambient_light,
                        *config,
                        buffer@,
                        xi,
                        y as int,
                    ) by {
                        if xi < x {
                            assert(pixel_ok(
                                *self,
                                objects@,
                                lights@,
                                *ambient_light,
                                *config,
                                prior,
                                xi,
                                y as int,
                            ));
                            assert(4 * ((y as int) * (w as int) + xi) + 3 < prior.len())
                                by (nonlinear_arith)
                                requires
                                    0 <= xi < x as int,
                                    prior.len() == 4 * (y as int) * (w as int) + 4 * (x as int),
                            ;
                        } else {
                            assert(4 * ((y as int) * (w as int) + xi) == prior.len())
                                by (nonlinear_arith)
                                requires
                                    xi == x as int,
                                    prior.len() == 4 * (y as int) * (w as int) + 4 * (x as int),
                            ;
                            assert(buffer@[prior.len() as int] == px.0);
                            assert(buffer@[prior.len() as int + 1] == px.1);
                            assert(buffer@[prior.len() as int + 2] == px.2);
                            assert(buffer@[prior.len() as int + 3] == 255);
                        }
                    }
                    assert(buffer@.len() == 4 * (y as int) * (w as int) + 4 * (x as int + 1));
                }
                x = x + 1;
            }
            proof {
                assert(4 * ((y as int + 1)) * (w as int) == 4 * (y as int) * (w as int) + 4 * (
                w as int)) by (nonlinear_arith);
            }
            y = y + 1;
        }
        buffer
    }
}

} // verus!
