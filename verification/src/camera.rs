//! The pinhole camera and the shading recursion.
//!
//! The camera is a pure value: from look-from, look-at, up, vertical field
//! of view (degrees), aspect ratio and background color it derives an
//! orthonormal basis, the viewport vectors and the lower-left corner of
//! the image plane, all at construction time. The tangent of the half
//! field of view is computed by a truncated Taylor series for sine and
//! cosine; the contracts state the computed series exactly, at the
//! mantissa level.

use vstd::prelude::*;

use crate::fx::{add_m, div_int_m, div_m, mul_m, sub_m, Fx, MAX_M, SCALE};
use crate::hit::{list_hit_m, HittableList};
use crate::material::{black_v, emitted_m, metal_scatter_m, Material};
use crate::ray::{Ray, RayV};
use crate::vec3::{
    cross_m, ls_m, v3_add, v3_div_scalar, v3_normalized, v3_scale, v3_sub, Color, Point3, Vec3,
    V3,
};

verus! {

/// Mantissa of one degree in radians: `pi / 180`, rounded.
pub const RAD_PER_DEG_M: i64 = 17_453;

/// Shadow-acne epsilon: hits closer than this along the ray are ignored.
pub const ACNE_M: i64 = 1_000;

/// What the truncated sine series computes, term by term.
pub open spec fn sin_taylor_m(x: int) -> int {
    let x2 = mul_m(x, x);
    let t3 = div_int_m(mul_m(x, x2), 6);
    let t5 = div_int_m(mul_m(t3, x2), 20);
    let t7 = div_int_m(mul_m(t5, x2), 42);
    let t9 = div_int_m(mul_m(t7, x2), 72);
    add_m(sub_m(add_m(sub_m(x, t3), t5), t7), t9)
}

/// What the truncated cosine series computes, term by term.
pub open spec fn cos_taylor_m(x: int) -> int {
    let x2 = mul_m(x, x);
    let t2 = div_int_m(x2, 2);
    let t4 = div_int_m(mul_m(t2, x2), 12);
    let t6 = div_int_m(mul_m(t4, x2), 30);
    let t8 = div_int_m(mul_m(t6, x2), 56);
    add_m(sub_m(add_m(sub_m(SCALE as int, t2), t4), t6), t8)
}

/// The quotient of the two series; a cosine that rounds to exactly zero is
/// nudged to one mantissa step so the division is defined.
pub open spec fn tan_taylor_m(x: int) -> int {
    let s = sin_taylor_m(x);
    let c = cos_taylor_m(x);
    div_m(s, if c == 0 { 1 } else { c })
}

fn sin_taylor(x: Fx) -> (r: Fx)
    ensures
        r@ == sin_taylor_m(x@),
{
    let x2 = x.mul(x);
    let t3 = x.mul(x2).div_int(6);
    let t5 = t3.mul(x2).div_int(20);
    let t7 = t5.mul(x2).div_int(42);
    let t9 = t7.mul(x2).div_int(72);
    x.sub(t3).add(t5).sub(t7).add(t9)
}

fn cos_taylor(x: Fx) -> (r: Fx)
    ensures
        r@ == cos_taylor_m(x@),
{
    let x2 = x.mul(x);
    let t2 = x2.div_int(2);
    let t4 = t2.mul(x2).div_int(12);
    let t6 = t4.mul(x2).div_int(30);
    let t8 = t6.mul(x2).div_int(56);
    Fx::from_millionths(SCALE).sub(t2).add(t4).sub(t6).add(t8)
}

fn tan_taylor(x: Fx) -> (r: Fx)
    ensures
        r@ == tan_taylor_m(x@),
{
    let s = sin_taylor(x);
    let c = cos_taylor(x);
    let c = if c.m == 0 {
        Fx::from_millionths(1)
    } else {
        c
    };
    s.div(c)
}

/// The mathematical value of a camera.
pub ghost struct CameraV {
    pub origin: V3,
    pub lower_left_corner: V3,
    pub horizontal: V3,
    pub vertical: V3,
    pub background: V3,
}

/// What `Camera::new` derives from its parameters.
pub open spec fn camera_m(
    lookfrom: V3,
    lookat: V3,
    vup: V3,
    vfov: int,
    aspect_ratio: int,
    background: V3,
) -> CameraV {
    let theta = mul_m(RAD_PER_DEG_M as int, vfov);
    let h = tan_taylor_m(div_int_m(theta, 2));
    let viewport_height = mul_m(2 * SCALE as int, h);
    let viewport_width = mul_m(aspect_ratio, viewport_height);
    let cw = v3_normalized(v3_sub(lookfrom, lookat));
    let cu = v3_normalized(cross_m(vup, cw));
    let cv = cross_m(cw, cu);
    let horizontal = v3_scale(cu, viewport_width);
    let vertical = v3_scale(cv, viewport_height);
    let lower_left_corner = v3_sub(
        v3_sub(v3_sub(lookfrom, v3_div_scalar(horizontal, 2 * SCALE as int)), v3_div_scalar(
            vertical,
            2 * SCALE as int,
        )),
        cw,
    );
    CameraV { origin: lookfrom, lower_left_corner, horizontal, vertical, background }
}

/// The primary ray through normalized image-plane coordinates `(s, t)`.
pub open spec fn get_ray_m(cam: CameraV, s: int, t: int) -> RayV {
    RayV {
        orig: cam.origin,
        dir: v3_sub(
            v3_add(
                v3_add(cam.lower_left_corner, v3_scale(cam.horizontal, s)),
                v3_scale(cam.vertical, t),
            ),
            cam.origin,
        ),
    }
}

/// A pinhole camera, immutable once constructed.
pub struct Camera {
    origin: Point3,
    lower_left_corner: Point3,
    horizontal: Vec3,
    vertical: Vec3,
    background: Color,
}

impl View for Camera {
    type V = CameraV;

    closed spec fn view(&self) -> CameraV {
        CameraV {
            origin: self.origin@,
            lower_left_corner: self.lower_left_corner@,
            horizontal: self.horizontal@,
            vertical: self.vertical@,
            background: self.background@,
        }
    }
}

impl Camera {
    /// Derive the camera from its parameters. Look-from and look-at must be
    /// distinct, and the up vector must not be parallel to the view
    /// direction: both normalizations are degenerate otherwise.
    pub fn new(
        lookfrom: Point3,
        lookat: Point3,
        vup: Vec3,
        vfov: Fx,
        aspect_ratio: Fx,
        background: Color,
    ) -> (r: Camera)
        requires
            ls_m(v3_sub(lookfrom@, lookat@)) >= 1,
            ls_m(cross_m(vup@, v3_normalized(v3_sub(lookfrom@, lookat@)))) >= 1,
        ensures
            r@ == camera_m(lookfrom@, lookat@, vup@, vfov@, aspect_ratio@, background@),
    {
        let theta = Fx::from_millionths(RAD_PER_DEG_M).mul(vfov);
        let h = tan_taylor(theta.div_int(2));
        let viewport_height = Fx::from_millionths(2 * SCALE).mul(h);
        let viewport_width = aspect_ratio.mul(viewport_height);
        let cw = lookfrom.sub(lookat).normalized();
        let cu = vup.cross(cw).normalized();
        let cv = cw.cross(cu);
        let horizontal = cu.scale(viewport_width);
        let vertical = cv.scale(viewport_height);
        let two = Fx::from_millionths(2 * SCALE);
        let lower_left_corner = lookfrom.sub(horizontal.div_scalar(two)).sub(
            vertical.div_scalar(two),
        ).sub(cw);
        Camera { origin: lookfrom, lower_left_corner, horizontal, vertical, background }
    }

    pub fn get_ray(&self, s: Fx, t: Fx) -> (r: Ray)
        ensures
            r@ == get_ray_m(self@, s@, t@),
    {
        Ray::new(
            self.origin,
            self.lower_left_corner.add(self.horizontal.scale(s)).add(self.vertical.scale(t)).sub(
                self.origin,
            ),
        )
    }

    /// The recursive shading evaluation. An exhausted bounce budget yields
    /// black; a miss yields the background; a hit adds the material's
    /// emission to the attenuated color of the scattered ray, if any.
    pub fn ray_color(&self, r: &Ray, world: &HittableList, depth: u64) -> (res: Color)
        ensures
            depth == 0 ==> res@ == black_v(),
            depth > 0 && list_hit_m(world.objects_v(), r@, ACNE_M as int, MAX_M as int) is None
                ==> res@ == self@.background,
            depth > 0 ==> (list_hit_m(world.objects_v(), r@, ACNE_M as int, MAX_M as int)
                matches Some(h) ==> {
                &&& h.mat is DiffuseLight ==> res@ == emitted_m(h.mat)
                &&& (h.mat matches Material::Metal(mt) && metal_scatter_m(
                    mt.albedo_v(),
                    r@,
                    h.p,
                    h.normal,
                ) is None) ==> res@ == emitted_m(h.mat)
            }),
        decreases depth,
    {
        if depth == 0 {
            return Color::new(
                Fx::from_millionths(0),
                Fx::from_millionths(0),
                Fx::from_millionths(0),
            );
        }
        match world.hit(r, Fx::from_millionths(ACNE_M), Fx::from_millionths(MAX_M)) {
            Some(rec) => {
                let color_from_emission = rec.mat.emitted();
                match rec.mat.scatter(r, &rec) {
                    Some((attenuation, scattered)) => {
                        let color_from_scatter = attenuation.mul_elem(
                            self.ray_color(&scattered, world, depth - 1),
                        );
                        color_from_emission.add(color_from_scatter)
                    },
                    None => color_from_emission,
                }
            },
            None => self.background,
        }
    }
}

} // verus!
