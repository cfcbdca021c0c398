//! Rays: an origin plus a direction, evaluated at a parameter `t`.

use vstd::prelude::*;

use crate::fx::Fx;
use crate::packed::Reg4;
use crate::vec3::{v3_add, v3_scale, Point3, Vec3, V3};

verus! {

/// The mathematical value of a ray.
pub ghost struct RayV {
    pub orig: V3,
    pub dir: V3,
}

/// A ray `orig + t * dir`; the direction need not be normalized.
#[derive(Clone, Copy, PartialEq, Eq, Structural, Debug)]
pub struct Ray {
    orig: Point3,
    dir: Vec3,
}

impl View for Ray {
    type V = RayV;

    closed spec fn view(&self) -> RayV {
        RayV { orig: self.orig@, dir: self.dir@ }
    }
}

/// The point `orig + t * dir`.
pub open spec fn ray_at_m(r: RayV, t: int) -> V3 {
    v3_add(r.orig, v3_scale(r.dir, t))
}

impl Ray {
    pub fn new(origin: Point3, direction: Vec3) -> (r: Ray)
        ensures
            r@ == (RayV { orig: origin@, dir: direction@ }),
    {
        Ray { orig: origin, dir: direction }
    }

    pub fn origin(&self) -> (r: Point3)
        ensures
            r@ == self@.orig,
    {
        self.orig
    }

    pub fn direction(&self) -> (r: Vec3)
        ensures
            r@ == self@.dir,
    {
        self.dir
    }

    /// The point reached after travelling `t` along the direction.
    pub fn at(&self, t: Fx) -> (r: Point3)
        ensures
            r@ == ray_at_m(self@, t@),
    {
        self.orig.add(self.dir.scale(t))
    }

    /// The same point as `at`, computed by the packed strategy.
    pub fn reg_at(&self, t: Fx) -> (r: Point3)
        ensures
            r@ == ray_at_m(self@, t@),
    {
        Vec3::from_reg(self.orig.to_reg().add(self.dir.to_reg().mul(Reg4::splat(t))))
    }
}

} // verus!
