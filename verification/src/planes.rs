//! Infinite planes, and their ray intersection.
//!
//! A plane is the set of points `p` with `dot(p, normal) == distance`. A
//! ray exactly parallel to the plane (`dot(direction, normal) == 0`) never
//! hits: the parallel case is an explicit branch, not a division.

use std::sync::Arc;

use vstd::prelude::*;

use crate::fx::{div_m, sub_m, Fx, SCALE};
use crate::hit::{hit_opt_v, HitRecord, HitV};
use crate::material::Material;
use crate::ray::{ray_at_m, Ray, RayV};
use crate::vec3::{dot_m, v3_scale, Vec3, V3};

verus! {

/// The mathematical value of a plane.
pub ghost struct PlaneV {
    pub normal: V3,
    pub distance: int,
    pub mat: Material,
}

/// A plane with unit normal and signed distance from the origin.
#[derive(Clone, Debug)]
pub struct Plane {
    normal: Vec3,
    distance: Fx,
    mat: Arc<Material>,
}

impl View for Plane {
    type V = PlaneV;

    closed spec fn view(&self) -> PlaneV {
        PlaneV { normal: self.normal@, distance: self.distance@, mat: *self.mat }
    }
}

/// What `Plane::hit` returns: no hit when the ray is parallel to the
/// plane, else the single crossing parameter, rejected outside the open
/// window `(t_min, t_max)`. The record's normal is the plane's own,
/// flipped to oppose the ray.
pub open spec fn plane_hit_m(pl: PlaneV, r: RayV, t_min: int, t_max: int) -> Option<HitV> {
    let dn = dot_m(r.dir, pl.normal);
    if dn == 0 {
        None
    } else {
        let t = div_m(sub_m(pl.distance, dot_m(r.orig, pl.normal)), dn);
        if !(t_min < t && t < t_max) {
            None
        } else {
            let p = ray_at_m(r, t);
            let front = dot_m(r.dir, pl.normal) < 0;
            Some(
                HitV {
                    p,
                    normal: if front {
                        pl.normal
                    } else {
                        v3_scale(pl.normal, -(SCALE as int))
                    },
                    mat: pl.mat,
                    t,
                    front_face: front,
                },
            )
        }
    }
}

impl Plane {
    pub fn new(normal: Vec3, d: Fx, m: Arc<Material>) -> (r: Plane)
        ensures
            r@ == (PlaneV { normal: normal@, distance: d@, mat: *m }),
    {
        Plane { normal, distance: d, mat: m }
    }

    /// The crossing with parameter strictly inside `(t_min, t_max)`, or
    /// nothing; a parallel ray never hits.
    pub fn hit(&self, r: &Ray, t_min: Fx, t_max: Fx) -> (res: Option<HitRecord>)
        ensures
            hit_opt_v(res) == plane_hit_m(self@, r@, t_min@, t_max@),
    {
        let dn = r.direction().dot(self.normal);
        if dn.m == 0 {
            return None;
        }
        let t = self.distance.sub(r.origin().dot(self.normal)).div(dn);
        if !(t_min.lt(t) && t.lt(t_max)) {
            return None;
        }
        let p = r.at(t);
        let mut rec = HitRecord {
            t,
            p,
            mat: self.mat.clone(),
            normal: self.normal,
            front_face: false,
        };
        rec.set_face_normal(r, self.normal);
        Some(rec)
    }
}

/// A hit's parameter always lies strictly inside the queried window.
pub proof fn lemma_plane_hit_in_window(pl: PlaneV, r: RayV, t_min: int, t_max: int)
    ensures
        plane_hit_m(pl, r, t_min, t_max) matches Some(h) ==> t_min < h.t < t_max,
{
}

/// Windowing law of the plane test: shrinking the upper bound keeps a hit
/// exactly when its parameter still lies inside the smaller window, and
/// can never create a hit.
pub proof fn lemma_plane_hit_window(pl: PlaneV, r: RayV, t_min: int, c: int, t_max: int)
    requires
        c <= t_max,
    ensures
        match plane_hit_m(pl, r, t_min, t_max) {
            Some(h) => plane_hit_m(pl, r, t_min, c) == if h.t < c {
                Some(h)
            } else {
                None::<HitV>
            },
            None => plane_hit_m(pl, r, t_min, c) is None,
        },
{
}

} // verus!
