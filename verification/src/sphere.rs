//! Spheres, and their ray intersection by the quadratic formula.

use std::sync::Arc;

use vstd::prelude::*;

use crate::aabb::{corner_iv, Aabb, AabbV};
use crate::fx::{add_m, div_m, fx_sqrt_m, is_sqrt, mul_m, neg_m, sub_m, Fx, SCALE};
use crate::hit::{hit_opt_v, HitRecord, HitV};
use crate::material::Material;
use crate::packed::Reg4;
use crate::ray::{ray_at_m, Ray, RayV};
use crate::vec3::{dot_m, len_m, ls_m, v3_div_scalar, v3_scale, v3_sub, Point3, Vec3, V3};

verus! {

/// The mathematical value of a sphere.
pub ghost struct SphereV {
    pub center: V3,
    pub radius: int,
    pub mat: Material,
}

/// A sphere of positive radius around a center, with a shared material.
#[derive(Debug)]
pub struct Sphere {
    center: Point3,
    radius: Fx,
    mat: Arc<Material>,
}

impl View for Sphere {
    type V = SphereV;

    closed spec fn view(&self) -> SphereV {
        SphereV { center: self.center@, radius: self.radius@, mat: *self.mat }
    }
}

/// What `Sphere::hit` returns: solve `a t^2 + 2 half_b t + c = 0`, take the
/// smaller root first, fall back to the larger one, reject roots outside
/// the open window `(t_min, t_max)`. A direction whose squared length
/// rounds to zero is treated as hitting nothing: the quadratic would be
/// degenerate. The outward normal is `(p - center) / radius`, then flipped
/// to oppose the ray.
pub open spec fn sphere_hit_m(s: SphereV, r: RayV, t_min: int, t_max: int) -> Option<HitV> {
    let a = ls_m(r.dir);
    if a == 0 {
        None
    } else {
        let oc = v3_sub(r.orig, s.center);
        let half_b = dot_m(oc, r.dir);
        let c = sub_m(ls_m(oc), mul_m(s.radius, s.radius));
        let disc = sub_m(mul_m(half_b, half_b), mul_m(a, c));
        if disc < 0 {
            None
        } else {
            let sqrtd = fx_sqrt_m(disc);
            let r1 = div_m(sub_m(neg_m(half_b), sqrtd), a);
            let r2 = div_m(add_m(neg_m(half_b), sqrtd), a);
            let root = if t_min < r1 && r1 < t_max {
                r1
            } else {
                r2
            };
            if !(t_min < root && root < t_max) {
                None
            } else {
                let p = ray_at_m(r, root);
                let outward = v3_div_scalar(v3_sub(p, s.center), s.radius);
                let front = dot_m(r.dir, outward) < 0;
                Some(
                    HitV {
                        p,
                        normal: if front {
                            outward
                        } else {
                            v3_scale(outward, -(SCALE as int))
                        },
                        mat: s.mat,
                        t: root,
                        front_face: front,
                    },
                )
            }
        }
    }
}

/// The box spanned by `center - r` and `center + r` on every axis.
pub open spec fn sphere_bbox_m(s: SphereV) -> AabbV {
    AabbV {
        x: corner_iv(sub_m(s.center.x, s.radius), add_m(s.center.x, s.radius)),
        y: corner_iv(sub_m(s.center.y, s.radius), add_m(s.center.y, s.radius)),
        z: corner_iv(sub_m(s.center.z, s.radius), add_m(s.center.z, s.radius)),
    }
}

impl Sphere {
    #[verifier::type_invariant]
    pub closed spec fn wf(self) -> bool {
        self.radius@ > 0
    }

    /// A sphere must have a positive radius: the intersection math divides
    /// by it, and a degenerate sphere is rejected at construction.
    pub fn new(cen: Point3, rad: Fx, m: Arc<Material>) -> (r: Sphere)
        requires
            rad@ > 0,
        ensures
            r@ == (SphereV { center: cen@, radius: rad@, mat: *m }),
    {
        Sphere { center: cen, radius: rad, mat: m }
    }

    /// The nearest intersection with parameter strictly inside
    /// `(t_min, t_max)`, or nothing.
    pub fn hit(&self, r: &Ray, t_min: Fx, t_max: Fx) -> (res: Option<HitRecord>)
        ensures
            hit_opt_v(res) == sphere_hit_m(self@, r@, t_min@, t_max@),
    {
        proof {
            use_type_invariant(self);
        }
        let a = r.direction().length_squared();
        if a.m == 0 {
            return None;
        }
        let oc = r.origin().sub(self.center);
        let half_b = oc.dot(r.direction());
        let c = oc.length_squared().sub(self.radius.mul(self.radius));
        let disc = half_b.mul(half_b).sub(a.mul(c));
        if disc.m < 0 {
            return None;
        }
        let sqrtd = disc.sqrt();
        let mut root = half_b.neg().sub(sqrtd).div(a);
        if !(t_min.lt(root) && root.lt(t_max)) {
            root = half_b.neg().add(sqrtd).div(a);
            if !(t_min.lt(root) && root.lt(t_max)) {
                return None;
            }
        }
        let p = r.at(root);
        let mut rec = HitRecord {
            t: root,
            p,
            mat: self.mat.clone(),
            normal: Vec3::new(
                Fx::from_millionths(0),
                Fx::from_millionths(0),
                Fx::from_millionths(0),
            ),
            front_face: false,
        };
        let outward_normal = p.sub(self.center).div_scalar(self.radius);
        rec.set_face_normal(r, outward_normal);
        Some(rec)
    }

    /// The same intersection as `hit`, evaluated by the packed strategy:
    /// differences, dot products and the normal's division run on packed
    /// lanes, against the same specification.
    pub fn reg_hit(&self, r: &Ray, t_min: Fx, t_max: Fx) -> (res: Option<HitRecord>)
        ensures
            hit_opt_v(res) == sphere_hit_m(self@, r@, t_min@, t_max@),
    {
        proof {
            use_type_invariant(self);
        }
        let dreg = r.direction().to_reg();
        let a = dreg.dp3(dreg);
        if a.m == 0 {
            return None;
        }
        let oc = Vec3::from_reg(r.origin().to_reg().sub(self.center.to_reg()));
        let half_b = oc.to_reg().dp3(dreg);
        let c = oc.to_reg().dp3(oc.to_reg()).sub(self.radius.mul(self.radius));
        let disc = half_b.mul(half_b).sub(a.mul(c));
        if disc.m < 0 {
            return None;
        }
        let sqrtd = disc.sqrt();
        let mut root = half_b.neg().sub(sqrtd).div(a);
        if !(t_min.lt(root) && root.lt(t_max)) {
            root = half_b.neg().add(sqrtd).div(a);
            if !(t_min.lt(root) && root.lt(t_max)) {
                return None;
            }
        }
        let p = r.reg_at(root);
        let mut rec = HitRecord {
            t: root,
            p,
            mat: self.mat.clone(),
            normal: Vec3::new(
                Fx::from_millionths(0),
                Fx::from_millionths(0),
                Fx::from_millionths(0),
            ),
            front_face: false,
        };
        let outward_normal = Vec3::from_reg(
            p.to_reg().sub(self.center.to_reg()).div_scalar(self.radius),
        );
        rec.reg_set_face_normal(r, outward_normal);
        Some(rec)
    }

    /// The box spanned by `center - r` and `center + r` on every axis.
    pub fn bounding_box(&self) -> (r: Aabb)
        ensures
            r@ == sphere_bbox_m(self@),
    {
        let rvec = Vec3::new(self.radius, self.radius, self.radius);
        Aabb::new(self.center.sub(rvec), self.center.add(rvec))
    }
}

/// On a ray along the sphere's diameter the two crossings lie at
/// `distance - r` and `distance + r`: the near one is returned, the far
/// one once the window excludes the near one, and either hit point lies
/// exactly at distance `r` from the center. Stated for radii and
/// distances in whole thousandths of a unit, where every step of the
/// fixed-point intersection math is exact.
pub proof fn lemma_sphere_hit_on_diameter(s: SphereV, r: RayV, dist: int, t_min: int, t_max: int)
    requires
        s.radius % 1000 == 0,
        dist % 1000 == 0,
        0 < s.radius < dist <= 1_000_000_000_000,
        -(crate::fx::MAX_M as int) <= s.center.x <= crate::fx::MAX_M as int,
        -(crate::fx::MAX_M as int) <= s.center.y <= crate::fx::MAX_M as int,
        -1_000_000_000_000 <= s.center.z <= 1_000_000_000_000,
        v3_sub(r.orig, s.center) == (V3 { x: 0, y: 0, z: dist }),
        r.dir == (V3 { x: 0, y: 0, z: -(SCALE as int) }),
    ensures
        t_min < dist - s.radius < t_max ==> (sphere_hit_m(s, r, t_min, t_max) matches Some(h)
            && h.t == dist - s.radius && len_m(v3_sub(h.p, s.center)) == s.radius),
        !(t_min < dist - s.radius < t_max) && t_min < dist + s.radius < t_max ==> (sphere_hit_m(
            s,
            r,
            t_min,
            t_max,
        ) matches Some(h) && h.t == dist + s.radius && len_m(v3_sub(h.p, s.center)) == s.radius),
{
    let rad = s.radius;
    let k = dist / 1000;
    let j = rad / 1000;
    vstd::arithmetic::div_mod::lemma_fundamental_div_mod(dist, 1000);
    vstd::arithmetic::div_mod::lemma_fundamental_div_mod(rad, 1000);
    assert(dist == 1000 * k && rad == 1000 * j);
    assert(0 < j < k <= 1_000_000_000) by (nonlinear_arith)
        requires
            dist == 1000 * k,
            rad == 1000 * j,
            0 < rad < dist <= 1_000_000_000_000,
    ;
    // the quadratic's coefficients, all exact
    crate::fx::lemma_fdiv_mul_exact(0, SCALE as int);
    assert(mul_m(0, 0) == 0);
    assert((-(SCALE as int)) * (-(SCALE as int)) == (SCALE as int) * (SCALE as int))
        by (nonlinear_arith);
    crate::fx::lemma_fdiv_mul_exact(SCALE as int, SCALE as int);
    assert(ls_m(r.dir) == SCALE as int);
    let oc = v3_sub(r.orig, s.center);
    assert(dist * (-(SCALE as int)) == (-dist) * (SCALE as int)) by (nonlinear_arith);
    crate::fx::lemma_fdiv_mul_exact(-dist, SCALE as int);
    assert(dot_m(oc, r.dir) == -dist);
    assert(dist * dist == (k * k) * (SCALE as int) && (-dist) * (-dist) == (k * k) * (
    SCALE as int) && 0 <= k * k <= 1_000_000_000_000_000_000) by (nonlinear_arith)
        requires
            dist == 1000 * k,
            0 < k <= 1_000_000_000,
    ;
    crate::fx::lemma_fdiv_mul_exact(k * k, SCALE as int);
    assert(ls_m(oc) == k * k);
    assert(mul_m(-dist, -dist) == k * k);
    assert(rad * rad == (j * j) * (SCALE as int) && 0 <= j * j <= 1_000_000_000_000_000_000)
        by (nonlinear_arith)
        requires
            rad == 1000 * j,
            0 < j <= 1_000_000_000,
    ;
    crate::fx::lemma_fdiv_mul_exact(j * j, SCALE as int);
    assert(mul_m(rad, rad) == j * j);
    let cc = sub_m(ls_m(oc), mul_m(rad, rad));
    assert(cc == k * k - j * j);
    assert((SCALE as int) * cc == cc * (SCALE as int)) by (nonlinear_arith);
    crate::fx::lemma_fdiv_mul_exact(cc, SCALE as int);
    assert(mul_m(SCALE as int, cc) == cc);
    let disc = sub_m(mul_m(-dist, -dist), mul_m(SCALE as int, cc));
    assert(disc == j * j);
    // the discriminant is a perfect square, so its root is exact
    assert((1000 * j) * (1000 * j) == (j * j) * (SCALE as int) && (j * j) * (SCALE as int) < (
    1000 * j + 1) * (1000 * j + 1)) by (nonlinear_arith)
        requires
            0 < j,
    ;
    assert(is_sqrt((j * j) * (SCALE as int), 1000 * j));
    crate::fx::lemma_sqrt_exists((j * j) * (SCALE as int));
    crate::fx::lemma_sqrt_unique(
        (j * j) * (SCALE as int),
        crate::fx::sqrt_m((j * j) * (SCALE as int)),
        1000 * j,
    );
    assert(fx_sqrt_m(disc) == rad);
    // both roots are exact
    assert(neg_m(-dist) == dist);
    assert((dist - rad) * (SCALE as int) == (dist - rad) * (SCALE as int));
    crate::fx::lemma_fdiv_mul_exact(dist - rad, SCALE as int);
    assert(div_m(sub_m(dist, rad), SCALE as int) == dist - rad);
    crate::fx::lemma_fdiv_mul_exact(dist + rad, SCALE as int);
    assert(div_m(add_m(dist, rad), SCALE as int) == dist + rad);
    // whichever root is taken, the hit point lies exactly on the sphere
    let root1 = dist - rad;
    let root2 = dist + rad;
    assert((-(SCALE as int)) * root1 == (-root1) * (SCALE as int) && (-(SCALE as int)) * root2
        == (-root2) * (SCALE as int)) by (nonlinear_arith);
    crate::fx::lemma_fdiv_mul_exact(-root1, SCALE as int);
    crate::fx::lemma_fdiv_mul_exact(-root2, SCALE as int);
    assert(mul_m(0, root1) == 0 && mul_m(0, root2) == 0);
    assert(mul_m(-(SCALE as int), root1) == -root1);
    assert(mul_m(-(SCALE as int), root2) == -root2);
    let p1 = ray_at_m(r, root1);
    let p2 = ray_at_m(r, root2);
    assert(v3_sub(p1, s.center) == (V3 { x: 0, y: 0, z: rad }));
    assert(v3_sub(p2, s.center) == (V3 { x: 0, y: 0, z: -rad }));
    assert((-rad) * (-rad) == (j * j) * (SCALE as int)) by (nonlinear_arith)
        requires
            rad == 1000 * j,
    ;
    assert(mul_m(rad, rad) == j * j && mul_m(-rad, -rad) == j * j);
    assert(ls_m(V3 { x: 0, y: 0, z: rad }) == j * j);
    assert(ls_m(V3 { x: 0, y: 0, z: -rad }) == j * j);
    assert(len_m(v3_sub(p1, s.center)) == rad);
    assert(len_m(v3_sub(p2, s.center)) == rad);
}

/// A hit's parameter always lies strictly inside the queried window.
pub proof fn lemma_sphere_hit_in_window(s: SphereV, r: RayV, t_min: int, t_max: int)
    ensures
        sphere_hit_m(s, r, t_min, t_max) matches Some(h) ==> t_min < h.t < t_max,
{
}

/// Windowing law of the quadratic test: shrinking the upper bound keeps a
/// hit exactly when its parameter still lies inside the smaller window,
/// and can never create a hit.
pub proof fn lemma_sphere_hit_window(s: SphereV, r: RayV, t_min: int, c: int, t_max: int)
    requires
        c <= t_max,
    ensures
        match sphere_hit_m(s, r, t_min, t_max) {
            Some(h) => sphere_hit_m(s, r, t_min, c) == if h.t < c {
                Some(h)
            } else {
                None::<HitV>
            },
            None => sphere_hit_m(s, r, t_min, c) is None,
        },
{
    let a = ls_m(r.dir);
    if a != 0 {
        crate::vec3::lemma_ls_nonneg(r.dir);
        let oc = v3_sub(r.orig, s.center);
        let half_b = dot_m(oc, r.dir);
        let cc = sub_m(ls_m(oc), mul_m(s.radius, s.radius));
        let disc = sub_m(mul_m(half_b, half_b), mul_m(a, cc));
        if disc >= 0 {
            crate::fx::lemma_fx_sqrt_nonneg(disc);
            let sqrtd = fx_sqrt_m(disc);
            let n1 = sub_m(neg_m(half_b), sqrtd);
            let n2 = add_m(neg_m(half_b), sqrtd);
            crate::fx::lemma_div_m_ordered(n1, n2, a);
        }
    }
}

} // verus!
