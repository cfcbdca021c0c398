//! Hit records and the scene aggregate.
//!
//! A `HitRecord` is the ephemeral result of one ray/primitive intersection.
//! The primitive set is closed, so the aggregate stores a tagged
//! enumeration of primitives and intersects by linear scan, keeping the
//! closest hit found so far.

use std::sync::Arc;

use vstd::prelude::*;

use crate::aabb::{aabb_union, Aabb, AabbV};
use crate::fx::{Fx, SCALE};
use crate::material::Material;
use crate::packed::Reg4;
use crate::planes::{plane_hit_m, Plane};
use crate::ray::{Ray, RayV};
use crate::sphere::{sphere_hit_m, Sphere};
use crate::vec3::{dot_m, v3_scale, Point3, Vec3, V3};

verus! {

/// The mathematical value of a hit record.
pub ghost struct HitV {
    pub p: V3,
    pub normal: V3,
    pub mat: Material,
    pub t: int,
    pub front_face: bool,
}

/// The result of a successful ray/primitive intersection: point, oriented
/// unit normal, material handle, ray parameter, and which side was struck.
#[derive(Clone, Debug)]
pub struct HitRecord {
    pub p: Point3,
    pub normal: Vec3,
    pub mat: Arc<Material>,
    pub t: Fx,
    pub front_face: bool,
}

impl View for HitRecord {
    type V = HitV;

    open spec fn view(&self) -> HitV {
        HitV {
            p: self.p@,
            normal: self.normal@,
            mat: *self.mat,
            t: self.t@,
            front_face: self.front_face,
        }
    }
}

/// The hit record behind an optional result, if any.
pub open spec fn hit_opt_v(o: Option<HitRecord>) -> Option<HitV> {
    match o {
        Some(h) => Some(h@),
        None => None,
    }
}

impl HitRecord {
    /// Record whether the ray struck the front face, and flip the geometric
    /// normal so that it always opposes the incoming ray.
    pub fn set_face_normal(&mut self, ray: &Ray, outward_normal: Vec3)
        ensures
            final(self).front_face == (dot_m(ray@.dir, outward_normal@) < 0),
            final(self).normal@ == if dot_m(ray@.dir, outward_normal@) < 0 {
                outward_normal@
            } else {
                v3_scale(outward_normal@, -(SCALE as int))
            },
            final(self).p == old(self).p,
            final(self).mat == old(self).mat,
            final(self).t == old(self).t,
    {
        self.front_face = ray.direction().dot(outward_normal).lt(Fx::from_millionths(0));
        self.normal = if self.front_face {
            outward_normal
        } else {
            outward_normal.scale(Fx::from_millionths(-SCALE))
        };
    }

    /// The packed strategy's form of `set_face_normal`: the same contract,
    /// with the dot product and the flip evaluated on packed lanes.
    pub fn reg_set_face_normal(&mut self, ray: &Ray, outward_normal: Vec3)
        ensures
            final(self).front_face == (dot_m(ray@.dir, outward_normal@) < 0),
            final(self).normal@ == if dot_m(ray@.dir, outward_normal@) < 0 {
                outward_normal@
            } else {
                v3_scale(outward_normal@, -(SCALE as int))
            },
            final(self).p == old(self).p,
            final(self).mat == old(self).mat,
            final(self).t == old(self).t,
    {
        self.front_face = ray.direction().to_reg().dp3(outward_normal.to_reg()).lt(
            Fx::from_millionths(0),
        );
        self.normal = if self.front_face {
            outward_normal
        } else {
            Vec3::from_reg(outward_normal.to_reg().mul(Reg4::splat(Fx::from_millionths(-SCALE))))
        };
    }
}

/// A member of the closed primitive set.
#[derive(Debug)]
pub enum Primitive {
    Sphere(Sphere),
    Plane(Plane),
}

/// What intersecting one primitive returns.
pub open spec fn prim_hit_m(p: Primitive, r: RayV, t_min: int, t_max: int) -> Option<HitV> {
    match p {
        Primitive::Sphere(s) => sphere_hit_m(s@, r, t_min, t_max),
        Primitive::Plane(pl) => plane_hit_m(pl@, r, t_min, t_max),
    }
}

/// The bounding box of a primitive; a plane is unbounded and has none.
pub open spec fn prim_bbox_m(p: Primitive) -> Option<AabbV> {
    match p {
        Primitive::Sphere(s) => Some(crate::sphere::sphere_bbox_m(s@)),
        Primitive::Plane(_) => None,
    }
}

impl Primitive {
    /// The nearest intersection strictly inside `(t_min, t_max)`, or nothing.
    pub fn hit(&self, r: &Ray, t_min: Fx, t_max: Fx) -> (res: Option<HitRecord>)
        ensures
            hit_opt_v(res) == prim_hit_m(*self, r@, t_min@, t_max@),
    {
        match self {
            Primitive::Sphere(s) => s.hit(r, t_min, t_max),
            Primitive::Plane(pl) => pl.hit(r, t_min, t_max),
        }
    }

    /// The packed strategy's intersection: a sphere runs on packed lanes;
    /// a plane has only the scalar path, as in the kernel's vector variant.
    pub fn reg_hit(&self, r: &Ray, t_min: Fx, t_max: Fx) -> (res: Option<HitRecord>)
        ensures
            hit_opt_v(res) == prim_hit_m(*self, r@, t_min@, t_max@),
    {
        match self {
            Primitive::Sphere(s) => s.reg_hit(r, t_min, t_max),
            Primitive::Plane(pl) => pl.hit(r, t_min, t_max),
        }
    }

    pub fn bounding_box(&self) -> (res: Option<Aabb>)
        ensures
            match res {
                Some(b) => prim_bbox_m(*self) == Some(b@),
                None => prim_bbox_m(*self) is None,
            },
    {
        match self {
            Primitive::Sphere(s) => Some(s.bounding_box()),
            Primitive::Plane(_) => None,
        }
    }
}

/// The closest-so-far sweep over a suffix of the scene: `acc` and `closest`
/// carry the best hit over the already-visited prefix.
pub open spec fn scan_hit(
    objs: Seq<Primitive>,
    r: RayV,
    t_min: int,
    acc: Option<HitV>,
    closest: int,
) -> Option<HitV>
    decreases objs.len(),
{
    if objs.len() == 0 {
        acc
    } else {
        match prim_hit_m(objs[0], r, t_min, closest) {
            Some(h) => scan_hit(objs.drop_first(), r, t_min, Some(h), h.t),
            None => scan_hit(objs.drop_first(), r, t_min, acc, closest),
        }
    }
}

/// What the aggregate's `hit` returns: the closest-so-far sweep over the
/// whole scene. On exactly equal parameters the earliest-inserted
/// primitive wins: a later hit replaces the current one only when its
/// parameter is strictly smaller.
pub open spec fn list_hit_m(objs: Seq<Primitive>, r: RayV, t_min: int, t_max: int) -> Option<
    HitV,
> {
    scan_hit(objs, r, t_min, None, t_max)
}

/// The scene aggregate: an ordered collection of owned primitives that
/// caches the envelope of its members' bounding boxes.
pub struct HittableList {
    objects: Vec<Primitive>,
    bbox: Aabb,
}

impl HittableList {
    /// The primitives, in insertion order.
    pub closed spec fn objects_v(self) -> Seq<Primitive> {
        self.objects@
    }

    /// The cached bounding box.
    pub closed spec fn bbox_v(self) -> AabbV {
        self.bbox@
    }

    pub fn new(obj: Vec<Primitive>, bbox: Aabb) -> (r: HittableList)
        ensures
            r.objects_v() == obj@,
            r.bbox_v() == bbox@,
    {
        HittableList { objects: obj, bbox }
    }

    /// Append a primitive and widen the cached box to the union with its
    /// box. Only bounded primitives can be appended here; a scene with
    /// planes is built through `new` with a box chosen by the caller.
    pub fn push(&mut self, object: Primitive)
        requires
            prim_bbox_m(object) is Some,
        ensures
            final(self).objects_v() == old(self).objects_v().push(object),
            prim_bbox_m(object) matches Some(ob) ==> final(self).bbox_v() == aabb_union(
                ob,
                old(self).bbox_v(),
            ),
    {
        let o_bbox = object.bounding_box().unwrap();
        self.objects.push(object);
        self.bbox = Aabb::from_two_aabbs(o_bbox, self.bbox.clone());
    }

    /// Linear scan over the primitives, shrinking the upper bound to the
    /// closest hit found so far.
    pub fn hit(&self, r: &Ray, t_min: Fx, t_max: Fx) -> (res: Option<HitRecord>)
        ensures
            hit_opt_v(res) == list_hit_m(self.objects_v(), r@, t_min@, t_max@),
    {
        let mut tmp_rec: Option<HitRecord> = None;
        let mut closest_so_far = t_max;
        let n: usize = self.objects.len();
        proof {
            assert(self.objects@.skip(0) =~= self.objects@);
        }
        let mut i: usize = 0;
        while i < n
            invariant
                i <= n,
                n == self.objects@.len(),
                scan_hit(
                    self.objects@.skip(i as int),
                    r@,
                    t_min@,
                    hit_opt_v(tmp_rec),
                    closest_so_far@,
                ) == list_hit_m(self.objects@, r@, t_min@, t_max@),
            decreases n - i,
        {
            proof {
                assert(self.objects@.skip(i as int)[0] == self.objects@[i as int]);
                assert(self.objects@.skip(i as int).drop_first() =~= self.objects@.skip(
                    i as int + 1,
                ));
            }
            let object = &self.objects[i];
            match object.hit(r, t_min, closest_so_far) {
                Some(rec) => {
                    closest_so_far = rec.t;
                    tmp_rec = Some(rec);
                },
                None => {},
            }
            i = i + 1;
        }
        tmp_rec
    }

    /// The same linear scan as `hit`, through the packed strategy; the two
    /// are proved against the same specification and never diverge.
    pub fn reg_hit(&self, r: &Ray, t_min: Fx, t_max: Fx) -> (res: Option<HitRecord>)
        ensures
            hit_opt_v(res) == list_hit_m(self.objects_v(), r@, t_min@, t_max@),
    {
        let mut tmp_rec: Option<HitRecord> = None;
        let mut closest_so_far = t_max;
        let n: usize = self.objects.len();
        proof {
            assert(self.objects@.skip(0) =~= self.objects@);
        }
        let mut i: usize = 0;
        while i < n
            invariant
                i <= n,
                n == self.objects@.len(),
                scan_hit(
                    self.objects@.skip(i as int),
                    r@,
                    t_min@,
                    hit_opt_v(tmp_rec),
                    closest_so_far@,
                ) == list_hit_m(self.objects@, r@, t_min@, t_max@),
            decreases n - i,
        {
            proof {
                assert(self.objects@.skip(i as int)[0] == self.objects@[i as int]);
                assert(self.objects@.skip(i as int).drop_first() =~= self.objects@.skip(
                    i as int + 1,
                ));
            }
            let object = &self.objects[i];
            match object.reg_hit(r, t_min, closest_so_far) {
                Some(rec) => {
                    closest_so_far = rec.t;
                    tmp_rec = Some(rec);
                },
                None => {},
            }
            i = i + 1;
        }
        tmp_rec
    }

    pub fn bounding_box(&self) -> (res: Option<Aabb>)
        ensures
            res matches Some(b) && b@ == self.bbox_v(),
    {
        Some(self.bbox.clone())
    }
}

/// A hit's parameter always lies strictly inside the queried window.
pub proof fn lemma_prim_hit_in_window(p: Primitive, r: RayV, t_min: int, t_max: int)
    ensures
        prim_hit_m(p, r, t_min, t_max) matches Some(h) ==> t_min < h.t < t_max,
{
    match p {
        Primitive::Sphere(s) => crate::sphere::lemma_sphere_hit_in_window(s@, r, t_min, t_max),
        Primitive::Plane(pl) => crate::planes::lemma_plane_hit_in_window(pl@, r, t_min, t_max),
    }
}

/// Windowing law for any primitive: shrinking the upper bound keeps a hit
/// exactly when its parameter still lies inside the smaller window, and
/// can never create a hit.
pub proof fn lemma_prim_hit_window(p: Primitive, r: RayV, t_min: int, c: int, t_max: int)
    requires
        c <= t_max,
    ensures
        match prim_hit_m(p, r, t_min, t_max) {
            Some(h) => prim_hit_m(p, r, t_min, c) == if h.t < c {
                Some(h)
            } else {
                None::<HitV>
            },
            None => prim_hit_m(p, r, t_min, c) is None,
        },
{
    match p {
        Primitive::Sphere(s) => crate::sphere::lemma_sphere_hit_window(s@, r, t_min, c, t_max),
        Primitive::Plane(pl) => crate::planes::lemma_plane_hit_window(pl@, r, t_min, c, t_max),
    }
}

/// The sweep's result relative to the current best: it only ever improves
/// the best parameter, every reported hit is a real hit of some member
/// within the current window, and it beats every member's hit.
proof fn lemma_scan_closest(
    objs: Seq<Primitive>,
    r: RayV,
    t_min: int,
    acc: Option<HitV>,
    closest: int,
)
    requires
        acc matches Some(a) ==> a.t == closest && t_min < closest,
    ensures
        scan_hit(objs, r, t_min, acc, closest) matches Some(h) ==> {
            &&& t_min < h.t <= closest
            &&& (acc == Some(h) || exists|i: int|
                0 <= i < objs.len() && prim_hit_m(#[trigger] objs[i], r, t_min, closest) == Some(
                    h,
                ))
        },
        forall|i: int|
            0 <= i < objs.len() ==> (prim_hit_m(#[trigger] objs[i], r, t_min, closest)
                matches Some(hi) ==> (scan_hit(objs, r, t_min, acc, closest) matches Some(h)
                && h.t <= hi.t)),
        scan_hit(objs, r, t_min, acc, closest) is None ==> acc is None,
        scan_hit(objs, r, t_min, acc, closest) is None ==> forall|i: int|
            0 <= i < objs.len() ==> prim_hit_m(#[trigger] objs[i], r, t_min, closest) is None,
    decreases objs.len(),
{
    if objs.len() > 0 {
        let o0 = objs[0];
        let rest = objs.drop_first();
        assert(forall|j: int| 0 <= j < rest.len() ==> rest[j] == objs[j + 1]);
        let res = scan_hit(objs, r, t_min, acc, closest);
        match prim_hit_m(o0, r, t_min, closest) {
            Some(h0) => {
                lemma_prim_hit_in_window(o0, r, t_min, closest);
                lemma_scan_closest(rest, r, t_min, Some(h0), h0.t);
                assert(res == scan_hit(rest, r, t_min, Some(h0), h0.t));
                assert(res is Some && res->Some_0.t <= h0.t);
                let h = res->Some_0;
                assert forall|i: int|
                    0 <= i < objs.len() && prim_hit_m(#[trigger] objs[i], r, t_min, closest)
                        is Some implies h.t <= prim_hit_m(objs[i], r, t_min, closest)->Some_0.t by {
                    if i > 0 {
                        lemma_prim_hit_window(objs[i], r, t_min, h0.t, closest);
                        let hi = prim_hit_m(objs[i], r, t_min, closest)->Some_0;
                        if hi.t < h0.t {
                            assert(prim_hit_m(rest[i - 1], r, t_min, h0.t) == Some(hi));
                        }
                    }
                }
                if h != h0 {
                    let j = choose|j: int|
                        0 <= j < rest.len() && prim_hit_m(#[trigger] rest[j], r, t_min, h0.t)
                            == Some(h);
                    lemma_prim_hit_window(objs[j + 1], r, t_min, h0.t, closest);
                    assert(prim_hit_m(objs[j + 1], r, t_min, closest) == Some(h));
                }
            },
            None => {
                lemma_scan_closest(rest, r, t_min, acc, closest);
                assert(res == scan_hit(rest, r, t_min, acc, closest));
                assert forall|i: int|
                    0 <= i < objs.len() && prim_hit_m(#[trigger] objs[i], r, t_min, closest)
                        is Some implies (res is Some && res->Some_0.t <= prim_hit_m(
                    objs[i],
                    r,
                    t_min,
                    closest,
                )->Some_0.t) by {
                    if i > 0 {
                        assert(prim_hit_m(rest[i - 1], r, t_min, closest) == prim_hit_m(
                            objs[i],
                            r,
                            t_min,
                            closest,
                        ));
                    }
                }
                if res is None {
                    assert forall|i: int| 0 <= i < objs.len() implies prim_hit_m(
                        #[trigger] objs[i],
                        r,
                        t_min,
                        closest,
                    ) is None by {
                        if i > 0 {
                            assert(prim_hit_m(rest[i - 1], r, t_min, closest) is None);
                        }
                    }
                }
            },
        }
    }
}

/// The aggregate's hit is the closest individual member hit: every
/// reported record is some member's own hit over the full window, its
/// parameter undercuts every member's hit, and the aggregate misses only
/// when every member misses. On exactly equal parameters the
/// earliest-inserted member wins.
pub proof fn lemma_list_hit_closest(objs: Seq<Primitive>, r: RayV, t_min: int, t_max: int)
    ensures
        list_hit_m(objs, r, t_min, t_max) matches Some(h) ==> {
            &&& t_min < h.t <= t_max
            &&& exists|i: int|
                0 <= i < objs.len() && prim_hit_m(#[trigger] objs[i], r, t_min, t_max) == Some(h)
        },
        forall|i: int|
            0 <= i < objs.len() ==> (prim_hit_m(#[trigger] objs[i], r, t_min, t_max)
                matches Some(hi) ==> (list_hit_m(objs, r, t_min, t_max) matches Some(h) && h.t
                <= hi.t)),
        list_hit_m(objs, r, t_min, t_max) is None ==> forall|i: int|
            0 <= i < objs.len() ==> prim_hit_m(#[trigger] objs[i], r, t_min, t_max) is None,
{
    lemma_scan_closest(objs, r, t_min, None, t_max);
}

/// Two sequences holding the same multiset of elements have the same
/// members.
proof fn lemma_members_same(objs1: Seq<Primitive>, objs2: Seq<Primitive>)
    requires
        objs1.to_multiset() == objs2.to_multiset(),
    ensures
        forall|o: Primitive| objs1.contains(o) <==> objs2.contains(o),
{
    objs1.to_multiset_ensures();
    objs2.to_multiset_ensures();
    assert forall|o: Primitive| objs1.contains(o) <==> objs2.contains(o) by {
        assert(objs1.to_multiset() =~= objs2.to_multiset());
        assert(objs1.to_multiset().count(o) == objs2.to_multiset().count(o));
        assert(objs1.contains(o) <==> objs1.to_multiset().count(o) > 0);
        assert(objs2.contains(o) <==> objs2.to_multiset().count(o) > 0);
    }
}

/// The nearest-hit parameter does not depend on the order of insertion:
/// two scenes holding the same primitives in any order agree on whether a
/// ray hits and at which parameter. (The record itself may differ only
/// when two members are hit at exactly the same parameter.)
#[verifier::rlimit(100)]
pub proof fn lemma_list_hit_order_independent(
    objs1: Seq<Primitive>,
    objs2: Seq<Primitive>,
    r: RayV,
    t_min: int,
    t_max: int,
)
    requires
        objs1.to_multiset() == objs2.to_multiset(),
    ensures
        (list_hit_m(objs1, r, t_min, t_max) is Some) == (list_hit_m(objs2, r, t_min, t_max)
            is Some),
        list_hit_m(objs1, r, t_min, t_max) matches Some(h1) ==> (list_hit_m(
            objs2,
            r,
            t_min,
            t_max,
        ) matches Some(h2) && h1.t == h2.t),
{
    lemma_members_same(objs1, objs2);
    lemma_list_hit_closest(objs1, r, t_min, t_max);
    lemma_list_hit_closest(objs2, r, t_min, t_max);
    assert(forall|o: Primitive| objs1.contains(o) <==> objs2.contains(o));
    if list_hit_m(objs1, r, t_min, t_max) is Some {
        let h1 = list_hit_m(objs1, r, t_min, t_max)->Some_0;
        let i = choose|i: int|
            0 <= i < objs1.len() && prim_hit_m(#[trigger] objs1[i], r, t_min, t_max) == Some(h1);
        assert(objs1.contains(objs1[i]));
        let j = choose|j: int| 0 <= j < objs2.len() && objs2[j] == objs1[i];
        assert(prim_hit_m(objs2[j], r, t_min, t_max) == Some(h1));
    }
    if list_hit_m(objs2, r, t_min, t_max) is Some {
        let h2 = list_hit_m(objs2, r, t_min, t_max)->Some_0;
        let i = choose|i: int|
            0 <= i < objs2.len() && prim_hit_m(#[trigger] objs2[i], r, t_min, t_max) == Some(h2);
        assert(objs2.contains(objs2[i]));
        let j = choose|j: int| 0 <= j < objs1.len() && objs1[j] == objs2[i];
        assert(prim_hit_m(objs1[j], r, t_min, t_max) == Some(h2));
    }
}

} // verus!
