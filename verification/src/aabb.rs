//! Bounding intervals and axis-aligned bounding boxes.
//!
//! The slab test walks the three axes, narrowing the running parameter
//! window, and rejects as soon as the window collapses. A zero direction
//! component is handled by an explicit branch: the ray is parallel to the
//! slab, so it passes the axis exactly when its origin lies inside the slab
//! (boundary included). This is the kernel's one consistent policy for
//! degenerate direction components.

use vstd::prelude::*;

use crate::fx::{add_m, div_m, div_int_m, sub_m, Fx};
use crate::ray::{Ray, RayV};
use crate::vec3::{Point3, V3};

verus! {

/// The mathematical value of an interval: its two mantissa bounds.
pub ghost struct IvV {
    pub min: int,
    pub max: int,
}

/// A closed parameter interval `[min, max]`.
#[derive(Clone, Copy, PartialEq, Eq, Structural, Debug)]
pub struct Interval {
    pub max: Fx,
    pub min: Fx,
}

impl View for Interval {
    type V = IvV;

    open spec fn view(&self) -> IvV {
        IvV { min: self.min@, max: self.max@ }
    }
}

/// The smallest interval containing both arguments.
pub open spec fn iv_union(a: IvV, b: IvV) -> IvV {
    IvV {
        min: if a.min <= b.min { a.min } else { b.min },
        max: if a.max >= b.max { a.max } else { b.max },
    }
}

impl Interval {
    pub fn new(min: Fx, max: Fx) -> (r: Interval)
        ensures
            r@ == (IvV { min: min@, max: max@ }),
    {
        Interval { max, min }
    }

    pub fn size(&self) -> (r: Fx)
        ensures
            r@ == sub_m(self@.max, self@.min),
    {
        self.max.sub(self.min)
    }

    /// Grow both bounds symmetrically by half of `delta`.
    pub fn expand(&mut self, delta: Fx)
        ensures
            final(self)@.min == sub_m(old(self)@.min, div_int_m(delta@, 2)),
            final(self)@.max == add_m(old(self)@.max, div_int_m(delta@, 2)),
    {
        let padding = delta.div_int(2);
        self.min = self.min.sub(padding);
        self.max = self.max.add(padding);
    }

    /// The envelope: `min` is the smaller of the two minima, `max` the
    /// larger of the two maxima.
    pub fn from_two_intervals(a: Interval, b: Interval) -> (r: Interval)
        ensures
            r@ == iv_union(a@, b@),
    {
        Interval { max: a.max.max(b.max), min: a.min.min(b.min) }
    }
}

/// Merging an interval with itself gives it back unchanged.
pub proof fn lemma_iv_union_idempotent(a: IvV)
    ensures
        iv_union(a, a) == a,
{
}

/// The mathematical value of a box: one interval per axis.
pub ghost struct AabbV {
    pub x: IvV,
    pub y: IvV,
    pub z: IvV,
}

/// An axis-aligned bounding box: one interval per axis.
#[derive(Clone, Copy, PartialEq, Eq, Structural, Debug)]
pub struct Aabb {
    x: Interval,
    y: Interval,
    z: Interval,
}

impl View for Aabb {
    type V = AabbV;

    closed spec fn view(&self) -> AabbV {
        AabbV { x: self.x@, y: self.y@, z: self.z@ }
    }
}

/// Per-axis interval of the box spanned by two corner points.
pub open spec fn corner_iv(a: int, b: int) -> IvV {
    IvV {
        min: if a <= b { a } else { b },
        max: if a >= b { a } else { b },
    }
}

/// One axis of the slab test: `None` when the axis rejects the ray, else
/// the narrowed parameter window.
pub open spec fn slab_step(iv: IvV, orig: int, d: int, w: IvV) -> Option<IvV> {
    if d == 0 {
        if iv.min <= orig <= iv.max {
            Some(w)
        } else {
            None
        }
    } else {
        let ta = div_m(sub_m(iv.min, orig), d);
        let tb = div_m(sub_m(iv.max, orig), d);
        let t0 = if d < 0 { tb } else { ta };
        let t1 = if d < 0 { ta } else { tb };
        let nmin = if t0 > w.min { t0 } else { w.min };
        let nmax = if t1 < w.max { t1 } else { w.max };
        if nmax <= nmin {
            None
        } else {
            Some(IvV { min: nmin, max: nmax })
        }
    }
}

/// The slab test over all three axes, in `x`, `y`, `z` order.
pub open spec fn aabb_hit_m(b: AabbV, r: RayV, w: IvV) -> bool {
    match slab_step(b.x, r.orig.x, r.dir.x, w) {
        None => false,
        Some(w1) => match slab_step(b.y, r.orig.y, r.dir.y, w1) {
            None => false,
            Some(w2) => slab_step(b.z, r.orig.z, r.dir.z, w2) is Some,
        },
    }
}

/// The envelope of two boxes, per axis.
pub open spec fn aabb_union(a: AabbV, b: AabbV) -> AabbV {
    AabbV { x: iv_union(a.x, b.x), y: iv_union(a.y, b.y), z: iv_union(a.z, b.z) }
}

impl Aabb {
    /// The box spanned by two corner points; components are sorted per axis,
    /// so `min <= max` holds on every axis.
    pub fn new(a: Point3, b: Point3) -> (r: Aabb)
        ensures
            r@.x == corner_iv(a@.x, b@.x),
            r@.y == corner_iv(a@.y, b@.y),
            r@.z == corner_iv(a@.z, b@.z),
    {
        let x = Interval::new(a.x.min(b.x), a.x.max(b.x));
        let y = Interval::new(a.y.min(b.y), a.y.max(b.y));
        let z = Interval::new(a.z.min(b.z), a.z.max(b.z));
        Aabb { x, y, z }
    }

    /// The interval of axis `n`: `1` is `y`, `2` is `z`, anything else `x`.
    pub fn axis(&self, n: usize) -> (r: Interval)
        ensures
            r@ == if n == 1 {
                self@.y
            } else if n == 2 {
                self@.z
            } else {
                self@.x
            },
    {
        if n == 1 {
            self.y
        } else if n == 2 {
            self.z
        } else {
            self.x
        }
    }

    /// The slab test: narrow `ray_t` per axis, reject once it collapses.
    pub fn hit(&self, r: &Ray, ray_t: Interval) -> (res: bool)
        ensures
            res == aabb_hit_m(self@, r@, ray_t@),
    {
        let o = r.origin();
        let d = r.direction();
        let w1 = match slab_step_exec(self.x, o.x, d.x, ray_t) {
            None => {
                return false;
            },
            Some(w) => w,
        };
        let w2 = match slab_step_exec(self.y, o.y, d.y, w1) {
            None => {
                return false;
            },
            Some(w) => w,
        };
        match slab_step_exec(self.z, o.z, d.z, w2) {
            None => false,
            Some(_) => true,
        }
    }

    /// The smallest box containing both arguments.
    pub fn from_two_aabbs(box0: Aabb, box1: Aabb) -> (r: Aabb)
        ensures
            r@ == aabb_union(box0@, box1@),
    {
        Aabb {
            x: Interval::from_two_intervals(box0.x, box1.x),
            y: Interval::from_two_intervals(box0.y, box1.y),
            z: Interval::from_two_intervals(box0.z, box1.z),
        }
    }
}

/// An axis whose slab strictly contains the ray origin narrows the window
/// but never empties it, as long as the window brackets `t = 0`.
proof fn lemma_slab_step_through_center(iv: IvV, orig: int, d: int, w: IvV)
    requires
        iv.min < orig < iv.max,
        w.min < 0 <= w.max,
    ensures
        slab_step(iv, orig, d, w) matches Some(w2) && w2.min < 0 <= w2.max,
{
    if d != 0 {
        let nm = sub_m(iv.min, orig);
        let np = sub_m(iv.max, orig);
        assert(nm <= -1);
        assert(np >= 1);
        crate::fx::lemma_div_m_signs(nm, d);
        crate::fx::lemma_div_m_signs(np, d);
    }
}

/// A ray whose origin lies strictly inside the box hits it, for any
/// parameter window that properly brackets `t = 0`. This holds whatever
/// the direction, zero components included.
pub proof fn lemma_aabb_hit_through_center(b: AabbV, r: RayV, w: IvV)
    requires
        b.x.min < r.orig.x < b.x.max,
        b.y.min < r.orig.y < b.y.max,
        b.z.min < r.orig.z < b.z.max,
        w.min < 0 < w.max,
    ensures
        aabb_hit_m(b, r, w),
{
    lemma_slab_step_through_center(b.x, r.orig.x, r.dir.x, w);
    let w1 = slab_step(b.x, r.orig.x, r.dir.x, w)->Some_0;
    lemma_slab_step_through_center(b.y, r.orig.y, r.dir.y, w1);
    let w2 = slab_step(b.y, r.orig.y, r.dir.y, w1)->Some_0;
    lemma_slab_step_through_center(b.z, r.orig.z, r.dir.z, w2);
}

/// A ray parallel to some axis slab with its origin outside that slab
/// stays outside it at every parameter, so the box is never hit.
pub proof fn lemma_aabb_miss_parallel_outside(b: AabbV, r: RayV, w: IvV)
    requires
        (r.dir.x == 0 && !(b.x.min <= r.orig.x <= b.x.max)) || (r.dir.y == 0 && !(b.y.min
            <= r.orig.y <= b.y.max)) || (r.dir.z == 0 && !(b.z.min <= r.orig.z <= b.z.max)),
    ensures
        !aabb_hit_m(b, r, w),
{
}

/// One axis of the slab test, as executed.
fn slab_step_exec(iv: Interval, orig: Fx, d: Fx, w: Interval) -> (r: Option<Interval>)
    ensures
        match r {
            Some(wn) => slab_step(iv@, orig@, d@, w@) == Some(wn@),
            None => slab_step(iv@, orig@, d@, w@) is None,
        },
{
    if d.m == 0 {
        if iv.min.le(orig) && orig.le(iv.max) {
            Some(w)
        } else {
            None
        }
    } else {
        let ta = iv.min.sub(orig).div(d);
        let tb = iv.max.sub(orig).div(d);
        let (t0, t1) = if d.m < 0 {
            (tb, ta)
        } else {
            (ta, tb)
        };
        let nmin = if t0.m > w.min.m {
            t0
        } else {
            w.min
        };
        let nmax = if t1.m < w.max.m {
            t1
        } else {
            w.max
        };
        if nmax.m <= nmin.m {
            None
        } else {
            Some(Interval { min: nmin, max: nmax })
        }
    }
}

} // verus!
