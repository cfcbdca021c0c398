//! Three-component vectors and points over fixed-point scalars.
//!
//! `Vec3` is the shared primitive of the whole kernel: componentwise
//! arithmetic, dot and cross products, length, normalization, reflection,
//! and rejection sampling of a direction inside the unit sphere.

use vstd::prelude::*;

use crate::fx::{
    add_m, div_m, fx_sqrt_m, lemma_fdiv_nonneg, lemma_sqrt_exists, lemma_square_nonneg, mul_m,
    neg_m, sample_unit_lane, sub_m, Fx, SCALE,
};

verus! {

/// The mathematical value of a vector: its three mantissas.
pub ghost struct V3 {
    pub x: int,
    pub y: int,
    pub z: int,
}

/// A 3-component vector of fixed-point scalars.
#[derive(Clone, Copy, PartialEq, Eq, Structural, Debug)]
pub struct Vec3 {
    pub x: Fx,
    pub y: Fx,
    pub z: Fx,
}

/// A position in space; the same representation as a free vector.
pub type Point3 = Vec3;

/// An RGB radiance triple; the same representation as a free vector.
pub type Color = Vec3;

impl View for Vec3 {
    type V = V3;

    open spec fn view(&self) -> V3 {
        V3 { x: self.x@, y: self.y@, z: self.z@ }
    }
}

pub open spec fn v3_add(a: V3, b: V3) -> V3 {
    V3 { x: add_m(a.x, b.x), y: add_m(a.y, b.y), z: add_m(a.z, b.z) }
}

pub open spec fn v3_sub(a: V3, b: V3) -> V3 {
    V3 { x: sub_m(a.x, b.x), y: sub_m(a.y, b.y), z: sub_m(a.z, b.z) }
}

pub open spec fn v3_neg(a: V3) -> V3 {
    V3 { x: neg_m(a.x), y: neg_m(a.y), z: neg_m(a.z) }
}

pub open spec fn v3_scale(a: V3, s: int) -> V3 {
    V3 { x: mul_m(a.x, s), y: mul_m(a.y, s), z: mul_m(a.z, s) }
}

pub open spec fn v3_div_scalar(a: V3, s: int) -> V3
    recommends
        s != 0,
{
    V3 { x: div_m(a.x, s), y: div_m(a.y, s), z: div_m(a.z, s) }
}

pub open spec fn v3_mul_elem(a: V3, b: V3) -> V3 {
    V3 { x: mul_m(a.x, b.x), y: mul_m(a.y, b.y), z: mul_m(a.z, b.z) }
}

/// The dot product, accumulated left to right.
pub open spec fn dot_m(a: V3, b: V3) -> int {
    add_m(add_m(mul_m(a.x, b.x), mul_m(a.y, b.y)), mul_m(a.z, b.z))
}

pub open spec fn cross_m(a: V3, b: V3) -> V3 {
    V3 {
        x: sub_m(mul_m(a.y, b.z), mul_m(a.z, b.y)),
        y: sub_m(mul_m(a.z, b.x), mul_m(a.x, b.z)),
        z: sub_m(mul_m(a.x, b.y), mul_m(a.y, b.x)),
    }
}

/// The squared length: the dot product of a vector with itself.
pub open spec fn ls_m(a: V3) -> int {
    dot_m(a, a)
}

/// The length: the floor square root of the squared length.
pub open spec fn len_m(a: V3) -> int {
    fx_sqrt_m(ls_m(a))
}

pub open spec fn v3_normalized(a: V3) -> V3
    recommends
        len_m(a) != 0,
{
    v3_div_scalar(a, len_m(a))
}

/// `v - 2 * dot(v, n) * n`, the mirror image of `v` about the plane of `n`.
pub open spec fn v3_reflect(v: V3, n: V3) -> V3 {
    v3_sub(v, v3_scale(n, mul_m(dot_m(v, n), 2 * SCALE as int)))
}

/// All three components are smaller in magnitude than `NEAR_ZERO_M` steps.
pub open spec fn v3_near_zero(a: V3) -> bool {
    -(NEAR_ZERO_M as int) < a.x < NEAR_ZERO_M as int && -(NEAR_ZERO_M as int) < a.y
        < NEAR_ZERO_M as int && -(NEAR_ZERO_M as int) < a.z < NEAR_ZERO_M as int
}

/// Degeneracy threshold for scatter directions: one thousandth of a unit.
pub const NEAR_ZERO_M: i64 = 1_000;

/// A square at mantissa level is never negative.
pub proof fn lemma_sq_m_nonneg(a: int)
    ensures
        mul_m(a, a) >= 0,
{
    lemma_square_nonneg(a);
    lemma_fdiv_nonneg(a * a, SCALE as int);
}

/// A squared length is never negative.
pub proof fn lemma_ls_nonneg(a: V3)
    ensures
        ls_m(a) >= 0,
{
    lemma_sq_m_nonneg(a.x);
    lemma_sq_m_nonneg(a.y);
    lemma_sq_m_nonneg(a.z);
}

/// The length of a vector whose squared length is at least one step is nonzero.
pub proof fn lemma_len_pos(a: V3)
    requires
        ls_m(a) >= 1,
    ensures
        len_m(a) >= 1,
{
    lemma_sqrt_exists(ls_m(a) * (SCALE as int));
    assert(ls_m(a) * (SCALE as int) >= SCALE as int) by (nonlinear_arith)
        requires
            ls_m(a) >= 1,
    ;
}

impl Vec3 {
    pub fn new(x: Fx, y: Fx, z: Fx) -> (r: Vec3)
        ensures
            r@ == (V3 { x: x@, y: y@, z: z@ }),
    {
        Vec3 { x, y, z }
    }

    pub fn x(&self) -> (r: Fx)
        ensures
            r@ == self@.x,
    {
        self.x
    }

    pub fn y(&self) -> (r: Fx)
        ensures
            r@ == self@.y,
    {
        self.y
    }

    pub fn z(&self) -> (r: Fx)
        ensures
            r@ == self@.z,
    {
        self.z
    }

    pub fn add(self, o: Vec3) -> (r: Vec3)
        ensures
            r@ == v3_add(self@, o@),
    {
        Vec3 { x: self.x.add(o.x), y: self.y.add(o.y), z: self.z.add(o.z) }
    }

    pub fn sub(self, o: Vec3) -> (r: Vec3)
        ensures
            r@ == v3_sub(self@, o@),
    {
        Vec3 { x: self.x.sub(o.x), y: self.y.sub(o.y), z: self.z.sub(o.z) }
    }

    pub fn neg(self) -> (r: Vec3)
        ensures
            r@ == v3_neg(self@),
    {
        Vec3 { x: self.x.neg(), y: self.y.neg(), z: self.z.neg() }
    }

    pub fn scale(self, s: Fx) -> (r: Vec3)
        ensures
            r@ == v3_scale(self@, s@),
    {
        Vec3 { x: self.x.mul(s), y: self.y.mul(s), z: self.z.mul(s) }
    }

    pub fn div_scalar(self, s: Fx) -> (r: Vec3)
        requires
            s@ != 0,
        ensures
            r@ == v3_div_scalar(self@, s@),
    {
        Vec3 { x: self.x.div(s), y: self.y.div(s), z: self.z.div(s) }
    }

    /// Componentwise product, used to attenuate a color by an albedo.
    pub fn mul_elem(self, o: Vec3) -> (r: Vec3)
        ensures
            r@ == v3_mul_elem(self@, o@),
    {
        Vec3 { x: self.x.mul(o.x), y: self.y.mul(o.y), z: self.z.mul(o.z) }
    }

    pub fn dot(self, o: Vec3) -> (r: Fx)
        ensures
            r@ == dot_m(self@, o@),
    {
        self.x.mul(o.x).add(self.y.mul(o.y)).add(self.z.mul(o.z))
    }

    pub fn cross(self, o: Vec3) -> (r: Vec3)
        ensures
            r@ == cross_m(self@, o@),
    {
        Vec3 {
            x: self.y.mul(o.z).sub(self.z.mul(o.y)),
            y: self.z.mul(o.x).sub(self.x.mul(o.z)),
            z: self.x.mul(o.y).sub(self.y.mul(o.x)),
        }
    }

    pub fn length_squared(self) -> (r: Fx)
        ensures
            r@ == ls_m(self@),
            r@ >= 0,
    {
        proof {
            lemma_ls_nonneg(self@);
        }
        self.dot(self)
    }

    pub fn length(self) -> (r: Fx)
        ensures
            r@ == len_m(self@),
            r@ >= 0,
    {
        self.length_squared().sqrt()
    }

    /// Scale to unit length. The squared length must be at least one step;
    /// a zero vector cannot be normalized (the division would be degenerate).
    pub fn normalized(self) -> (r: Vec3)
        requires
            ls_m(self@) >= 1,
        ensures
            r@ == v3_normalized(self@),
    {
        proof {
            lemma_ls_nonneg(self@);
            lemma_len_pos(self@);
        }
        let len = self.length();
        self.div_scalar(len)
    }

    /// True when every component is below the degeneracy threshold, so the
    /// vector is unusable as a scatter direction.
    pub fn near_zero(self) -> (r: bool)
        ensures
            r == v3_near_zero(self@),
    {
        let e: i64 = NEAR_ZERO_M;
        -e < self.x.m && self.x.m < e && -e < self.y.m && self.y.m < e && -e < self.z.m
            && self.z.m < e
    }

    /// `v - 2 * dot(v, n) * n`.
    pub fn reflection(self, normal: Vec3) -> (r: Vec3)
        ensures
            r@ == v3_reflect(self@, normal@),
    {
        let two = Fx::from_millionths(2 * SCALE);
        let d = self.dot(normal);
        self.sub(normal.scale(d.mul(two)))
    }

    /// Rejection sampling of a direction inside the unit sphere: draw a point
    /// of the cube `[-1, 1]^3` until its squared length is strictly between
    /// zero and one. After a fixed number of failed draws the unit `x` vector
    /// is returned, so the function always terminates and never yields a
    /// direction too short to normalize.
    pub fn random_in_unit_sphere() -> (r: Vec3)
        ensures
            1 <= ls_m(r@) <= SCALE as int,
    {
        let mut k: u32 = 0;
        while k < 64
            invariant
                k <= 64,
            decreases 64 - k,
        {
            let v = Vec3 {
                x: Fx::from_millionths(sample_unit_lane()),
                y: Fx::from_millionths(sample_unit_lane()),
                z: Fx::from_millionths(sample_unit_lane()),
            };
            let ls = v.length_squared();
            if 1 <= ls.m && ls.m < SCALE {
                return v;
            }
            k = k + 1;
        }
        let unit_x = Vec3 {
            x: Fx::from_millionths(SCALE),
            y: Fx::from_millionths(0),
            z: Fx::from_millionths(0),
        };
        proof {
            assert(mul_m(SCALE as int, SCALE as int) == SCALE as int) by {
                vstd::arithmetic::div_mod::lemma_fundamental_div_mod_converse(
                    (SCALE as int) * (SCALE as int),
                    SCALE as int,
                    SCALE as int,
                    0,
                );
            }
            assert(mul_m(0, 0) == 0) by {
                vstd::arithmetic::div_mod::lemma_fundamental_div_mod_converse(0, SCALE as int, 0, 0);
            }
            assert(ls_m(unit_x@) == SCALE as int);
        }
        unit_x
    }
}

} // verus!
