//! Packed 4-lane values: the vectorized evaluation strategy.
//!
//! The geometric kernel exists in two interchangeable strategies. The
//! scalar one works on a vector's components one at a time; this packed
//! form carries the three components (and a padding lane) in one 4-lane
//! value and works on all lanes at once, the shape a vector instruction
//! set evaluates. Every packed operation is proved against the same
//! mantissa-level specifications as its scalar counterpart, so the two
//! strategies never diverge in semantics.

use vstd::prelude::*;

use crate::fx::{add_m, div_m, mul_m, sub_m, Fx};
use crate::vec3::{dot_m, v3_add, v3_div_scalar, v3_mul_elem, v3_sub, Vec3, V3};

verus! {

/// The mathematical value of a packed register: three components and the
/// padding lane.
pub ghost struct Reg4V {
    pub v: V3,
    pub pad: int,
}

/// A packed 4-lane value: three vector components plus a padding lane.
#[derive(Clone, Copy, PartialEq, Eq, Structural, Debug)]
pub struct Reg4 {
    pub l0: Fx,
    pub l1: Fx,
    pub l2: Fx,
    pub l3: Fx,
}

impl View for Reg4 {
    type V = Reg4V;

    open spec fn view(&self) -> Reg4V {
        Reg4V { v: V3 { x: self.l0@, y: self.l1@, z: self.l2@ }, pad: self.l3@ }
    }
}

impl Reg4 {
    /// All four lanes set to the same value.
    pub fn splat(t: Fx) -> (r: Reg4)
        ensures
            r@.v == (V3 { x: t@, y: t@, z: t@ }),
            r@.pad == t@,
    {
        Reg4 { l0: t, l1: t, l2: t, l3: t }
    }

    pub fn add(self, o: Reg4) -> (r: Reg4)
        ensures
            r@.v == v3_add(self@.v, o@.v),
            r@.pad == add_m(self@.pad, o@.pad),
    {
        Reg4 {
            l0: self.l0.add(o.l0),
            l1: self.l1.add(o.l1),
            l2: self.l2.add(o.l2),
            l3: self.l3.add(o.l3),
        }
    }

    pub fn sub(self, o: Reg4) -> (r: Reg4)
        ensures
            r@.v == v3_sub(self@.v, o@.v),
            r@.pad == sub_m(self@.pad, o@.pad),
    {
        Reg4 {
            l0: self.l0.sub(o.l0),
            l1: self.l1.sub(o.l1),
            l2: self.l2.sub(o.l2),
            l3: self.l3.sub(o.l3),
        }
    }

    pub fn mul(self, o: Reg4) -> (r: Reg4)
        ensures
            r@.v == v3_mul_elem(self@.v, o@.v),
            r@.pad == mul_m(self@.pad, o@.pad),
    {
        Reg4 {
            l0: self.l0.mul(o.l0),
            l1: self.l1.mul(o.l1),
            l2: self.l2.mul(o.l2),
            l3: self.l3.mul(o.l3),
        }
    }

    /// Divide every lane by one scalar.
    pub fn div_scalar(self, s: Fx) -> (r: Reg4)
        requires
            s@ != 0,
        ensures
            r@.v == v3_div_scalar(self@.v, s@),
            r@.pad == div_m(self@.pad, s@),
    {
        Reg4 {
            l0: self.l0.div(s),
            l1: self.l1.div(s),
            l2: self.l2.div(s),
            l3: self.l3.div(s),
        }
    }

    /// Three-lane dot product, ignoring the padding lane: the packed form
    /// of `Vec3::dot`, accumulated in the same order.
    pub fn dp3(self, o: Reg4) -> (r: Fx)
        ensures
            r@ == dot_m(self@.v, o@.v),
    {
        self.l0.mul(o.l0).add(self.l1.mul(o.l1)).add(self.l2.mul(o.l2))
    }
}

impl Vec3 {
    /// Pack the components into a register value with a zero padding lane.
    pub fn to_reg(self) -> (r: Reg4)
        ensures
            r@.v == self@,
            r@.pad == 0,
    {
        Reg4 { l0: self.x, l1: self.y, l2: self.z, l3: Fx::from_millionths(0) }
    }

    /// Unpack the three component lanes; the padding lane is dropped.
    pub fn from_reg(r: Reg4) -> (res: Vec3)
        ensures
            res@ == r@.v,
    {
        Vec3 { x: r.l0, y: r.l1, z: r.l2 }
    }
}

} // verus!
