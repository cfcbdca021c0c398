//! Fixed-point scalars.
//!
//! A [`Fx`] holds a signed mantissa `m` and denotes the real number
//! `m / 1_000_000`. All arithmetic rounds toward negative infinity (floor)
//! and saturates at `±i64::MAX`, so every operation is total; the two rails
//! play the role that `±infinity` plays in a floating-point kernel.

use vstd::prelude::*;

verus! {

/// Mantissa steps per unit: `Fx { m }` denotes `m / SCALE`.
pub const SCALE: i64 = 1_000_000;

/// Largest mantissa magnitude; arithmetic saturates at `±MAX_M`.
pub const MAX_M: i64 = i64::MAX;

/// A fixed-point number: the real value `m / SCALE`.
#[derive(Clone, Copy, PartialEq, Eq, Structural, Debug)]
pub struct Fx {
    pub m: i64,
}

impl View for Fx {
    type V = int;

    open spec fn view(&self) -> int {
        self.m as int
    }
}

/// Saturation: mantissas are clamped to `[-MAX_M, MAX_M]`.
pub open spec fn clamp_m(v: int) -> int {
    if v > MAX_M as int {
        MAX_M as int
    } else if v < -(MAX_M as int) {
        -(MAX_M as int)
    } else {
        v
    }
}

/// Floor division on mathematical integers, for any nonzero divisor.
pub open spec fn fdiv(a: int, b: int) -> int
    recommends
        b != 0,
{
    if b > 0 {
        a / b
    } else {
        (-a) / (-b)
    }
}

/// What addition computes, at mantissa level.
pub open spec fn add_m(a: int, b: int) -> int {
    clamp_m(a + b)
}

/// What subtraction computes, at mantissa level.
pub open spec fn sub_m(a: int, b: int) -> int {
    clamp_m(a - b)
}

/// What negation computes, at mantissa level.
pub open spec fn neg_m(a: int) -> int {
    clamp_m(-a)
}

/// What multiplication computes, at mantissa level.
pub open spec fn mul_m(a: int, b: int) -> int {
    clamp_m(fdiv(a * b, SCALE as int))
}

/// What division computes, at mantissa level.
pub open spec fn div_m(a: int, b: int) -> int
    recommends
        b != 0,
{
    clamp_m(fdiv(a * (SCALE as int), b))
}

/// What division by a plain integer computes, at mantissa level.
pub open spec fn div_int_m(a: int, k: int) -> int
    recommends
        k != 0,
{
    clamp_m(fdiv(a, k))
}

impl Fx {
    /// The number `m / 1_000_000`.
    pub fn from_millionths(m: i64) -> (r: Fx)
        ensures
            r@ == m as int,
    {
        Fx { m }
    }

    /// The mantissa, for callers that leave the fixed-point world.
    pub fn millionths(self) -> (r: i64)
        ensures
            r as int == self@,
    {
        self.m
    }

    pub fn add(self, o: Fx) -> (r: Fx)
        ensures
            r@ == add_m(self@, o@),
    {
        let s: i128 = self.m as i128 + o.m as i128;
        Fx { m: clamp_i128(s) }
    }

    pub fn sub(self, o: Fx) -> (r: Fx)
        ensures
            r@ == sub_m(self@, o@),
    {
        let s: i128 = self.m as i128 - o.m as i128;
        Fx { m: clamp_i128(s) }
    }

    pub fn neg(self) -> (r: Fx)
        ensures
            r@ == neg_m(self@),
    {
        let s: i128 = -(self.m as i128);
        Fx { m: clamp_i128(s) }
    }

    pub fn mul(self, o: Fx) -> (r: Fx)
        ensures
            r@ == mul_m(self@, o@),
    {
        proof {
            lemma_i64_product_in_i128(self.m as int, o.m as int);
        }
        let p: i128 = (self.m as i128) * (o.m as i128);
        let q: i128 = floor_div_i128(p, SCALE as i128);
        Fx { m: clamp_i128(q) }
    }

    pub fn div(self, o: Fx) -> (r: Fx)
        requires
            o@ != 0,
        ensures
            r@ == div_m(self@, o@),
    {
        proof {
            lemma_i64_product_in_i128(self.m as int, SCALE as int);
        }
        let p: i128 = (self.m as i128) * (SCALE as i128);
        let q: i128 = floor_div_i128(p, o.m as i128);
        Fx { m: clamp_i128(q) }
    }

    /// Division by a plain integer, exact up to floor rounding of the mantissa.
    pub fn div_int(self, k: i64) -> (r: Fx)
        requires
            k != 0,
        ensures
            r@ == div_int_m(self@, k as int),
    {
        let q: i128 = floor_div_i128(self.m as i128, k as i128);
        Fx { m: clamp_i128(q) }
    }

    pub fn lt(self, o: Fx) -> (r: bool)
        ensures
            r == (self@ < o@),
    {
        self.m < o.m
    }

    pub fn le(self, o: Fx) -> (r: bool)
        ensures
            r == (self@ <= o@),
    {
        self.m <= o.m
    }

    pub fn min(self, o: Fx) -> (r: Fx)
        ensures
            r@ == if self@ <= o@ { self@ } else { o@ },
    {
        if self.m <= o.m {
            self
        } else {
            o
        }
    }

    pub fn max(self, o: Fx) -> (r: Fx)
        ensures
            r@ == if self@ >= o@ { self@ } else { o@ },
    {
        if self.m >= o.m {
            self
        } else {
            o
        }
    }
}

/// Clamp a wide intermediate back into the mantissa range.
fn clamp_i128(v: i128) -> (r: i64)
    ensures
        r as int == clamp_m(v as int),
{
    if v > MAX_M as i128 {
        MAX_M
    } else if v < -(MAX_M as i128) {
        -MAX_M
    } else {
        v as i64
    }
}

/// Floor division on `i128`, built from Rust's Euclidean-for-nonnegative `/`.
fn floor_div_i128(a: i128, b: i128) -> (q: i128)
    requires
        b != 0,
        i128::MIN < a,
        i128::MIN < b,
    ensures
        q as int == fdiv(a as int, b as int),
{
    let (a2, b2): (i128, i128) = if b < 0 {
        (-a, -b)
    } else {
        (a, b)
    };
    if a2 >= 0 {
        proof {
            lemma_div_pos_bound(a2 as int, b2 as int);
        }
        a2 / b2
    } else {
        let n: i128 = -a2;
        let q0: i128 = n / b2;
        let r: i128 = n % b2;
        proof {
            lemma_floor_of_negative(n as int, b2 as int, q0 as int, r as int);
        }
        if r == 0 {
            -q0
        } else {
            -q0 - 1
        }
    }
}

/// Floor division of `-n` by `b` is the negated, rounded-up quotient of `n`.
proof fn lemma_floor_of_negative(n: int, b: int, q0: int, r: int)
    requires
        n > 0,
        b > 0,
        q0 == n / b,
        r == n % b,
    ensures
        r == 0 ==> (-n) / b == -q0,
        r != 0 ==> (-n) / b == -q0 - 1,
        0 <= q0 <= n,
        r != 0 ==> q0 < n,
{
    vstd::arithmetic::div_mod::lemma_fundamental_div_mod(n, b);
    vstd::arithmetic::div_mod::lemma_mod_bound(n, b);
    assert(n == b * q0 + r);
    if r == 0 {
        assert(-n == (-q0) * b + 0) by (nonlinear_arith)
            requires
                n == b * q0 + r,
                r == 0,
        ;
        vstd::arithmetic::div_mod::lemma_fundamental_div_mod_converse(-n, b, -q0, 0);
    } else {
        assert(-n == (-q0 - 1) * b + (b - r)) by (nonlinear_arith)
            requires
                n == b * q0 + r,
        ;
        vstd::arithmetic::div_mod::lemma_fundamental_div_mod_converse(-n, b, -q0 - 1, b - r);
    }
    assert(0 <= q0 <= n && (r != 0 ==> q0 < n)) by (nonlinear_arith)
        requires
            n > 0,
            b > 0,
            n == b * q0 + r,
            0 <= r < b,
    ;
}

/// `r` is the floor of the square root of `x`.
pub open spec fn is_sqrt(x: int, r: int) -> bool {
    r >= 0 && r * r <= x && x < (r + 1) * (r + 1)
}

/// The floor of the square root of `x`, for `x >= 0`.
pub open spec fn sqrt_m(x: int) -> int {
    choose|r: int| is_sqrt(x, r)
}

/// What `Fx::sqrt` computes, at mantissa level.
pub open spec fn fx_sqrt_m(a: int) -> int
    recommends
        a >= 0,
{
    sqrt_m(a * (SCALE as int))
}

/// Two floor square roots of the same number are equal.
pub proof fn lemma_sqrt_unique(x: int, r1: int, r2: int)
    requires
        is_sqrt(x, r1),
        is_sqrt(x, r2),
    ensures
        r1 == r2,
{
    assert(r1 == r2) by (nonlinear_arith)
        requires
            r1 >= 0,
            r1 * r1 <= x,
            x < (r1 + 1) * (r1 + 1),
            r2 >= 0,
            r2 * r2 <= x,
            x < (r2 + 1) * (r2 + 1),
    ;
}

/// Every nonnegative number has a floor square root, and `sqrt_m` is it.
pub proof fn lemma_sqrt_exists(x: int)
    requires
        x >= 0,
    ensures
        is_sqrt(x, sqrt_m(x)),
    decreases x,
{
    if x == 0 {
        assert(is_sqrt(0, 0));
    } else {
        lemma_sqrt_exists(x - 1);
        let r = sqrt_m(x - 1);
        if (r + 1) * (r + 1) <= x {
            assert(is_sqrt(x, r + 1)) by (nonlinear_arith)
                requires
                    r >= 0,
                    x - 1 < (r + 1) * (r + 1) <= x,
            ;
        } else {
            assert(is_sqrt(x, r));
        }
    }
}

impl Fx {
    /// Floor square root: the largest representable `r` with `r * r <= self`.
    pub fn sqrt(self) -> (r: Fx)
        requires
            self@ >= 0,
        ensures
            r@ == fx_sqrt_m(self@),
            r@ >= 0,
    {
        proof {
            assert((self.m as int) * (SCALE as int) < 19342813113834066795298816int) by (nonlinear_arith)
                requires
                    0 <= self.m as int <= i64::MAX as int,
            ;
        }
        let x: u128 = (self.m as u128) * (SCALE as u128);
        let r64: u64 = isqrt_u128(x);
        proof {
            lemma_sqrt_exists(x as int);
            lemma_sqrt_unique(x as int, r64 as int, sqrt_m(x as int));
            assert((r64 as int) < 4398046511104int) by (nonlinear_arith)
                requires
                    r64 >= 0,
                    (r64 as int) * (r64 as int) <= x as int,
                    (x as int) < 19342813113834066795298816int,
            ;
        }
        Fx { m: r64 as i64 }
    }
}

/// Floor square root on `u128`, by binary search.
fn isqrt_u128(x: u128) -> (r: u64)
    requires
        (x as int) < 19342813113834066795298816int,
    ensures
        is_sqrt(x as int, r as int),
{
    let mut lo: u64 = 0;
    let mut hi: u64 = 4398046511104;
    proof {
        assert((x as int) < ((hi as int) + 1) * ((hi as int) + 1)) by (nonlinear_arith)
            requires
                (x as int) < 19342813113834066795298816int,
                hi as int == 4398046511104int,
        ;
    }
    while lo < hi
        invariant
            lo <= hi,
            hi <= 4398046511104,
            (lo as int) * (lo as int) <= x as int,
            (x as int) < ((hi as int) + 1) * ((hi as int) + 1),
        decreases hi - lo,
    {
        let mid: u64 = lo + (hi - lo + 1) / 2;
        proof {
            assert((mid as int) * (mid as int) <= u128::MAX as int) by (nonlinear_arith)
                requires
                    0 <= mid as int <= 4398046511104int,
            ;
        }
        let sq: u128 = (mid as u128) * (mid as u128);
        if sq <= x {
            lo = mid;
        } else {
            hi = mid - 1;
        }
    }
    lo
}

/// Relies on `rand::random_range`: a uniform draw from the given inclusive
/// range, here one fixed-point lane in `[-1, 1]`.
#[verifier::external_body]
pub(crate) fn sample_unit_lane() -> (r: i64)
    ensures
        -1_000_000 <= r <= 1_000_000,
{
    rand::random_range(-1_000_000i64..=1_000_000i64)
}

/// Floor division by a positive divisor is monotone in the dividend.
pub proof fn lemma_fdiv_ordered(a: int, b: int, d: int)
    requires
        a <= b,
        d > 0,
    ensures
        fdiv(a, d) <= fdiv(b, d),
{
    vstd::arithmetic::div_mod::lemma_div_is_ordered(a, b, d);
}

/// Fixed-point division by a positive divisor is monotone in the numerator.
pub proof fn lemma_div_m_ordered(a: int, b: int, d: int)
    requires
        a <= b,
        d > 0,
    ensures
        div_m(a, d) <= div_m(b, d),
{
    assert(a * (SCALE as int) <= b * (SCALE as int)) by (nonlinear_arith)
        requires
            a <= b,
    ;
    lemma_fdiv_ordered(a * (SCALE as int), b * (SCALE as int), d);
}

/// Floor division of an exact multiple recovers the factor.
pub proof fn lemma_fdiv_mul_exact(q: int, b: int)
    requires
        b > 0,
    ensures
        fdiv(q * b, b) == q,
{
    vstd::arithmetic::div_mod::lemma_fundamental_div_mod_converse(q * b, b, q, 0);
}

/// The sign of a floor quotient follows the signs of its operands.
pub proof fn lemma_fdiv_signs(a: int, b: int)
    requires
        b != 0,
    ensures
        a >= 0 && b > 0 ==> fdiv(a, b) >= 0,
        a < 0 && b > 0 ==> fdiv(a, b) <= -1,
        a <= 0 && b < 0 ==> fdiv(a, b) >= 0,
        a > 0 && b < 0 ==> fdiv(a, b) <= -1,
{
    if b > 0 {
        if a >= 0 {
            lemma_div_pos_bound(a, b);
        } else {
            vstd::arithmetic::div_mod::lemma_fundamental_div_mod(a, b);
            vstd::arithmetic::div_mod::lemma_mod_bound(a, b);
            assert(a / b <= -1) by (nonlinear_arith)
                requires
                    a < 0,
                    b > 0,
                    a == b * (a / b) + (a % b),
                    0 <= a % b < b,
            ;
        }
    } else {
        if a <= 0 {
            lemma_div_pos_bound(-a, -b);
        } else {
            vstd::arithmetic::div_mod::lemma_fundamental_div_mod(-a, -b);
            vstd::arithmetic::div_mod::lemma_mod_bound(-a, -b);
            assert((-a) / (-b) <= -1) by (nonlinear_arith)
                requires
                    a > 0,
                    b < 0,
                    -a == (-b) * ((-a) / (-b)) + ((-a) % (-b)),
                    0 <= (-a) % (-b) < -b,
            ;
        }
    }
}

/// The sign of a fixed-point quotient follows the signs of its operands.
pub proof fn lemma_div_m_signs(a: int, b: int)
    requires
        b != 0,
    ensures
        a >= 0 && b > 0 ==> div_m(a, b) >= 0,
        a < 0 && b > 0 ==> div_m(a, b) <= -1,
        a <= 0 && b < 0 ==> div_m(a, b) >= 0,
        a > 0 && b < 0 ==> div_m(a, b) <= -1,
{
    assert(a > 0 ==> a * (SCALE as int) > 0) by (nonlinear_arith);
    assert(a < 0 ==> a * (SCALE as int) < 0) by (nonlinear_arith);
    assert(a == 0 ==> a * (SCALE as int) == 0) by (nonlinear_arith);
    lemma_fdiv_signs(a * (SCALE as int), b);
}

/// The fixed-point square root of a nonnegative number is nonnegative.
pub proof fn lemma_fx_sqrt_nonneg(a: int)
    requires
        a >= 0,
    ensures
        fx_sqrt_m(a) >= 0,
{
    assert(a * (SCALE as int) >= 0) by (nonlinear_arith)
        requires
            a >= 0,
    ;
    lemma_sqrt_exists(a * (SCALE as int));
}

/// Floor division of a nonnegative number by a positive one is nonnegative.
pub proof fn lemma_fdiv_nonneg(a: int, b: int)
    requires
        a >= 0,
        b > 0,
    ensures
        fdiv(a, b) >= 0,
{
    lemma_div_pos_bound(a, b);
}

/// The product of a number with itself is never negative.
pub proof fn lemma_square_nonneg(a: int)
    ensures
        a * a >= 0,
{
    assert(a * a >= 0) by (nonlinear_arith);
}

/// A nonnegative quotient is at most its dividend.
proof fn lemma_div_pos_bound(a: int, b: int)
    requires
        a >= 0,
        b > 0,
    ensures
        0 <= a / b <= a,
{
    vstd::arithmetic::div_mod::lemma_fundamental_div_mod(a, b);
    vstd::arithmetic::div_mod::lemma_mod_bound(a, b);
    assert(0 <= a / b <= a) by (nonlinear_arith)
        requires
            a >= 0,
            b > 0,
            a == b * (a / b) + (a % b),
            0 <= a % b < b,
    ;
}

proof fn lemma_i64_product_in_i128(a: int, b: int)
    requires
        i64::MIN as int <= a <= i64::MAX as int,
        i64::MIN as int <= b <= i64::MAX as int,
    ensures
        (i128::MIN as int) < a * b,
        a * b < i128::MAX as int,
{
    assert((i128::MIN as int) < a * b && a * b < (i128::MAX as int)) by (nonlinear_arith)
        requires
            i64::MIN as int <= a <= i64::MAX as int,
            i64::MIN as int <= b <= i64::MAX as int,
    ;
}

} // verus!
