//! Exact rational scalars for ray parameters and hit coordinates.
//!
//! A `Rat` is a numerator/denominator pair with a positive denominator; it is
//! not reduced.  The bound `RAT_LIMIT` on both parts keeps every
//! cross-multiplied comparison inside `i128`; it is exactly the largest
//! magnitude a 3x3 determinant of in-range coordinates can reach.

use vstd::prelude::*;

verus! {

/// Bound on the numerator magnitude and the denominator of a well-formed
/// `Rat`: `48 * COORD_LIMIT^3`, the extremal determinant value.
pub const RAT_LIMIT: i128 = 864691128455135232;

#[derive(Clone, Copy, Debug, PartialEq, Eq, Structural)]
pub struct Rat {
    pub num: i128,
    pub den: i128,
}

/// A 3D point with rational coordinates sharing one denominator.
#[derive(Clone, Copy, Debug, PartialEq, Eq, Structural)]
pub struct RatVec3 {
    pub nx: i128,
    pub ny: i128,
    pub nz: i128,
    pub den: i128,
}

/// A 2D point with rational coordinates sharing one denominator.
#[derive(Clone, Copy, Debug, PartialEq, Eq, Structural)]
pub struct RatVec2 {
    pub nu: i128,
    pub nv: i128,
    pub den: i128,
}

pub open spec fn rat_wf(r: Rat) -> bool {
    0 < r.den <= RAT_LIMIT && -RAT_LIMIT <= r.num <= RAT_LIMIT
}

/// `a < b` as rational numbers; meaningful when both denominators are
/// positive.
pub open spec fn rat_lt(a: Rat, b: Rat) -> bool {
    a.num * b.den < b.num * a.den
}

/// `a <= b` as rational numbers; meaningful when both denominators are
/// positive.
pub open spec fn rat_le(a: Rat, b: Rat) -> bool {
    a.num * b.den <= b.num * a.den
}

/// `a == b` as rational numbers; meaningful when both denominators are
/// positive.
pub open spec fn rat_eq(a: Rat, b: Rat) -> bool {
    a.num * b.den == b.num * a.den
}

/// The pair `num/den` brought to a positive denominator.
pub open spec fn rat_norm(num: i128, den: i128) -> Rat {
    if den < 0 {
        Rat { num: -num as i128, den: -den as i128 }
    } else {
        Rat { num, den }
    }
}

impl Rat {
    /// The rational `num/den`, stored with a positive denominator.
    pub fn new(num: i128, den: i128) -> (r: Rat)
        requires
            den != 0,
            -RAT_LIMIT <= num <= RAT_LIMIT,
            -RAT_LIMIT <= den <= RAT_LIMIT,
        ensures
            r == rat_norm(num, den),
            rat_wf(r),
    {
        if den < 0 {
            Rat { num: -num, den: -den }
        } else {
            Rat { num, den }
        }
    }

    /// The integer `v` as a rational.
    pub fn from_int(v: i64) -> (r: Rat)
        requires
            -(RAT_LIMIT as int) <= v as int <= RAT_LIMIT as int,
        ensures
            r == (Rat { num: v as i128, den: 1i128 }),
            rat_wf(r),
    {
        Rat { num: v as i128, den: 1 }
    }

    pub fn lt(&self, other: &Rat) -> (r: bool)
        requires
            rat_wf(*self),
            rat_wf(*other),
        ensures
            r == rat_lt(*self, *other),
    {
        proof {
            crate::vector::lemma_mul_abs_bound(
                self.num as int,
                other.den as int,
                RAT_LIMIT as int,
                RAT_LIMIT as int,
            );
            crate::vector::lemma_mul_abs_bound(
                other.num as int,
                self.den as int,
                RAT_LIMIT as int,
                RAT_LIMIT as int,
            );
        }
        self.num * other.den < other.num * self.den
    }

    pub fn le(&self, other: &Rat) -> (r: bool)
        requires
            rat_wf(*self),
            rat_wf(*other),
        ensures
            r == rat_le(*self, *other),
    {
        proof {
            crate::vector::lemma_mul_abs_bound(
                self.num as int,
                other.den as int,
                RAT_LIMIT as int,
                RAT_LIMIT as int,
            );
            crate::vector::lemma_mul_abs_bound(
                other.num as int,
                self.den as int,
                RAT_LIMIT as int,
                RAT_LIMIT as int,
            );
        }
        self.num * other.den <= other.num * self.den
    }
}

/// `t` is strictly below the distance bound `d`, where `None` stands for
/// "no hit yet", the infinite initial distance.
pub open spec fn lt_dist(t: Rat, d: Option<Rat>) -> bool {
    match d {
        Option::None => true,
        Option::Some(b) => rat_lt(t, b),
    }
}

/// Distance bound well-formedness: a finite bound must be a well-formed
/// rational.
pub open spec fn dist_wf(d: Option<Rat>) -> bool {
    match d {
        Option::None => true,
        Option::Some(b) => rat_wf(b),
    }
}

/// `a <= b` on distance bounds, `None` standing for infinity.
pub open spec fn dist_le(a: Option<Rat>, b: Option<Rat>) -> bool {
    match (a, b) {
        (_, Option::None) => true,
        (Option::None, Option::Some(_)) => false,
        (Option::Some(x), Option::Some(y)) => rat_le(x, y),
    }
}

/// `a == b` as extended rationals (both infinite, or numerically equal).
pub open spec fn dist_eq(a: Option<Rat>, b: Option<Rat>) -> bool {
    match (a, b) {
        (Option::None, Option::None) => true,
        (Option::Some(x), Option::Some(y)) => rat_eq(x, y),
        _ => false,
    }
}

/// Strict comparison of `t` against the bound `d`, executably.
pub fn lt_dist_exec(t: &Rat, d: &Option<Rat>) -> (r: bool)
    requires
        rat_wf(*t),
        dist_wf(*d),
    ensures
        r == lt_dist(*t, *d),
{
    match d {
        Option::None => true,
        Option::Some(b) => t.lt(b),
    }
}

/// Remainder of `n` modulo `d` in the Euclidean convention (always in
/// `[0, d)`); the fractional part of `n/d` is `mod_euclid(n, d) / d`.
pub fn mod_euclid(n: i128, d: i128) -> (r: i128)
    requires
        0 < d,
        i128::MIN < n,
    ensures
        r as int == (n as int) % (d as int),
        0 <= r < d,
{
    if n >= 0 {
        let q: u128 = (n as u128) % (d as u128);
        proof {
            vstd::arithmetic::div_mod::lemma_mod_bound(n as int, d as int);
        }
        q as i128
    } else {
        let m: u128 = ((-n) as u128) % (d as u128);
        if m == 0 {
            proof {
                let k = (-n) as int;
                let q = k / (d as int);
                vstd::arithmetic::div_mod::lemma_fundamental_div_mod(k, d as int);
                // n == -q * d, so its remainder vanishes
                assert((d as int) * (-q) == -((d as int) * q)) by (nonlinear_arith);
                vstd::arithmetic::div_mod::lemma_mod_multiples_vanish(-q, 0, d as int);
                vstd::arithmetic::div_mod::lemma_small_mod(0nat, d as nat);
            }
            0
        } else {
            proof {
                let k = (-n) as int;
                let q = k / (d as int);
                vstd::arithmetic::div_mod::lemma_fundamental_div_mod(k, d as int);
                vstd::arithmetic::div_mod::lemma_mod_bound(k, d as int);
                // n == (-q - 1) * d + (d - m), so the remainder is d - m
                assert((d as int) * (-q - 1) == -((d as int) * q) - d) by (nonlinear_arith);
                vstd::arithmetic::div_mod::lemma_mod_multiples_vanish(-q - 1, d - m, d as int);
                vstd::arithmetic::div_mod::lemma_small_mod((d - m) as nat, d as nat);
            }
            d - m as i128
        }
    }
}

/// Transitivity of the strict rational order (positive denominators).
pub proof fn lemma_rat_lt_trans(a: Rat, b: Rat, c: Rat)
    requires
        a.den > 0,
        b.den > 0,
        c.den > 0,
        rat_lt(a, b),
        rat_lt(b, c),
    ensures
        rat_lt(a, c),
{
    assert(a.num * c.den < c.num * a.den) by (nonlinear_arith)
        requires
            a.den > 0,
            b.den > 0,
            c.den > 0,
            a.num * b.den < b.num * a.den,
            b.num * c.den < c.num * b.den,
    ;
}

} // verus!
