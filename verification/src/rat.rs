//! Bounded exact rational numbers.
//!
//! A [`Rat`] is a fraction of two `i128` machine integers whose magnitudes
//! stay within [`NUM_BOUND`] and whose denominator is positive.  Its
//! mathematical value is the pair [`Frac`] of unbounded integers given by the
//! view `@`.  The arithmetic operations are exact: each returns `Some` with
//! the fraction built from the cross products, or `None` when a component of
//! that fraction would leave the representable range.  Nothing is ever
//! rounded, so contracts over `Frac` describe real-number arithmetic on the
//! representable values.

use vstd::prelude::*;

verus! {

/// Magnitude bound on the numerator, and upper bound on the (positive)
/// denominator, of a well-formed [`Rat`].  Products of two bounded
/// components, and sums of two such products, always fit in `i128`.
pub const NUM_BOUND: i128 = 0x7fff_ffff_ffff_ffff;

/// The mathematical value of a rational: a numerator and a denominator as
/// unbounded integers.  Operations on `Frac` are exact; they never normalise,
/// so equality of values is [`frac_eq`], not structural equality.
pub struct Frac {
    pub num: int,
    pub den: int,
}

/// A `Frac` whose components a well-formed [`Rat`] can hold.
pub open spec fn frac_in_bounds(f: Frac) -> bool {
    &&& -(NUM_BOUND as int) <= f.num <= NUM_BOUND as int
    &&& 1 <= f.den <= NUM_BOUND as int
}

pub open spec fn frac_zero() -> Frac {
    Frac { num: 0, den: 1 }
}

pub open spec fn frac_one() -> Frac {
    Frac { num: 1, den: 1 }
}

pub open spec fn frac_add(a: Frac, b: Frac) -> Frac {
    Frac { num: a.num * b.den + b.num * a.den, den: a.den * b.den }
}

pub open spec fn frac_sub(a: Frac, b: Frac) -> Frac {
    Frac { num: a.num * b.den - b.num * a.den, den: a.den * b.den }
}

pub open spec fn frac_mul(a: Frac, b: Frac) -> Frac {
    Frac { num: a.num * b.num, den: a.den * b.den }
}

/// Exact quotient `a / b`, for `b.num != 0`.  The sign of the divisor's
/// numerator is folded into the result's numerator so that a positive
/// denominator stays positive.
pub open spec fn frac_div(a: Frac, b: Frac) -> Frac {
    if b.num >= 0 {
        Frac { num: a.num * b.den, den: a.den * b.num }
    } else {
        Frac { num: -(a.num * b.den), den: -(a.den * b.num) }
    }
}

/// Value equality of two fractions with positive denominators.
pub open spec fn frac_eq(a: Frac, b: Frac) -> bool {
    a.num * b.den == b.num * a.den
}

/// Strict order of two fractions with positive denominators.
pub open spec fn frac_lt(a: Frac, b: Frac) -> bool {
    a.num * b.den < b.num * a.den
}

/// Non-strict order of two fractions with positive denominators.
pub open spec fn frac_le(a: Frac, b: Frac) -> bool {
    a.num * b.den <= b.num * a.den
}

/// An exact rational held in machine integers.
#[derive(Clone, Copy, Debug)]
pub struct Rat {
    num: i128,
    den: i128,
}

impl View for Rat {
    type V = Frac;

    closed spec fn view(&self) -> Frac {
        Frac { num: self.num as int, den: self.den as int }
    }
}

proof fn lemma_prod_bound(a: int, b: int) by (nonlinear_arith)
    requires
        -(NUM_BOUND as int) <= a <= NUM_BOUND as int,
        -(NUM_BOUND as int) <= b <= NUM_BOUND as int,
    ensures
        -((NUM_BOUND as int) * (NUM_BOUND as int)) <= a * b <= (NUM_BOUND as int) * (
        NUM_BOUND as int),
{
}

proof fn lemma_pos_prod(a: int, b: int) by (nonlinear_arith)
    requires
        1 <= a,
        1 <= b,
    ensures
        1 <= a * b,
{
}

proof fn lemma_neg_prod(a: int, b: int) by (nonlinear_arith)
    requires
        1 <= a,
        b <= -1,
    ensures
        a * b <= -1,
{
}

impl Rat {
    /// The components are in range and the denominator is positive.
    pub open spec fn wf(self) -> bool {
        frac_in_bounds(self@)
    }

    /// The rational `num / den`.
    pub fn new(num: i64, den: i64) -> (r: Rat)
        requires
            num > i64::MIN,
            den > 0,
        ensures
            r.wf(),
            r@ == (Frac { num: num as int, den: den as int }),
    {
        Rat { num: num as i128, den: den as i128 }
    }

    /// The integer `n` as a rational.
    pub fn from_int(n: i64) -> (r: Rat)
        requires
            n > i64::MIN,
        ensures
            r.wf(),
            r@ == (Frac { num: n as int, den: 1 }),
    {
        Rat { num: n as i128, den: 1 }
    }

    /// The numerator as stored.
    pub fn num(&self) -> (r: i128)
        ensures
            r as int == self@.num,
    {
        self.num
    }

    /// The denominator as stored.
    pub fn den(&self) -> (r: i128)
        ensures
            r as int == self@.den,
    {
        self.den
    }

    /// Exact sum, or `None` when a component leaves the representable range.
    pub fn checked_add(&self, other: &Rat) -> (r: Option<Rat>)
        requires
            self.wf(),
            other.wf(),
        ensures
            r is Some <==> frac_in_bounds(frac_add(self@, other@)),
            r matches Some(s) ==> s.wf() && s@ == frac_add(self@, other@),
    {
        proof {
            lemma_prod_bound(self@.num, other@.den);
            lemma_prod_bound(other@.num, self@.den);
            lemma_pos_prod(self@.den, other@.den);
            lemma_prod_bound(self@.den, other@.den);
        }
        let n: i128 = self.num * other.den + other.num * self.den;
        let d: i128 = self.den * other.den;
        if -NUM_BOUND <= n && n <= NUM_BOUND && d <= NUM_BOUND {
            Some(Rat { num: n, den: d })
        } else {
            None
        }
    }

    /// Exact difference, or `None` out of range.
    pub fn checked_sub(&self, other: &Rat) -> (r: Option<Rat>)
        requires
            self.wf(),
            other.wf(),
        ensures
            r is Some <==> frac_in_bounds(frac_sub(self@, other@)),
            r matches Some(s) ==> s.wf() && s@ == frac_sub(self@, other@),
    {
        proof {
            lemma_prod_bound(self@.num, other@.den);
            lemma_prod_bound(other@.num, self@.den);
            lemma_pos_prod(self@.den, other@.den);
            lemma_prod_bound(self@.den, other@.den);
        }
        let n: i128 = self.num * other.den - other.num * self.den;
        let d: i128 = self.den * other.den;
        if -NUM_BOUND <= n && n <= NUM_BOUND && d <= NUM_BOUND {
            Some(Rat { num: n, den: d })
        } else {
            None
        }
    }

    /// Exact product, or `None` out of range.
    pub fn checked_mul(&self, other: &Rat) -> (r: Option<Rat>)
        requires
            self.wf(),
            other.wf(),
        ensures
            r is Some <==> frac_in_bounds(frac_mul(self@, other@)),
            r matches Some(s) ==> s.wf() && s@ == frac_mul(self@, other@),
    {
        proof {
            lemma_prod_bound(self@.num, other@.num);
            lemma_pos_prod(self@.den, other@.den);
            lemma_prod_bound(self@.den, other@.den);
        }
        let n: i128 = self.num * other.num;
        let d: i128 = self.den * other.den;
        if -NUM_BOUND <= n && n <= NUM_BOUND && d <= NUM_BOUND {
            Some(Rat { num: n, den: d })
        } else {
            None
        }
    }

    /// Exact quotient by a non-zero divisor, or `None` out of range.
    pub fn checked_div(&self, other: &Rat) -> (r: Option<Rat>)
        requires
            self.wf(),
            other.wf(),
            other@.num != 0,
        ensures
            r is Some <==> frac_in_bounds(frac_div(self@, other@)),
            r matches Some(s) ==> s.wf() && s@ == frac_div(self@, other@),
    {
        proof {
            lemma_prod_bound(self@.num, other@.den);
            lemma_prod_bound(self@.den, other@.num);
            if other@.num >= 1 {
                lemma_pos_prod(self@.den, other@.num);
            } else {
                lemma_neg_prod(self@.den, other@.num);
            }
        }
        let n: i128;
        let d: i128;
        if other.num > 0 {
            n = self.num * other.den;
            d = self.den * other.num;
        } else {
            n = -(self.num * other.den);
            d = -(self.den * other.num);
        }
        if -NUM_BOUND <= n && n <= NUM_BOUND && d <= NUM_BOUND {
            Some(Rat { num: n, den: d })
        } else {
            None
        }
    }

    /// Strict comparison of values.
    pub fn lt(&self, other: &Rat) -> (r: bool)
        requires
            self.wf(),
            other.wf(),
        ensures
            r == frac_lt(self@, other@),
    {
        proof {
            lemma_prod_bound(self@.num, other@.den);
            lemma_prod_bound(other@.num, self@.den);
        }
        self.num * other.den < other.num * self.den
    }

    /// Non-strict comparison of values.
    pub fn le(&self, other: &Rat) -> (r: bool)
        requires
            self.wf(),
            other.wf(),
        ensures
            r == frac_le(self@, other@),
    {
        proof {
            lemma_prod_bound(self@.num, other@.den);
            lemma_prod_bound(other@.num, self@.den);
        }
        self.num * other.den <= other.num * self.den
    }

    /// Value equality: `3/6` equals `1/2`.
    pub fn rat_eq(&self, other: &Rat) -> (r: bool)
        requires
            self.wf(),
            other.wf(),
        ensures
            r == frac_eq(self@, other@),
    {
        proof {
            lemma_prod_bound(self@.num, other@.den);
            lemma_prod_bound(other@.num, self@.den);
        }
        self.num * other.den == other.num * self.den
    }
}

} // verus!
