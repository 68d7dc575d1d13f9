//! Exact rational numbers.
//!
//! A [`Rational`] is a quotient of unbounded integers; its view is the real
//! number it denotes. Arithmetic and comparison are exact, so a score computed
//! with them is the score that the formulas over the reals define, with no
//! rounding.

use vstd::prelude::*;
use crate::natural::{limbs_value, Natural};

verus! {

/// The real number `num / den`.
pub open spec fn quotient(num: int, den: int) -> real {
    num as real / den as real
}

proof fn lemma_quotient_sum(ap: int, an: int, ad: int, bp: int, bn: int, bd: int)
    by (nonlinear_arith)
    requires
        ad > 0,
        bd > 0,
    ensures
        ad * bd > 0,
        quotient((ap * bd + bp * ad) - (an * bd + bn * ad), ad * bd) == quotient(ap - an, ad)
            + quotient(bp - bn, bd),
{
}

/// Dividing by a number and multiplying by it again changes nothing.
pub proof fn lemma_quotient_undone(n: real, d: real)
    by (nonlinear_arith)
    requires
        d != 0real,
    ensures
        (n / d) * d == n,
{
}

proof fn lemma_quotient_found(q: real, n: real, d: real)
    by (nonlinear_arith)
    requires
        d != 0real,
        q * d == n,
    ensures
        n / d == q,
{
}

proof fn lemma_product_as_real(a: int, b: int)
    by (nonlinear_arith)
    ensures
        (a * b) as real == a as real * b as real,
{
}

proof fn lemma_quotient_product(ap: int, an: int, ad: int, bp: int, bn: int, bd: int)
    requires
        ad > 0,
        bd > 0,
    ensures
        ad * bd > 0,
        quotient((ap * bp + an * bn) - (ap * bn + an * bp), ad * bd) == quotient(ap - an, ad)
            * quotient(bp - bn, bd),
{
    let a = ap - an;
    let b = bp - bn;
    let q1 = quotient(a, ad);
    let q2 = quotient(b, bd);
    lemma_quotient_undone(a as real, ad as real);
    lemma_quotient_undone(b as real, bd as real);
    assert((ap * bp + an * bn) - (ap * bn + an * bp) == a * b) by (nonlinear_arith)
        requires
            a == ap - an,
            b == bp - bn,
    ;
    assert(ad * bd > 0) by (nonlinear_arith)
        requires
            ad > 0,
            bd > 0,
    ;
    lemma_product_as_real(a, b);
    lemma_product_as_real(ad, bd);
    let adr = ad as real;
    let bdr = bd as real;
    let ar = a as real;
    let br = b as real;
    assert((q1 * q2) * (adr * bdr) == ar * br) by (nonlinear_arith)
        requires
            q1 * adr == ar,
            q2 * bdr == br,
    ;
    lemma_quotient_found(q1 * q2, ar * br, adr * bdr);
}

proof fn lemma_quotient_ratio(ap: int, an: int, ad: int, m: int, bd: int)
    by (nonlinear_arith)
    requires
        ad > 0,
        bd > 0,
        m > 0,
    ensures
        ad * m > 0,
        quotient(ap * bd - an * bd, ad * m) == quotient(ap - an, ad) / quotient(m, bd),
        quotient(an * bd - ap * bd, ad * m) == quotient(ap - an, ad) / quotient(-m, bd),
{
}

proof fn lemma_quotient_order(ap: int, an: int, ad: int, bp: int, bn: int, bd: int)
    by (nonlinear_arith)
    requires
        ad > 0,
        bd > 0,
    ensures
        (quotient(ap - an, ad) < quotient(bp - bn, bd)) == (ap * bd + bn * ad < bp * ad + an * bd),
{
}

proof fn lemma_quotient_sign(n: int, d: int)
    by (nonlinear_arith)
    requires
        d > 0,
    ensures
        (quotient(n, d) == 0real) == (n == 0),
        (quotient(n, d) < 0real) == (n < 0),
        quotient(-n, d) == -quotient(n, d),
        quotient(n, 1) == n as real,
        quotient(-n, -d) == quotient(n, d),
        quotient(n, -d) == quotient(-n, d),
{
}

/// A quotient of two positive integers is positive.
pub proof fn lemma_quotient_positive(n: int, d: int)
    by (nonlinear_arith)
    requires
        n > 0,
        d > 0,
    ensures
        quotient(n, d) > 0real,
{
}

/// An exact rational number: the difference of two natural numbers over a
/// third, which is not zero.
pub struct Rational {
    pos: Natural,
    neg: Natural,
    den: Natural,
}

impl View for Rational {
    type V = real;

    closed spec fn view(&self) -> real {
        quotient(self.pos@ - self.neg@, self.den@ as int)
    }
}

impl Rational {
    #[verifier::type_invariant]
    spec fn well_formed(self) -> bool {
        self.den@ > 0
    }

    /// The quotient `num / den`, or `None` where `den` is zero.
    pub fn new(num: i64, den: i64) -> (r: Option<Rational>)
        ensures
            r is None <==> den == 0,
            r matches Some(q) ==> q@ == quotient(num as int, den as int),
    {
        if den == 0 {
            return None;
        }
        let n: i128 = num as i128;
        let d: i128 = den as i128;
        let n_mag: u64 = (if n < 0 { -n } else { n }) as u64;
        let d_mag: u64 = (if d < 0 { -d } else { d }) as u64;
        let zero = Natural::from_u64(0);
        let mag = Natural::from_u64(n_mag);
        let den = Natural::from_u64(d_mag);
        proof {
            lemma_quotient_sign(num as int, d_mag as int);
            lemma_quotient_sign(-(num as int), d_mag as int);
        }
        if (n < 0) == (d < 0) {
            Some(Rational { pos: mag, neg: zero, den })
        } else {
            Some(Rational { pos: zero, neg: mag, den })
        }
    }

    /// The whole number `n`.
    pub fn from_int(n: i64) -> (r: Rational)
        ensures
            r@ == n as real,
    {
        proof {
            lemma_quotient_sign(n as int, 1);
        }
        Rational::new(n, 1).unwrap()
    }

    /// The sum of the two numbers.
    pub fn plus(&self, other: &Rational) -> (r: Rational)
        ensures
            r@ == self@ + other@,
    {
        proof {
            use_type_invariant(self);
            use_type_invariant(other);
            lemma_quotient_sum(
                self.pos@ as int,
                self.neg@ as int,
                self.den@ as int,
                other.pos@ as int,
                other.neg@ as int,
                other.den@ as int,
            );
        }
        let pos = self.pos.times(&other.den).plus(&other.pos.times(&self.den));
        let neg = self.neg.times(&other.den).plus(&other.neg.times(&self.den));
        let den = self.den.times(&other.den);
        Rational { pos, neg, den }
    }

    /// This number with its sign reversed.
    pub fn negated(&self) -> (r: Rational)
        ensures
            r@ == -self@,
    {
        proof {
            use_type_invariant(self);
            lemma_quotient_sign(self.pos@ - self.neg@, self.den@ as int);
        }
        Rational {
            pos: self.neg.duplicate(),
            neg: self.pos.duplicate(),
            den: self.den.duplicate(),
        }
    }

    /// The difference of the two numbers.
    pub fn minus(&self, other: &Rational) -> (r: Rational)
        ensures
            r@ == self@ - other@,
    {
        let opposite = other.negated();
        self.plus(&opposite)
    }

    /// The product of the two numbers.
    pub fn times(&self, other: &Rational) -> (r: Rational)
        ensures
            r@ == self@ * other@,
    {
        proof {
            use_type_invariant(self);
            use_type_invariant(other);
            lemma_quotient_product(
                self.pos@ as int,
                self.neg@ as int,
                self.den@ as int,
                other.pos@ as int,
                other.neg@ as int,
                other.den@ as int,
            );
        }
        let pos = self.pos.times(&other.pos).plus(&self.neg.times(&other.neg));
        let neg = self.pos.times(&other.neg).plus(&self.neg.times(&other.pos));
        let den = self.den.times(&other.den);
        Rational { pos, neg, den }
    }

    /// The quotient of the two numbers, or `None` where `other` is zero.
    pub fn divided_by(&self, other: &Rational) -> (r: Option<Rational>)
        ensures
            r is None <==> other@ == 0real,
            r matches Some(q) ==> q@ == self@ / other@,
    {
        proof {
            use_type_invariant(self);
            use_type_invariant(other);
            lemma_quotient_sign(other.pos@ - other.neg@, other.den@ as int);
        }
        if other.neg.less_than(&other.pos) {
            let m = other.pos.minus(&other.neg).unwrap();
            proof {
                lemma_quotient_ratio(
                    self.pos@ as int,
                    self.neg@ as int,
                    self.den@ as int,
                    m@ as int,
                    other.den@ as int,
                );
            }
            Some(
                Rational {
                    pos: self.pos.times(&other.den),
                    neg: self.neg.times(&other.den),
                    den: self.den.times(&m),
                },
            )
        } else if other.pos.less_than(&other.neg) {
            let m = other.neg.minus(&other.pos).unwrap();
            proof {
                lemma_quotient_ratio(
                    self.pos@ as int,
                    self.neg@ as int,
                    self.den@ as int,
                    m@ as int,
                    other.den@ as int,
                );
            }
            Some(
                Rational {
                    pos: self.neg.times(&other.den),
                    neg: self.pos.times(&other.den),
                    den: self.den.times(&m),
                },
            )
        } else {
            None
        }
    }

    /// Whether this number is below `other`.
    pub fn less_than(&self, other: &Rational) -> (r: bool)
        ensures
            r == (self@ < other@),
    {
        proof {
            use_type_invariant(self);
            use_type_invariant(other);
            lemma_quotient_order(
                self.pos@ as int,
                self.neg@ as int,
                self.den@ as int,
                other.pos@ as int,
                other.neg@ as int,
                other.den@ as int,
            );
        }
        let left = self.pos.times(&other.den).plus(&other.neg.times(&self.den));
        let right = other.pos.times(&self.den).plus(&self.neg.times(&other.den));
        left.less_than(&right)
    }

    /// Whether the two numbers are the same.
    pub fn equals(&self, other: &Rational) -> (r: bool)
        ensures
            r == (self@ == other@),
    {
        !self.less_than(other) && !other.less_than(self)
    }

    /// Whether this number is below zero.
    pub fn is_negative(&self) -> (r: bool)
        ensures
            r == (self@ < 0real),
    {
        proof {
            use_type_invariant(self);
            lemma_quotient_sign(self.pos@ - self.neg@, self.den@ as int);
        }
        self.pos.less_than(&self.neg)
    }

    /// A copy of this number.
    pub fn duplicate(&self) -> (r: Rational)
        ensures
            r@ == self@,
    {
        proof {
            use_type_invariant(self);
        }
        Rational {
            pos: self.pos.duplicate(),
            neg: self.neg.duplicate(),
            den: self.den.duplicate(),
        }
    }

    /// The distance of this number from zero.
    pub fn magnitude(&self) -> (r: Rational)
        ensures
            r@ == (if self@ < 0real { -self@ } else { self@ }),
    {
        if self.is_negative() {
            self.negated()
        } else {
            self.duplicate()
        }
    }

    /// The sign, the limbs of the numerator's magnitude and the limbs of the
    /// denominator, least significant limb first.
    pub fn to_parts(&self) -> (r: (bool, Vec<u64>, Vec<u64>))
        ensures
            limbs_value(r.2@) > 0,
            self@ == quotient(
                if r.0 { -(limbs_value(r.1@) as int) } else { limbs_value(r.1@) as int },
                limbs_value(r.2@) as int,
            ),
    {
        proof {
            use_type_invariant(self);
        }
        if self.pos.less_than(&self.neg) {
            let m = self.neg.minus(&self.pos).unwrap();
            (true, m.to_limbs(), self.den.to_limbs())
        } else {
            let m = self.pos.minus(&self.neg).unwrap();
            (false, m.to_limbs(), self.den.to_limbs())
        }
    }
}

} // verus!
