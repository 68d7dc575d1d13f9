//! The symmetric similarity ratio on which every score component rests.

use vstd::prelude::*;
use crate::error::DegenerateInputError;
use crate::rational::Rational;

verus! {

/// The distance between two numbers.
pub open spec fn distance(a: real, b: real) -> real {
    if a < b {
        b - a
    } else {
        a - b
    }
}

/// How alike two numbers are: one less their distance relative to their mean.
/// It is `1` for equal numbers and falls, without a lower bound, as they part.
/// It has no value where the mean is zero.
pub open spec fn sim(a: real, b: real) -> real {
    1real - distance(a, b) / ((a + b) / 2real)
}

/// The smaller of two numbers relative to the larger.
pub open spec fn magnitude_ratio(a: real, b: real) -> real {
    if a > b {
        b / a
    } else {
        a / b
    }
}

/// Similarity does not depend on the order of its arguments.
pub proof fn lemma_sim_symmetric(a: real, b: real)
    ensures
        sim(a, b) == sim(b, a),
{
}

/// A number other than zero is fully similar to itself.
pub proof fn lemma_sim_reflexive(a: real)
    requires
        a != 0real,
    ensures
        sim(a, a) == 1real,
{
    let mean = (a + a) / 2real;
    assert(0real / mean == 0real) by (nonlinear_arith)
        requires
            mean != 0real,
    ;
}

/// The similarity of `i` and `j`, which is undefined where they sum to zero.
pub fn sim_perc(i: &Rational, j: &Rational) -> (r: Result<Rational, DegenerateInputError>)
    ensures
        r is Err <==> i@ + j@ == 0real,
        r matches Err(e) ==> e == DegenerateInputError::ZeroMean,
        r matches Ok(s) ==> s@ == sim(i@, j@),
{
    let diff = i.minus(j).magnitude();
    let two = Rational::from_int(2);
    let one = Rational::from_int(1);
    let mean = i.plus(j).divided_by(&two).unwrap();
    match diff.divided_by(&mean) {
        None => Err(DegenerateInputError::ZeroMean),
        Some(relative) => Ok(one.minus(&relative)),
    }
}

/// Whether `i` and `j` are within the fraction `mag` of each other: whether
/// the smaller falls short of the larger by less than `mag` of the larger.
/// Undefined where the larger of the two is zero.
pub fn same_magnitude(i: &Rational, j: &Rational, mag: &Rational) -> (r: Result<
    bool,
    DegenerateInputError,
>)
    ensures
        r is Err <==> (if i@ > j@ { i@ } else { j@ }) == 0real,
        r matches Err(e) ==> e == DegenerateInputError::ZeroMean,
        r matches Ok(within) ==> within == (1real - magnitude_ratio(i@, j@) < mag@),
{
    let one = Rational::from_int(1);
    let ratio = if j.less_than(i) {
        j.divided_by(i)
    } else {
        i.divided_by(j)
    };
    match ratio {
        None => Err(DegenerateInputError::ZeroMean),
        Some(q) => Ok(one.minus(&q).less_than(mag)),
    }
}

} // verus!
