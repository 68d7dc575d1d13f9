use marker_tracker::natural::Natural;
use marker_tracker::rational::Rational;

fn ratio(num: i64, den: i64) -> Rational {
    Rational::new(num, den).unwrap()
}

fn trimmed(mut limbs: Vec<u64>) -> Vec<u64> {
    while limbs.last() == Some(&0) {
        limbs.pop();
    }
    limbs
}

#[test]
fn a_sum_carries_into_the_next_limb() {
    let a = Natural::from_u64(u64::MAX);
    let b = Natural::from_u64(1);
    assert_eq!(trimmed(a.plus(&b).to_limbs()), vec![0, 1]);
    assert_eq!(trimmed(a.plus(&a).to_limbs()), vec![u64::MAX - 1, 1]);
}

#[test]
fn a_product_spans_limbs() {
    let a = Natural::from_u64(u64::MAX);
    // (2^64 - 1)^2 = 2^128 - 2^65 + 1
    assert_eq!(trimmed(a.times(&a).to_limbs()), vec![1, u64::MAX - 1]);
    let cube = a.times(&a).times(&a);
    // (2^64 - 1)^3 = 2^192 - 3 * 2^128 + 3 * 2^64 - 1
    assert_eq!(trimmed(cube.to_limbs()), vec![u64::MAX, 2, u64::MAX - 2]);
    assert!(trimmed(a.times(&Natural::from_u64(0)).to_limbs()).is_empty());
}

#[test]
fn a_difference_borrows_from_the_next_limb() {
    let a = Natural::from_u64(u64::MAX);
    let square = a.times(&a);
    assert!(square.minus(&a).unwrap().equals(&a.times(&Natural::from_u64(u64::MAX - 1))));
    let power = a.plus(&Natural::from_u64(1));
    assert_eq!(trimmed(power.minus(&Natural::from_u64(1)).unwrap().to_limbs()), vec![u64::MAX]);
    assert!(power.minus(&power).unwrap().is_zero());
    assert!(a.minus(&power).is_none());
    assert!(Natural::from_u64(3).minus(&Natural::from_u64(4)).is_none());
    assert!(power.duplicate().equals(&power));
}

#[test]
fn naturals_are_ordered_by_value_not_by_length() {
    let small = Natural::from_u64(7);
    let large = Natural::from_u64(u64::MAX).plus(&Natural::from_u64(1));
    assert!(small.less_than(&large));
    assert!(!large.less_than(&small));
    assert!(!small.less_than(&small));
    // The difference has a zero limb above its value.
    let seven = large.plus(&small).minus(&large).unwrap();
    assert!(seven.equals(&small));
    assert!(!seven.less_than(&small) && !small.less_than(&seven));
    assert!(!Natural::from_u64(0).less_than(&Natural::from_u64(0)));
    assert!(Natural::from_u64(0).is_zero());
    assert!(!small.is_zero());
}

#[test]
fn a_quotient_needs_a_denominator() {
    assert!(Rational::new(1, 0).is_none());
    assert!(Rational::new(0, 0).is_none());
    assert!(Rational::new(0, 5).is_some());
}

#[test]
fn signs_of_numerator_and_denominator_combine() {
    assert!(ratio(-1, -2).equals(&ratio(1, 2)));
    assert!(ratio(1, -2).equals(&ratio(-1, 2)));
    assert!(ratio(1, -2).is_negative());
    assert!(!ratio(-1, -2).is_negative());
    assert!(!ratio(0, -2).is_negative());
    assert!(ratio(i64::MIN, 1).is_negative());
    assert!(ratio(i64::MIN, i64::MIN).equals(&ratio(1, 1)));
    assert!(ratio(i64::MIN, -1).equals(&ratio(i64::MAX, 1).plus(&ratio(1, 1))));
}

#[test]
fn rational_arithmetic_is_exact() {
    assert!(ratio(1, 3).plus(&ratio(1, 6)).equals(&ratio(1, 2)));
    assert!(ratio(1, 3).minus(&ratio(1, 2)).equals(&ratio(-1, 6)));
    assert!(ratio(-2, 3).times(&ratio(-3, 4)).equals(&ratio(1, 2)));
    assert!(ratio(2, 3).times(&ratio(-3, 4)).equals(&ratio(-1, 2)));
    assert!(ratio(1, 2).divided_by(&ratio(-1, 4)).unwrap().equals(&ratio(-2, 1)));
    assert!(ratio(-1, 2).divided_by(&ratio(-1, 4)).unwrap().equals(&ratio(2, 1)));
    assert!(ratio(1, 2).divided_by(&ratio(0, 7)).is_none());
    assert!(ratio(1, 2).divided_by(&ratio(1, 3).minus(&ratio(2, 6))).is_none());
    assert!(ratio(3, 4).negated().equals(&ratio(-3, 4)));
    assert!(ratio(-3, 4).magnitude().equals(&ratio(3, 4)));
    assert!(ratio(3, 4).magnitude().equals(&ratio(3, 4)));
    assert!(Rational::from_int(-5).equals(&ratio(-10, 2)));
    assert!(ratio(-3, 4).duplicate().equals(&ratio(-3, 4)));
    // One tenth added ten times is one, which no binary fraction manages.
    let mut sum = ratio(0, 1);
    for _ in 0..10 {
        sum = sum.plus(&ratio(1, 10));
    }
    assert!(sum.equals(&ratio(1, 1)));
}

#[test]
fn rationals_are_ordered_across_denominators_and_signs() {
    assert!(ratio(1, 3).less_than(&ratio(1, 2)));
    assert!(!ratio(1, 2).less_than(&ratio(1, 3)));
    assert!(ratio(-1, 2).less_than(&ratio(-1, 3)));
    assert!(ratio(-1, 2).less_than(&ratio(1, 3)));
    assert!(!ratio(2, 4).less_than(&ratio(1, 2)));
    assert!(!ratio(1, 2).equals(&ratio(1, 3)));
    // Far beyond what one machine word holds.
    let big = ratio(i64::MAX, 1).times(&ratio(i64::MAX, 1)).times(&ratio(i64::MAX, 1));
    assert!(big.less_than(&big.plus(&ratio(1, i64::MAX))));
    assert!(big.minus(&ratio(1, i64::MAX)).less_than(&big));
    assert!(big.divided_by(&big).unwrap().equals(&ratio(1, 1)));
}

#[test]
fn parts_give_sign_magnitude_and_denominator() {
    let (negative, num, den) = ratio(-3, 4).to_parts();
    assert!(negative);
    // The quotient of the parts is three quarters, whatever they were scaled by.
    assert_eq!(num.len().max(1), 1);
    assert_eq!(den.len().max(1), 1);
    let n = num.first().copied().unwrap_or(0);
    let d = den.first().copied().unwrap_or(0);
    assert!(d > 0);
    assert_eq!(n * 4, d * 3);
    let (negative, num, _) = ratio(1, 3).minus(&ratio(1, 3)).to_parts();
    assert!(!negative);
    assert!(trimmed(num).is_empty());
}

fn limbs_to_f64(limbs: &[u64]) -> f64 {
    limbs.iter().rev().fold(0., |high, limb| high * 18446744073709551616. + *limb as f64)
}

fn to_f64(value: &Rational) -> f64 {
    let (negative, numerator, denominator) = value.to_parts();
    let quotient = limbs_to_f64(&numerator) / limbs_to_f64(&denominator);
    if negative {
        -quotient
    } else {
        quotient
    }
}

#[test]
fn parts_round_to_the_nearest_floating_point_number() {
    assert_eq!(to_f64(&ratio(9, 10)), 0.9);
    assert_eq!(to_f64(&ratio(-7, 11)), -7. / 11.);
    assert_eq!(to_f64(&ratio(0, 3)), 0.);
    // Numerator and denominator far beyond one limb.
    let mut value = ratio(9, 10);
    for _ in 0..12 {
        value = value.times(&ratio(1_000_000_007, 1_000_000_007));
    }
    let (_, numerator, denominator) = value.to_parts();
    assert!(trimmed(numerator).len() > 4 && trimmed(denominator).len() > 4);
    assert!((to_f64(&value) - 0.9).abs() < 1e-15);
    assert!(value.equals(&ratio(9, 10)));
}
