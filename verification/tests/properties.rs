use rational::Ratio;
use rational::RatioError;

fn ratio(num: i64, den: u64) -> Ratio {
    Ratio::make(num, den).unwrap()
}

fn zero() -> Ratio {
    ratio(0, 1)
}

fn one() -> Ratio {
    ratio(1, 1)
}

#[test]
fn adding_zero_keeps_the_simplified_value() {
    for x in [ratio(3, 6), ratio(-5, 10), ratio(0, 7), ratio(11, 4)] {
        assert_eq!(x.add(zero()).simplify(), x.simplify());
        assert_eq!(x.sub(zero()).simplify(), x.simplify());
    }
}

#[test]
fn multiplying_by_one_keeps_the_simplified_value() {
    for x in [ratio(3, 6), ratio(-5, 10), ratio(0, 7), ratio(11, 4)] {
        assert_eq!(x.mul(one()).simplify(), x.simplify());
        assert_eq!(x.div(one()).unwrap().simplify(), x.simplify());
    }
}

#[test]
fn double_negation_restores_the_value() {
    for x in [ratio(3, 6), ratio(-5, 10), ratio(0, 7), ratio(11, 4)] {
        assert_eq!(x.neg().neg(), x);
    }
}

#[test]
fn abs_has_a_nonnegative_numerator() {
    for x in [ratio(3, 6), ratio(-5, 10), ratio(0, 7), ratio(-11, 4)] {
        assert!(x.abs().num >= 0);
    }
}

#[test]
fn abs_of_a_nonnegative_value_keeps_the_simplified_value() {
    for x in [ratio(3, 6), ratio(0, 7), ratio(11, 4)] {
        assert_eq!(x.abs().simplify(), x.simplify());
    }
}

#[test]
fn multiplying_by_zero_absorbs_the_value() {
    for x in [ratio(3, 6), ratio(-5, 10), ratio(0, 7), ratio(11, 4)] {
        let p = x.mul(zero());
        assert_eq!(p.simplify(), zero());
        assert!(!p.is_nonzero());
        assert_eq!(p.reciprocal(), Err(RatioError::DivisionByZero));
    }
}

#[test]
fn dividing_by_zero_is_rejected_for_every_operand() {
    for x in [ratio(3, 6), ratio(-5, 10), ratio(0, 7), ratio(11, 4)] {
        assert_eq!(x.div(zero()), Err(RatioError::DivisionByZero));
    }
}

#[test]
fn simplify_keeps_the_denominator_positive_and_the_terms_lowest() {
    for x in [ratio(24, 36), ratio(-24, 36), ratio(1, 1000000), ratio(0, 9)] {
        let s = x.simplify();
        assert!(s.den > 0);
        let m = if s.num < 0 { (-(s.num as i128)) as u64 } else { s.num as u64 };
        assert_eq!(rational::gcd::gcd_u64(m, s.den), if s.num == 0 { s.den } else { 1 });
    }
}

#[test]
fn simplify_with_large_values() {
    // u64::MAX - 1 is twice i64::MAX, so the two share the factor i64::MAX.
    let big = ratio(i64::MAX, u64::MAX - 1);
    let s = big.simplify();
    assert_eq!(s, ratio(1, 2));
    assert_eq!(ratio(i64::MAX, 1).simplify(), ratio(i64::MAX, 1));
    // The numerator's magnitude is handled exactly at the signed boundary.
    assert_eq!(ratio(i64::MIN, 4).simplify(), ratio(i64::MIN / 4, 1));
    assert_eq!(ratio(i64::MIN, 1).simplify(), ratio(i64::MIN, 1));
}

#[test]
fn chained_operations_compose() {
    // (1/2 + 1/3) * 6/5 == 1
    let s = ratio(1, 2).add(ratio(1, 3)).mul(ratio(6, 5)).simplify();
    assert_eq!(s, one());
    // ((2/3)^-2 - 1/4) / (2/1) == 1
    let t = ratio(2, 3)
        .pow(-2)
        .unwrap()
        .sub(ratio(1, 4))
        .div(ratio(2, 1))
        .unwrap()
        .simplify();
    assert_eq!(t, one());
}
