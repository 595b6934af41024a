use rational::Ratio;
use rational::RatioError;

fn ratio(num: i64, den: u64) -> Ratio {
    Ratio::make(num, den).unwrap()
}

#[test]
fn make_accepts_a_positive_denominator() {
    let r = ratio(3, 4);
    assert_eq!(r.num, 3);
    assert_eq!(r.den, 4);
}

#[test]
fn make_rejects_a_zero_denominator() {
    assert_eq!(Ratio::make(3, 0), Err(RatioError::InvalidDenominator));
    assert_eq!(Ratio::make(0, 0), Err(RatioError::InvalidDenominator));
}

#[test]
fn from_int_defaults_the_denominator_to_one() {
    let r = Ratio::from_int(-7);
    assert_eq!(r.num, -7);
    assert_eq!(r.den, 1);
}

#[test]
fn gcd_of_concrete_values() {
    assert_eq!(rational::gcd::gcd_u64(12, 18), 6);
    assert_eq!(rational::gcd::gcd_u64(0, 5), 5);
    assert_eq!(rational::gcd::gcd_u64(7, 0), 7);
    assert_eq!(rational::gcd::gcd_u64(35, 64), 1);
}

#[test]
fn the_constant_catalog_comes_from_the_constructor() {
    // The small-integer and unit-fraction constants are plain values of the
    // constructor.
    for k in 0..=10i64 {
        assert_eq!(Ratio::from_int(k), ratio(k, 1));
    }
    for d in 2..=10u64 {
        let r = ratio(1, d);
        assert_eq!(r.num, 1);
        assert_eq!(r.den, d);
    }
}

#[test]
fn add_keeps_the_result_unreduced() {
    // 1/2 + 1/2 is derived over the least common multiple: 2/2, not 1/1.
    let s = ratio(1, 2).add(ratio(1, 2));
    assert_eq!(s, ratio(2, 2));
}

#[test]
fn add_of_two_halves_simplifies_to_one() {
    let s = ratio(1, 2).add(ratio(1, 2)).simplify();
    assert_eq!(s, ratio(1, 1));
}

#[test]
fn mul_of_two_halves_simplifies_to_a_quarter() {
    let p = ratio(1, 2).mul(ratio(1, 2)).simplify();
    assert_eq!(p, ratio(1, 4));
}

#[test]
fn div_of_a_half_by_two_simplifies_to_a_quarter() {
    let q = ratio(1, 2).div(ratio(2, 1)).unwrap().simplify();
    assert_eq!(q, ratio(1, 4));
}

#[test]
fn add_of_a_half_and_a_third_simplifies_to_five_sixths() {
    let s = ratio(1, 2).add(ratio(1, 3)).simplify();
    assert_eq!(s, ratio(5, 6));
}

#[test]
fn sub_of_a_third_from_a_half_simplifies_to_a_sixth() {
    let d = ratio(1, 2).sub(ratio(1, 3)).simplify();
    assert_eq!(d, ratio(1, 6));
}

#[test]
fn add_of_a_quarter_and_a_sixth_simplifies_to_five_twelfths() {
    let s = ratio(1, 4).add(ratio(1, 6)).simplify();
    assert_eq!(s, ratio(5, 12));
}

#[test]
fn add_with_negative_operand() {
    let s = ratio(-1, 2).add(ratio(1, 3)).simplify();
    assert_eq!(s, ratio(-1, 6));
}

#[test]
fn neg_flips_the_numerator_sign() {
    assert_eq!(ratio(3, 5).neg(), ratio(-3, 5));
    assert_eq!(ratio(-3, 5).neg(), ratio(3, 5));
    assert_eq!(ratio(0, 5).neg(), ratio(0, 5));
}

#[test]
fn abs_clears_the_numerator_sign() {
    assert_eq!(ratio(-3, 5).abs(), ratio(3, 5));
    assert_eq!(ratio(3, 5).abs(), ratio(3, 5));
    assert_eq!(ratio(0, 5).abs(), ratio(0, 5));
}

#[test]
fn is_nonzero_inspects_the_numerator() {
    assert!(ratio(-1, 9).is_nonzero());
    assert!(ratio(4, 9).is_nonzero());
    assert!(!ratio(0, 9).is_nonzero());
}

#[test]
fn reciprocal_of_a_positive_value() {
    assert_eq!(ratio(2, 3).reciprocal(), Ok(ratio(3, 2)));
}

#[test]
fn reciprocal_of_a_negative_value_keeps_the_denominator_positive() {
    assert_eq!(ratio(-2, 3).reciprocal(), Ok(ratio(-3, 2)));
}

#[test]
fn reciprocal_of_zero_is_division_by_zero() {
    assert_eq!(ratio(0, 3).reciprocal(), Err(RatioError::DivisionByZero));
}

#[test]
fn pow_with_a_positive_exponent() {
    assert_eq!(ratio(2, 3).pow(3), Ok(ratio(8, 27)));
    assert_eq!(ratio(-2, 3).pow(2), Ok(ratio(4, 9)));
    assert_eq!(ratio(-2, 3).pow(3), Ok(ratio(-8, 27)));
}

#[test]
fn pow_with_a_zero_exponent_yields_one() {
    assert_eq!(ratio(2, 3).pow(0), Ok(ratio(1, 1)));
    assert_eq!(ratio(0, 3).pow(0), Ok(ratio(1, 1)));
}

#[test]
fn pow_with_a_negative_exponent_raises_the_reciprocal() {
    assert_eq!(ratio(2, 3).pow(-2), Ok(ratio(9, 4)));
    assert_eq!(ratio(-2, 3).pow(-3), Ok(ratio(-27, 8)));
}

#[test]
fn pow_of_zero_with_a_negative_exponent_is_division_by_zero() {
    assert_eq!(ratio(0, 3).pow(-1), Err(RatioError::DivisionByZero));
    assert_eq!(ratio(0, 1).pow(-7), Err(RatioError::DivisionByZero));
}

#[test]
fn simplify_divides_out_the_greatest_common_factor() {
    assert_eq!(ratio(2, 4).simplify(), ratio(1, 2));
    assert_eq!(ratio(9, 12).simplify(), ratio(3, 4));
    assert_eq!(ratio(7, 5).simplify(), ratio(7, 5));
}

#[test]
fn simplify_of_a_negative_value() {
    assert_eq!(ratio(-6, 4).simplify(), ratio(-3, 2));
    assert_eq!(ratio(-5, 5).simplify(), ratio(-1, 1));
}

#[test]
fn simplify_of_zero_always_gives_zero_over_one() {
    assert_eq!(ratio(0, 5).simplify(), ratio(0, 1));
    assert_eq!(ratio(0, 1).simplify(), ratio(0, 1));
}
