//! The mathematical model: a rational value as a pair of unbounded integers,
//! and the exact formula each operator derives.

use crate::gcd::gcd;
use vstd::arithmetic::div_mod::lemma_div_multiples_vanish;
use vstd::arithmetic::div_mod::lemma_fundamental_div_mod;
use vstd::arithmetic::power::pow;
use vstd::math::abs;
use vstd::prelude::*;

verus! {

/// Model of a rational value: an integer numerator over an integer
/// denominator.  A well-formed value has a strictly positive denominator.
pub struct Rat {
    pub num: int,
    pub den: int,
}

/// Invariant of every rational value: the denominator is strictly positive.
pub open spec fn rat_wf(x: Rat) -> bool {
    x.den > 0
}

/// The value is nonzero exactly when its numerator is.
pub open spec fn rat_nonzero(x: Rat) -> bool {
    x.num != 0
}

/// Two representations denote the same rational number.
pub open spec fn rat_eq(x: Rat, y: Rat) -> bool {
    x.num * y.den == y.num * x.den
}

/// The zero value, `0 / 1`.
pub open spec fn rat_zero() -> Rat {
    Rat { num: 0, den: 1 }
}

/// The unit value, `1 / 1`.
pub open spec fn rat_one() -> Rat {
    Rat { num: 1, den: 1 }
}

/// Negation: the numerator's sign flips, the denominator is untouched.
pub open spec fn rat_neg(x: Rat) -> Rat {
    Rat { num: -x.num, den: x.den }
}

/// Absolute value: the numerator's magnitude over the same denominator.
pub open spec fn rat_abs(x: Rat) -> Rat {
    Rat { num: abs(x.num) as int, den: x.den }
}

/// The gcd of the two denominators.
pub open spec fn den_gcd(x: Rat, y: Rat) -> int {
    gcd(x.den as nat, y.den as nat) as int
}

/// Addition over the least common multiple of the denominators, computed as
/// `(den_l * den_r) / gcd(den_l, den_r)` to keep intermediates small.
pub open spec fn rat_add(x: Rat, y: Rat) -> Rat {
    let g = den_gcd(x, y);
    Rat {
        num: x.num * (y.den / g) + y.num * (x.den / g),
        den: (x.den * y.den) / g,
    }
}

/// Subtraction is addition of the negation.
pub open spec fn rat_sub(x: Rat, y: Rat) -> Rat {
    rat_add(x, rat_neg(y))
}

/// Multiplication of numerators and of denominators.
pub open spec fn rat_mul(x: Rat, y: Rat) -> Rat {
    Rat { num: x.num * y.num, den: x.den * y.den }
}

/// Reciprocal of a nonzero value.  The case split on the numerator's sign
/// keeps the resulting denominator strictly positive.
pub open spec fn rat_recip(x: Rat) -> Rat {
    if x.num > 0 {
        Rat { num: x.den, den: x.num }
    } else {
        Rat { num: -x.den, den: -x.num }
    }
}

/// Division is multiplication by the reciprocal.
pub open spec fn rat_div(x: Rat, y: Rat) -> Rat {
    rat_mul(x, rat_recip(y))
}

/// The base a power is taken of: the value itself for a nonnegative
/// exponent, its reciprocal for a negative one.
pub open spec fn pow_base(x: Rat, e: int) -> Rat {
    if e >= 0 {
        x
    } else {
        rat_recip(x)
    }
}

/// The magnitude of an exponent.
pub open spec fn pow_mag(e: int) -> nat {
    abs(e)
}

/// A signed integer power: numerator and denominator of the base are raised
/// to the exponent's magnitude.
pub open spec fn rat_pow(x: Rat, e: int) -> Rat {
    Rat {
        num: pow(pow_base(x, e).num, pow_mag(e)),
        den: pow(pow_base(x, e).den, pow_mag(e)),
    }
}

/// Reduction to lowest terms: both parts are divided by the gcd of the
/// numerator's magnitude and the denominator.
pub open spec fn rat_simplify(x: Rat) -> Rat {
    let g = gcd(abs(x.num), x.den as nat) as int;
    Rat { num: x.num / g, den: x.den / g }
}

/// An integer representable as an `i64`.
pub open spec fn in_i64(n: int) -> bool {
    i64::MIN <= n <= i64::MAX
}

/// An integer representable as a `u64`.
pub open spec fn in_u64(n: int) -> bool {
    0 <= n <= u64::MAX
}

/// Machine bound: every part of an addition's result fits its field.
pub open spec fn add_fits(x: Rat, y: Rat) -> bool {
    let g = den_gcd(x, y);
    &&& in_i64(x.num * (y.den / g))
    &&& in_i64(y.num * (x.den / g))
    &&& in_i64(x.num * (y.den / g) + y.num * (x.den / g))
    &&& in_u64((x.den * y.den) / g)
}

/// Machine bound: both parts of a product fit their fields.
pub open spec fn mul_fits(x: Rat, y: Rat) -> bool {
    in_i64(x.num * y.num) && in_u64(x.den * y.den)
}

/// Machine bound: the denominator moved into the signed numerator by a
/// reciprocal fits there.
pub open spec fn recip_fits(x: Rat) -> bool {
    x.den <= i64::MAX
}

/// Factoring a divisor of `b` out of a product: `a * (b / g) == (a * b) / g`.
pub proof fn lemma_mul_div_exact(a: int, b: int, g: int)
    requires
        g > 0,
        b % g == 0,
    ensures
        a * (b / g) == (a * b) / g,
{
    lemma_fundamental_div_mod(b, g);
    assert(a * b == g * (a * (b / g))) by (nonlinear_arith)
        requires
            b == g * (b / g),
    ;
    lemma_div_multiples_vanish(a * (b / g), g);
}

/// Machine bound: every partial power of the base fits its field.
pub open spec fn pow_fits(x: Rat, e: int) -> bool {
    &&& e < 0 ==> recip_fits(x)
    &&& forall|i: nat| i <= pow_mag(e) ==> in_i64(#[trigger] pow(pow_base(x, e).num, i))
    &&& forall|i: nat| i <= pow_mag(e) ==> in_u64(#[trigger] pow(pow_base(x, e).den, i))
}

} // verus!
