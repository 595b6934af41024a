//! The executable rational value and its operators.
//!
//! Every operator is a pure function: it consumes its operands and returns a
//! fresh value whose fields are pinned, through the view, to the exact
//! formulas of the model in `rat`.  Machine-width bounds that unbounded
//! arithmetic would not need appear as `requires` clauses.

use crate::gcd::gcd;
use crate::gcd::gcd_u64;
use crate::gcd::lemma_exact_div;
use crate::gcd::lemma_exact_div_pos;
use crate::gcd::lemma_gcd_divides;
use crate::laws::lemma_simplify_lowest_terms;
use crate::laws::lemma_simplify_same_value;
use crate::rat::add_fits;
use crate::rat::in_i64;
use crate::rat::lemma_mul_div_exact;
use crate::rat::mul_fits;
use crate::rat::pow_base;
use crate::rat::pow_fits;
use crate::rat::pow_mag;
use crate::rat::rat_abs;
use crate::rat::rat_add;
use crate::rat::rat_div;
use crate::rat::rat_eq;
use crate::rat::rat_mul;
use crate::rat::rat_neg;
use crate::rat::rat_nonzero;
use crate::rat::rat_pow;
use crate::rat::rat_recip;
use crate::rat::rat_simplify;
use crate::rat::rat_sub;
use crate::rat::rat_wf;
use crate::rat::recip_fits;
use crate::rat::Rat;
use vstd::arithmetic::div_mod::lemma_div_nonincreasing;
use vstd::arithmetic::mul::lemma_mul_strictly_positive;
use vstd::arithmetic::power::lemma_pow0;
use vstd::arithmetic::power::lemma_pow1;
use vstd::arithmetic::power::lemma_pow_adds;
use vstd::arithmetic::power::lemma_pow_positive;
use vstd::arithmetic::power::pow;
use vstd::math::abs;
use vstd::prelude::*;

verus! {

/// A rational value: a signed numerator over an unsigned denominator.
/// Every constructor of this crate yields a well-formed value, one whose
/// denominator is strictly positive.
#[derive(Clone, Copy, Debug, PartialEq, Eq, Structural)]
pub struct Ratio {
    pub num: i64,
    pub den: u64,
}

/// The failures an operation can surface.
#[derive(Clone, Copy, Debug, PartialEq, Eq, Structural)]
pub enum RatioError {
    /// A zero denominator was supplied to construction.
    InvalidDenominator,
    /// A reciprocal, a division, or a power with a negative exponent was
    /// asked of a value whose numerator is zero.
    DivisionByZero,
}

impl View for Ratio {
    type V = Rat;

    open spec fn view(&self) -> Rat {
        Rat { num: self.num as int, den: self.den as int }
    }
}

/// A numerator's magnitude as an unsigned value.
fn magnitude(n: i64) -> (m: u64)
    ensures
        m == abs(n as int),
{
    if n < 0 {
        (-(n as i128)) as u64
    } else {
        n as u64
    }
}

impl Ratio {
    /// Builds a value from a numerator and a denominator; a zero denominator
    /// is rejected.
    pub fn make(num: i64, den: u64) -> (r: Result<Ratio, RatioError>)
        ensures
            match r {
                Ok(v) => den != 0 && v@ == (Rat { num: num as int, den: den as int }) && rat_wf(
                    v@,
                ),
                Err(e) => den == 0 && e == RatioError::InvalidDenominator,
            },
    {
        if den == 0 {
            Err(RatioError::InvalidDenominator)
        } else {
            Ok(Ratio { num, den })
        }
    }

    /// Builds the integer `num`, that is `num / 1`.
    pub fn from_int(num: i64) -> (r: Ratio)
        ensures
            r@ == (Rat { num: num as int, den: 1 }),
            rat_wf(r@),
    {
        Ratio { num, den: 1 }
    }

    /// True exactly when the value is not zero, that is when the numerator
    /// is not zero.
    pub fn is_nonzero(self) -> (r: bool)
        ensures
            r == rat_nonzero(self@),
    {
        self.num != 0
    }

    /// Negation: the numerator's sign flips, the denominator is untouched.
    pub fn neg(self) -> (r: Ratio)
        requires
            in_i64(-self@.num),
        ensures
            r@ == rat_neg(self@),
    {
        Ratio { num: -self.num, den: self.den }
    }

    /// Absolute value: the numerator's magnitude over the same denominator.
    pub fn abs(self) -> (r: Ratio)
        requires
            in_i64(rat_abs(self@).num),
        ensures
            r@ == rat_abs(self@),
            r@.num >= 0,
    {
        if self.num >= 0 {
            self
        } else {
            Ratio { num: -self.num, den: self.den }
        }
    }

    /// Reduction to lowest terms: numerator and denominator are divided by
    /// the gcd of the numerator's magnitude and the denominator.  The result
    /// denotes the same rational number and is in lowest terms.
    pub fn simplify(self) -> (r: Ratio)
        requires
            rat_wf(self@),
        ensures
            r@ == rat_simplify(self@),
            rat_wf(r@),
            rat_eq(r@, self@),
            gcd(abs(r@.num), r@.den as nat) == 1,
    {
        proof {
            lemma_simplify_same_value(self@);
            lemma_simplify_lowest_terms(self@);
        }
        let m: u64 = magnitude(self.num);
        let g: u64 = gcd_u64(m, self.den);
        proof {
            lemma_gcd_divides(m as nat, self.den as nat);
            lemma_div_nonincreasing(m as int, g as int);
            lemma_exact_div_pos(self.den as nat, g as nat);
        }
        let q: u64 = m / g;
        let num2: i64 = if self.num < 0 {
            proof {
                lemma_exact_div(m as nat, g as nat);
            }
            (-(q as i128)) as i64
        } else {
            q as i64
        };
        let den2: u64 = self.den / g;
        Ratio { num: num2, den: den2 }
    }

    /// Addition over the least common multiple of the denominators; the
    /// shared divisor is factored out first to keep intermediates small.
    pub fn add(self, rhs: Ratio) -> (r: Ratio)
        requires
            rat_wf(self@),
            rat_wf(rhs@),
            add_fits(self@, rhs@),
        ensures
            r@ == rat_add(self@, rhs@),
            rat_wf(r@),
    {
        let g: u64 = gcd_u64(self.den, rhs.den);
        proof {
            lemma_gcd_divides(self.den as nat, rhs.den as nat);
            lemma_mul_div_exact(self.den as int, rhs.den as int, g as int);
            lemma_exact_div_pos(rhs.den as nat, g as nat);
        }
        let yq: u64 = rhs.den / g;
        let xq: u64 = self.den / g;
        let t1: i128 = (self.num as i128) * (yq as i128);
        let t2: i128 = (rhs.num as i128) * (xq as i128);
        let num2: i64 = (t1 + t2) as i64;
        let den2: u64 = self.den * yq;
        proof {
            lemma_mul_strictly_positive(self.den as int, yq as int);
        }
        Ratio { num: num2, den: den2 }
    }

    /// Subtraction: addition of the negation.
    pub fn sub(self, rhs: Ratio) -> (r: Ratio)
        requires
            rat_wf(self@),
            rat_wf(rhs@),
            in_i64(-rhs@.num),
            add_fits(self@, rat_neg(rhs@)),
        ensures
            r@ == rat_sub(self@, rhs@),
            rat_wf(r@),
    {
        self.add(rhs.neg())
    }

    /// Multiplication of numerators and of denominators.
    pub fn mul(self, rhs: Ratio) -> (r: Ratio)
        requires
            rat_wf(self@),
            rat_wf(rhs@),
            mul_fits(self@, rhs@),
        ensures
            r@ == rat_mul(self@, rhs@),
            rat_wf(r@),
    {
        let num2: i64 = ((self.num as i128) * (rhs.num as i128)) as i64;
        let den2: u64 = self.den * rhs.den;
        proof {
            lemma_mul_strictly_positive(self.den as int, rhs.den as int);
        }
        Ratio { num: num2, den: den2 }
    }

    /// Reciprocal of a value known to be nonzero.  The case split on the
    /// numerator's sign keeps the new denominator strictly positive.
    fn recip(self) -> (r: Ratio)
        requires
            rat_wf(self@),
            rat_nonzero(self@),
            recip_fits(self@),
        ensures
            r@ == rat_recip(self@),
            rat_wf(r@),
    {
        if self.num > 0 {
            Ratio { num: self.den as i64, den: self.num as u64 }
        } else {
            Ratio { num: -(self.den as i64), den: (-(self.num as i128)) as u64 }
        }
    }

    /// Reciprocal: `den / num` with the sign moved into the numerator; a
    /// zero numerator is rejected.
    pub fn reciprocal(self) -> (r: Result<Ratio, RatioError>)
        requires
            rat_wf(self@),
            rat_nonzero(self@) ==> recip_fits(self@),
        ensures
            match r {
                Ok(v) => self@.num != 0 && v@ == rat_recip(self@) && rat_wf(v@),
                Err(e) => self@.num == 0 && e == RatioError::DivisionByZero,
            },
    {
        if self.num == 0 {
            Err(RatioError::DivisionByZero)
        } else {
            Ok(self.recip())
        }
    }

    /// Division: multiplication by the reciprocal; a zero divisor is
    /// rejected.
    pub fn div(self, rhs: Ratio) -> (r: Result<Ratio, RatioError>)
        requires
            rat_wf(self@),
            rat_wf(rhs@),
            rat_nonzero(rhs@) ==> recip_fits(rhs@) && mul_fits(self@, rat_recip(rhs@)),
        ensures
            match r {
                Ok(v) => rhs@.num != 0 && v@ == rat_div(self@, rhs@) && rat_wf(v@),
                Err(e) => rhs@.num == 0 && e == RatioError::DivisionByZero,
            },
    {
        if rhs.num == 0 {
            Err(RatioError::DivisionByZero)
        } else {
            Ok(self.mul(rhs.recip()))
        }
    }

    /// A signed integer power.  A zero exponent yields `1 / 1`; a negative
    /// exponent raises the reciprocal, so a zero base is rejected there.
    pub fn pow(self, e: i32) -> (r: Result<Ratio, RatioError>)
        requires
            rat_wf(self@),
            !(self@.num == 0 && e < 0) ==> pow_fits(self@, e as int),
        ensures
            match r {
                Ok(v) => !(self@.num == 0 && e < 0) && v@ == rat_pow(self@, e as int) && rat_wf(
                    v@,
                ),
                Err(err) => self@.num == 0 && e < 0 && err == RatioError::DivisionByZero,
            },
    {
        if self.num == 0 && e < 0 {
            return Err(RatioError::DivisionByZero);
        }
        let base: Ratio = if e >= 0 {
            self
        } else {
            self.recip()
        };
        let k: u64 = if e >= 0 {
            e as u64
        } else {
            (-(e as i64)) as u64
        };
        let mut i: u64 = 0;
        let mut rn: i64 = 1;
        let mut rd: u64 = 1;
        proof {
            lemma_pow0(base@.num);
            lemma_pow0(base@.den);
        }
        while i < k
            invariant
                i <= k,
                k == pow_mag(e as int),
                base@ == pow_base(self@, e as int),
                rat_wf(base@),
                pow_fits(self@, e as int),
                rn == pow(base@.num, i as nat),
                rd == pow(base@.den, i as nat),
            decreases k - i,
        {
            proof {
                lemma_pow_adds(base@.num, i as nat, 1);
                lemma_pow1(base@.num);
                lemma_pow_adds(base@.den, i as nat, 1);
                lemma_pow1(base@.den);
                assert(pow(base@.num, (i + 1) as nat) == rn * base@.num);
                assert(pow(base@.den, (i + 1) as nat) == rd * base@.den);
            }
            let t: i128 = (rn as i128) * (base.num as i128);
            rn = t as i64;
            rd = rd * base.den;
            i = i + 1;
        }
        proof {
            lemma_pow_positive(base@.den, k as nat);
        }
        Ok(Ratio { num: rn, den: rd })
    }
}

} // verus!
