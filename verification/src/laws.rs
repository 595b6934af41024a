//! The algebraic laws the library guarantees, each stated over the model and
//! proved once and for all.

use crate::gcd::gcd;
use crate::gcd::lemma_exact_div;
use crate::gcd::lemma_exact_div_pos;
use crate::gcd::lemma_gcd_divides;
use crate::gcd::lemma_gcd_is_greatest;
use crate::rat::den_gcd;
use crate::rat::rat_abs;
use crate::rat::rat_add;
use crate::rat::rat_div;
use crate::rat::rat_eq;
use crate::rat::rat_mul;
use crate::rat::rat_neg;
use crate::rat::rat_nonzero;
use crate::rat::rat_one;
use crate::rat::rat_simplify;
use crate::rat::rat_sub;
use crate::rat::rat_wf;
use crate::rat::rat_zero;
use crate::rat::Rat;
use vstd::arithmetic::div_mod::lemma_div_basics;
use vstd::arithmetic::div_mod::lemma_div_by_self;
use vstd::arithmetic::div_mod::lemma_div_of0;
use vstd::arithmetic::div_mod::lemma_fundamental_div_mod_converse;
use vstd::arithmetic::div_mod::lemma_small_mod;
use vstd::math::abs;
use vstd::prelude::*;

verus! {

/// The gcd of any number and one is one.
proof fn lemma_gcd_one(d: nat)
    ensures
        gcd(d, 1) == 1,
{
    assert(d % 1 == 0);
    assert(gcd(d, 1) == gcd(1, 0));
    assert(gcd(1, 0) == 1);
}

/// Adding or subtracting zero leaves a value unchanged, so also its
/// simplification.
pub proof fn lemma_add_zero_identity(x: Rat)
    requires
        rat_wf(x),
    ensures
        rat_add(x, rat_zero()) == x,
        rat_simplify(rat_add(x, rat_zero())) == rat_simplify(x),
        rat_sub(x, rat_zero()) == x,
        rat_simplify(rat_sub(x, rat_zero())) == rat_simplify(x),
{
    lemma_gcd_one(x.den as nat);
    lemma_div_basics(x.den);
    lemma_div_basics(1);
    assert(den_gcd(x, rat_zero()) == 1);
    assert(rat_neg(rat_zero()) == rat_zero());
    assert(rat_add(x, rat_zero()) == x);
}

/// Multiplying or dividing by one leaves a value unchanged, so also its
/// simplification.
pub proof fn lemma_mul_one_identity(x: Rat)
    requires
        rat_wf(x),
    ensures
        rat_mul(x, rat_one()) == x,
        rat_simplify(rat_mul(x, rat_one())) == rat_simplify(x),
        rat_div(x, rat_one()) == x,
        rat_simplify(rat_div(x, rat_one())) == rat_simplify(x),
{
    assert(rat_mul(x, rat_one()) == x);
}

/// Negating twice gives the original value back.
pub proof fn lemma_double_negation(x: Rat)
    ensures
        rat_neg(rat_neg(x)) == x,
{
}

/// The absolute value's numerator is never negative, and on a value whose
/// numerator is already nonnegative the absolute value changes nothing.
pub proof fn lemma_abs_sign(x: Rat)
    ensures
        rat_abs(x).num >= 0,
        x.num >= 0 ==> rat_abs(x) == x,
        x.num >= 0 ==> rat_simplify(rat_abs(x)) == rat_simplify(x),
{
}

/// Multiplying by zero absorbs the value: the product simplifies to `0 / 1`
/// and is not nonzero.
pub proof fn lemma_zero_absorption(x: Rat)
    requires
        rat_wf(x),
    ensures
        rat_mul(x, rat_zero()) == (Rat { num: 0, den: x.den }),
        rat_simplify(rat_mul(x, rat_zero())) == rat_zero(),
        !rat_nonzero(rat_mul(x, rat_zero())),
{
    let d = x.den;
    lemma_small_mod(0, d as nat);
    assert(gcd(0, d as nat) == gcd(d as nat, 0));
    assert(gcd(d as nat, 0) == d as nat);
    lemma_div_of0(d);
    lemma_div_by_self(d);
}

/// Simplification does not change the rational number a value denotes.
pub proof fn lemma_simplify_same_value(x: Rat)
    requires
        rat_wf(x),
    ensures
        rat_wf(rat_simplify(x)),
        rat_eq(rat_simplify(x), x),
{
    let n = x.num;
    let d = x.den;
    let m = abs(n);
    let g = gcd(m, d as nat) as int;
    lemma_gcd_divides(m, d as nat);
    lemma_exact_div(m, g as nat);
    lemma_exact_div(d as nat, g as nat);
    lemma_exact_div_pos(d as nat, g as nat);
    let a = (m as int) / g;
    let b = d / g;
    assert(a * d == (m as int) * b && (-a) * d == (-(m as int)) * b) by (nonlinear_arith)
        requires
            m as int == g * a,
            d == g * b,
    ;
}

/// Simplification yields lowest terms: the numerator's magnitude and the
/// denominator of the result share no factor greater than one.
pub proof fn lemma_simplify_lowest_terms(x: Rat)
    requires
        rat_wf(x),
    ensures
        gcd(abs(rat_simplify(x).num), rat_simplify(x).den as nat) == 1,
{
    let n = x.num;
    let d = x.den;
    let m = abs(n);
    let g = gcd(m, d as nat);
    lemma_gcd_divides(m, d as nat);
    lemma_exact_div(m, g);
    lemma_exact_div(d as nat, g);
    lemma_exact_div_pos(d as nat, g);
    let a = m / g;
    let b = (d as nat) / g;
    assert(abs(rat_simplify(x).num) == a);
    let h = gcd(a, b);
    lemma_gcd_divides(a, b);
    lemma_exact_div(a, h);
    lemma_exact_div(b, h);
    if h >= 2 {
        let gh = g * h;
        assert(m as int == ((a / h) as int) * (gh as int) && d as int == ((b / h) as int) * (
        gh as int) && g < gh) by (nonlinear_arith)
            requires
                m as int == (g as int) * (a as int),
                d as int == (g as int) * (b as int),
                a as int == (h as int) * ((a / h) as int),
                b as int == (h as int) * ((b / h) as int),
                gh == g * h,
                g >= 1,
                h >= 2,
        ;
        lemma_fundamental_div_mod_converse(m as int, gh as int, (a / h) as int, 0);
        lemma_fundamental_div_mod_converse(d as int, gh as int, (b / h) as int, 0);
        lemma_gcd_is_greatest(m, d as nat, gh);
        lemma_small_mod(g, gh);
        assert(false);
    }
}

} // verus!
