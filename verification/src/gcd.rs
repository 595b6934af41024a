//! The greatest common divisor: its definition, the facts the rest of the
//! crate needs about it, and an executable Euclidean algorithm.

use vstd::arithmetic::div_mod::lemma_add_mod_noop;
use vstd::arithmetic::div_mod::lemma_fundamental_div_mod;
use vstd::arithmetic::div_mod::lemma_fundamental_div_mod_converse;
use vstd::arithmetic::div_mod::lemma_mod_self_0;
use vstd::arithmetic::div_mod::lemma_mul_mod_noop_left;
use vstd::arithmetic::div_mod::lemma_small_mod;
use vstd::arithmetic::div_mod::lemma_sub_mod_noop;
use vstd::prelude::*;

verus! {

/// Greatest common divisor by Euclid's algorithm, with `gcd(a, 0) == a`.
pub open spec fn gcd(a: nat, b: nat) -> nat
    decreases b,
{
    if b == 0 {
        a
    } else {
        gcd(b, a % b)
    }
}

/// The gcd of two numbers, at least one of them positive, is positive and
/// divides both.
pub proof fn lemma_gcd_divides(a: nat, b: nat)
    requires
        a > 0 || b > 0,
    ensures
        gcd(a, b) > 0,
        a % gcd(a, b) == 0,
        b % gcd(a, b) == 0,
    decreases b,
{
    let g = gcd(a, b);
    if b == 0 {
        lemma_mod_self_0(a as int);
        lemma_small_mod(0, a);
    } else {
        let r = a % b;
        lemma_gcd_divides(b, r);
        lemma_fundamental_div_mod(a as int, b as int);
        assert((b * (a / b)) % g == 0) by {
            lemma_mul_mod_noop_left(b as int, (a / b) as int, g as int);
            lemma_small_mod(0, g);
        }
        assert(a % g == 0) by {
            lemma_add_mod_noop((b * (a / b)) as int, r as int, g as int);
            lemma_small_mod(0, g);
        }
    }
}

/// Every positive common divisor of `a` and `b` divides their gcd.
pub proof fn lemma_gcd_is_greatest(a: nat, b: nat, c: nat)
    requires
        c > 0,
        a % c == 0,
        b % c == 0,
    ensures
        gcd(a, b) % c == 0,
    decreases b,
{
    if b > 0 {
        let r = a % b;
        lemma_fundamental_div_mod(a as int, b as int);
        assert((b * (a / b)) % c == 0) by {
            lemma_mul_mod_noop_left(b as int, (a / b) as int, c as int);
            lemma_small_mod(0, c);
        }
        assert(r % c == 0) by {
            lemma_sub_mod_noop(a as int, (b * (a / b)) as int, c as int);
            lemma_small_mod(0, c);
        }
        lemma_gcd_is_greatest(b, r, c);
    }
}

/// Exact division: when `g` divides `m`, the quotient times `g` gives `m`
/// back, and the quotient of `-m` is the negated quotient.
pub proof fn lemma_exact_div(m: nat, g: nat)
    requires
        g > 0,
        m % g == 0,
    ensures
        g * (m / g) == m,
        (-(m as int)) / (g as int) == -((m / g) as int),
        (-(m as int)) % (g as int) == 0,
{
    lemma_fundamental_div_mod(m as int, g as int);
    assert(-(m as int) == (g as int) * (-((m / g) as int))) by (nonlinear_arith)
        requires
            m as int == (g as int) * ((m / g) as int),
    ;
    lemma_fundamental_div_mod_converse(-(m as int), g as int, -((m / g) as int), 0);
}

/// A positive multiple of `g` divided by `g` is positive.
pub proof fn lemma_exact_div_pos(m: nat, g: nat)
    requires
        g > 0,
        m > 0,
        m % g == 0,
    ensures
        m / g > 0,
        g <= m,
{
    lemma_exact_div(m, g);
    assert(m / g > 0 && g <= m) by (nonlinear_arith)
        requires
            (g as int) * ((m / g) as int) == m as int,
            m > 0,
            g > 0,
            m / g >= 0,
    ;
}

/// Euclid's algorithm.
pub fn gcd_u64(a: u64, b: u64) -> (g: u64)
    ensures
        g == gcd(a as nat, b as nat),
{
    let mut x: u64 = a;
    let mut y: u64 = b;
    while y != 0
        invariant
            gcd(x as nat, y as nat) == gcd(a as nat, b as nat),
        decreases y,
    {
        let r: u64 = x % y;
        x = y;
        y = r;
    }
    x
}

} // verus!
