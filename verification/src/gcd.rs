//! The greatest common divisor, and fractions in lowest terms.

use vstd::arithmetic::div_mod::{
    lemma_div_multiples_vanish_quotient, lemma_fundamental_div_mod, lemma_mod_multiples_basic,
    lemma_small_mod, lemma_truncate_middle,
};
use vstd::prelude::*;

verus! {

/// The greatest common divisor of two numbers, by Euclid's rule. It is 0 only
/// where both numbers are.
pub open spec fn gcd(a: nat, b: nat) -> nat
    decreases b,
{
    if b == 0 {
        a
    } else {
        gcd(b, a % b)
    }
}

/// Whether `numer / denom` is a fraction in lowest terms.
pub open spec fn lowest_terms(numer: nat, denom: nat) -> bool {
    denom > 0 && gcd(numer, denom) == 1
}

/// The fraction `numer / denom` in lowest terms: both parts divided by their
/// greatest common divisor.
pub open spec fn reduced(numer: nat, denom: nat) -> (nat, nat) {
    (numer / gcd(numer, denom), denom / gcd(numer, denom))
}

/// A multiple of `c` leaves no remainder on division by `c`.
pub proof fn lemma_multiple_mod(k: nat, c: nat)
    requires
        c > 0,
    ensures
        (k * c) % c == 0,
        (c * k) % c == 0,
{
    lemma_mod_multiples_basic(k as int, c as int);
    assert(k * c == c * k) by (nonlinear_arith);
}

/// What leaves no remainder on division by `c` is a multiple of `c`.
pub proof fn lemma_mod_multiple(x: nat, c: nat)
    requires
        c > 0,
        x % c == 0,
    ensures
        x == c * (x / c),
        x == (x / c) * c,
{
    lemma_fundamental_div_mod(x as int, c as int);
    assert(c * (x / c) == (x / c) * c) by (nonlinear_arith);
}

/// The greatest common divisor divides both numbers.
pub proof fn lemma_gcd_divides(a: nat, b: nat)
    requires
        a > 0 || b > 0,
    ensures
        gcd(a, b) > 0,
        a % gcd(a, b) == 0,
        b % gcd(a, b) == 0,
    decreases b,
{
    if b == 0 {
        lemma_multiple_mod(1, a);
        lemma_multiple_mod(0, a);
    } else {
        let g = gcd(b, a % b);
        lemma_gcd_divides(b, a % b);
        lemma_mod_multiple(b, g);
        lemma_mod_multiple(a % b, g);
        lemma_fundamental_div_mod(a as int, b as int);
        let kb = b / g;
        let kr = (a % b) / g;
        let q = a / b;
        assert(a == (kb * q + kr) * g) by (nonlinear_arith)
            requires
                a == b * q + a % b,
                b == kb * g,
                a % b == kr * g,
        ;
        lemma_multiple_mod(kb * q + kr, g);
    }
}

/// Whatever divides both numbers divides their greatest common divisor.
pub proof fn lemma_gcd_greatest(c: nat, a: nat, b: nat)
    requires
        c > 0,
        a % c == 0,
        b % c == 0,
    ensures
        gcd(a, b) % c == 0,
    decreases b,
{
    if b != 0 {
        lemma_mod_multiple(a, c);
        lemma_mod_multiple(b, c);
        lemma_fundamental_div_mod(a as int, b as int);
        let ka = a / c;
        let kb = b / c;
        let q = a / b;
        let r = a % b;
        assert(ka - kb * q >= 0 && r == (ka - kb * q) * c) by (nonlinear_arith)
            requires
                a == b * q + r,
                a == ka * c,
                b == kb * c,
                r >= 0,
                c > 0,
        ;
        lemma_multiple_mod((ka - kb * q) as nat, c);
        lemma_gcd_greatest(c, b, r);
    }
}

/// Against 1 the greatest common divisor is 1.
pub proof fn lemma_gcd_one(a: nat)
    ensures
        gcd(a, 1) == 1,
        lowest_terms(a, 1),
{
    reveal_with_fuel(gcd, 3);
    assert(a % 1 == 0);
}

/// What `reduced` gives: the same value, in lowest terms, with no part
/// larger than it was.
pub proof fn lemma_reduced(numer: nat, denom: nat)
    requires
        denom > 0,
    ensures
        lowest_terms(reduced(numer, denom).0, reduced(numer, denom).1),
        reduced(numer, denom).0 * gcd(numer, denom) == numer,
        reduced(numer, denom).1 * gcd(numer, denom) == denom,
        reduced(numer, denom).0 * denom == numer * reduced(numer, denom).1,
        reduced(numer, denom).0 <= numer,
        reduced(numer, denom).1 <= denom,
{
    let g = gcd(numer, denom);
    lemma_gcd_divides(numer, denom);
    lemma_mod_multiple(numer, g);
    lemma_mod_multiple(denom, g);
    let n = numer / g;
    let d = denom / g;
    assert(d > 0 && n <= numer && d <= denom && n * denom == numer * d) by (nonlinear_arith)
        requires
            numer == n * g,
            denom == d * g,
            g > 0,
            denom > 0,
    ;
    let h = gcd(n, d);
    lemma_gcd_divides(n, d);
    lemma_mod_multiple(n, h);
    lemma_mod_multiple(d, h);
    let x = n / h;
    let y = d / h;
    assert(numer == x * (g * h) && denom == y * (g * h) && g * h > 0) by (nonlinear_arith)
        requires
            numer == n * g,
            denom == d * g,
            n == x * h,
            d == y * h,
            g > 0,
            h > 0,
    ;
    lemma_multiple_mod(x, g * h);
    lemma_multiple_mod(y, g * h);
    lemma_gcd_greatest(g * h, numer, denom);
    lemma_mod_multiple(g, g * h);
    let q = g / (g * h);
    assert(h == 1) by (nonlinear_arith)
        requires
            g == q * (g * h),
            g > 0,
            h > 0,
            q >= 0,
    ;
}

/// Two numbers above zero that divide each other are equal.
pub proof fn lemma_divide_each_other(a: nat, b: nat)
    requires
        a > 0,
        b > 0,
        a % b == 0,
        b % a == 0,
    ensures
        a == b,
{
    lemma_mod_multiple(a, b);
    lemma_mod_multiple(b, a);
    let x = a / b;
    let y = b / a;
    assert(a == b) by (nonlinear_arith)
        requires
            a == x * b,
            b == y * a,
            a > 0,
            b > 0,
            x >= 0,
            y >= 0,
    ;
}

/// The greatest common divisor does not depend on the order of the numbers.
pub proof fn lemma_gcd_symmetric(a: nat, b: nat)
    ensures
        gcd(a, b) == gcd(b, a),
{
    if a == 0 && b == 0 {
        reveal_with_fuel(gcd, 2);
    } else {
        lemma_gcd_divides(a, b);
        lemma_gcd_divides(b, a);
        lemma_gcd_greatest(gcd(a, b), b, a);
        lemma_gcd_greatest(gcd(b, a), a, b);
        lemma_divide_each_other(gcd(a, b), gcd(b, a));
    }
}

/// A common factor of two numbers is a factor of their greatest common
/// divisor.
pub proof fn lemma_gcd_scales(k: nat, a: nat, b: nat)
    requires
        k > 0,
    ensures
        gcd(k * a, k * b) == k * gcd(a, b),
    decreases b,
{
    if b == 0 {
        assert(k * b == 0) by (nonlinear_arith)
            requires
                b == 0,
        ;
    } else {
        assert(k * b > 0) by (nonlinear_arith)
            requires
                k > 0,
                b > 0,
        ;
        lemma_truncate_middle(a as int, k as int, b as int);
        assert((k * a) % (k * b) == k * (a % b));
        lemma_gcd_scales(k, b, a % b);
    }
}

/// What divides a product and has nothing in common with one factor divides
/// the other.
pub proof fn lemma_divides_other_factor(a: nat, b: nat, d: nat)
    requires
        b > 0,
        gcd(a, b) == 1,
        (a * d) % b == 0,
    ensures
        d % b == 0,
{
    if d == 0 {
        lemma_small_mod(0, b);
    } else {
        lemma_gcd_scales(d, a, b);
        assert(d * a == a * d) by (nonlinear_arith);
        lemma_multiple_mod(d, b);
        lemma_gcd_greatest(b, d * a, d * b);
        assert(d * gcd(a, b) == d) by (nonlinear_arith)
            requires
                gcd(a, b) == 1,
        ;
    }
}

/// Two fractions in lowest terms that have the same value have the same
/// parts.
pub proof fn lemma_lowest_unique(a: nat, b: nat, c: nat, d: nat)
    requires
        lowest_terms(a, b),
        lowest_terms(c, d),
        a * d == c * b,
    ensures
        a == c,
        b == d,
{
    lemma_multiple_mod(c, b);
    lemma_divides_other_factor(a, b, d);
    assert(c * b == a * d);
    lemma_multiple_mod(a, d);
    lemma_divides_other_factor(c, d, b);
    lemma_divide_each_other(b, d);
    assert(a == c) by (nonlinear_arith)
        requires
            a * d == c * b,
            b == d,
            b > 0,
    ;
}

/// Fractions of the same value have the same whole part.
pub proof fn lemma_same_value_same_floor(a: nat, b: nat, c: nat, d: nat)
    requires
        b > 0,
        d > 0,
        a * d == c * b,
    ensures
        a / b == c / d,
        (a % b == 0) == (c % d == 0),
{
    lemma_div_multiples_vanish_quotient(d as int, a as int, b as int);
    lemma_div_multiples_vanish_quotient(b as int, c as int, d as int);
    assert(d * a == b * c) by (nonlinear_arith)
        requires
            a * d == c * b,
    ;
    assert(d * b == b * d) by (nonlinear_arith);
    let q = a / b;
    lemma_fundamental_div_mod(a as int, b as int);
    lemma_fundamental_div_mod(c as int, d as int);
    if a % b == 0 {
        assert(c == q * d) by (nonlinear_arith)
            requires
                a == b * q,
                a * d == c * b,
                b > 0,
        ;
        lemma_multiple_mod(q, d);
    }
    if c % d == 0 {
        assert(a == q * b) by (nonlinear_arith)
            requires
                c == d * q,
                a * d == c * b,
                d > 0,
        ;
        lemma_multiple_mod(q, b);
    }
}

/// A number that divides another is their greatest common divisor.
pub proof fn lemma_gcd_of_divisor(d: nat, k: nat)
    requires
        d > 0,
        k % d == 0,
    ensures
        gcd(d, k) == d,
{
    lemma_gcd_divides(d, k);
    lemma_multiple_mod(1, d);
    lemma_gcd_greatest(d, d, k);
    lemma_divide_each_other(d, gcd(d, k));
}

} // verus!
