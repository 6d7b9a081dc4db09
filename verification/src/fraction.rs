//! Exact fractions over `u128`: the magnitudes that sizes are made from and
//! shown as.
//!
//! A fraction is never negative and is always held in lowest terms, so two
//! fractions are equal exactly where their values are. Products, quotients
//! and comparisons are computed by the `fraction` crate; what it is trusted
//! to return is stated at the three functions that call it.

use crate::decimal::{decimal_text, push_decimal, read_number, spec_read_number};
use crate::error::ParseError;
use crate::gcd::{
    gcd, lemma_gcd_divides, lemma_gcd_one, lemma_lowest_unique, lemma_mod_multiple, lemma_reduced,
    lemma_same_value_same_floor, lowest_terms, reduced,
};
use crate::text::{chars_of, string_of};
use core::cmp::Ordering;
use vstd::prelude::*;

verus! {

/// A fraction of two `u128`, in lowest terms.
#[derive(Clone, Copy, Debug, PartialEq, Eq, Hash, Structural)]
pub struct Fraction {
    numer: u128,
    denom: u128,
}

/// Whether both parts of a fraction can be held in `u128`.
pub open spec fn fits(parts: (nat, nat)) -> bool {
    parts.0 <= u128::MAX && parts.1 <= u128::MAX
}

/// The product of `an / ad` and `bn / bd`, with each numerator cancelled
/// against the other denominator before the parts are multiplied.
pub open spec fn cross_product(an: nat, ad: nat, bn: nat, bd: nat) -> (nat, nat) {
    let g = gcd(an, bd);
    let h = gcd(ad, bn);
    ((an / g) * (bn / h), (ad / h) * (bd / g))
}

/// The quotient of `an / ad` by `bn / bd`. Equal denominators, or else equal
/// numerators, drop out; otherwise numerator is cancelled against numerator
/// and denominator against denominator before the parts are multiplied.
pub open spec fn cross_quotient(an: nat, ad: nat, bn: nat, bd: nat) -> (nat, nat) {
    if ad == bd {
        (an, bn)
    } else if an == bn {
        (bd, ad)
    } else {
        let g = gcd(an, bn);
        let h = gcd(ad, bd);
        ((an / g) * (bd / h), (ad / h) * (bn / g))
    }
}

/// The parts in lowest terms where the parts given can be held, else nothing.
pub open spec fn held(parts: (nat, nat)) -> Option<(nat, nat)> {
    if fits(parts) {
        Some(reduced(parts.0, parts.1))
    } else {
        None
    }
}

/// The two parts as numbers without bound.
pub open spec fn parts_of(parts: Option<(u128, u128)>) -> Option<(nat, nat)> {
    match parts {
        Some(p) => Some((p.0 as nat, p.1 as nat)),
        None => None,
    }
}

/// Calls `checked_mul` of `fraction::GenericFraction<u128>` on two fractions
/// in lowest terms. Of that function this contract claims: it cancels each
/// numerator against the other denominator, multiplies numerators and
/// denominators, gives nothing where either product leaves `u128`, and else
/// the product in lowest terms.
#[verifier::external_body]
fn generic_checked_mul(a: &Fraction, b: &Fraction) -> (r: Option<(u128, u128)>)
    requires
        a.wf(),
        b.wf(),
    ensures
        parts_of(r) == held(
            cross_product(
                a.spec_numer() as nat,
                a.spec_denom() as nat,
                b.spec_numer() as nat,
                b.spec_denom() as nat,
            ),
        ),
{
    let x = fraction::GenericFraction::<u128>::new_raw(a.numer, a.denom);
    let y = fraction::GenericFraction::<u128>::new_raw(b.numer, b.denom);
    match fraction::CheckedMul::checked_mul(&x, &y) {
        Some(fraction::GenericFraction::Rational(fraction::Sign::Plus, ratio)) => Some(
            (*ratio.numer(), *ratio.denom()),
        ),
        Some(fraction::GenericFraction::Rational(fraction::Sign::Minus, _)) => None,
        Some(fraction::GenericFraction::Infinity(_)) => None,
        Some(fraction::GenericFraction::NaN) => None,
        None => None,
    }
}

/// Calls `checked_div` of `fraction::GenericFraction<u128>` on two fractions
/// in lowest terms, the second not zero. Of that function this contract
/// claims: it drops equal denominators, or else equal numerators; otherwise
/// it cancels numerator against numerator and denominator against
/// denominator and multiplies across, giving nothing where either product
/// leaves `u128`; and it gives the quotient in lowest terms.
#[verifier::external_body]
fn generic_checked_div(a: &Fraction, b: &Fraction) -> (r: Option<(u128, u128)>)
    requires
        a.wf(),
        b.wf(),
        b.spec_numer() > 0,
    ensures
        parts_of(r) == held(
            cross_quotient(
                a.spec_numer() as nat,
                a.spec_denom() as nat,
                b.spec_numer() as nat,
                b.spec_denom() as nat,
            ),
        ),
{
    let x = fraction::GenericFraction::<u128>::new_raw(a.numer, a.denom);
    let y = fraction::GenericFraction::<u128>::new_raw(b.numer, b.denom);
    match fraction::CheckedDiv::checked_div(&x, &y) {
        Some(fraction::GenericFraction::Rational(fraction::Sign::Plus, ratio)) => Some(
            (*ratio.numer(), *ratio.denom()),
        ),
        Some(fraction::GenericFraction::Rational(fraction::Sign::Minus, _)) => None,
        Some(fraction::GenericFraction::Infinity(_)) => None,
        Some(fraction::GenericFraction::NaN) => None,
        None => None,
    }
}

/// Calls `cmp` of `fraction::GenericFraction<u128>` on two fractions. Of that
/// function this contract claims: it orders two fractions that are not
/// negative by their values.
#[verifier::external_body]
fn generic_cmp(a: &Fraction, b: &Fraction) -> (r: Ordering)
    requires
        a.wf(),
        b.wf(),
    ensures
        r == a.ordering(b),
{
    let x = fraction::GenericFraction::<u128>::new_raw(a.numer, a.denom);
    let y = fraction::GenericFraction::<u128>::new_raw(b.numer, b.denom);
    x.cmp(&y)
}

impl Fraction {
    /// The numerator.
    pub closed spec fn spec_numer(&self) -> u128 {
        self.numer
    }

    /// The denominator.
    pub closed spec fn spec_denom(&self) -> u128 {
        self.denom
    }

    /// What holds of every fraction: it is in lowest terms.
    #[verifier::type_invariant]
    pub open spec fn wf(&self) -> bool {
        lowest_terms(self.spec_numer() as nat, self.spec_denom() as nat)
    }

    /// The whole number `n`: the fraction `n / 1`.
    pub open spec fn spec_from_int(n: u128) -> Fraction {
        Fraction::spec_of_parts(n, 1)
    }

    /// The fraction of the given parts, taken as they are.
    pub closed spec fn spec_of_parts(numer: u128, denom: u128) -> Fraction {
        Fraction { numer, denom }
    }

    /// The whole part: the value rounded down.
    pub open spec fn spec_trunc(&self) -> u128 {
        self.spec_numer() / self.spec_denom()
    }

    /// Whether the value is a whole number.
    pub open spec fn spec_is_whole(&self) -> bool {
        self.spec_numer() % self.spec_denom() == 0
    }

    /// Whether the value is 1.
    pub open spec fn spec_is_one(&self) -> bool {
        self.spec_numer() == self.spec_denom()
    }

    /// Whether the value is 0.
    pub open spec fn spec_is_zero(&self) -> bool {
        self.spec_numer() == 0
    }

    /// How the value of this fraction stands to that of another.
    pub open spec fn ordering(&self, other: &Fraction) -> Ordering {
        if self.spec_numer() * other.spec_denom() < other.spec_numer() * self.spec_denom() {
            Ordering::Less
        } else if self.spec_numer() * other.spec_denom() > other.spec_numer()
            * self.spec_denom() {
            Ordering::Greater
        } else {
            Ordering::Equal
        }
    }

    /// The fraction of the given parts, where there are any.
    pub open spec fn spec_from_parts(parts: Option<(nat, nat)>) -> Option<Fraction> {
        match parts {
            Some(p) => Some(Fraction::spec_of_parts(p.0 as u128, p.1 as u128)),
            None => None,
        }
    }

    /// The product with another fraction, in lowest terms. There is none
    /// where, after each numerator is cancelled against the other
    /// denominator, a product of the parts leaves `u128`.
    pub open spec fn spec_checked_mul(&self, other: &Fraction) -> Option<Fraction> {
        Fraction::spec_from_parts(
            held(
                cross_product(
                    self.spec_numer() as nat,
                    self.spec_denom() as nat,
                    other.spec_numer() as nat,
                    other.spec_denom() as nat,
                ),
            ),
        )
    }

    /// The quotient by another fraction, in lowest terms. There is none where
    /// the other fraction is 0, nor where, after the parts are cancelled, a
    /// product of them leaves `u128`.
    pub open spec fn spec_checked_div(&self, other: &Fraction) -> Option<Fraction> {
        if other.spec_numer() == 0 {
            None
        } else {
            Fraction::spec_from_parts(
                held(
                    cross_quotient(
                        self.spec_numer() as nat,
                        self.spec_denom() as nat,
                        other.spec_numer() as nat,
                        other.spec_denom() as nat,
                    ),
                ),
            )
        }
    }

    /// The fraction `numer / denom` in lowest terms; nothing where `denom`
    /// is 0.
    pub open spec fn spec_new(numer: u128, denom: u128) -> Option<Fraction> {
        if denom == 0 {
            None
        } else {
            Fraction::spec_from_parts(Some(reduced(numer as nat, denom as nat)))
        }
    }

    /// The two parts of the fraction as numbers without bound.
    pub open spec fn parts(&self) -> (nat, nat) {
        (self.spec_numer() as nat, self.spec_denom() as nat)
    }

    /// The whole number `n`: the fraction `n / 1`.
    pub fn from_int(n: u128) -> (f: Fraction)
        ensures
            f == Fraction::spec_from_int(n),
            f.spec_numer() == n,
            f.spec_denom() == 1,
            f.wf(),
    {
        proof {
            lemma_gcd_one(n as nat);
        }
        Fraction { numer: n, denom: 1 }
    }

    /// The fraction `numer / denom` in lowest terms; nothing where `denom`
    /// is 0.
    pub fn new(numer: u128, denom: u128) -> (r: Option<Fraction>)
        ensures
            r == Fraction::spec_new(numer, denom),
            r is None <==> denom == 0,
            r matches Some(f) ==> f.wf() && f.parts() == reduced(numer as nat, denom as nat),
    {
        if denom == 0 {
            return None;
        }
        let n = Fraction::from_int(numer);
        let d = Fraction::from_int(denom);
        proof {
            lemma_reduced(numer as nat, denom as nat);
        }
        n.checked_div(&d)
    }

    /// What a text reads as: a decimal number, as [`spec_read_number`] reads
    /// it, brought to lowest terms.
    pub open spec fn spec_from_str(s: Seq<char>) -> Result<Fraction, ParseError> {
        match spec_read_number(s) {
            Ok(parts) => Ok(Fraction::spec_new(parts.0, parts.1)->0),
            Err(error) => Err(error),
        }
    }

    /// The value as decimal text with `places` digits behind the point,
    /// rounded to the nearest such number.
    pub open spec fn spec_to_decimal(&self, places: usize) -> Seq<char> {
        decimal_text(self.spec_numer() as nat, self.spec_denom() as nat, places as nat)
    }

    /// Reads a fraction from the characters of a decimal number.
    pub(crate) fn from_chars(s: &Vec<char>) -> (r: Result<Fraction, ParseError>)
        ensures
            r == Fraction::spec_from_str(s@),
            r matches Ok(f) ==> f.wf(),
    {
        match read_number(s) {
            Ok((numer, denom)) => Ok(Fraction::new(numer, denom).unwrap()),
            Err(error) => Err(error),
        }
    }

    /// Reads a fraction from a decimal number: an optional sign, then digits
    /// with at most one point among them, before them or behind them. A text
    /// that is no such number gives `InvalidValue`. A number gives
    /// `ValueOverflow` where it is below zero, and where its digits, taken as
    /// one number, or the power of ten under them leave `u128`.
    pub fn from_str(s: &str) -> (r: Result<Fraction, ParseError>)
        ensures
            r == Fraction::spec_from_str(s@),
            r matches Ok(f) ==> f.wf(),
    {
        let chars = chars_of(s);
        Fraction::from_chars(&chars)
    }

    /// The value as decimal text with `places` digits behind the point:
    /// `1.50` for three halves and two places. The value is rounded to the
    /// nearest number of that many places, and to the even one of two that
    /// are as near. Without places there is no point.
    pub fn to_decimal(&self, places: usize) -> (text: String)
        ensures
            text@ == self.spec_to_decimal(places),
    {
        proof {
            use_type_invariant(self);
        }
        let mut out: Vec<char> = Vec::new();
        push_decimal(&mut out, self.numer, self.denom, places);
        proof {
            assert(Seq::<char>::empty() + self.spec_to_decimal(places) =~= self.spec_to_decimal(
                places,
            ));
        }
        string_of(&out)
    }

    /// The numerator of the fraction in lowest terms.
    #[verifier::when_used_as_spec(spec_numer)]
    pub fn numer(&self) -> (n: u128)
        ensures
            n == self.spec_numer(),
    {
        self.numer
    }

    /// The denominator of the fraction in lowest terms. It is never 0.
    #[verifier::when_used_as_spec(spec_denom)]
    pub fn denom(&self) -> (d: u128)
        ensures
            d == self.spec_denom(),
            d > 0,
    {
        proof {
            use_type_invariant(self);
        }
        self.denom
    }

    /// The whole part: the value rounded down.
    #[verifier::when_used_as_spec(spec_trunc)]
    pub fn trunc(&self) -> (n: u128)
        ensures
            n == self.spec_trunc(),
    {
        proof {
            use_type_invariant(self);
        }
        self.numer / self.denom
    }

    /// Whether the value is a whole number.
    #[verifier::when_used_as_spec(spec_is_whole)]
    pub fn is_whole(&self) -> (r: bool)
        ensures
            r == self.spec_is_whole(),
    {
        proof {
            use_type_invariant(self);
        }
        self.numer % self.denom == 0
    }

    /// Whether the value is 1.
    #[verifier::when_used_as_spec(spec_is_one)]
    pub fn is_one(&self) -> (r: bool)
        ensures
            r == self.spec_is_one(),
    {
        self.numer == self.denom
    }

    /// Whether the value is 0.
    #[verifier::when_used_as_spec(spec_is_zero)]
    pub fn is_zero(&self) -> (r: bool)
        ensures
            r == self.spec_is_zero(),
    {
        self.numer == 0
    }

    /// The product with another fraction, in lowest terms. There is none
    /// where, after each numerator is cancelled against the other
    /// denominator, a product of the parts leaves `u128`.
    pub fn checked_mul(&self, other: &Fraction) -> (r: Option<Fraction>)
        ensures
            r == self.spec_checked_mul(other),
            r matches Some(f) ==> f.wf(),
    {
        proof {
            use_type_invariant(self);
            use_type_invariant(other);
        }
        match generic_checked_mul(self, other) {
            Some((numer, denom)) => {
                proof {
                    let p = cross_product(
                        self.numer as nat,
                        self.denom as nat,
                        other.numer as nat,
                        other.denom as nat,
                    );
                    lemma_cross_product(
                        self.numer as nat,
                        self.denom as nat,
                        other.numer as nat,
                        other.denom as nat,
                    );
                    lemma_reduced(p.0, p.1);
                }
                Some(Fraction { numer, denom })
            },
            None => None,
        }
    }

    /// The quotient by another fraction, in lowest terms. There is none where
    /// the other fraction is 0, nor where, after the parts are cancelled, a
    /// product of them leaves `u128`.
    pub fn checked_div(&self, other: &Fraction) -> (r: Option<Fraction>)
        ensures
            r == self.spec_checked_div(other),
            r matches Some(f) ==> f.wf(),
    {
        proof {
            use_type_invariant(self);
            use_type_invariant(other);
        }
        if other.numer == 0 {
            return None;
        }
        match generic_checked_div(self, other) {
            Some((numer, denom)) => {
                proof {
                    let p = cross_quotient(
                        self.numer as nat,
                        self.denom as nat,
                        other.numer as nat,
                        other.denom as nat,
                    );
                    lemma_cross_quotient(
                        self.numer as nat,
                        self.denom as nat,
                        other.numer as nat,
                        other.denom as nat,
                    );
                    lemma_reduced(p.0, p.1);
                }
                Some(Fraction { numer, denom })
            },
            None => None,
        }
    }
}

impl core::str::FromStr for Fraction {
    type Err = ParseError;

    fn from_str(s: &str) -> (r: Result<Fraction, ParseError>)
        ensures
            r == Fraction::spec_from_str(s@),
    {
        Fraction::from_str(s)
    }
}

impl From<u128> for Fraction {
    fn from(n: u128) -> (f: Fraction) {
        Fraction::from_int(n)
    }
}

impl vstd::std_specs::convert::FromSpecImpl<u128> for Fraction {
    open spec fn obeys_from_spec() -> bool {
        true
    }

    open spec fn from_spec(n: u128) -> Fraction {
        Fraction::spec_from_int(n)
    }
}

impl PartialOrd for Fraction {
    /// Fractions are ordered by their values.
    fn partial_cmp(&self, other: &Fraction) -> (r: Option<Ordering>) {
        proof {
            use_type_invariant(self);
            use_type_invariant(other);
        }
        Some(generic_cmp(self, other))
    }
}

impl vstd::std_specs::cmp::PartialOrdSpecImpl for Fraction {
    open spec fn obeys_partial_cmp_spec() -> bool {
        true
    }

    open spec fn partial_cmp_spec(&self, other: &Fraction) -> Option<Ordering> {
        Some(self.ordering(other))
    }
}

/// What `cross_product` gives: a fraction of the value of the product, with
/// no part larger than the plain product of the parts.
pub proof fn lemma_cross_product(an: nat, ad: nat, bn: nat, bd: nat)
    requires
        ad > 0,
        bd > 0,
    ensures
        cross_product(an, ad, bn, bd).1 > 0,
        cross_product(an, ad, bn, bd).0 * (ad * bd) == (an * bn) * cross_product(
            an,
            ad,
            bn,
            bd,
        ).1,
        cross_product(an, ad, bn, bd).0 * (gcd(an, bd) * gcd(ad, bn)) == an * bn,
        cross_product(an, ad, bn, bd).1 * (gcd(an, bd) * gcd(ad, bn)) == ad * bd,
{
    let g = gcd(an, bd);
    let h = gcd(ad, bn);
    lemma_gcd_divides(an, bd);
    lemma_gcd_divides(ad, bn);
    lemma_mod_multiple(an, g);
    lemma_mod_multiple(bd, g);
    lemma_mod_multiple(ad, h);
    lemma_mod_multiple(bn, h);
    let a1 = an / g;
    let d2 = bd / g;
    let d1 = ad / h;
    let b1 = bn / h;
    assert(d1 * d2 > 0 && (a1 * b1) * (ad * bd) == (an * bn) * (d1 * d2) && (a1 * b1) * (g * h)
        == an * bn && (d1 * d2) * (g * h) == ad * bd) by (nonlinear_arith)
        requires
            an == a1 * g,
            bd == d2 * g,
            ad == d1 * h,
            bn == b1 * h,
            g > 0,
            h > 0,
            ad > 0,
            bd > 0,
    ;
}

/// What `cross_quotient` gives: a fraction of the value of the quotient.
pub proof fn lemma_cross_quotient(an: nat, ad: nat, bn: nat, bd: nat)
    requires
        ad > 0,
        bd > 0,
        bn > 0,
    ensures
        cross_quotient(an, ad, bn, bd).1 > 0,
        cross_quotient(an, ad, bn, bd).0 * (ad * bn) == (an * bd) * cross_quotient(
            an,
            ad,
            bn,
            bd,
        ).1,
{
    if ad == bd {
        assert(an * (ad * bn) == (an * bd) * bn) by (nonlinear_arith)
            requires
                ad == bd,
        ;
    } else if an == bn {
        assert(bd * (ad * bn) == (an * bd) * ad) by (nonlinear_arith)
            requires
                an == bn,
        ;
    } else {
        let g = gcd(an, bn);
        let h = gcd(ad, bd);
        lemma_gcd_divides(an, bn);
        lemma_gcd_divides(ad, bd);
        lemma_mod_multiple(an, g);
        lemma_mod_multiple(bn, g);
        lemma_mod_multiple(ad, h);
        lemma_mod_multiple(bd, h);
        let a1 = an / g;
        let b1 = bn / g;
        let d1 = ad / h;
        let d2 = bd / h;
        assert(d1 * b1 > 0 && (a1 * d2) * (ad * bn) == (an * bd) * (d1 * b1)) by (nonlinear_arith)
            requires
                an == a1 * g,
                bn == b1 * g,
                ad == d1 * h,
                bd == d2 * h,
                g > 0,
                h > 0,
                ad > 0,
                bn > 0,
        ;
    }
}

/// Fractions that have the value of a third have the value of each other.
pub proof fn lemma_same_value_transitive(a: nat, b: nat, c: nat, d: nat, e: nat, f: nat)
    requires
        b > 0,
        d > 0,
        f > 0,
        a * d == c * b,
        c * f == e * d,
    ensures
        a * f == e * b,
{
    assert(a * f == e * b) by (nonlinear_arith)
        requires
            d > 0,
            a * d == c * b,
            c * f == e * d,
    ;
}

impl Fraction {
    /// A fraction of given parts has those parts.
    pub proof fn lemma_of_parts(numer: u128, denom: u128)
        ensures
            Fraction::spec_of_parts(numer, denom).spec_numer() == numer,
            Fraction::spec_of_parts(numer, denom).spec_denom() == denom,
            Fraction::spec_of_parts(numer, denom).parts() == (numer as nat, denom as nat),
    {
    }

    /// What `spec_new` gives for a denominator above zero: a fraction in
    /// lowest terms of the value `numer / denom`.
    pub proof fn lemma_new(numer: u128, denom: u128)
        requires
            denom > 0,
        ensures
            Fraction::spec_new(numer, denom) is Some,
            Fraction::spec_new(numer, denom)->0.wf(),
            Fraction::spec_new(numer, denom)->0.parts() == reduced(numer as nat, denom as nat),
            Fraction::spec_new(numer, denom)->0.spec_numer() * denom == numer * Fraction::spec_new(
                numer,
                denom,
            )->0.spec_denom(),
            Fraction::spec_new(numer, denom)->0.spec_denom() <= denom,
    {
        lemma_reduced(numer as nat, denom as nat);
        let parts = reduced(numer as nat, denom as nat);
        Fraction::lemma_of_parts(parts.0 as u128, parts.1 as u128);
    }

    /// A fraction in lowest terms is the one that `spec_new` gives for any
    /// fraction of its value.
    pub proof fn lemma_new_unique(f: Fraction, numer: u128, denom: u128)
        requires
            f.wf(),
            denom > 0,
            f.spec_numer() * denom == numer * f.spec_denom(),
        ensures
            Fraction::spec_new(numer, denom) == Some(f),
    {
        Fraction::lemma_new(numer, denom);
        let g = Fraction::spec_new(numer, denom)->0;
        lemma_same_value_transitive(
            f.spec_numer() as nat,
            f.spec_denom() as nat,
            numer as nat,
            denom as nat,
            g.spec_numer() as nat,
            g.spec_denom() as nat,
        );
        lemma_lowest_unique(
            f.spec_numer() as nat,
            f.spec_denom() as nat,
            g.spec_numer() as nat,
            g.spec_denom() as nat,
        );
    }

    /// Being in lowest terms, two fractions of one value are the same.
    pub proof fn lemma_same_value(a: Fraction, b: Fraction)
        requires
            a.wf(),
            b.wf(),
            a.spec_numer() * b.spec_denom() == b.spec_numer() * a.spec_denom(),
        ensures
            a == b,
    {
        lemma_lowest_unique(
            a.spec_numer() as nat,
            a.spec_denom() as nat,
            b.spec_numer() as nat,
            b.spec_denom() as nat,
        );
    }

    /// Fractions are equal exactly where their values are, and then neither
    /// comes before the other.
    pub proof fn law_equal_by_value(a: Fraction, b: Fraction)
        requires
            a.wf(),
            b.wf(),
        ensures
            (a == b) == (a.spec_numer() * b.spec_denom() == b.spec_numer() * a.spec_denom()),
            (a == b) == (a.ordering(&b) == Ordering::Equal),
            (a.ordering(&b) == Ordering::Less) == (b.ordering(&a) == Ordering::Greater),
    {
        if a.spec_numer() * b.spec_denom() == b.spec_numer() * a.spec_denom() {
            Fraction::lemma_same_value(a, b);
        }
    }

    /// The whole number `n` as a fraction.
    pub proof fn lemma_from_int(n: u128)
        ensures
            Fraction::spec_from_int(n).wf(),
            Fraction::spec_from_int(n).spec_numer() == n,
            Fraction::spec_from_int(n).spec_denom() == 1,
            Fraction::spec_new(n, 1) == Some(Fraction::spec_from_int(n)),
    {
        lemma_gcd_one(n as nat);
        Fraction::lemma_new_unique(Fraction::spec_from_int(n), n, 1);
    }

    /// The product of a fraction and a whole number. There is one exactly
    /// where the numerator times what is left of the whole number, after it
    /// is cancelled against the denominator, stays in `u128`; its whole part
    /// is then that of the plain product.
    pub proof fn lemma_mul_int(value: Fraction, k: u128)
        requires
            value.wf(),
        ensures
            value.spec_checked_mul(&Fraction::spec_from_int(k)) is Some <==> value.spec_numer() * (
            k as nat / gcd(value.spec_denom() as nat, k as nat)) <= u128::MAX,
            value.spec_checked_mul(&Fraction::spec_from_int(k)) matches Some(product)
                ==> product.wf() && product.spec_trunc() == (value.spec_numer() * k)
                / (value.spec_denom() as int) && product.spec_numer() * value.spec_denom()
                == value.spec_numer() * k * product.spec_denom(),
    {
        let n = value.spec_numer() as nat;
        let d = value.spec_denom() as nat;
        Fraction::lemma_from_int(k);
        lemma_gcd_one(n);
        lemma_gcd_divides(d, k as nat);
        let h = gcd(d, k as nat);
        let cp = cross_product(n, d, k as nat, 1);
        lemma_cross_product(n, d, k as nat, 1);
        lemma_mod_multiple(d, h);
        assert(d / h <= d) by (nonlinear_arith)
            requires
                d == (d / h) * h,
                h > 0,
        ;
        assert(cp.0 == n * (k as nat / h));
        assert(cp.1 == d / h);
        if fits(cp) {
            lemma_reduced(cp.0, cp.1);
            let p = reduced(cp.0, cp.1);
            Fraction::lemma_of_parts(p.0 as u128, p.1 as u128);
            lemma_same_value_transitive(p.0, p.1, cp.0, cp.1, n * (k as nat), d);
            lemma_same_value_same_floor(p.0, p.1, n * (k as nat), d);
        }
    }

    /// The quotient of a fraction by a whole number above zero, where the
    /// denominator times that number stays in `u128`: there is one, and it
    /// is the fraction of that value in lowest terms.
    pub proof fn lemma_div_int(value: Fraction, k: u128)
        requires
            value.wf(),
            k > 0,
            value.spec_denom() * k <= u128::MAX,
        ensures
            value.spec_checked_div(&Fraction::spec_from_int(k)) is Some,
            value.spec_checked_div(&Fraction::spec_from_int(k))->0.wf(),
            value.spec_checked_div(&Fraction::spec_from_int(k)) == Fraction::spec_new(
                value.spec_numer(),
                (value.spec_denom() * k) as u128,
            ),
    {
        let n = value.spec_numer() as nat;
        let d = value.spec_denom() as nat;
        Fraction::lemma_from_int(k);
        let cq = cross_quotient(n, d, k as nat, 1);
        lemma_cross_quotient(n, d, k as nat, 1);
        if d == 1 {
        } else if n == k {
        } else {
            let g = gcd(n, k as nat);
            lemma_gcd_divides(n, k as nat);
            lemma_gcd_one(d);
            lemma_mod_multiple(n, g);
            lemma_mod_multiple(k as nat, g);
            assert(n / g <= n && d * (k as nat / g) <= d * k) by (nonlinear_arith)
                requires
                    n == (n / g) * g,
                    k == (k as nat / g) * g,
                    g > 0,
            ;
        }
        assert(fits(cq));
        lemma_reduced(cq.0, cq.1);
        let q = value.spec_checked_div(&Fraction::spec_from_int(k))->0;
        assert(d * k > 0) by (nonlinear_arith)
            requires
                d > 0,
                k > 0,
        ;
        assert(n * (d * k) == n * (d * k));
        lemma_same_value_transitive(
            q.spec_numer() as nat,
            q.spec_denom() as nat,
            cq.0,
            cq.1,
            n,
            d * (k as nat),
        );
        Fraction::lemma_new_unique(q, value.spec_numer(), (d * k) as u128);
    }
}

} // verus!
