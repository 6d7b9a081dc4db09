//! Sizes: exact counts of bits.

use crate::directive::Directive;
use crate::error::{ParseError, ParseErrorKind};
use crate::flags::Mode;
use crate::fraction::{lemma_same_value_transitive, Fraction};
use crate::gcd::gcd;
use crate::parse::{boundary, find_boundary, number_text, strip_grouping, trim_start, unit_text};
use crate::prefix::{lemma_multipliers, UnitPrefix};
use crate::repr::ByteSizeRepr;
use crate::sizes::{spec_bits, spec_bytes, BITS, BYTES};
use crate::text::chars_of;
use crate::unit::{SizeVariant, Unit};
use core::cmp::Ordering;
use vstd::arithmetic::power::{lemma_pow_increases, pow};
use vstd::prelude::*;

verus! {

/// A size: an exact count of bits.
#[derive(Clone, Copy, Debug, PartialEq, Eq, Ord, Hash, Structural)]
pub struct ByteSize(pub u128);

/// The largest step `k` of a ladder of `top` steps for which `bits` holds at
/// least `per_unit * base^k`; 0 where it holds less than the first step.
pub open spec fn spec_largest_step(bits: nat, per_unit: nat, base: nat, top: nat) -> nat
    decreases top,
{
    if top == 0 {
        0
    } else if bits >= per_unit * pow(base as int, top) {
        top
    } else {
        spec_largest_step(bits, per_unit, base, (top - 1) as nat)
    }
}

/// A step is the largest where the size reaches it and does not reach the
/// next.
pub proof fn lemma_largest_step(bits: nat, per_unit: nat, base: nat, k: nat, top: nat)
    requires
        k <= top,
        base >= 1,
        k > 0 ==> bits >= per_unit * pow(base as int, k),
        k < top ==> bits < per_unit * pow(base as int, k + 1),
    ensures
        spec_largest_step(bits, per_unit, base, top) == k,
    decreases top,
{
    if top > k {
        lemma_pow_increases(base, k + 1, top);
        assert(per_unit * pow(base as int, k + 1) <= per_unit * pow(base as int, top))
            by (nonlinear_arith)
            requires
                pow(base as int, k + 1) <= pow(base as int, top),
        ;
        lemma_largest_step(bits, per_unit, base, k, (top - 1) as nat);
    }
}

/// The powers of the two bases up to the eighth, and how each follows from
/// the one before.
pub proof fn lemma_base_powers(base: nat, k: nat)
    requires
        base == 1000 || base == 1024,
        k <= 8,
    ensures
        1 <= pow(base as int, k) <= 0x1_0000_0000_0000_0000_0000,
        pow(base as int, k + 1) == base * pow(base as int, k),
{
    lemma_multipliers();
    reveal_with_fuel(pow, 2);
    if k == 0 {
    } else if k == 1 {
    } else if k == 2 {
    } else if k == 3 {
    } else if k == 4 {
    } else if k == 5 {
    } else if k == 6 {
    } else if k == 7 {
    } else {
    }
}

/// Of two fractions of one value, one reaches a whole number where the other
/// does.
pub proof fn lemma_ge_scaled(vn: nat, vd: nat, bits: nat, per: nat, base: nat)
    requires
        vd > 0,
        per > 0,
        vn * per == bits * vd,
    ensures
        (vn >= base * vd) == (bits >= base * per),
{
    if vn >= base * vd {
        assert(bits >= base * per) by (nonlinear_arith)
            requires
                vn >= base * vd,
                vn * per == bits * vd,
                vd > 0,
                per > 0,
        ;
    }
    if bits >= base * per {
        assert(vn >= base * vd) by (nonlinear_arith)
            requires
                bits >= base * per,
                vn * per == bits * vd,
                vd > 0,
                per > 0,
        ;
    }
}

impl ByteSize {
    /// The size of `value` bits.
    pub open spec fn spec_from_bits(value: u128) -> ByteSize {
        ByteSize(value)
    }

    /// The size of `value` bytes, where the count of its bits stays in
    /// `u128`.
    pub open spec fn spec_from_bytes(value: u128) -> Result<ByteSize, ParseError> {
        if value * 8 > u128::MAX {
            Err(ParseError { kind: ParseErrorKind::ValueOverflow })
        } else {
            Ok(ByteSize((value * 8) as u128))
        }
    }

    /// The count of bits.
    pub open spec fn spec_bits(&self) -> u128 {
        self.0
    }

    /// The count of whole bytes.
    pub open spec fn spec_bytes(&self) -> Result<u128, ParseError> {
        Ok(self.0 / 8)
    }

    /// The size of a magnitude in a unit: the whole part of the magnitude
    /// times the bits of the unit, and the largest size where that product
    /// cannot be held.
    pub open spec fn spec_of(value: Fraction, unit: Unit) -> ByteSize {
        match value.spec_checked_mul(&Fraction::spec_from_int(unit.spec_effective_value() as u128)) {
            Some(product) => ByteSize(product.spec_trunc()),
            None => ByteSize(u128::MAX),
        }
    }

    /// The bits in one of what a mode counts: 1 for bits, 8 for bytes.
    pub open spec fn spec_per_unit(mode: Mode) -> u128 {
        if mode.bits {
            1
        } else {
            8
        }
    }

    /// The base that a mode steps by: 1000 or 1024.
    pub open spec fn spec_base(mode: Mode) -> u128 {
        if mode.decimal {
            1000
        } else {
            1024
        }
    }

    /// The number of steps that a mode allows: 8, or none.
    pub open spec fn spec_top(mode: Mode) -> nat {
        if mode.no_prefix {
            0
        } else {
            8
        }
    }

    /// The unit of a mode at a step of its ladder: at step 0 the size variant
    /// alone, at step `k` the `k`-th prefix of the family on it.
    pub open spec fn spec_unit_at(mode: Mode, step: nat) -> Unit {
        Unit(
            if step == 0 {
                None
            } else {
                Some(UnitPrefix::spec_at(mode.decimal, (step - 1) as usize))
            },
            if mode.bits {
                SizeVariant::Bit
            } else {
                SizeVariant::Byte
            },
        )
    }

    /// The size counted in what a mode counts: in bits, or in bytes.
    pub open spec fn spec_prep_value(&self, mode: Mode) -> Fraction {
        Fraction::spec_new(self.0, ByteSize::spec_per_unit(mode))->0
    }

    /// The step that a mode picks for the size: the largest that the size
    /// reaches.
    pub open spec fn spec_step(&self, mode: Mode) -> nat {
        spec_largest_step(
            self.0 as nat,
            ByteSize::spec_per_unit(mode) as nat,
            ByteSize::spec_base(mode) as nat,
            ByteSize::spec_top(mode),
        )
    }

    /// The bits in one of the unit that a mode picks for the size.
    pub open spec fn spec_scale(&self, mode: Mode) -> nat {
        (ByteSize::spec_per_unit(mode) * pow(
            ByteSize::spec_base(mode) as int,
            self.spec_step(mode),
        )) as nat
    }

    /// The size in the unit that a mode picks for it.
    pub open spec fn spec_repr(&self, mode: Mode) -> ByteSizeRepr {
        ByteSizeRepr::spec_of(
            Fraction::spec_new(self.0, self.spec_scale(mode) as u128)->0,
            ByteSize::spec_unit_at(mode, self.spec_step(mode)),
        )
    }

    /// The size in a given unit.
    pub open spec fn spec_repr_as(&self, unit: Unit) -> ByteSizeRepr {
        ByteSizeRepr::spec_of(
            Fraction::spec_new(self.0, unit.spec_effective_value() as u128)->0,
            unit,
        )
    }

    /// What a text reads as: a number, then a unit, with or without white
    /// space between them. The number ends at the first letter or white
    /// space of the text. Commas before its first point are grouping and are
    /// not read. The unit is read without the white space in front of it.
    pub open spec fn spec_from_str(s: Seq<char>) -> Result<ByteSize, ParseError> {
        if s.len() == 0 {
            Err(ParseError { kind: ParseErrorKind::EmptyInput })
        } else if find_boundary(s, 0) == s.len() {
            Err(ParseError { kind: ParseErrorKind::MissingUnit })
        } else if find_boundary(s, 0) == 0 {
            Err(ParseError { kind: ParseErrorKind::MissingValue })
        } else {
            match Fraction::spec_from_str(strip_grouping(s.subrange(0, find_boundary(s, 0)))) {
                Err(error) => Err(error),
                Ok(value) => match Unit::spec_from_str(
                    trim_start(s.subrange(find_boundary(s, 0), s.len() as int)),
                ) {
                    Err(error) => Err(error),
                    Ok(unit) => Ok(ByteSize::spec_of(value, unit)),
                },
            }
        }
    }

    /// The sum of two sizes, and the largest size where the sum leaves
    /// `u128`.
    pub open spec fn spec_add(self, rhs: ByteSize) -> ByteSize {
        if self.0 + rhs.0 > u128::MAX {
            ByteSize(u128::MAX)
        } else {
            ByteSize((self.0 + rhs.0) as u128)
        }
    }

    /// The difference of two sizes, and the size of nothing where the second
    /// is the larger.
    pub open spec fn spec_sub(self, rhs: ByteSize) -> ByteSize {
        if self.0 < rhs.0 {
            ByteSize(0)
        } else {
            ByteSize((self.0 - rhs.0) as u128)
        }
    }

    /// The size taken `rhs` times, and the largest size where the product
    /// leaves `u128`.
    pub open spec fn spec_mul(self, rhs: u128) -> ByteSize {
        if self.0 * rhs > u128::MAX {
            ByteSize(u128::MAX)
        } else {
            ByteSize((self.0 * rhs) as u128)
        }
    }

    /// The size divided by `rhs`, with what is less than a bit dropped. By 0
    /// the size of nothing stays what it is, and any other size becomes the
    /// largest.
    pub open spec fn spec_div(self, rhs: u128) -> ByteSize {
        if rhs == 0 {
            if self.0 == 0 {
                ByteSize(0)
            } else {
                ByteSize(u128::MAX)
            }
        } else {
            ByteSize(self.0 / rhs)
        }
    }

    /// The size taken a fraction of times, with what is less than a bit
    /// dropped; the largest size where the product, as a fraction in lowest
    /// terms, cannot be held.
    pub open spec fn spec_mul_fraction(self, rhs: Fraction) -> ByteSize {
        match Fraction::spec_from_int(self.0).spec_checked_mul(&rhs) {
            Some(product) => ByteSize(product.spec_trunc()),
            None => ByteSize(u128::MAX),
        }
    }

    /// The size divided by a fraction, with what is less than a bit dropped;
    /// the largest size where the quotient, as a fraction in lowest terms,
    /// cannot be held. By 0 the size of nothing stays what it is, and any
    /// other size becomes the largest.
    pub open spec fn spec_div_fraction(self, rhs: Fraction) -> ByteSize {
        if rhs.spec_is_zero() && self.0 == 0 {
            ByteSize(0)
        } else {
            match Fraction::spec_from_int(self.0).spec_checked_div(&rhs) {
                Some(quotient) => ByteSize(quotient.spec_trunc()),
                None => ByteSize(u128::MAX),
            }
        }
    }

    /// Reads a size from its characters.
    pub(crate) fn from_chars(s: &Vec<char>) -> (r: Result<ByteSize, ParseError>)
        ensures
            r == ByteSize::spec_from_str(s@),
    {
        if s.len() == 0 {
            return Err(ParseError { kind: ParseErrorKind::EmptyInput });
        }
        let index = boundary(s);
        if index == s.len() {
            return Err(ParseError { kind: ParseErrorKind::MissingUnit });
        }
        if index == 0 {
            return Err(ParseError { kind: ParseErrorKind::MissingValue });
        }
        let number = number_text(s, index);
        let value = match Fraction::from_chars(&number) {
            Ok(value) => value,
            Err(error) => {
                return Err(error);
            },
        };
        let unit = unit_text(s, index);
        match Unit::from_chars(&unit) {
            Ok(unit) => Ok(ByteSize::of(value, unit)),
            Err(error) => Err(error),
        }
    }

    /// Reads a size: a number, then a unit, with or without white space
    /// between them, as in `1.5 MiB`, `20kB` or `58,375.28 EiB`.
    ///
    /// The empty text gives `EmptyInput`. The number ends at the first letter
    /// or white space; a text without either gives `MissingUnit`, one that
    /// starts with either gives `MissingValue`. Commas before the first
    /// point of the number are taken for grouping and are not read; what is
    /// left is read as [`Fraction::from_str`] reads, and its errors are
    /// passed on. What follows the number is read, without the white space
    /// in front of it, as [`Unit::from_str`] reads, and its errors are
    /// passed on. The size is then that of the number in the unit, as
    /// [`ByteSize::of`] gives it.
    pub fn from_str(s: &str) -> (r: Result<ByteSize, ParseError>)
        ensures
            r == ByteSize::spec_from_str(s@),
    {
        let chars = chars_of(s);
        ByteSize::from_chars(&chars)
    }

    /// The size of `value` bits.
    #[verifier::when_used_as_spec(spec_from_bits)]
    pub fn from_bits(value: u128) -> (size: ByteSize)
        ensures
            size == ByteSize::spec_from_bits(value),
            size.0 == value,
    {
        ByteSize(value)
    }

    /// The size of `value` bytes. It fails with `ValueOverflow` exactly where
    /// eight times `value` leaves `u128`.
    #[verifier::when_used_as_spec(spec_from_bytes)]
    pub fn from_bytes(value: u128) -> (r: Result<ByteSize, ParseError>)
        ensures
            r == ByteSize::spec_from_bytes(value),
            value * 8 <= u128::MAX ==> r == Ok::<ByteSize, ParseError>(ByteSize((value * 8) as u128)),
            value * 8 > u128::MAX ==> r == Err::<ByteSize, ParseError>(
                ParseError { kind: ParseErrorKind::ValueOverflow },
            ),
    {
        match value.checked_mul(8) {
            Some(bits) => Ok(ByteSize(bits)),
            None => Err(ParseError { kind: ParseErrorKind::ValueOverflow }),
        }
    }

    /// The count of bits.
    #[verifier::when_used_as_spec(spec_bits)]
    pub fn bits(&self) -> (bits: u128)
        ensures
            bits == self.0,
    {
        self.0
    }

    /// The count of whole bytes: the count of bits divided by eight, with
    /// what is left over dropped. It never fails.
    #[verifier::when_used_as_spec(spec_bytes)]
    pub fn bytes(&self) -> (r: Result<u128, ParseError>)
        ensures
            r == Ok::<u128, ParseError>(self.0 / 8),
    {
        match self.0.checked_div(8) {
            Some(bytes) => Ok(bytes),
            None => Err(ParseError { kind: ParseErrorKind::ValueOverflow }),
        }
    }

    /// The size of a magnitude in a unit: the magnitude times the bits of
    /// the unit, with what is less than a bit dropped.
    ///
    /// The product is formed as a fraction in lowest terms. Where its
    /// numerator leaves `u128` the size is the largest there is. That is the
    /// case exactly where the numerator of the magnitude, times what is left
    /// of the unit's bits after they are cancelled against its denominator,
    /// leaves `u128`; for a whole magnitude, where the plain product does.
    pub fn of(value: Fraction, unit: Unit) -> (size: ByteSize)
        ensures
            size == ByteSize::spec_of(value, unit),
            value.spec_numer() * (unit.spec_effective_value() / gcd(
                value.spec_denom() as nat,
                unit.spec_effective_value(),
            )) <= u128::MAX ==> size.0 == (value.spec_numer() * unit.spec_effective_value())
                / (value.spec_denom() as int),
            value.spec_numer() * (unit.spec_effective_value() / gcd(
                value.spec_denom() as nat,
                unit.spec_effective_value(),
            )) > u128::MAX ==> size.0 == u128::MAX,
    {
        proof {
            use_type_invariant(value);
            Fraction::lemma_mul_int(value, unit.spec_effective_value() as u128);
        }
        let factor = Fraction::from_int(unit.effective_value());
        match value.checked_mul(&factor) {
            Some(product) => ByteSize(product.trunc()),
            None => ByteSize(u128::MAX),
        }
    }

    /// The size counted in what a mode counts: in bits, or in bytes.
    pub(crate) fn prep_value(&self, mode: Mode) -> (value: Fraction)
        ensures
            value == self.spec_prep_value(mode),
            value.wf(),
            value.spec_numer() * ByteSize::spec_per_unit(mode) == self.0 * value.spec_denom(),
    {
        let value = Fraction::from_int(self.0);
        if mode.bits {
            proof {
                Fraction::lemma_from_int(self.0);
            }
            value
        } else {
            proof {
                Fraction::lemma_div_int(value, 8);
                Fraction::lemma_new(self.0, 8);
            }
            value.checked_div(&Fraction::from_int(8)).unwrap()
        }
    }

    /// The size in the unit that a mode picks for it.
    ///
    /// The mode says whether bits or bytes are counted, whether the ladder
    /// of prefixes is the decimal one, stepping by 1000, or the binary one,
    /// stepping by 1024, and whether prefixes are used at all. The unit is
    /// the largest of that ladder that the size reaches, and the bare size
    /// variant where it reaches none or none is used. The magnitude is the
    /// exact quotient of the size by that unit.
    pub fn repr(&self, mode: Mode) -> (r: ByteSizeRepr)
        ensures
            r == self.spec_repr(mode),
            r.0.wf(),
            r.0.spec_numer() * self.spec_scale(mode) == self.0 * r.0.spec_denom(),
            self.spec_step(mode) <= ByteSize::spec_top(mode),
            self.spec_step(mode) > 0 ==> self.0 >= self.spec_scale(mode),
            self.spec_step(mode) < ByteSize::spec_top(mode) ==> self.0 < self.spec_scale(mode)
                * ByteSize::spec_base(mode),
    {
        let as_bits = mode.bits;
        let no_prefix = mode.no_prefix;
        let as_decimal = mode.decimal;
        let mut value = self.prep_value(mode);
        let base: u128 = if as_decimal {
            1000
        } else {
            1024
        };
        let divisor = Fraction::from_int(base);
        let unit_stack = if as_bits {
            BITS()
        } else {
            BYTES()
        };
        let max_index: usize = if no_prefix {
            0
        } else {
            16
        };
        let mut prefix_index: usize = 0;
        let ghost per = ByteSize::spec_per_unit(mode) as nat;
        let ghost top = ByteSize::spec_top(mode);
        proof {
            reveal_with_fuel(pow, 1);
            assert(pow(base as int, 0) == 1);
            assert(per * pow(base as int, 0) == per) by (nonlinear_arith)
                requires
                    pow(base as int, 0) == 1,
            ;
            Fraction::lemma_new(self.0, per as u128);
        }
        while prefix_index < max_index && value >= divisor
            invariant
                base == ByteSize::spec_base(mode),
                per == ByteSize::spec_per_unit(mode),
                top == ByteSize::spec_top(mode),
                divisor == Fraction::spec_from_int(base),
                divisor.wf(),
                max_index == 2 * top,
                prefix_index % 2 == 0,
                prefix_index <= max_index,
                value.wf(),
                Some(value) == Fraction::spec_new(
                    self.0,
                    (per * pow(base as int, (prefix_index / 2) as nat)) as u128,
                ),
                prefix_index > 0 ==> self.0 >= per * pow(base as int, (prefix_index / 2) as nat),
            decreases max_index - prefix_index,
        {
            proof {
                let k = (prefix_index / 2) as nat;
                let scale = (per * pow(base as int, k)) as nat;
                lemma_base_powers(base as nat, k);
                lemma_base_powers(base as nat, k + 1);
                assert(scale <= 8 * 0x1_0000_0000_0000_0000_0000 && scale > 0) by (nonlinear_arith)
                    requires
                        scale == per * pow(base as int, k),
                        1 <= per <= 8,
                        1 <= pow(base as int, k) <= 0x1_0000_0000_0000_0000_0000,
                ;
                Fraction::lemma_new(self.0, scale as u128);
                Fraction::lemma_from_int(base);
                lemma_ge_scaled(
                    value.spec_numer() as nat,
                    value.spec_denom() as nat,
                    self.0 as nat,
                    scale,
                    base as nat,
                );
                assert(value.spec_denom() * base <= u128::MAX) by (nonlinear_arith)
                    requires
                        value.spec_denom() <= scale,
                        scale <= 8 * 0x1_0000_0000_0000_0000_0000,
                        base <= 1024,
                ;
                Fraction::lemma_div_int(value, base);
                let next = value.spec_checked_div(&divisor)->0;
                let grown = (per * pow(base as int, k + 1)) as nat;
                assert(grown == scale * base && grown == base * scale) by (nonlinear_arith)
                    requires
                        grown == per * pow(base as int, k + 1),
                        scale == per * pow(base as int, k),
                        pow(base as int, k + 1) == base * pow(base as int, k),
                ;
                assert(grown <= u128::MAX) by (nonlinear_arith)
                    requires
                        grown == scale * base,
                        scale <= 8 * 0x1_0000_0000_0000_0000_0000,
                        base <= 1024,
                ;
                Fraction::lemma_new(value.spec_numer(), (value.spec_denom() * base) as u128);
                assert(value.spec_numer() * grown == self.0 * (value.spec_denom() * base))
                    by (nonlinear_arith)
                    requires
                        value.spec_numer() * scale == self.0 * value.spec_denom(),
                        grown == scale * base,
                ;
                lemma_same_value_transitive(
                    next.spec_numer() as nat,
                    next.spec_denom() as nat,
                    value.spec_numer() as nat,
                    (value.spec_denom() * base) as nat,
                    self.0 as nat,
                    grown,
                );
                Fraction::lemma_new_unique(next, self.0, grown as u128);
                assert((prefix_index + 2) / 2 == k + 1);
            }
            value = value.checked_div(&divisor).unwrap();
            prefix_index += 2;
        }
        proof {
            let k = (prefix_index / 2) as nat;
            let scale = (per * pow(base as int, k)) as nat;
            lemma_base_powers(base as nat, k);
            assert(scale > 0 && scale <= u128::MAX) by (nonlinear_arith)
                requires
                    scale == per * pow(base as int, k),
                    1 <= per <= 8,
                    1 <= pow(base as int, k) <= 0x1_0000_0000_0000_0000_0000,
            ;
            Fraction::lemma_new(self.0, scale as u128);
            Fraction::lemma_from_int(base);
            lemma_ge_scaled(
                value.spec_numer() as nat,
                value.spec_denom() as nat,
                self.0 as nat,
                scale,
                base as nat,
            );
            assert(per * pow(base as int, k + 1) == base * scale) by (nonlinear_arith)
                requires
                    scale == per * pow(base as int, k),
                    pow(base as int, k + 1) == base * pow(base as int, k),
            ;
            lemma_largest_step(self.0 as nat, per, base as nat, k, top);
            assert(scale * base == base * scale) by (nonlinear_arith);
            lemma_unit_stack(mode, k);
        }
        if prefix_index > 0 && as_decimal {
            prefix_index -= 1
        }
        ByteSizeRepr::of(value, unit_stack[prefix_index])
    }

    /// The size in a given unit: the exact quotient of the size by the bits
    /// of the unit.
    pub fn repr_as(&self, unit: Unit) -> (r: ByteSizeRepr)
        ensures
            r == self.spec_repr_as(unit),
            r.0.wf(),
            r.1 == unit,
            r.0.spec_numer() * unit.spec_effective_value() == self.0 * r.0.spec_denom(),
    {
        let bits = Fraction::from_int(self.0);
        let per_unit = unit.effective_value();
        proof {
            Fraction::lemma_div_int(bits, per_unit);
            Fraction::lemma_new(self.0, per_unit);
        }
        let value = bits.checked_div(&Fraction::from_int(per_unit)).unwrap();
        ByteSizeRepr::of(value, unit)
    }

    /// The text of the size in bytes with a binary prefix, in the default
    /// style: `1.50 MiB`.
    pub fn to_string(&self) -> (text: String)
        ensures
            text@ == self.spec_repr(Mode::spec_empty()).spec_fmt(&Directive::spec_none()),
    {
        self.repr(Mode::Default()).fmt(&Directive::none())
    }

    /// The text of the size in bytes with a binary prefix, in the default
    /// style under the given directives.
    pub fn fmt(&self, directive: &Directive) -> (text: String)
        ensures
            text@ == self.spec_repr(Mode::spec_empty()).spec_fmt(directive),
    {
        self.repr(Mode::Default()).fmt(directive)
    }
}

impl PartialOrd for ByteSize {
    /// Sizes are ordered by their counts of bits.
    fn partial_cmp(&self, other: &ByteSize) -> (r: Option<Ordering>) {
        if self.0 < other.0 {
            Some(Ordering::Less)
        } else if self.0 > other.0 {
            Some(Ordering::Greater)
        } else {
            Some(Ordering::Equal)
        }
    }
}

impl vstd::std_specs::cmp::PartialOrdSpecImpl for ByteSize {
    open spec fn obeys_partial_cmp_spec() -> bool {
        true
    }

    open spec fn partial_cmp_spec(&self, other: &ByteSize) -> Option<Ordering> {
        if self.0 < other.0 {
            Some(Ordering::Less)
        } else if self.0 > other.0 {
            Some(Ordering::Greater)
        } else {
            Some(Ordering::Equal)
        }
    }
}

impl core::str::FromStr for ByteSize {
    type Err = ParseError;

    fn from_str(s: &str) -> (r: Result<ByteSize, ParseError>)
        ensures
            r == ByteSize::spec_from_str(s@),
    {
        ByteSize::from_str(s)
    }
}

impl From<ByteSizeRepr> for ByteSize {
    fn from(repr: ByteSizeRepr) -> (size: ByteSize) {
        ByteSize::of(repr.0, repr.1)
    }
}

impl vstd::std_specs::convert::FromSpecImpl<ByteSizeRepr> for ByteSize {
    open spec fn obeys_from_spec() -> bool {
        true
    }

    open spec fn from_spec(repr: ByteSizeRepr) -> ByteSize {
        ByteSize::spec_of(repr.0, repr.1)
    }
}

impl core::ops::Add for ByteSize {
    type Output = ByteSize;

    fn add(self, rhs: ByteSize) -> (sum: ByteSize) {
        ByteSize(self.0.saturating_add(rhs.0))
    }
}

impl vstd::std_specs::ops::AddSpecImpl for ByteSize {
    open spec fn obeys_add_spec() -> bool {
        true
    }

    open spec fn add_req(self, rhs: ByteSize) -> bool {
        true
    }

    open spec fn add_spec(self, rhs: ByteSize) -> ByteSize {
        self.spec_add(rhs)
    }
}

impl core::ops::Sub for ByteSize {
    type Output = ByteSize;

    fn sub(self, rhs: ByteSize) -> (difference: ByteSize) {
        ByteSize(self.0.saturating_sub(rhs.0))
    }
}

impl vstd::std_specs::ops::SubSpecImpl for ByteSize {
    open spec fn obeys_sub_spec() -> bool {
        true
    }

    open spec fn sub_req(self, rhs: ByteSize) -> bool {
        true
    }

    open spec fn sub_spec(self, rhs: ByteSize) -> ByteSize {
        self.spec_sub(rhs)
    }
}

impl core::ops::Mul<u128> for ByteSize {
    type Output = ByteSize;

    fn mul(self, rhs: u128) -> (product: ByteSize) {
        match self.0.checked_mul(rhs) {
            Some(bits) => ByteSize(bits),
            None => ByteSize(u128::MAX),
        }
    }
}

impl vstd::std_specs::ops::MulSpecImpl<u128> for ByteSize {
    open spec fn obeys_mul_spec() -> bool {
        true
    }

    open spec fn mul_req(self, rhs: u128) -> bool {
        true
    }

    open spec fn mul_spec(self, rhs: u128) -> ByteSize {
        self.spec_mul(rhs)
    }
}

impl core::ops::Div<u128> for ByteSize {
    type Output = ByteSize;

    fn div(self, rhs: u128) -> (quotient: ByteSize) {
        match self.0.checked_div(rhs) {
            Some(bits) => ByteSize(bits),
            None => if self.0 == 0 {
                ByteSize(0)
            } else {
                ByteSize(u128::MAX)
            },
        }
    }
}

impl vstd::std_specs::ops::DivSpecImpl<u128> for ByteSize {
    open spec fn obeys_div_spec() -> bool {
        true
    }

    open spec fn div_req(self, rhs: u128) -> bool {
        true
    }

    open spec fn div_spec(self, rhs: u128) -> ByteSize {
        self.spec_div(rhs)
    }
}

impl core::ops::Mul<Fraction> for ByteSize {
    type Output = ByteSize;

    fn mul(self, rhs: Fraction) -> (product: ByteSize) {
        match Fraction::from_int(self.0).checked_mul(&rhs) {
            Some(product) => ByteSize(product.trunc()),
            None => ByteSize(u128::MAX),
        }
    }
}

impl vstd::std_specs::ops::MulSpecImpl<Fraction> for ByteSize {
    open spec fn obeys_mul_spec() -> bool {
        true
    }

    open spec fn mul_req(self, rhs: Fraction) -> bool {
        true
    }

    open spec fn mul_spec(self, rhs: Fraction) -> ByteSize {
        self.spec_mul_fraction(rhs)
    }
}

impl core::ops::Div<Fraction> for ByteSize {
    type Output = ByteSize;

    fn div(self, rhs: Fraction) -> (quotient: ByteSize) {
        if rhs.is_zero() && self.0 == 0 {
            return ByteSize(0);
        }
        match Fraction::from_int(self.0).checked_div(&rhs) {
            Some(quotient) => ByteSize(quotient.trunc()),
            None => ByteSize(u128::MAX),
        }
    }
}

impl vstd::std_specs::ops::DivSpecImpl<Fraction> for ByteSize {
    open spec fn obeys_div_spec() -> bool {
        true
    }

    open spec fn div_req(self, rhs: Fraction) -> bool {
        true
    }

    open spec fn div_spec(self, rhs: Fraction) -> ByteSize {
        self.spec_div_fraction(rhs)
    }
}

impl core::ops::MulAssign<Fraction> for ByteSize {
    fn mul_assign(&mut self, rhs: Fraction)
        ensures
            *final(self) == old(self).spec_mul_fraction(rhs),
    {
        *self = *self * rhs;
    }
}

impl core::ops::DivAssign<Fraction> for ByteSize {
    fn div_assign(&mut self, rhs: Fraction)
        ensures
            *final(self) == old(self).spec_div_fraction(rhs),
    {
        *self = *self / rhs;
    }
}

impl core::ops::AddAssign for ByteSize {
    fn add_assign(&mut self, rhs: ByteSize)
        ensures
            *final(self) == old(self).spec_add(rhs),
    {
        *self = *self + rhs;
    }
}

impl core::ops::SubAssign for ByteSize {
    fn sub_assign(&mut self, rhs: ByteSize)
        ensures
            *final(self) == old(self).spec_sub(rhs),
    {
        *self = *self - rhs;
    }
}

impl core::ops::MulAssign<u128> for ByteSize {
    fn mul_assign(&mut self, rhs: u128)
        ensures
            *final(self) == old(self).spec_mul(rhs),
    {
        *self = *self * rhs;
    }
}

impl core::ops::DivAssign<u128> for ByteSize {
    fn div_assign(&mut self, rhs: u128)
        ensures
            *final(self) == old(self).spec_div(rhs),
    {
        *self = *self / rhs;
    }
}

/// The tables of units by size hold, at twice a step, the unit of the binary
/// ladder at that step, and one place before it the unit of the decimal
/// ladder.
pub proof fn lemma_unit_stack(mode: Mode, step: nat)
    requires
        step <= 8,
    ensures
        ({
            let stack = if mode.bits {
                spec_bits()
            } else {
                spec_bytes()
            };
            let index: int = if step > 0 && mode.decimal {
                2 * step - 1
            } else {
                2 * step as int
            };
            stack[index] == ByteSize::spec_unit_at(mode, step)
        }),
{
    if step == 0 {
    } else if step == 1 {
    } else if step == 2 {
    } else if step == 3 {
    } else if step == 4 {
    } else if step == 5 {
    } else if step == 6 {
    } else if step == 7 {
    } else {
    }
}

} // verus!
