//! The two option sets: how a size picks its unit, and how it is written.
//!
//! Each set holds one boolean per option. The empty set is the default, and
//! sets are joined by union.

#![allow(non_snake_case)]

use vstd::prelude::*;

verus! {

/// How a size picks the unit it is shown in.
#[derive(Clone, Copy, Debug, PartialEq, Eq, Hash, Structural)]
pub struct Mode {
    /// Count in bits; otherwise in bytes.
    pub bits: bool,
    /// Step by 1000 with decimal prefixes; otherwise by 1024 with binary ones.
    pub decimal: bool,
    /// Use no prefix at all.
    pub no_prefix: bool,
}

impl Mode {
    /// The empty set: bytes, binary prefixes.
    pub open spec fn spec_empty() -> Mode {
        Mode { bits: false, decimal: false, no_prefix: false }
    }

    /// The union of two sets.
    pub open spec fn spec_union(self, other: Mode) -> Mode {
        Mode {
            bits: self.bits || other.bits,
            decimal: self.decimal || other.decimal,
            no_prefix: self.no_prefix || other.no_prefix,
        }
    }

    /// Whether every option of `other` is in this set.
    pub open spec fn spec_contains(&self, other: Mode) -> bool {
        &&& other.bits ==> self.bits
        &&& other.decimal ==> self.decimal
        &&& other.no_prefix ==> self.no_prefix
    }

    /// The empty set.
    #[verifier::when_used_as_spec(spec_empty)]
    pub fn empty() -> (m: Mode)
        ensures
            m == Mode::spec_empty(),
    {
        Mode { bits: false, decimal: false, no_prefix: false }
    }

    /// The empty set: bytes, binary prefixes.
    pub fn Default() -> (m: Mode)
        ensures
            m == Mode::spec_empty(),
    {
        Mode::empty()
    }

    /// The set of the one option `bits`.
    pub fn Bits() -> (m: Mode)
        ensures
            m == (Mode { bits: true, ..Mode::spec_empty() }),
    {
        Mode { bits: true, decimal: false, no_prefix: false }
    }

    /// The set of the one option `decimal`.
    pub fn Decimal() -> (m: Mode)
        ensures
            m == (Mode { decimal: true, ..Mode::spec_empty() }),
    {
        Mode { bits: false, decimal: true, no_prefix: false }
    }

    /// The set of the one option `no_prefix`.
    pub fn NoPrefix() -> (m: Mode)
        ensures
            m == (Mode { no_prefix: true, ..Mode::spec_empty() }),
    {
        Mode { bits: false, decimal: false, no_prefix: true }
    }

    /// Whether the set holds no option.
    pub fn is_empty(&self) -> (r: bool)
        ensures
            r == (*self == Mode::spec_empty()),
    {
        !self.bits && !self.decimal && !self.no_prefix
    }

    /// Whether every option of `other` is in this set.
    #[verifier::when_used_as_spec(spec_contains)]
    pub fn contains(&self, other: Mode) -> (r: bool)
        ensures
            r == self.spec_contains(other),
    {
        (!other.bits || self.bits) && (!other.decimal || self.decimal) && (!other.no_prefix
            || self.no_prefix)
    }

    /// The union of two sets.
    #[verifier::when_used_as_spec(spec_union)]
    pub fn union(self, other: Mode) -> (m: Mode)
        ensures
            m == self.spec_union(other),
    {
        Mode {
            bits: self.bits || other.bits,
            decimal: self.decimal || other.decimal,
            no_prefix: self.no_prefix || other.no_prefix,
        }
    }
}

impl core::ops::BitOr for Mode {
    type Output = Mode;

    fn bitor(self, rhs: Mode) -> (m: Mode) {
        self.union(rhs)
    }
}

impl vstd::std_specs::ops::BitOrSpecImpl for Mode {
    open spec fn obeys_bitor_spec() -> bool {
        true
    }

    open spec fn bitor_req(self, rhs: Mode) -> bool {
        true
    }

    open spec fn bitor_spec(self, rhs: Mode) -> Mode {
        self.spec_union(rhs)
    }
}

impl Default for Mode {
    fn default() -> (m: Mode)
        ensures
            m == Mode::spec_empty(),
    {
        Mode::empty()
    }
}

/// How a size is written: the style of the unit, of the number, and of what
/// stands between them.
#[derive(Clone, Copy, Debug, PartialEq, Eq, Hash, Structural)]
pub struct Format {
    /// Write the unit as the initial of its prefix and the letter of its variant: `KB` for kibibytes.
    pub initials: bool,
    /// Write the unit as the initial of its prefix alone, or the letter of its variant where it has no prefix.
    pub condensed: bool,
    /// Write the unit in words: `KiloBytes`.
    pub long: bool,
    /// Never write the variant word in the plural. Only the long form has a plural.
    pub no_plural: bool,
    /// Always write the variant word in the plural. Only the long form has a plural.
    pub force_plural: bool,
    /// Write the variant word after a prefix in lower case: `Kilobytes`.
    pub no_multi_caps: bool,
    /// Write the whole unit in lower case.
    pub lower_caps: bool,
    /// Write the whole unit in upper case.
    pub upper_caps: bool,
    /// Cut the number down to its whole part.
    pub no_fraction: bool,
    /// Write the decimal places even where the number is whole.
    pub force_fraction: bool,
    /// Group the digits of the whole part in threes.
    pub show_thousands_separator: bool,
    /// Write nothing between the number and the unit.
    pub no_space: bool,
}

impl Format {
    /// The empty set: the short symbol, two decimal places where the number has a
    /// fraction, and one space.
    pub open spec fn spec_empty() -> Format {
        Format {
            initials: false,
            condensed: false,
            long: false,
            no_plural: false,
            force_plural: false,
            no_multi_caps: false,
            lower_caps: false,
            upper_caps: false,
            no_fraction: false,
            force_fraction: false,
            show_thousands_separator: false,
            no_space: false,
        }
    }

    /// The union of two sets.
    pub open spec fn spec_union(self, other: Format) -> Format {
        Format {
            initials: self.initials || other.initials,
            condensed: self.condensed || other.condensed,
            long: self.long || other.long,
            no_plural: self.no_plural || other.no_plural,
            force_plural: self.force_plural || other.force_plural,
            no_multi_caps: self.no_multi_caps || other.no_multi_caps,
            lower_caps: self.lower_caps || other.lower_caps,
            upper_caps: self.upper_caps || other.upper_caps,
            no_fraction: self.no_fraction || other.no_fraction,
            force_fraction: self.force_fraction || other.force_fraction,
            show_thousands_separator: self.show_thousands_separator || other.show_thousands_separator,
            no_space: self.no_space || other.no_space,
        }
    }

    /// Whether every option of `other` is in this set.
    pub open spec fn spec_contains(&self, other: Format) -> bool {
        &&& other.initials ==> self.initials
        &&& other.condensed ==> self.condensed
        &&& other.long ==> self.long
        &&& other.no_plural ==> self.no_plural
        &&& other.force_plural ==> self.force_plural
        &&& other.no_multi_caps ==> self.no_multi_caps
        &&& other.lower_caps ==> self.lower_caps
        &&& other.upper_caps ==> self.upper_caps
        &&& other.no_fraction ==> self.no_fraction
        &&& other.force_fraction ==> self.force_fraction
        &&& other.show_thousands_separator ==> self.show_thousands_separator
        &&& other.no_space ==> self.no_space
    }

    /// The empty set.
    #[verifier::when_used_as_spec(spec_empty)]
    pub fn empty() -> (f: Format)
        ensures
            f == Format::spec_empty(),
    {
        Format {
            initials: false,
            condensed: false,
            long: false,
            no_plural: false,
            force_plural: false,
            no_multi_caps: false,
            lower_caps: false,
            upper_caps: false,
            no_fraction: false,
            force_fraction: false,
            show_thousands_separator: false,
            no_space: false,
        }
    }

    /// The empty set.
    pub fn Default() -> (f: Format)
        ensures
            f == Format::spec_empty(),
    {
        Format::empty()
    }

    /// The set of the one option `initials`.
    pub fn Initials() -> (f: Format)
        ensures
            f == (Format { initials: true, ..Format::spec_empty() }),
    {
        Format { initials: true, ..Format::empty() }
    }

    /// The set of the one option `condensed`.
    pub fn Condensed() -> (f: Format)
        ensures
            f == (Format { condensed: true, ..Format::spec_empty() }),
    {
        Format { condensed: true, ..Format::empty() }
    }

    /// The set of the one option `long`.
    pub fn Long() -> (f: Format)
        ensures
            f == (Format { long: true, ..Format::spec_empty() }),
    {
        Format { long: true, ..Format::empty() }
    }

    /// The set of the one option `no_plural`.
    pub fn NoPlural() -> (f: Format)
        ensures
            f == (Format { no_plural: true, ..Format::spec_empty() }),
    {
        Format { no_plural: true, ..Format::empty() }
    }

    /// The set of the one option `force_plural`.
    pub fn ForcePlural() -> (f: Format)
        ensures
            f == (Format { force_plural: true, ..Format::spec_empty() }),
    {
        Format { force_plural: true, ..Format::empty() }
    }

    /// The set of the one option `no_multi_caps`.
    pub fn NoMultiCaps() -> (f: Format)
        ensures
            f == (Format { no_multi_caps: true, ..Format::spec_empty() }),
    {
        Format { no_multi_caps: true, ..Format::empty() }
    }

    /// The set of the one option `lower_caps`.
    pub fn LowerCaps() -> (f: Format)
        ensures
            f == (Format { lower_caps: true, ..Format::spec_empty() }),
    {
        Format { lower_caps: true, ..Format::empty() }
    }

    /// The set of the one option `upper_caps`.
    pub fn UpperCaps() -> (f: Format)
        ensures
            f == (Format { upper_caps: true, ..Format::spec_empty() }),
    {
        Format { upper_caps: true, ..Format::empty() }
    }

    /// The set of the one option `no_fraction`.
    pub fn NoFraction() -> (f: Format)
        ensures
            f == (Format { no_fraction: true, ..Format::spec_empty() }),
    {
        Format { no_fraction: true, ..Format::empty() }
    }

    /// The set of the one option `force_fraction`.
    pub fn ForceFraction() -> (f: Format)
        ensures
            f == (Format { force_fraction: true, ..Format::spec_empty() }),
    {
        Format { force_fraction: true, ..Format::empty() }
    }

    /// The set of the one option `show_thousands_separator`.
    pub fn ShowThousandsSeparator() -> (f: Format)
        ensures
            f == (Format { show_thousands_separator: true, ..Format::spec_empty() }),
    {
        Format { show_thousands_separator: true, ..Format::empty() }
    }

    /// The set of the one option `no_space`.
    pub fn NoSpace() -> (f: Format)
        ensures
            f == (Format { no_space: true, ..Format::spec_empty() }),
    {
        Format { no_space: true, ..Format::empty() }
    }

    /// Whether the set holds no option.
    pub fn is_empty(&self) -> (r: bool)
        ensures
            r == (*self == Format::spec_empty()),
    {
        !(self.initials
            || self.condensed
            || self.long
            || self.no_plural
            || self.force_plural
            || self.no_multi_caps
            || self.lower_caps
            || self.upper_caps
            || self.no_fraction
            || self.force_fraction
            || self.show_thousands_separator
            || self.no_space)
    }

    /// Whether every option of `other` is in this set.
    #[verifier::when_used_as_spec(spec_contains)]
    pub fn contains(&self, other: Format) -> (r: bool)
        ensures
            r == self.spec_contains(other),
    {
        (!other.initials || self.initials)
            && (!other.condensed || self.condensed)
            && (!other.long || self.long)
            && (!other.no_plural || self.no_plural)
            && (!other.force_plural || self.force_plural)
            && (!other.no_multi_caps || self.no_multi_caps)
            && (!other.lower_caps || self.lower_caps)
            && (!other.upper_caps || self.upper_caps)
            && (!other.no_fraction || self.no_fraction)
            && (!other.force_fraction || self.force_fraction)
            && (!other.show_thousands_separator || self.show_thousands_separator)
            && (!other.no_space || self.no_space)
    }

    /// The union of two sets.
    #[verifier::when_used_as_spec(spec_union)]
    pub fn union(self, other: Format) -> (f: Format)
        ensures
            f == self.spec_union(other),
    {
        Format {
            initials: self.initials || other.initials,
            condensed: self.condensed || other.condensed,
            long: self.long || other.long,
            no_plural: self.no_plural || other.no_plural,
            force_plural: self.force_plural || other.force_plural,
            no_multi_caps: self.no_multi_caps || other.no_multi_caps,
            lower_caps: self.lower_caps || other.lower_caps,
            upper_caps: self.upper_caps || other.upper_caps,
            no_fraction: self.no_fraction || other.no_fraction,
            force_fraction: self.force_fraction || other.force_fraction,
            show_thousands_separator: self.show_thousands_separator || other.show_thousands_separator,
            no_space: self.no_space || other.no_space,
        }
    }
}

impl core::ops::BitOr for Format {
    type Output = Format;

    fn bitor(self, rhs: Format) -> (f: Format) {
        self.union(rhs)
    }
}

impl vstd::std_specs::ops::BitOrSpecImpl for Format {
    open spec fn obeys_bitor_spec() -> bool {
        true
    }

    open spec fn bitor_req(self, rhs: Format) -> bool {
        true
    }

    open spec fn bitor_spec(self, rhs: Format) -> Format {
        self.spec_union(rhs)
    }
}

impl Default for Format {
    fn default() -> (f: Format)
        ensures
            f == Format::spec_empty(),
    {
        Format::empty()
    }
}

} // verus!
