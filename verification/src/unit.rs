//! Units: an optional magnitude prefix on bits or on bytes.

use crate::directive::Directive;
use crate::error::{ParseError, ParseErrorKind};
use crate::flags::Mode;
use crate::prefix::{lemma_multipliers, UnitPrefix};
use crate::text::{chars_of, lowercase, lowered, spells};
use core::cmp::Ordering;
use vstd::prelude::*;
use vstd::string::*;

verus! {

/// What is counted: bits, or bytes of eight bits.
#[derive(Clone, Copy, Debug, PartialEq, Eq, Ord, Hash, Structural)]
pub enum SizeVariant {
    Bit,
    Byte,
}

/// A unit of size: a size variant, alone or under a magnitude prefix.
#[derive(Clone, Copy, Debug, PartialEq, Eq, Hash, Structural)]
pub struct Unit(pub Option<UnitPrefix>, pub SizeVariant);

impl SizeVariant {
    pub open spec fn spec_is_bit(&self) -> bool {
        *self == SizeVariant::Bit
    }

    pub open spec fn spec_is_byte(&self) -> bool {
        *self == SizeVariant::Byte
    }

    /// The mode that counts in this variant, with nothing else set.
    pub open spec fn spec_mode(&self) -> Mode {
        Mode { bits: self.spec_is_bit(), ..Mode::spec_empty() }
    }

    /// The letter of the variant: `b` for bits, `B` for bytes.
    pub open spec fn spec_symbol(&self) -> Seq<char> {
        match self {
            SizeVariant::Bit => "b"@,
            SizeVariant::Byte => "B"@,
        }
    }

    /// The word for the variant, in the singular or the plural, with or
    /// without a capital.
    pub open spec fn spec_symbol_long(&self, plural: bool, caps: bool) -> Seq<char> {
        match self {
            SizeVariant::Bit => match (plural, caps) {
                (true, true) => "Bits"@,
                (false, true) => "Bit"@,
                (true, false) => "bits"@,
                (false, false) => "bit"@,
            },
            SizeVariant::Byte => match (plural, caps) {
                (true, true) => "Bytes"@,
                (false, true) => "Byte"@,
                (true, false) => "bytes"@,
                (false, false) => "byte"@,
            },
        }
    }

    /// The number of bits in one of this variant.
    pub open spec fn spec_effective_value(&self) -> u8 {
        match self {
            SizeVariant::Bit => 1,
            SizeVariant::Byte => 8,
        }
    }

    /// What the variant is written as under the given directives: under `#`
    /// its word with a capital, in the plural under `+`; else its letter.
    pub open spec fn spec_fmt(&self, directive: &Directive) -> Seq<char> {
        if directive.alternate {
            self.spec_symbol_long(directive.plus, true)
        } else {
            self.spec_symbol()
        }
    }

    /// What a text reads as: `b` and `B` as they are written; the words
    /// `bit`, `bits`, `byte` and `bytes` in any case.
    pub open spec fn spec_from_str(s: Seq<char>) -> Result<SizeVariant, ParseError> {
        if s.len() == 0 {
            Err(ParseError { kind: ParseErrorKind::EmptyInput })
        } else if s == "b"@ {
            Ok(SizeVariant::Bit)
        } else if s == "B"@ {
            Ok(SizeVariant::Byte)
        } else if lowercase(s) == "bit"@ || lowercase(s) == "bits"@ {
            Ok(SizeVariant::Bit)
        } else if lowercase(s) == "byte"@ || lowercase(s) == "bytes"@ {
            Ok(SizeVariant::Byte)
        } else {
            Err(ParseError { kind: ParseErrorKind::InvalidSizeVariant })
        }
    }

    #[verifier::when_used_as_spec(spec_is_bit)]
    pub fn is_bit(&self) -> (r: bool)
        ensures
            r == self.spec_is_bit(),
    {
        match self {
            SizeVariant::Bit => true,
            SizeVariant::Byte => false,
        }
    }

    #[verifier::when_used_as_spec(spec_is_byte)]
    pub fn is_byte(&self) -> (r: bool)
        ensures
            r == self.spec_is_byte(),
    {
        match self {
            SizeVariant::Bit => false,
            SizeVariant::Byte => true,
        }
    }

    /// The mode that counts in this variant, with nothing else set.
    #[verifier::when_used_as_spec(spec_mode)]
    pub fn mode(&self) -> (m: Mode)
        ensures
            m == self.spec_mode(),
    {
        if let SizeVariant::Bit = self {
            return Mode::Bits();
        }
        Mode::Default()
    }

    /// The letter of the variant: `b` for bits, `B` for bytes.
    pub fn symbol(&self) -> (r: &'static str)
        ensures
            r@ == self.spec_symbol(),
    {
        match self {
            SizeVariant::Bit => "b",
            SizeVariant::Byte => "B",
        }
    }

    /// The word for the variant, in the singular or the plural, with or
    /// without a capital.
    pub fn symbol_long(&self, plural: bool, caps: bool) -> (r: &'static str)
        ensures
            r@ == self.spec_symbol_long(plural, caps),
    {
        match self {
            SizeVariant::Bit => match (plural, caps) {
                (true, true) => "Bits",
                (false, true) => "Bit",
                (true, false) => "bits",
                (false, false) => "bit",
            },
            SizeVariant::Byte => match (plural, caps) {
                (true, true) => "Bytes",
                (false, true) => "Byte",
                (true, false) => "bytes",
                (false, false) => "byte",
            },
        }
    }

    /// The number of bits in one of this variant: 1 or 8.
    #[verifier::when_used_as_spec(spec_effective_value)]
    pub fn effective_value(&self) -> (r: u8)
        ensures
            r == self.spec_effective_value(),
    {
        match self {
            SizeVariant::Bit => 1,
            SizeVariant::Byte => 8,
        }
    }

    /// What the variant is written as under the given directives: under `#`
    /// its word with a capital, in the plural under `+`; else its letter.
    pub fn fmt(&self, directive: &Directive) -> (r: &'static str)
        ensures
            r@ == self.spec_fmt(directive),
    {
        if directive.alternate {
            self.symbol_long(directive.plus, true)
        } else {
            self.symbol()
        }
    }

    /// Reads a size variant from its characters.
    pub(crate) fn from_chars(s: &Vec<char>) -> (r: Result<SizeVariant, ParseError>)
        ensures
            r == SizeVariant::spec_from_str(s@),
    {
        if s.len() == 0 {
            return Err(ParseError { kind: ParseErrorKind::EmptyInput });
        }
        if spells(s, "b") {
            return Ok(SizeVariant::Bit);
        }
        if spells(s, "B") {
            return Ok(SizeVariant::Byte);
        }
        let lower = lowered(s);
        if spells(&lower, "bit") || spells(&lower, "bits") {
            Ok(SizeVariant::Bit)
        } else if spells(&lower, "byte") || spells(&lower, "bytes") {
            Ok(SizeVariant::Byte)
        } else {
            Err(ParseError { kind: ParseErrorKind::InvalidSizeVariant })
        }
    }

    /// Reads a size variant: `b` is bits and `B` is bytes, as they are
    /// written; the words `bit`, `bits`, `byte` and `bytes` are read in any
    /// case. The empty text gives `EmptyInput`, any other text
    /// `InvalidSizeVariant`.
    pub fn from_str(s: &str) -> (r: Result<SizeVariant, ParseError>)
        ensures
            r == SizeVariant::spec_from_str(s@),
    {
        let chars = chars_of(s);
        SizeVariant::from_chars(&chars)
    }
}

impl PartialOrd for SizeVariant {
    /// Bits come before bytes.
    fn partial_cmp(&self, other: &SizeVariant) -> (r: Option<Ordering>) {
        match (self, other) {
            (SizeVariant::Bit, SizeVariant::Byte) => Some(Ordering::Less),
            (SizeVariant::Byte, SizeVariant::Bit) => Some(Ordering::Greater),
            _ => Some(Ordering::Equal),
        }
    }
}

impl vstd::std_specs::cmp::PartialOrdSpecImpl for SizeVariant {
    open spec fn obeys_partial_cmp_spec() -> bool {
        true
    }

    open spec fn partial_cmp_spec(&self, other: &SizeVariant) -> Option<Ordering> {
        if self.spec_effective_value() < other.spec_effective_value() {
            Some(Ordering::Less)
        } else if self.spec_effective_value() > other.spec_effective_value() {
            Some(Ordering::Greater)
        } else {
            Some(Ordering::Equal)
        }
    }
}

impl core::str::FromStr for SizeVariant {
    type Err = ParseError;

    fn from_str(s: &str) -> (r: Result<SizeVariant, ParseError>)
        ensures
            r == SizeVariant::spec_from_str(s@),
    {
        SizeVariant::from_str(s)
    }
}

/// Where the size variant starts in the text of a unit: at the last `b` or
/// `B`, or at 0 where there is none.
pub open spec fn spec_variant_start(s: Seq<char>) -> int
    decreases s.len(),
{
    if s.len() == 0 {
        0
    } else if s.last() == 'b' || s.last() == 'B' {
        s.len() - 1
    } else {
        spec_variant_start(s.drop_last())
    }
}

/// `spec_variant_start` is the greatest index of a `b` or `B`, or 0.
pub proof fn lemma_variant_start(s: Seq<char>)
    ensures
        0 <= spec_variant_start(s) <= s.len(),
        s.len() > 0 ==> spec_variant_start(s) < s.len(),
        forall|i: int|
            spec_variant_start(s) < i < s.len() ==> s[i] != 'b' && s[i] != 'B',
        spec_variant_start(s) > 0 ==> s[spec_variant_start(s)] == 'b' || s[spec_variant_start(
            s,
        )] == 'B',
    decreases s.len(),
{
    if s.len() > 0 && !(s.last() == 'b' || s.last() == 'B') {
        lemma_variant_start(s.drop_last());
        assert forall|i: int| spec_variant_start(s) < i < s.len() implies s[i] != 'b' && s[i]
            != 'B' by {
            if i < s.len() - 1 {
                assert(s[i] == s.drop_last()[i]);
            }
        }
        if spec_variant_start(s) > 0 {
            assert(s[spec_variant_start(s)] == s.drop_last()[spec_variant_start(s)]);
        }
    }
}

/// Where the size variant starts in the text of a unit.
pub(crate) fn variant_start(s: &Vec<char>) -> (at: usize)
    ensures
        at == spec_variant_start(s@),
        at <= s.len(),
        forall|i: int| at < i < s.len() ==> s@[i] != 'b' && s@[i] != 'B',
        at > 0 ==> s@[at as int] == 'b' || s@[at as int] == 'B',
{
    let mut n: usize = s.len();
    assert(s@.subrange(0, n as int) =~= s@);
    while n > 0
        invariant
            n <= s.len(),
            spec_variant_start(s@) == spec_variant_start(s@.subrange(0, n as int)),
        decreases n,
    {
        let c = s[n - 1];
        proof {
            let head = s@.subrange(0, n as int);
            assert(head.last() == c);
            assert(head.drop_last() =~= s@.subrange(0, n - 1));
        }
        if c == 'b' || c == 'B' {
            proof {
                lemma_variant_start(s@);
            }
            return n - 1;
        }
        n -= 1;
    }
    proof {
        assert(s@.subrange(0, 0).len() == 0);
        lemma_variant_start(s@);
    }
    0
}

impl Unit {
    /// The smallest unit: the bit.
    pub open spec fn spec_min() -> Unit {
        Unit(None, SizeVariant::Bit)
    }

    /// The largest unit: the byte under the largest prefix.
    pub open spec fn spec_max() -> Unit {
        Unit(Some(UnitPrefix::MAX), SizeVariant::Byte)
    }

    pub open spec fn spec_prefix(&self) -> Option<UnitPrefix> {
        self.0
    }

    pub open spec fn spec_size_variant(&self) -> SizeVariant {
        self.1
    }

    pub open spec fn spec_of(prefix: UnitPrefix, size_variant: SizeVariant) -> Unit {
        Unit(Some(prefix), size_variant)
    }

    pub open spec fn spec_is_decimal(&self) -> bool {
        self.0 is Some && self.0->0.spec_is_decimal()
    }

    pub open spec fn spec_is_binary(&self) -> bool {
        self.0 is Some && self.0->0.spec_is_binary()
    }

    pub open spec fn spec_is_prefixed(&self) -> bool {
        self.0 is Some
    }

    pub open spec fn spec_is_bit(&self) -> bool {
        self.1 == SizeVariant::Bit
    }

    pub open spec fn spec_is_byte(&self) -> bool {
        self.1 == SizeVariant::Byte
    }

    /// The step of the unit on the ladder of its variant: 0 without a prefix,
    /// else one more than the step of the prefix.
    pub open spec fn spec_index(&self) -> usize {
        match self.0 {
            Some(prefix) => (prefix.spec_index() + 1) as usize,
            None => 0,
        }
    }

    /// The unit with the counterpart of its prefix in the decimal family.
    pub open spec fn spec_decimal(&self) -> Unit {
        match self.0 {
            Some(prefix) => Unit(Some(prefix.spec_decimal()), self.1),
            None => *self,
        }
    }

    /// The unit with the counterpart of its prefix in the binary family.
    pub open spec fn spec_binary(&self) -> Unit {
        match self.0 {
            Some(prefix) => Unit(Some(prefix.spec_binary()), self.1),
            None => *self,
        }
    }

    pub open spec fn spec_bit(&self) -> Unit {
        Unit(self.0, SizeVariant::Bit)
    }

    pub open spec fn spec_byte(&self) -> Unit {
        Unit(self.0, SizeVariant::Byte)
    }

    /// The multiplier of the prefix, or 1 where there is none.
    pub open spec fn spec_prefix_value(&self) -> nat {
        match self.0 {
            Some(prefix) => prefix.spec_effective_value(),
            None => 1,
        }
    }

    /// The number of bits in one of this unit: the multiplier of the prefix
    /// times the bits of the variant.
    pub open spec fn spec_effective_value(&self) -> nat {
        match self.1 {
            SizeVariant::Bit => self.spec_prefix_value(),
            SizeVariant::Byte => self.spec_prefix_value() * 8,
        }
    }

    /// The mode that picks units of this family and this variant.
    pub open spec fn spec_mode(&self) -> Mode {
        Mode { bits: self.spec_is_bit(), decimal: self.spec_is_decimal(), no_prefix: false }
    }

    /// The short symbol of the prefix, or nothing where there is none.
    pub open spec fn spec_prefix_symbol(&self) -> Seq<char> {
        match self.0 {
            Some(prefix) => prefix.spec_symbol(),
            None => ""@,
        }
    }

    /// The name of the prefix, or nothing where there is none.
    pub open spec fn spec_prefix_symbol_long(&self) -> Seq<char> {
        match self.0 {
            Some(prefix) => prefix.spec_symbol_long(),
            None => ""@,
        }
    }

    /// The initial of the prefix, or nothing where there is none.
    pub open spec fn spec_prefix_symbol_initials(&self) -> Seq<char> {
        match self.0 {
            Some(prefix) => prefix.spec_symbol_initials(),
            None => ""@,
        }
    }

    /// The short symbol: that of the prefix, then the letter of the variant.
    pub open spec fn spec_symbol(&self) -> Seq<char> {
        self.spec_prefix_symbol() + self.1.spec_symbol()
    }

    /// The unit in words: the name of the prefix, then the word for the
    /// variant. The word has its capital where `multi_caps` is set or the unit
    /// has no prefix.
    pub open spec fn spec_symbol_long(&self, plural: bool, multi_caps: bool) -> Seq<char> {
        self.spec_prefix_symbol_long() + self.1.spec_symbol_long(
            plural,
            !self.spec_is_prefixed() || multi_caps,
        )
    }

    /// One letter: the initial of the prefix, or the letter of the variant
    /// where there is no prefix.
    pub open spec fn spec_symbol_condensed(&self) -> Seq<char> {
        match self.0 {
            Some(prefix) => prefix.spec_symbol_initials(),
            None => self.1.spec_symbol(),
        }
    }

    /// The initial of the prefix, then the letter of the variant.
    pub open spec fn spec_symbol_initials(&self) -> Seq<char> {
        self.spec_prefix_symbol_initials() + self.1.spec_symbol()
    }

    /// What the unit is written as under the given directives: under `+` in
    /// words, in the singular under `#`; else under `-` by its initials, or
    /// condensed to one letter under `#`; else by its short symbol.
    pub open spec fn spec_fmt(&self, directive: &Directive) -> Seq<char> {
        if directive.plus {
            self.spec_symbol_long(!directive.alternate, true)
        } else if directive.minus {
            if directive.alternate {
                self.spec_symbol_condensed()
            } else {
                self.spec_symbol_initials()
            }
        } else {
            self.spec_symbol()
        }
    }

    /// What a text reads as. The size variant starts at the last `b` or `B`
    /// of the text, or at its start where there is none; what stands before
    /// it is the prefix, and no prefix where nothing stands there.
    pub open spec fn spec_from_str(s: Seq<char>) -> Result<Unit, ParseError> {
        if s.len() == 0 {
            Err(ParseError { kind: ParseErrorKind::EmptyInput })
        } else {
            let at = spec_variant_start(s);
            match SizeVariant::spec_from_str(s.subrange(at, s.len() as int)) {
                Err(error) => Err(error),
                Ok(size_variant) => if at == 0 {
                    Ok(Unit(None, size_variant))
                } else {
                    match UnitPrefix::spec_from_str(s.subrange(0, at)) {
                        Err(error) => Err(error),
                        Ok(prefix) => Ok(Unit(Some(prefix), size_variant)),
                    }
                },
            }
        }
    }

    /// The smallest unit: the bit.
    #[verifier::when_used_as_spec(spec_min)]
    pub fn MIN() -> (u: Unit)
        ensures
            u == Unit::spec_min(),
    {
        Unit(None, SizeVariant::Bit)
    }

    /// The largest unit: the byte under the largest prefix.
    #[verifier::when_used_as_spec(spec_max)]
    pub fn MAX() -> (u: Unit)
        ensures
            u == Unit::spec_max(),
    {
        Unit(Some(UnitPrefix::MAX), SizeVariant::Byte)
    }

    #[verifier::when_used_as_spec(spec_prefix)]
    pub fn prefix(&self) -> (r: Option<UnitPrefix>)
        ensures
            r == self.0,
    {
        self.0
    }

    #[verifier::when_used_as_spec(spec_size_variant)]
    pub fn size_variant(&self) -> (r: SizeVariant)
        ensures
            r == self.1,
    {
        self.1
    }

    /// The unit of a prefix on a size variant.
    #[verifier::when_used_as_spec(spec_of)]
    pub fn of(prefix: UnitPrefix, size_variant: SizeVariant) -> (u: Unit)
        ensures
            u == Unit(Some(prefix), size_variant),
    {
        Unit(Some(prefix), size_variant)
    }

    /// Whether the unit has a decimal prefix.
    #[verifier::when_used_as_spec(spec_is_decimal)]
    pub fn is_decimal(&self) -> (r: bool)
        ensures
            r == self.spec_is_decimal(),
    {
        if let Some(prefix) = self.0 {
            return prefix.is_decimal();
        }
        false
    }

    /// Whether the unit has a binary prefix.
    #[verifier::when_used_as_spec(spec_is_binary)]
    pub fn is_binary(&self) -> (r: bool)
        ensures
            r == self.spec_is_binary(),
    {
        if let Some(prefix) = self.0 {
            return prefix.is_binary();
        }
        false
    }

    #[verifier::when_used_as_spec(spec_is_prefixed)]
    pub fn is_prefixed(&self) -> (r: bool)
        ensures
            r == self.spec_is_prefixed(),
    {
        self.0.is_some()
    }

    #[verifier::when_used_as_spec(spec_is_bit)]
    pub fn is_bit(&self) -> (r: bool)
        ensures
            r == self.spec_is_bit(),
    {
        self.1.is_bit()
    }

    #[verifier::when_used_as_spec(spec_is_byte)]
    pub fn is_byte(&self) -> (r: bool)
        ensures
            r == self.spec_is_byte(),
    {
        self.1.is_byte()
    }

    /// The step of the unit on the ladder of its variant: 0 without a prefix,
    /// else one more than the step of the prefix.
    #[verifier::when_used_as_spec(spec_index)]
    pub fn index(&self) -> (r: usize)
        ensures
            r == self.spec_index(),
            r <= 8,
    {
        if let Some(prefix) = self.0 {
            return prefix.index() + 1;
        }
        0
    }

    /// The unit with the counterpart of its prefix in the decimal family, on
    /// the same size variant. A unit that has a decimal prefix or none is
    /// returned as it is.
    #[verifier::when_used_as_spec(spec_decimal)]
    pub fn decimal(&self) -> (u: Unit)
        ensures
            u == self.spec_decimal(),
            u.1 == self.1,
            u.spec_index() == self.spec_index(),
            !self.spec_is_binary() ==> u == *self,
            self.spec_is_prefixed() ==> u.spec_is_decimal(),
    {
        Unit(
            match self.0 {
                Some(prefix) => Some(prefix.decimal()),
                None => None,
            },
            self.1,
        )
    }

    /// The unit with the counterpart of its prefix in the binary family, on
    /// the same size variant. A unit that has a binary prefix or none is
    /// returned as it is.
    #[verifier::when_used_as_spec(spec_binary)]
    pub fn binary(&self) -> (u: Unit)
        ensures
            u == self.spec_binary(),
            u.1 == self.1,
            u.spec_index() == self.spec_index(),
            !self.spec_is_decimal() ==> u == *self,
            self.spec_is_prefixed() ==> u.spec_is_binary(),
    {
        Unit(
            match self.0 {
                Some(prefix) => Some(prefix.binary()),
                None => None,
            },
            self.1,
        )
    }

    /// The unit of the same prefix on bits.
    #[verifier::when_used_as_spec(spec_bit)]
    pub fn bit(&self) -> (u: Unit)
        ensures
            u == Unit(self.0, SizeVariant::Bit),
    {
        Unit(self.0, SizeVariant::Bit)
    }

    /// The unit of the same prefix on bytes.
    #[verifier::when_used_as_spec(spec_byte)]
    pub fn byte(&self) -> (u: Unit)
        ensures
            u == Unit(self.0, SizeVariant::Byte),
    {
        Unit(self.0, SizeVariant::Byte)
    }

    /// The number of bits in one of this unit: the multiplier of the prefix
    /// times the bits of the variant. It is at most 2^83.
    pub fn effective_value(&self) -> (r: u128)
        ensures
            r == self.spec_effective_value(),
            1 <= r <= 0x80000_0000_0000_0000_0000,
    {
        proof {
            lemma_multipliers();
        }
        let prefix_value: u128 = match self.0 {
            Some(prefix) => prefix.effective_value(),
            None => 1,
        };
        match self.1 {
            SizeVariant::Bit => prefix_value,
            SizeVariant::Byte => prefix_value * 8,
        }
    }

    /// The mode that picks units of this family and this variant.
    #[verifier::when_used_as_spec(spec_mode)]
    pub fn mode(&self) -> (m: Mode)
        ensures
            m == self.spec_mode(),
    {
        Mode { bits: self.is_bit(), decimal: self.is_decimal(), no_prefix: false }
    }

    /// The short symbol in its two parts: prefix and size variant.
    pub fn symbols(&self) -> (r: (&'static str, &'static str))
        ensures
            r.0@ == self.spec_prefix_symbol(),
            r.1@ == self.1.spec_symbol(),
    {
        (
            match self.0 {
                Some(prefix) => prefix.symbol(),
                None => "",
            },
            self.1.symbol(),
        )
    }

    /// The short symbol: `KiB`, `Mb`, `B`.
    pub fn symbol(&self) -> (r: String)
        ensures
            r@ == self.spec_symbol(),
    {
        let (prefix, size_variant) = self.symbols();
        String::from_str(prefix).concat(size_variant)
    }

    /// The unit in words, in its two parts: prefix and size variant.
    pub fn symbols_long(&self, plural: bool, multi_caps: bool) -> (r: (&'static str, &'static str))
        ensures
            r.0@ == self.spec_prefix_symbol_long(),
            r.1@ == self.1.spec_symbol_long(plural, !self.spec_is_prefixed() || multi_caps),
    {
        (
            match self.0 {
                Some(prefix) => prefix.symbol_long(),
                None => "",
            },
            self.1.symbol_long(plural, !self.is_prefixed() || multi_caps),
        )
    }

    /// The unit in words: `KibiBytes`, `Megabit`, `Byte`. The word for the
    /// size variant is in the plural where `plural` is set, and has its
    /// capital where `multi_caps` is set or the unit has no prefix.
    pub fn symbol_long(&self, plural: bool, multi_caps: bool) -> (r: String)
        ensures
            r@ == self.spec_symbol_long(plural, multi_caps),
    {
        let (prefix, size_variant) = self.symbols_long(plural, multi_caps);
        String::from_str(prefix).concat(size_variant)
    }

    /// One letter: the initial of the prefix, or the letter of the size
    /// variant where there is no prefix.
    pub fn symbol_condensed(&self) -> (r: &'static str)
        ensures
            r@ == self.spec_symbol_condensed(),
    {
        match self.0 {
            Some(prefix) => prefix.symbol_initials(),
            None => self.1.symbol(),
        }
    }

    /// The initials in their two parts: prefix and size variant.
    pub fn symbols_initials(&self) -> (r: (&'static str, &'static str))
        ensures
            r.0@ == self.spec_prefix_symbol_initials(),
            r.1@ == self.1.spec_symbol(),
    {
        (
            match self.0 {
                Some(prefix) => prefix.symbol_initials(),
                None => "",
            },
            self.1.symbol(),
        )
    }

    /// The initials: `KB` for kilobytes and for kibibytes alike.
    pub fn symbol_initials(&self) -> (r: String)
        ensures
            r@ == self.spec_symbol_initials(),
    {
        let (prefix, size_variant) = self.symbols_initials();
        String::from_str(prefix).concat(size_variant)
    }

    /// What the unit is written as under the given directives: under `+` in
    /// words, in the singular under `#`; else under `-` by its initials, or
    /// condensed to one letter under `#`; else by its short symbol.
    pub fn fmt(&self, directive: &Directive) -> (r: String)
        ensures
            r@ == self.spec_fmt(directive),
    {
        if directive.plus {
            self.symbol_long(!directive.alternate, true)
        } else if directive.minus {
            if directive.alternate {
                String::from_str(self.symbol_condensed())
            } else {
                self.symbol_initials()
            }
        } else {
            self.symbol()
        }
    }

    /// The short symbol, as `to_string` gives it.
    pub fn to_string(&self) -> (r: String)
        ensures
            r@ == self.spec_symbol(),
    {
        self.symbol()
    }

    /// Reads a unit from its characters.
    pub(crate) fn from_chars(s: &Vec<char>) -> (r: Result<Unit, ParseError>)
        ensures
            r == Unit::spec_from_str(s@),
    {
        if s.len() == 0 {
            return Err(ParseError { kind: ParseErrorKind::EmptyInput });
        }
        let at = variant_start(s);
        let mut head: Vec<char> = Vec::new();
        let mut tail: Vec<char> = Vec::new();
        let mut i: usize = 0;
        while i < s.len()
            invariant
                at <= s.len(),
                i <= s.len(),
                head@ == s@.subrange(0, if i <= at { i as int } else { at as int }),
                tail@ == s@.subrange(at as int, if i <= at { at as int } else { i as int }),
            decreases s.len() - i,
        {
            if i < at {
                head.push(s[i]);
                assert(head@ =~= s@.subrange(0, i + 1));
            } else {
                tail.push(s[i]);
                assert(tail@ =~= s@.subrange(at as int, i + 1));
            }
            i += 1;
        }
        let size_variant = match SizeVariant::from_chars(&tail) {
            Ok(size_variant) => size_variant,
            Err(error) => {
                return Err(error);
            },
        };
        if at == 0 {
            return Ok(Unit(None, size_variant));
        }
        match UnitPrefix::from_chars(&head) {
            Ok(prefix) => Ok(Unit(Some(prefix), size_variant)),
            Err(error) => Err(error),
        }
    }

    /// Reads a unit. The size variant starts at the last `b` or `B` of the
    /// text, or at its start where there is none, and is read as
    /// [`SizeVariant::from_str`] reads; what stands before it is read as
    /// [`UnitPrefix::from_str`] reads, and a unit without a prefix is meant
    /// where nothing stands there. The empty text gives `EmptyInput`; an
    /// error in the size variant comes before one in the prefix.
    pub fn from_str(s: &str) -> (r: Result<Unit, ParseError>)
        ensures
            r == Unit::spec_from_str(s@),
    {
        let chars = chars_of(s);
        Unit::from_chars(&chars)
    }
}

impl core::str::FromStr for Unit {
    type Err = ParseError;

    fn from_str(s: &str) -> (r: Result<Unit, ParseError>)
        ensures
            r == Unit::spec_from_str(s@),
    {
        Unit::from_str(s)
    }
}

impl From<(UnitPrefix, SizeVariant)> for Unit {
    fn from(parts: (UnitPrefix, SizeVariant)) -> (u: Unit) {
        Unit::of(parts.0, parts.1)
    }
}

impl vstd::std_specs::convert::FromSpecImpl<(UnitPrefix, SizeVariant)> for Unit {
    open spec fn obeys_from_spec() -> bool {
        true
    }

    open spec fn from_spec(parts: (UnitPrefix, SizeVariant)) -> Unit {
        Unit(Some(parts.0), parts.1)
    }
}

impl From<SizeVariant> for Unit {
    fn from(size_variant: SizeVariant) -> (u: Unit) {
        Unit(None, size_variant)
    }
}

impl vstd::std_specs::convert::FromSpecImpl<SizeVariant> for Unit {
    open spec fn obeys_from_spec() -> bool {
        true
    }

    open spec fn from_spec(size_variant: SizeVariant) -> Unit {
        Unit(None, size_variant)
    }
}

impl From<UnitPrefix> for Unit {
    fn from(prefix: UnitPrefix) -> (u: Unit) {
        Unit::of(prefix, SizeVariant::Byte)
    }
}

impl vstd::std_specs::convert::FromSpecImpl<UnitPrefix> for Unit {
    open spec fn obeys_from_spec() -> bool {
        true
    }

    open spec fn from_spec(prefix: UnitPrefix) -> Unit {
        Unit(Some(prefix), SizeVariant::Byte)
    }
}

impl PartialOrd for Unit {
    /// Units are ordered by the number of bits in one of them.
    fn partial_cmp(&self, other: &Unit) -> (r: Option<Ordering>) {
        let mine = self.effective_value();
        let theirs = other.effective_value();
        if mine < theirs {
            Some(Ordering::Less)
        } else if mine > theirs {
            Some(Ordering::Greater)
        } else {
            Some(Ordering::Equal)
        }
    }
}

impl vstd::std_specs::cmp::PartialOrdSpecImpl for Unit {
    open spec fn obeys_partial_cmp_spec() -> bool {
        true
    }

    open spec fn partial_cmp_spec(&self, other: &Unit) -> Option<Ordering> {
        if self.spec_effective_value() < other.spec_effective_value() {
            Some(Ordering::Less)
        } else if self.spec_effective_value() > other.spec_effective_value() {
            Some(Ordering::Greater)
        } else {
            Some(Ordering::Equal)
        }
    }
}

} // verus!
