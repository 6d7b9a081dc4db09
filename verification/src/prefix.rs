//! The magnitude prefixes: eight decimal steps and eight binary ones.

use crate::directive::Directive;
use crate::error::{ParseError, ParseErrorKind};
use crate::text::{chars_of, lowercase, lowered, spells};
use vstd::arithmetic::power::pow;
use vstd::prelude::*;

verus! {

/// A magnitude prefix. The variants alternate between the two families and
/// rise in magnitude: `Kilo` and `Kibi` are the first step, `Yotta` and `Yobi`
/// the eighth.
#[derive(Clone, Copy, Debug, PartialEq, Eq, Hash, Structural)]
pub enum UnitPrefix {
    Kilo,
    Kibi,
    Mega,
    Mebi,
    Giga,
    Gibi,
    Tera,
    Tebi,
    Peta,
    Pebi,
    Exa,
    Exbi,
    Zetta,
    Zebi,
    Yotta,
    Yobi,
}

impl UnitPrefix {
    /// The decimal prefixes, by rising magnitude.
    pub const DECIMAL: [UnitPrefix; 8] = [
        UnitPrefix::Kilo,
        UnitPrefix::Mega,
        UnitPrefix::Giga,
        UnitPrefix::Tera,
        UnitPrefix::Peta,
        UnitPrefix::Exa,
        UnitPrefix::Zetta,
        UnitPrefix::Yotta,
    ];

    /// The binary prefixes, by rising magnitude.
    pub const BINARY: [UnitPrefix; 8] = [
        UnitPrefix::Kibi,
        UnitPrefix::Mebi,
        UnitPrefix::Gibi,
        UnitPrefix::Tebi,
        UnitPrefix::Pebi,
        UnitPrefix::Exbi,
        UnitPrefix::Zebi,
        UnitPrefix::Yobi,
    ];

    /// Every prefix: the decimal ones, then the binary ones.
    pub const ALL: [UnitPrefix; 16] = [
        UnitPrefix::Kilo,
        UnitPrefix::Mega,
        UnitPrefix::Giga,
        UnitPrefix::Tera,
        UnitPrefix::Peta,
        UnitPrefix::Exa,
        UnitPrefix::Zetta,
        UnitPrefix::Yotta,
        UnitPrefix::Kibi,
        UnitPrefix::Mebi,
        UnitPrefix::Gibi,
        UnitPrefix::Tebi,
        UnitPrefix::Pebi,
        UnitPrefix::Exbi,
        UnitPrefix::Zebi,
        UnitPrefix::Yobi,
    ];

    /// The prefix of the smallest multiplier.
    pub const MIN: UnitPrefix = UnitPrefix::Kilo;

    /// The prefix of the largest multiplier.
    pub const MAX: UnitPrefix = UnitPrefix::Yobi;

    /// Whether the prefix belongs to the decimal family.
    pub open spec fn spec_is_decimal(&self) -> bool {
        match self {
            UnitPrefix::Kilo
            | UnitPrefix::Mega
            | UnitPrefix::Giga
            | UnitPrefix::Tera
            | UnitPrefix::Peta
            | UnitPrefix::Exa
            | UnitPrefix::Zetta
            | UnitPrefix::Yotta => true,
            _ => false,
        }
    }

    /// Whether the prefix belongs to the binary family.
    pub open spec fn spec_is_binary(&self) -> bool {
        !self.spec_is_decimal()
    }

    /// The step of the prefix on the ladder of its family, from 0 to 7.
    pub open spec fn spec_index(&self) -> usize {
        match self {
            UnitPrefix::Kilo | UnitPrefix::Kibi => 0,
            UnitPrefix::Mega | UnitPrefix::Mebi => 1,
            UnitPrefix::Giga | UnitPrefix::Gibi => 2,
            UnitPrefix::Tera | UnitPrefix::Tebi => 3,
            UnitPrefix::Peta | UnitPrefix::Pebi => 4,
            UnitPrefix::Exa | UnitPrefix::Exbi => 5,
            UnitPrefix::Zetta | UnitPrefix::Zebi => 6,
            UnitPrefix::Yotta | UnitPrefix::Yobi => 7,
        }
    }

    /// The prefix of a family at a step of its ladder.
    pub open spec fn spec_at(decimal: bool, index: usize) -> UnitPrefix
        recommends
            index < 8,
    {
        if decimal {
            UnitPrefix::DECIMAL[index as int]
        } else {
            UnitPrefix::BINARY[index as int]
        }
    }

    /// The counterpart of the prefix in the decimal family.
    pub open spec fn spec_decimal(&self) -> UnitPrefix {
        UnitPrefix::spec_at(true, self.spec_index())
    }

    /// The counterpart of the prefix in the binary family.
    pub open spec fn spec_binary(&self) -> UnitPrefix {
        UnitPrefix::spec_at(false, self.spec_index())
    }

    /// The base of the family: 1000 or 1024.
    pub open spec fn spec_base(&self) -> nat {
        if self.spec_is_decimal() {
            1000
        } else {
            1024
        }
    }

    /// The multiplier of the prefix: the base of its family, raised to one
    /// more than its step.
    pub open spec fn spec_effective_value(&self) -> nat {
        pow(self.spec_base() as int, (self.spec_index() + 1) as nat) as nat
    }

    #[verifier::when_used_as_spec(spec_is_decimal)]
    pub fn is_decimal(&self) -> (r: bool)
        ensures
            r == self.spec_is_decimal(),
    {
        match self {
            UnitPrefix::Kilo
            | UnitPrefix::Mega
            | UnitPrefix::Giga
            | UnitPrefix::Tera
            | UnitPrefix::Peta
            | UnitPrefix::Exa
            | UnitPrefix::Zetta
            | UnitPrefix::Yotta => true,
            _ => false,
        }
    }

    #[verifier::when_used_as_spec(spec_is_binary)]
    pub fn is_binary(&self) -> (r: bool)
        ensures
            r == self.spec_is_binary(),
    {
        !self.is_decimal()
    }

    #[verifier::when_used_as_spec(spec_index)]
    pub fn index(&self) -> (r: usize)
        ensures
            r == self.spec_index(),
            r < 8,
    {
        match self {
            UnitPrefix::Kilo | UnitPrefix::Kibi => 0,
            UnitPrefix::Mega | UnitPrefix::Mebi => 1,
            UnitPrefix::Giga | UnitPrefix::Gibi => 2,
            UnitPrefix::Tera | UnitPrefix::Tebi => 3,
            UnitPrefix::Peta | UnitPrefix::Pebi => 4,
            UnitPrefix::Exa | UnitPrefix::Exbi => 5,
            UnitPrefix::Zetta | UnitPrefix::Zebi => 6,
            UnitPrefix::Yotta | UnitPrefix::Yobi => 7,
        }
    }

    /// The counterpart in the decimal family: the decimal prefix at the same
    /// step. A decimal prefix is its own counterpart.
    #[verifier::when_used_as_spec(spec_decimal)]
    pub fn decimal(&self) -> (r: UnitPrefix)
        ensures
            r == self.spec_decimal(),
            r.spec_is_decimal(),
            r.spec_index() == self.spec_index(),
            self.spec_is_decimal() ==> r == *self,
    {
        if self.is_binary() {
            return UnitPrefix::DECIMAL[self.index()];
        }
        *self
    }

    /// The counterpart in the binary family: the binary prefix at the same
    /// step. A binary prefix is its own counterpart.
    #[verifier::when_used_as_spec(spec_binary)]
    pub fn binary(&self) -> (r: UnitPrefix)
        ensures
            r == self.spec_binary(),
            r.spec_is_binary(),
            r.spec_index() == self.spec_index(),
            self.spec_is_binary() ==> r == *self,
    {
        if self.is_decimal() {
            return UnitPrefix::BINARY[self.index()];
        }
        *self
    }

    /// The multiplier of the prefix.
    pub fn effective_value(&self) -> (r: u128)
        ensures
            r == self.spec_effective_value(),
    {
        proof {
            lemma_multipliers();
        }
        match self {
            UnitPrefix::Kibi => 1024,
            UnitPrefix::Kilo => 1000,
            UnitPrefix::Mebi => 1048576,
            UnitPrefix::Mega => 1000000,
            UnitPrefix::Gibi => 1073741824,
            UnitPrefix::Giga => 1000000000,
            UnitPrefix::Tebi => 1099511627776,
            UnitPrefix::Tera => 1000000000000,
            UnitPrefix::Pebi => 1125899906842624,
            UnitPrefix::Peta => 1000000000000000,
            UnitPrefix::Exbi => 1152921504606846976,
            UnitPrefix::Exa => 1000000000000000000,
            UnitPrefix::Zebi => 1180591620717411303424,
            UnitPrefix::Zetta => 1000000000000000000000,
            UnitPrefix::Yobi => 1208925819614629174706176,
            UnitPrefix::Yotta => 1000000000000000000000000,
        }
    }

    /// The short symbol: the initial, and an `i` in the binary family.
    pub open spec fn spec_symbol(&self) -> Seq<char> {
        match self {
            UnitPrefix::Kilo => "K"@,
            UnitPrefix::Kibi => "Ki"@,
            UnitPrefix::Mega => "M"@,
            UnitPrefix::Mebi => "Mi"@,
            UnitPrefix::Giga => "G"@,
            UnitPrefix::Gibi => "Gi"@,
            UnitPrefix::Tera => "T"@,
            UnitPrefix::Tebi => "Ti"@,
            UnitPrefix::Peta => "P"@,
            UnitPrefix::Pebi => "Pi"@,
            UnitPrefix::Exa => "E"@,
            UnitPrefix::Exbi => "Ei"@,
            UnitPrefix::Zetta => "Z"@,
            UnitPrefix::Zebi => "Zi"@,
            UnitPrefix::Yotta => "Y"@,
            UnitPrefix::Yobi => "Yi"@,
        }
    }

    /// The name of the prefix.
    pub open spec fn spec_symbol_long(&self) -> Seq<char> {
        match self {
            UnitPrefix::Kilo => "Kilo"@,
            UnitPrefix::Kibi => "Kibi"@,
            UnitPrefix::Mega => "Mega"@,
            UnitPrefix::Mebi => "Mebi"@,
            UnitPrefix::Giga => "Giga"@,
            UnitPrefix::Gibi => "Gibi"@,
            UnitPrefix::Tera => "Tera"@,
            UnitPrefix::Tebi => "Tebi"@,
            UnitPrefix::Peta => "Peta"@,
            UnitPrefix::Pebi => "Pebi"@,
            UnitPrefix::Exa => "Exa"@,
            UnitPrefix::Exbi => "Exbi"@,
            UnitPrefix::Zetta => "Zetta"@,
            UnitPrefix::Zebi => "Zebi"@,
            UnitPrefix::Yotta => "Yotta"@,
            UnitPrefix::Yobi => "Yobi"@,
        }
    }

    /// The initial of the prefix, the same in both families.
    pub open spec fn spec_symbol_initials(&self) -> Seq<char> {
        match self {
            UnitPrefix::Kilo => "K"@,
            UnitPrefix::Kibi => "K"@,
            UnitPrefix::Mega => "M"@,
            UnitPrefix::Mebi => "M"@,
            UnitPrefix::Giga => "G"@,
            UnitPrefix::Gibi => "G"@,
            UnitPrefix::Tera => "T"@,
            UnitPrefix::Tebi => "T"@,
            UnitPrefix::Peta => "P"@,
            UnitPrefix::Pebi => "P"@,
            UnitPrefix::Exa => "E"@,
            UnitPrefix::Exbi => "E"@,
            UnitPrefix::Zetta => "Z"@,
            UnitPrefix::Zebi => "Z"@,
            UnitPrefix::Yotta => "Y"@,
            UnitPrefix::Yobi => "Y"@,
        }
    }

    /// What the prefix is written as under the given directives: its initial
    /// under `-`, else its name under `+`, else its short symbol.
    pub open spec fn spec_fmt(&self, directive: &Directive) -> Seq<char> {
        if directive.minus {
            self.spec_symbol_initials()
        } else if directive.plus {
            self.spec_symbol_long()
        } else {
            self.spec_symbol()
        }
    }

    /// The short symbol: the initial, and an `i` in the binary family.
    pub fn symbol(&self) -> (r: &'static str)
        ensures
            r@ == self.spec_symbol(),
    {
        match self {
            UnitPrefix::Kilo => "K",
            UnitPrefix::Kibi => "Ki",
            UnitPrefix::Mega => "M",
            UnitPrefix::Mebi => "Mi",
            UnitPrefix::Giga => "G",
            UnitPrefix::Gibi => "Gi",
            UnitPrefix::Tera => "T",
            UnitPrefix::Tebi => "Ti",
            UnitPrefix::Peta => "P",
            UnitPrefix::Pebi => "Pi",
            UnitPrefix::Exa => "E",
            UnitPrefix::Exbi => "Ei",
            UnitPrefix::Zetta => "Z",
            UnitPrefix::Zebi => "Zi",
            UnitPrefix::Yotta => "Y",
            UnitPrefix::Yobi => "Yi",
        }
    }

    /// The name of the prefix.
    pub fn symbol_long(&self) -> (r: &'static str)
        ensures
            r@ == self.spec_symbol_long(),
    {
        match self {
            UnitPrefix::Kilo => "Kilo",
            UnitPrefix::Kibi => "Kibi",
            UnitPrefix::Mega => "Mega",
            UnitPrefix::Mebi => "Mebi",
            UnitPrefix::Giga => "Giga",
            UnitPrefix::Gibi => "Gibi",
            UnitPrefix::Tera => "Tera",
            UnitPrefix::Tebi => "Tebi",
            UnitPrefix::Peta => "Peta",
            UnitPrefix::Pebi => "Pebi",
            UnitPrefix::Exa => "Exa",
            UnitPrefix::Exbi => "Exbi",
            UnitPrefix::Zetta => "Zetta",
            UnitPrefix::Zebi => "Zebi",
            UnitPrefix::Yotta => "Yotta",
            UnitPrefix::Yobi => "Yobi",
        }
    }

    /// The initial of the prefix, the same in both families.
    pub fn symbol_initials(&self) -> (r: &'static str)
        ensures
            r@ == self.spec_symbol_initials(),
    {
        match self {
            UnitPrefix::Kilo => "K",
            UnitPrefix::Kibi => "K",
            UnitPrefix::Mega => "M",
            UnitPrefix::Mebi => "M",
            UnitPrefix::Giga => "G",
            UnitPrefix::Gibi => "G",
            UnitPrefix::Tera => "T",
            UnitPrefix::Tebi => "T",
            UnitPrefix::Peta => "P",
            UnitPrefix::Pebi => "P",
            UnitPrefix::Exa => "E",
            UnitPrefix::Exbi => "E",
            UnitPrefix::Zetta => "Z",
            UnitPrefix::Zebi => "Z",
            UnitPrefix::Yotta => "Y",
            UnitPrefix::Yobi => "Y",
        }
    }

    /// What the prefix is written as under the given directives: its initial
    /// under `-`, else its name under `+`, else its short symbol.
    pub fn fmt(&self, directive: &Directive) -> (r: &'static str)
        ensures
            r@ == self.spec_fmt(directive),
    {
        if directive.minus {
            self.symbol_initials()
        } else if directive.plus {
            self.symbol_long()
        } else {
            self.symbol()
        }
    }

    /// The prefix that a short symbol stands for. The symbols are taken as
    /// they are written, and `k` is taken for `K`.
    pub open spec fn spec_from_short(s: Seq<char>) -> Option<UnitPrefix> {
        if s == "k"@ || s == "K"@ {
            Some(UnitPrefix::Kilo)
        } else if s == "Ki"@ {
            Some(UnitPrefix::Kibi)
        } else if s == "M"@ {
            Some(UnitPrefix::Mega)
        } else if s == "Mi"@ {
            Some(UnitPrefix::Mebi)
        } else if s == "G"@ {
            Some(UnitPrefix::Giga)
        } else if s == "Gi"@ {
            Some(UnitPrefix::Gibi)
        } else if s == "T"@ {
            Some(UnitPrefix::Tera)
        } else if s == "Ti"@ {
            Some(UnitPrefix::Tebi)
        } else if s == "P"@ {
            Some(UnitPrefix::Peta)
        } else if s == "Pi"@ {
            Some(UnitPrefix::Pebi)
        } else if s == "E"@ {
            Some(UnitPrefix::Exa)
        } else if s == "Ei"@ {
            Some(UnitPrefix::Exbi)
        } else if s == "Z"@ {
            Some(UnitPrefix::Zetta)
        } else if s == "Zi"@ {
            Some(UnitPrefix::Zebi)
        } else if s == "Y"@ {
            Some(UnitPrefix::Yotta)
        } else if s == "Yi"@ {
            Some(UnitPrefix::Yobi)
        } else {
            None
        }
    }

    /// Whether the text is a short symbol put in lower case, other than `k`.
    pub open spec fn spec_is_lower_short(s: Seq<char>) -> bool {
        s == "ki"@
        || s == "m"@
        || s == "mi"@
        || s == "g"@
        || s == "gi"@
        || s == "t"@
        || s == "ti"@
        || s == "p"@
        || s == "pi"@
        || s == "e"@
        || s == "ei"@
        || s == "z"@
        || s == "zi"@
        || s == "y"@
        || s == "yi"@
    }

    /// The prefix that a name in lower case stands for.
    pub open spec fn spec_from_long(s: Seq<char>) -> Option<UnitPrefix> {
        if s == "kilo"@ {
            Some(UnitPrefix::Kilo)
        } else if s == "kibi"@ {
            Some(UnitPrefix::Kibi)
        } else if s == "mega"@ {
            Some(UnitPrefix::Mega)
        } else if s == "mebi"@ {
            Some(UnitPrefix::Mebi)
        } else if s == "giga"@ {
            Some(UnitPrefix::Giga)
        } else if s == "gibi"@ {
            Some(UnitPrefix::Gibi)
        } else if s == "tera"@ {
            Some(UnitPrefix::Tera)
        } else if s == "tebi"@ {
            Some(UnitPrefix::Tebi)
        } else if s == "peta"@ {
            Some(UnitPrefix::Peta)
        } else if s == "pebi"@ {
            Some(UnitPrefix::Pebi)
        } else if s == "exa"@ {
            Some(UnitPrefix::Exa)
        } else if s == "exbi"@ {
            Some(UnitPrefix::Exbi)
        } else if s == "zetta"@ {
            Some(UnitPrefix::Zetta)
        } else if s == "zebi"@ {
            Some(UnitPrefix::Zebi)
        } else if s == "yotta"@ {
            Some(UnitPrefix::Yotta)
        } else if s == "yobi"@ {
            Some(UnitPrefix::Yobi)
        } else {
            None
        }
    }

    /// What a text reads as: a short symbol as it is written; `k` for `K`; no
    /// other short symbol in lower case; a name in any case.
    pub open spec fn spec_from_str(s: Seq<char>) -> Result<UnitPrefix, ParseError> {
        if s.len() == 0 {
            Err(ParseError { kind: ParseErrorKind::EmptyInput })
        } else if UnitPrefix::spec_from_short(s) is Some {
            Ok(UnitPrefix::spec_from_short(s)->0)
        } else if UnitPrefix::spec_is_lower_short(s) {
            Err(ParseError { kind: ParseErrorKind::InvalidPrefixCaseFormat })
        } else if UnitPrefix::spec_from_long(lowercase(s)) is Some {
            Ok(UnitPrefix::spec_from_long(lowercase(s))->0)
        } else {
            Err(ParseError { kind: ParseErrorKind::InvalidPrefix })
        }
    }

    /// The prefix that a short symbol stands for.
    pub(crate) fn from_short(s: &Vec<char>) -> (r: Option<UnitPrefix>)
        ensures
            r == UnitPrefix::spec_from_short(s@),
    {
        if spells(s, "k") || spells(s, "K") {
            Some(UnitPrefix::Kilo)
        } else if spells(s, "Ki") {
            Some(UnitPrefix::Kibi)
        } else if spells(s, "M") {
            Some(UnitPrefix::Mega)
        } else if spells(s, "Mi") {
            Some(UnitPrefix::Mebi)
        } else if spells(s, "G") {
            Some(UnitPrefix::Giga)
        } else if spells(s, "Gi") {
            Some(UnitPrefix::Gibi)
        } else if spells(s, "T") {
            Some(UnitPrefix::Tera)
        } else if spells(s, "Ti") {
            Some(UnitPrefix::Tebi)
        } else if spells(s, "P") {
            Some(UnitPrefix::Peta)
        } else if spells(s, "Pi") {
            Some(UnitPrefix::Pebi)
        } else if spells(s, "E") {
            Some(UnitPrefix::Exa)
        } else if spells(s, "Ei") {
            Some(UnitPrefix::Exbi)
        } else if spells(s, "Z") {
            Some(UnitPrefix::Zetta)
        } else if spells(s, "Zi") {
            Some(UnitPrefix::Zebi)
        } else if spells(s, "Y") {
            Some(UnitPrefix::Yotta)
        } else if spells(s, "Yi") {
            Some(UnitPrefix::Yobi)
        } else {
            None
        }
    }

    /// Whether the text is a short symbol put in lower case, other than `k`.
    pub(crate) fn is_lower_short(s: &Vec<char>) -> (r: bool)
        ensures
            r == UnitPrefix::spec_is_lower_short(s@),
    {
        spells(s, "ki")
        || spells(s, "m")
        || spells(s, "mi")
        || spells(s, "g")
        || spells(s, "gi")
        || spells(s, "t")
        || spells(s, "ti")
        || spells(s, "p")
        || spells(s, "pi")
        || spells(s, "e")
        || spells(s, "ei")
        || spells(s, "z")
        || spells(s, "zi")
        || spells(s, "y")
        || spells(s, "yi")
    }

    /// The prefix that a name in lower case stands for.
    pub(crate) fn from_long(s: &Vec<char>) -> (r: Option<UnitPrefix>)
        ensures
            r == UnitPrefix::spec_from_long(s@),
    {
        if spells(s, "kilo") {
            Some(UnitPrefix::Kilo)
        } else if spells(s, "kibi") {
            Some(UnitPrefix::Kibi)
        } else if spells(s, "mega") {
            Some(UnitPrefix::Mega)
        } else if spells(s, "mebi") {
            Some(UnitPrefix::Mebi)
        } else if spells(s, "giga") {
            Some(UnitPrefix::Giga)
        } else if spells(s, "gibi") {
            Some(UnitPrefix::Gibi)
        } else if spells(s, "tera") {
            Some(UnitPrefix::Tera)
        } else if spells(s, "tebi") {
            Some(UnitPrefix::Tebi)
        } else if spells(s, "peta") {
            Some(UnitPrefix::Peta)
        } else if spells(s, "pebi") {
            Some(UnitPrefix::Pebi)
        } else if spells(s, "exa") {
            Some(UnitPrefix::Exa)
        } else if spells(s, "exbi") {
            Some(UnitPrefix::Exbi)
        } else if spells(s, "zetta") {
            Some(UnitPrefix::Zetta)
        } else if spells(s, "zebi") {
            Some(UnitPrefix::Zebi)
        } else if spells(s, "yotta") {
            Some(UnitPrefix::Yotta)
        } else if spells(s, "yobi") {
            Some(UnitPrefix::Yobi)
        } else {
            None
        }
    }

    /// Reads a prefix from its characters.
    pub(crate) fn from_chars(s: &Vec<char>) -> (r: Result<UnitPrefix, ParseError>)
        ensures
            r == UnitPrefix::spec_from_str(s@),
    {
        if s.len() == 0 {
            return Err(ParseError { kind: ParseErrorKind::EmptyInput });
        }
        if let Some(prefix) = UnitPrefix::from_short(s) {
            return Ok(prefix);
        }
        if UnitPrefix::is_lower_short(s) {
            return Err(ParseError { kind: ParseErrorKind::InvalidPrefixCaseFormat });
        }
        let lower = lowered(s);
        match UnitPrefix::from_long(&lower) {
            Some(prefix) => Ok(prefix),
            None => Err(ParseError { kind: ParseErrorKind::InvalidPrefix }),
        }
    }

    /// Reads a prefix. The short symbols are read as they are written: `K`,
    /// `Ki`, `M`, `Mi` and so on. In lower case only `k` is read, as `Kilo`;
    /// any other short symbol in lower case is refused with
    /// `InvalidPrefixCaseFormat`. The names are read in any case: `mega`,
    /// `Mega`, `MEGA`. The empty text gives `EmptyInput`, any other text
    /// `InvalidPrefix`.
    pub fn from_str(s: &str) -> (r: Result<UnitPrefix, ParseError>)
        ensures
            r == UnitPrefix::spec_from_str(s@),
    {
        let chars = chars_of(s);
        UnitPrefix::from_chars(&chars)
    }
}

impl core::str::FromStr for UnitPrefix {
    type Err = ParseError;

    fn from_str(s: &str) -> (r: Result<UnitPrefix, ParseError>)
        ensures
            r == UnitPrefix::spec_from_str(s@),
    {
        UnitPrefix::from_str(s)
    }
}

/// The multipliers of the two families, written out.
pub proof fn lemma_multipliers()
    ensures
        pow(1000, 1) == 1000,
        pow(1000, 2) == 1000000,
        pow(1000, 3) == 1000000000,
        pow(1000, 4) == 1000000000000,
        pow(1000, 5) == 1000000000000000,
        pow(1000, 6) == 1000000000000000000,
        pow(1000, 7) == 1000000000000000000000,
        pow(1000, 8) == 1000000000000000000000000,
        pow(1024, 1) == 1024,
        pow(1024, 2) == 1048576,
        pow(1024, 3) == 1073741824,
        pow(1024, 4) == 1099511627776,
        pow(1024, 5) == 1125899906842624,
        pow(1024, 6) == 1152921504606846976,
        pow(1024, 7) == 1180591620717411303424,
        pow(1024, 8) == 1208925819614629174706176,
{
    reveal_with_fuel(pow, 9);
}

} // verus!
