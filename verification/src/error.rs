//! The errors that reading a text can end in.

use vstd::prelude::*;

verus! {

/// Why a text could not be read as a size, as a unit, or as a part of a unit.
#[derive(Clone, Copy, Debug, PartialEq, Eq, Structural)]
pub enum ParseErrorKind {
    /// The text is empty.
    EmptyInput,
    /// A number stands alone, with no unit behind it.
    MissingUnit,
    /// The text before the unit is not a decimal number.
    InvalidValue,
    /// The text starts with the unit, with no number before it.
    MissingValue,
    /// The text before the size variant names no prefix.
    InvalidPrefix,
    /// The number is well formed, but lies outside what a size can hold exactly.
    ValueOverflow,
    /// The text names neither bits nor bytes.
    InvalidSizeVariant,
    /// The grouping of the digits is malformed. The readers of this library
    /// take any commas before the point for grouping and never return this.
    InvalidThousandsFormat,
    /// The unit is spelled in a case that is not accepted. The readers of
    /// this library report the prefix instead, as `InvalidPrefixCaseFormat`,
    /// and never return this.
    InvalidUnitCaseFormat,
    /// The prefix is a short form in lower case other than `k`.
    InvalidPrefixCaseFormat,
}

/// An error from reading a text, carrying its [`ParseErrorKind`].
#[derive(Clone, Copy, Debug, PartialEq, Eq, Structural)]
pub struct ParseError {
    pub kind: ParseErrorKind,
}

impl ParseErrorKind {
    /// The message of this kind of error, as a sequence of characters.
    pub open spec fn spec_message(&self) -> Seq<char> {
        match self {
            ParseErrorKind::EmptyInput => "empty input"@,
            ParseErrorKind::MissingUnit => "missing unit"@,
            ParseErrorKind::InvalidValue => "invalid value"@,
            ParseErrorKind::MissingValue => "missing value"@,
            ParseErrorKind::InvalidPrefix => "invalid prefix"@,
            ParseErrorKind::ValueOverflow => "value overflow"@,
            ParseErrorKind::InvalidSizeVariant => "invalid size variant"@,
            ParseErrorKind::InvalidThousandsFormat => "invalid thousands format"@,
            ParseErrorKind::InvalidUnitCaseFormat =>
                "invalid case: expected format like 'kB', 'Kb', 'KiB', 'Mb', 'MiB'"@,
            ParseErrorKind::InvalidPrefixCaseFormat =>
                "invalid case: expected format like 'k', 'K', 'Ki', 'M', 'Mi'"@,
        }
    }

    /// The message of this kind of error.
    pub fn message(&self) -> (text: &'static str)
        ensures
            text@ == self.spec_message(),
    {
        match self {
            ParseErrorKind::EmptyInput => "empty input",
            ParseErrorKind::MissingUnit => "missing unit",
            ParseErrorKind::InvalidValue => "invalid value",
            ParseErrorKind::MissingValue => "missing value",
            ParseErrorKind::InvalidPrefix => "invalid prefix",
            ParseErrorKind::ValueOverflow => "value overflow",
            ParseErrorKind::InvalidSizeVariant => "invalid size variant",
            ParseErrorKind::InvalidThousandsFormat => "invalid thousands format",
            ParseErrorKind::InvalidUnitCaseFormat =>
                "invalid case: expected format like 'kB', 'Kb', 'KiB', 'Mb', 'MiB'",
            ParseErrorKind::InvalidPrefixCaseFormat =>
                "invalid case: expected format like 'k', 'K', 'Ki', 'M', 'Mi'",
        }
    }

    /// The message of this kind of error, as an owned string.
    pub fn to_string(&self) -> (text: String)
        ensures
            text@ == self.spec_message(),
    {
        String::from_str(self.message())
    }
}

impl ParseError {
    /// An error of the given kind.
    pub fn new(kind: ParseErrorKind) -> (error: ParseError)
        ensures
            error.kind == kind,
    {
        ParseError { kind }
    }

    /// The kind of this error.
    pub fn kind(&self) -> (kind: &ParseErrorKind)
        ensures
            *kind == self.kind,
    {
        &self.kind
    }

    /// The message of this error: that of its kind.
    pub fn to_string(&self) -> (text: String)
        ensures
            text@ == self.kind.spec_message(),
    {
        self.kind.to_string()
    }
}

} // verus!
