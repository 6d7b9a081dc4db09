//! Digital storage quantities: bits and bytes with decimal (SI) and binary
//! (IEC) magnitude prefixes, an exact size value, and conversion between that
//! value and its many textual forms.
//!
//! A size is held as an exact count of bits in a `u128`. Magnitudes that are
//! not whole numbers are exact fractions over `u128`; arithmetic that leaves
//! the representable range saturates.

pub mod bytesize;
pub mod decimal;
pub mod directive;
pub mod error;
pub mod flags;
pub mod fraction;
pub mod gcd;
pub mod laws;
pub mod parse;
pub mod prefix;
pub mod repr;
pub mod sizes;
pub mod text;
pub mod unit;

pub use bytesize::ByteSize;
pub use directive::Directive;
pub use error::{ParseError, ParseErrorKind};
pub use flags::{Format, Mode};
pub use fraction::Fraction;
pub use prefix::UnitPrefix;
pub use repr::{ByteSizeRepr, ReprConfig, ReprConfigVariant, ReprFormat};
pub use unit::{SizeVariant, Unit};

use vstd::prelude::*;

verus! {

/// The integer that backs every size and every unit multiplier.
pub type Int = u128;

} // verus!
