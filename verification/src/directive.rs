//! The style directives that a single rendering may carry.

use vstd::prelude::*;

verus! {

/// The directives of one rendering. They stand for what a format string may
/// say: `+` asks for the long form, `-` for a short one, `#` for the alternate
/// form of whichever was asked, and `.N` for `N` decimal places. Whatever a
/// directive settles, it settles against the stored configuration.
#[derive(Clone, Copy, Debug, PartialEq, Eq, Structural)]
pub struct Directive {
    /// `+`: the long form.
    pub plus: bool,
    /// `-`: a short form.
    pub minus: bool,
    /// `#`: the alternate form.
    pub alternate: bool,
    /// `.N`: the number of decimal places.
    pub precision: Option<usize>,
}

impl Directive {
    /// No directive at all: the stored configuration decides everything.
    pub open spec fn spec_none() -> Directive {
        Directive { plus: false, minus: false, alternate: false, precision: None }
    }

    /// No directive at all.
    #[verifier::when_used_as_spec(spec_none)]
    pub fn none() -> (d: Directive)
        ensures
            d == Directive::spec_none(),
    {
        Directive { plus: false, minus: false, alternate: false, precision: None }
    }

    /// The directive `+`.
    pub fn long() -> (d: Directive)
        ensures
            d == (Directive { plus: true, ..Directive::spec_none() }),
    {
        Directive { plus: true, minus: false, alternate: false, precision: None }
    }

    /// The directive `-`.
    pub fn short() -> (d: Directive)
        ensures
            d == (Directive { minus: true, ..Directive::spec_none() }),
    {
        Directive { plus: false, minus: true, alternate: false, precision: None }
    }

    /// This directive with `#` added.
    pub fn alt(self) -> (d: Directive)
        ensures
            d == (Directive { alternate: true, ..self }),
    {
        Directive { alternate: true, ..self }
    }

    /// This directive with `.N` added, for `N = places`.
    pub fn places(self, places: usize) -> (d: Directive)
        ensures
            d == (Directive { precision: Some(places), ..self }),
    {
        Directive { precision: Some(places), ..self }
    }
}

} // verus!
