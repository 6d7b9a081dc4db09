//! A size as it is shown: a number, a unit and a style, and the text they
//! make.

use crate::decimal::{digits, padded_digits, pow10, push_digits, round_decimal, rounded_scaled};
use crate::directive::Directive;
use crate::flags::Format;
use crate::fraction::Fraction;
use crate::text::{
    ascii_lowercase, ascii_uppercase, chars_of, push_all, push_lower, push_spaces, push_upper,
    spaces, spells, string_of,
};
use crate::unit::Unit;
use core::cmp::Ordering;
use vstd::prelude::*;
use vstd::string::*;

verus! {

/// The stored style of a rendering.
#[derive(Clone, Copy, Debug, Eq)]
pub struct ReprFormat {
    /// The options that are set.
    pub flags: Format,
    /// The number of spaces between the number and the unit.
    pub n_spaces: usize,
    /// The number of digits behind the point, where there is a point.
    pub precision: usize,
    /// What stands between the groups of three digits, where they are
    /// grouped.
    pub thousands_separator: &'static str,
}

/// Something that changes a stored style.
pub trait ReprConfig {
    /// The style that results from applying this to `r_fmt`.
    spec fn spec_apply(&self, r_fmt: &ReprFormat) -> ReprFormat;

    /// Applies this to `r_fmt`.
    fn apply(&self, r_fmt: &ReprFormat) -> (r: ReprFormat)
        ensures
            r == self.spec_apply(r_fmt),
    ;
}

/// A change to one of the three settings of a style that are not options.
#[derive(Clone, Copy, Debug, Eq)]
pub enum ReprConfigVariant {
    /// Sets what stands between the groups of three digits.
    ThousandsSeparator(&'static str),
    /// Sets the number of digits behind the point.
    Precision(usize),
    /// Sets the number of spaces between the number and the unit.
    Spaces(usize),
}

/// Whether two texts are the same, character by character.
pub(crate) fn same_text(a: &str, b: &str) -> (r: bool)
    ensures
        r == (a@ == b@),
{
    let chars = chars_of(a);
    spells(&chars, b)
}

impl PartialEq for ReprFormat {
    /// Styles are equal where their options, their numbers and the texts of
    /// their separators are.
    fn eq(&self, other: &ReprFormat) -> (r: bool) {
        self.flags == other.flags && self.n_spaces == other.n_spaces && self.precision
            == other.precision && same_text(self.thousands_separator, other.thousands_separator)
    }
}

impl vstd::std_specs::cmp::PartialEqSpecImpl for ReprFormat {
    open spec fn obeys_eq_spec() -> bool {
        true
    }

    open spec fn eq_spec(&self, other: &ReprFormat) -> bool {
        self.same_style(other)
    }
}

impl PartialEq for ReprConfigVariant {
    /// Changes are equal where they set the same setting to the same value.
    fn eq(&self, other: &ReprConfigVariant) -> (r: bool) {
        match (self, other) {
            (
                ReprConfigVariant::ThousandsSeparator(mine),
                ReprConfigVariant::ThousandsSeparator(theirs),
            ) => same_text(mine, theirs),
            (ReprConfigVariant::Precision(mine), ReprConfigVariant::Precision(theirs)) => *mine
                == *theirs,
            (ReprConfigVariant::Spaces(mine), ReprConfigVariant::Spaces(theirs)) => *mine
                == *theirs,
            _ => false,
        }
    }
}

impl vstd::std_specs::cmp::PartialEqSpecImpl for ReprConfigVariant {
    open spec fn obeys_eq_spec() -> bool {
        true
    }

    open spec fn eq_spec(&self, other: &ReprConfigVariant) -> bool {
        match (self, other) {
            (
                ReprConfigVariant::ThousandsSeparator(mine),
                ReprConfigVariant::ThousandsSeparator(theirs),
            ) => mine@ == theirs@,
            (ReprConfigVariant::Precision(mine), ReprConfigVariant::Precision(theirs)) => mine
                == theirs,
            (ReprConfigVariant::Spaces(mine), ReprConfigVariant::Spaces(theirs)) => mine
                == theirs,
            _ => false,
        }
    }
}

impl ReprFormat {
    /// Whether two styles are the same: in their options, in their numbers
    /// and in the texts of their separators.
    pub open spec fn same_style(&self, other: &ReprFormat) -> bool {
        &&& self.flags == other.flags
        &&& self.n_spaces == other.n_spaces
        &&& self.precision == other.precision
        &&& self.thousands_separator@ == other.thousands_separator@
    }

    /// The default style: no option set, one space, two digits behind the
    /// point, and a comma between groups.
    pub open spec fn spec_default() -> ReprFormat {
        ReprFormat {
            flags: Format::spec_empty(),
            n_spaces: 1,
            precision: 2,
            thousands_separator: ",",
        }
    }

    /// The default style: no option set, one space, two digits behind the
    /// point, and a comma between groups.
    #[verifier::when_used_as_spec(spec_default)]
    pub fn default() -> (r: ReprFormat)
        ensures
            r == ReprFormat::spec_default(),
    {
        ReprFormat { flags: Format::empty(), n_spaces: 1, precision: 2, thousands_separator: "," }
    }

    /// This style with a change applied to it.
    pub fn with<C: ReprConfig>(&self, conf: C) -> (r: ReprFormat)
        ensures
            r == conf.spec_apply(self),
    {
        conf.apply(self)
    }
}

impl Default for ReprFormat {
    fn default() -> (r: ReprFormat)
        ensures
            r == ReprFormat::spec_default(),
    {
        ReprFormat::default()
    }
}

impl<T: ReprConfig> ReprConfig for &T {
    open spec fn spec_apply(&self, r_fmt: &ReprFormat) -> ReprFormat {
        (*self).spec_apply(r_fmt)
    }

    fn apply(&self, r_fmt: &ReprFormat) -> (r: ReprFormat) {
        (*self).apply(r_fmt)
    }
}

impl ReprConfig for Format {
    /// The options are added to those of the style.
    open spec fn spec_apply(&self, r_fmt: &ReprFormat) -> ReprFormat {
        ReprFormat { flags: r_fmt.flags.spec_union(*self), ..*r_fmt }
    }

    fn apply(&self, r_fmt: &ReprFormat) -> (r: ReprFormat) {
        ReprFormat { flags: r_fmt.flags.union(*self), ..*r_fmt }
    }
}

impl ReprConfig for ReprConfigVariant {
    /// The one setting is replaced.
    open spec fn spec_apply(&self, r_fmt: &ReprFormat) -> ReprFormat {
        match *self {
            ReprConfigVariant::ThousandsSeparator(sep) => ReprFormat {
                thousands_separator: sep,
                ..*r_fmt
            },
            ReprConfigVariant::Precision(precision) => ReprFormat { precision, ..*r_fmt },
            ReprConfigVariant::Spaces(n_spaces) => ReprFormat { n_spaces, ..*r_fmt },
        }
    }

    fn apply(&self, r_fmt: &ReprFormat) -> (r: ReprFormat) {
        let mut new = *r_fmt;
        match *self {
            ReprConfigVariant::ThousandsSeparator(sep) => new.thousands_separator = sep,
            ReprConfigVariant::Precision(precision) => new.precision = precision,
            ReprConfigVariant::Spaces(n_spaces) => new.n_spaces = n_spaces,
        }
        new
    }
}

impl ReprConfig for ReprFormat {
    /// The three settings of this style replace those of `r_fmt`, and the
    /// options of both are joined.
    open spec fn spec_apply(&self, r_fmt: &ReprFormat) -> ReprFormat {
        ReprFormat { flags: self.flags.spec_union(r_fmt.flags), ..*self }
    }

    fn apply(&self, r_fmt: &ReprFormat) -> (r: ReprFormat) {
        r_fmt.flags.apply(self)
    }
}

/// The digits of a whole number in groups for the eye: from the right in
/// groups of three, with what is left over, one digit or two, as a shorter
/// group in front.
pub open spec fn spec_thsep(digits: Seq<char>) -> Seq<Seq<char>>
    decreases digits.len(),
{
    if digits.len() == 0 {
        Seq::<Seq<char>>::empty()
    } else if digits.len() <= 3 {
        seq![digits]
    } else {
        spec_thsep(digits.subrange(0, digits.len() - 3)).push(
            digits.subrange(digits.len() - 3, digits.len() as int),
        )
    }
}

/// The groups put together again, with a separator between each two.
pub open spec fn spec_join(groups: Seq<Seq<char>>, separator: Seq<char>) -> Seq<char>
    decreases groups.len(),
{
    if groups.len() == 0 {
        Seq::<char>::empty()
    } else if groups.len() == 1 {
        groups[0]
    } else {
        spec_join(groups.drop_last(), separator) + separator + groups.last()
    }
}

/// The texts that a sequence of character vectors holds.
pub open spec fn views(groups: Seq<Vec<char>>) -> Seq<Seq<char>> {
    groups.map_values(|group: Vec<char>| group@)
}

/// The texts that a sequence of strings holds.
pub open spec fn texts(groups: Seq<String>) -> Seq<Seq<char>> {
    groups.map_values(|group: String| group@)
}

/// What `spec_thsep` gives: groups that make up the digits again, all of
/// three digits but the first, which has one, two or three.
pub proof fn lemma_thsep(digits: Seq<char>)
    ensures
        spec_join(spec_thsep(digits), Seq::<char>::empty()) == digits,
        spec_thsep(digits).len() == (digits.len() + 2) / 3,
        forall|i: int|
            0 < i < spec_thsep(digits).len() ==> (#[trigger] spec_thsep(digits)[i]).len() == 3,
        digits.len() > 0 ==> 1 <= spec_thsep(digits)[0].len() <= 3,
    decreases digits.len(),
{
    let groups = spec_thsep(digits);
    if digits.len() == 0 {
    } else if digits.len() <= 3 {
    } else {
        let head = digits.subrange(0, digits.len() - 3);
        let last = digits.subrange(digits.len() - 3, digits.len() as int);
        lemma_thsep(head);
        assert(groups.drop_last() =~= spec_thsep(head));
        assert(head + Seq::<char>::empty() + last =~= digits);
        assert forall|i: int| 0 < i < groups.len() implies (#[trigger] groups[i]).len() == 3 by {
            if i < groups.len() - 1 {
                assert(groups[i] == spec_thsep(head)[i]);
            }
        }
        assert(groups[0] == spec_thsep(head)[0]);
    }
}

/// The digits of a whole number in groups of three from the right.
pub(crate) fn group_digits(digits: &Vec<char>) -> (groups: Vec<Vec<char>>)
    ensures
        views(groups@) == spec_thsep(digits@),
{
    let len = digits.len();
    let tip = len % 3;
    let mut groups: Vec<Vec<char>> = Vec::new();
    let mut at: usize = 0;
    if tip != 0 {
        let mut first: Vec<char> = Vec::new();
        while at < tip
            invariant
                at <= tip,
                tip <= len,
                len == digits.len(),
                first@ == digits@.subrange(0, at as int),
            decreases tip - at,
        {
            first.push(digits[at]);
            at += 1;
            assert(first@ =~= digits@.subrange(0, at as int));
        }
        groups.push(first);
        assert(views(groups@) =~= spec_thsep(digits@.subrange(0, at as int)));
    } else {
        assert(views(groups@) =~= spec_thsep(digits@.subrange(0, at as int)));
    }
    while at < len
        invariant
            at <= len,
            len == digits.len(),
            (len - at) % 3 == 0,
            views(groups@) == spec_thsep(digits@.subrange(0, at as int)),
        decreases len - at,
    {
        let mut group: Vec<char> = Vec::new();
        group.push(digits[at]);
        group.push(digits[at + 1]);
        group.push(digits[at + 2]);
        let ghost before = views(groups@);
        groups.push(group);
        proof {
            let head = digits@.subrange(0, at as int);
            let grown = digits@.subrange(0, at + 3);
            assert(group@ =~= grown.subrange(grown.len() - 3, grown.len() as int));
            assert(grown.subrange(0, grown.len() - 3) =~= head);
            if at == 0 {
                assert(group@ =~= grown);
            }
            assert(views(groups@) =~= before.push(group@));
        }
        at += 3;
    }
    assert(digits@.subrange(0, at as int) =~= digits@);
    groups
}

/// The digits of a whole number in groups for the eye: from the right in
/// groups of three, with what is left over, one digit or two, as a shorter
/// group in front. `1234567` gives `1`, `234`, `567`; the empty text gives
/// no group.
pub fn thsep(digits: &str) -> (groups: Vec<String>)
    ensures
        texts(groups@) == spec_thsep(digits@),
        spec_join(texts(groups@), Seq::<char>::empty()) == digits@,
        groups@.len() == (digits@.len() + 2) / 3,
        forall|i: int| 0 < i < groups@.len() ==> (#[trigger] groups@[i])@.len() == 3,
        digits@.len() > 0 ==> 1 <= groups@[0]@.len() <= 3,
{
    proof {
        lemma_thsep(digits@);
    }
    let chars = chars_of(digits);
    let parts = group_digits(&chars);
    let mut groups: Vec<String> = Vec::new();
    let mut i: usize = 0;
    while i < parts.len()
        invariant
            i <= parts.len(),
            texts(groups@) == views(parts@).subrange(0, i as int),
        decreases parts.len() - i,
    {
        let ghost before = texts(groups@);
        let group = string_of(&parts[i]);
        groups.push(group);
        i += 1;
        assert(texts(groups@) =~= before.push(group@));
        assert(texts(groups@) =~= views(parts@).subrange(0, i as int));
    }
    assert(views(parts@).subrange(0, i as int) =~= views(parts@));
    proof {
        assert forall|k: int| 0 < k < groups@.len() implies (#[trigger] groups@[k])@.len()
            == 3 by {
            assert(texts(groups@)[k] == groups@[k]@);
            assert(spec_thsep(digits@)[k].len() == 3);
        }
        if digits@.len() > 0 {
            assert(texts(groups@)[0] == groups@[0]@);
        }
    }
    groups
}

/// Appends the groups with a separator between each two.
pub(crate) fn push_joined(out: &mut Vec<char>, groups: &Vec<Vec<char>>, separator: &Vec<char>)
    ensures
        final(out)@ == old(out)@ + spec_join(views(groups@), separator@),
{
    let mut i: usize = 0;
    proof {
        assert(views(groups@).subrange(0, 0) =~= Seq::<Seq<char>>::empty());
        assert(old(out)@ + Seq::<char>::empty() =~= old(out)@);
    }
    while i < groups.len()
        invariant
            i <= groups.len(),
            out@ == old(out)@ + spec_join(views(groups@).subrange(0, i as int), separator@),
        decreases groups.len() - i,
    {
        let ghost done = spec_join(views(groups@).subrange(0, i as int), separator@);
        if i > 0 {
            push_all(out, separator);
        }
        push_all(out, &groups[i]);
        i += 1;
        proof {
            let now = views(groups@).subrange(0, i as int);
            assert(now.drop_last() =~= views(groups@).subrange(0, i - 1));
            assert(now.last() == groups@[i - 1]@);
            if i == 1 {
                assert(done =~= Seq::<char>::empty());
                assert(out@ =~= old(out)@ + spec_join(now, separator@));
            } else {
                assert(out@ =~= old(out)@ + (done + separator@ + groups@[i - 1]@));
            }
        }
    }
    assert(views(groups@).subrange(0, i as int) =~= views(groups@));
}

/// A magnitude in a unit, with the style to show it in.
#[derive(Clone, Copy, Debug, Eq)]
pub struct ByteSizeRepr(pub Fraction, pub Unit, pub ReprFormat);

impl ByteSizeRepr {
    /// The magnitude in the unit, in the default style.
    pub open spec fn spec_of(value: Fraction, unit: Unit) -> ByteSizeRepr {
        ByteSizeRepr(value, unit, ReprFormat::spec_default())
    }

    /// The number of digits behind the point: what the directive says, else
    /// what the style says.
    pub open spec fn spec_places(&self, directive: &Directive) -> usize {
        match directive.precision {
            Some(places) => places,
            None => self.2.precision,
        }
    }

    /// Whether the number is cut down to its whole part: where the style
    /// says `no_fraction` and no directive names a precision.
    pub open spec fn spec_is_cut(&self, directive: &Directive) -> bool {
        self.2.flags.no_fraction && directive.precision is None
    }

    /// Whether digits are written behind a point: always where a directive
    /// names a precision; else never where the style says `no_fraction`;
    /// else where the style says `force_fraction` or the magnitude is no
    /// whole number.
    pub open spec fn spec_shows_fraction(&self, directive: &Directive) -> bool {
        directive.precision is Some || (!self.2.flags.no_fraction && (self.2.flags.force_fraction
            || !self.0.spec_is_whole()))
    }

    /// Whether the magnitude counts as more than one: where it is not 1,
    /// taken after it was cut down to its whole part where it is cut.
    pub open spec fn spec_is_plural(&self, directive: &Directive) -> bool {
        if self.spec_is_cut(directive) {
            self.0.spec_trunc() != 1
        } else {
            !self.0.spec_is_one()
        }
    }

    /// The number times ten to the power of its places, rounded to the
    /// nearest whole number, and to the even one of two that are as near.
    pub open spec fn spec_scaled(&self, directive: &Directive) -> nat {
        rounded_scaled(
            self.0.spec_numer() as nat,
            self.0.spec_denom() as nat,
            self.spec_places(directive) as nat,
        )
    }

    /// The whole part of the number as it is written: that of the rounded
    /// number where a fraction is shown, else that of the magnitude.
    pub open spec fn spec_whole(&self, directive: &Directive) -> nat {
        if self.spec_shows_fraction(directive) {
            self.spec_scaled(directive) / pow10(self.spec_places(directive) as nat)
        } else {
            self.0.spec_trunc() as nat
        }
    }

    /// The whole part of the number as text, grouped where the style says
    /// so.
    pub open spec fn spec_whole_text(&self, directive: &Directive) -> Seq<char> {
        if self.2.flags.show_thousands_separator {
            spec_join(
                spec_thsep(digits(self.spec_whole(directive))),
                self.2.thousands_separator@,
            )
        } else {
            digits(self.spec_whole(directive))
        }
    }

    /// The number as text: its whole part, and where a fraction is shown a
    /// point and the digits behind it, as many as there are places.
    pub open spec fn spec_number_text(&self, directive: &Directive) -> Seq<char> {
        if self.spec_shows_fraction(directive) && self.spec_places(directive) > 0 {
            self.spec_whole_text(directive) + seq!['.'] + padded_digits(
                self.spec_scaled(directive) % pow10(self.spec_places(directive) as nat),
                self.spec_places(directive) as nat,
            )
        } else {
            self.spec_whole_text(directive)
        }
    }

    /// What stands between the number and the unit.
    pub open spec fn spec_gap(&self) -> Seq<char> {
        if self.2.flags.no_space {
            Seq::<char>::empty()
        } else {
            spaces(self.2.n_spaces as nat)
        }
    }

    /// Whether a directive settles the form of the unit.
    pub open spec fn spec_directed(directive: &Directive) -> bool {
        directive.minus || directive.alternate || directive.plus
    }

    /// Whether the unit is written in words.
    pub open spec fn spec_is_long(&self, directive: &Directive) -> bool {
        if ByteSizeRepr::spec_directed(directive) {
            directive.plus
        } else {
            self.2.flags.long
        }
    }

    /// Whether the unit is condensed to one letter.
    pub open spec fn spec_is_condensed(&self, directive: &Directive) -> bool {
        if ByteSizeRepr::spec_directed(directive) {
            directive.minus && directive.alternate
        } else {
            self.2.flags.condensed
        }
    }

    /// Whether the unit is written by its initials.
    pub open spec fn spec_is_initials(&self, directive: &Directive) -> bool {
        if ByteSizeRepr::spec_directed(directive) {
            directive.minus && !directive.alternate
        } else {
            self.2.flags.initials
        }
    }

    /// Whether the word for the size variant is in the plural: where the
    /// style forces it or the directives `+` and `#` do; else not where the
    /// style forbids it; else where the magnitude counts as more than one.
    pub open spec fn spec_word_is_plural(&self, directive: &Directive) -> bool {
        self.2.flags.force_plural || (directive.plus && directive.alternate) || (
        !self.2.flags.no_plural && self.spec_is_plural(directive))
    }

    /// The unit as text before its case is changed: in words, else condensed,
    /// else by its initials, else by its short symbol.
    pub open spec fn spec_unit_symbol(&self, directive: &Directive) -> Seq<char> {
        if self.spec_is_long(directive) {
            self.1.spec_symbol_long(
                self.spec_word_is_plural(directive),
                !self.2.flags.no_multi_caps,
            )
        } else if self.spec_is_condensed(directive) {
            self.1.spec_symbol_condensed()
        } else if self.spec_is_initials(directive) {
            self.1.spec_symbol_initials()
        } else {
            self.1.spec_symbol()
        }
    }

    /// The unit as text, in upper case or in lower case where the style says
    /// so.
    pub open spec fn spec_unit_text(&self, directive: &Directive) -> Seq<char> {
        if self.2.flags.upper_caps {
            ascii_uppercase(self.spec_unit_symbol(directive))
        } else if self.2.flags.lower_caps {
            ascii_lowercase(self.spec_unit_symbol(directive))
        } else {
            self.spec_unit_symbol(directive)
        }
    }

    /// The whole text: the number, the gap, the unit.
    pub open spec fn spec_fmt(&self, directive: &Directive) -> Seq<char> {
        self.spec_number_text(directive) + self.spec_gap() + self.spec_unit_text(directive)
    }

    /// The magnitude in the unit, in the default style.
    #[verifier::when_used_as_spec(spec_of)]
    pub fn of(value: Fraction, unit: Unit) -> (r: ByteSizeRepr)
        ensures
            r == ByteSizeRepr::spec_of(value, unit),
    {
        ByteSizeRepr(value, unit, ReprFormat::default())
    }

    /// The same magnitude and unit, with a change applied to the style.
    pub fn with<C: ReprConfig>(&self, conf: C) -> (r: ByteSizeRepr)
        ensures
            r == ByteSizeRepr(self.0, self.1, conf.spec_apply(&self.2)),
    {
        ByteSizeRepr(self.0, self.1, conf.apply(&self.2))
    }

    /// The unit as text before its case is changed.
    pub(crate) fn unit_symbol(&self, directive: &Directive) -> (text: String)
        ensures
            text@ == self.spec_unit_symbol(directive),
    {
        let flags = self.2.flags;
        let directed = directive.minus || directive.alternate || directive.plus;
        let (initials, condensed, long) = if directed {
            (
                directive.minus && !directive.alternate,
                directive.minus && directive.alternate,
                directive.plus,
            )
        } else {
            (flags.initials, flags.condensed, flags.long)
        };
        if long {
            let cut = flags.no_fraction && directive.precision.is_none();
            let is_plural = if cut {
                self.0.trunc() != 1
            } else {
                !self.0.is_one()
            };
            self.1.symbol_long(
                flags.force_plural || (directive.plus && directive.alternate) || (!flags.no_plural
                    && is_plural),
                !flags.no_multi_caps,
            )
        } else if condensed {
            String::from_str(self.1.symbol_condensed())
        } else if initials {
            self.1.symbol_initials()
        } else {
            self.1.symbol()
        }
    }

    /// The text of the size under the given directives.
    ///
    /// The number comes first. It is cut down to its whole part where the
    /// style says `no_fraction`; a fraction is shown where the style says
    /// `force_fraction` or the magnitude is no whole number, unless
    /// `no_fraction` forbids it. A precision among the directives sets the
    /// number of digits behind the point and has them shown whatever the
    /// style says. A number shown with a fraction is rounded to the nearest
    /// number of that many places, and to the even one of two that are as
    /// near. The digits of the whole part are grouped in threes where the
    /// style says so.
    ///
    /// Then come the spaces of the style, unless it says `no_space`.
    ///
    /// The unit comes last. Where `+`, `-` or `#` is among the directives
    /// they alone settle its form: words under `+`, one letter under `-`
    /// with `#`, initials under `-` alone, else the short symbol. Without
    /// them the style settles it, and `long` goes before `condensed`, which
    /// goes before `initials`. In words, the size variant is in the plural
    /// where the magnitude is not 1, unless the style forbids or forces it or
    /// `+` with `#` forces it. At the end the unit is put in upper or lower
    /// case where the style says so.
    pub fn fmt(&self, directive: &Directive) -> (text: String)
        ensures
            text@ == self.spec_fmt(directive),
    {
        let flags = self.2.flags;
        let places = match directive.precision {
            Some(places) => places,
            None => self.2.precision,
        };
        let shows_fraction = directive.precision.is_some() || (!flags.no_fraction && (
        flags.force_fraction || !self.0.is_whole()));
        let mut out: Vec<char> = Vec::new();
        let (whole_part, behind) = if shows_fraction {
            round_decimal(self.0.numer(), self.0.denom(), places)
        } else {
            (self.0.trunc(), Vec::new())
        };
        let mut whole: Vec<char> = Vec::new();
        push_digits(&mut whole, whole_part);
        assert(whole@ =~= digits(self.spec_whole(directive)));
        if flags.show_thousands_separator {
            let groups = group_digits(&whole);
            let separator = chars_of(self.2.thousands_separator);
            push_joined(&mut out, &groups, &separator);
        } else {
            push_all(&mut out, &whole);
        }
        assert(out@ =~= self.spec_whole_text(directive));
        if shows_fraction && places > 0 {
            out.push('.');
            push_all(&mut out, &behind);
        }
        assert(out@ =~= self.spec_number_text(directive));
        if !flags.no_space {
            push_spaces(&mut out, self.2.n_spaces);
        }
        assert(out@ =~= self.spec_number_text(directive) + self.spec_gap());
        let symbol = self.unit_symbol(directive);
        let unit = chars_of(symbol.as_str());
        if flags.upper_caps {
            push_upper(&mut out, &unit);
        } else if flags.lower_caps {
            push_lower(&mut out, &unit);
        } else {
            push_all(&mut out, &unit);
        }
        string_of(&out)
    }

    /// The text of the size with no directive: what the style alone says.
    pub fn to_string(&self) -> (text: String)
        ensures
            text@ == self.spec_fmt(&Directive::spec_none()),
    {
        self.fmt(&Directive::none())
    }
}

impl PartialEq for ByteSizeRepr {
    /// Sizes as shown are equal where their magnitudes, their units and their
    /// styles are.
    fn eq(&self, other: &ByteSizeRepr) -> (r: bool) {
        self.0 == other.0 && self.1 == other.1 && self.2 == other.2
    }
}

impl vstd::std_specs::cmp::PartialEqSpecImpl for ByteSizeRepr {
    open spec fn obeys_eq_spec() -> bool {
        true
    }

    open spec fn eq_spec(&self, other: &ByteSizeRepr) -> bool {
        &&& self.0 == other.0
        &&& self.1 == other.1
        &&& self.2.same_style(&other.2)
    }
}

impl PartialOrd for ByteSizeRepr {
    /// Sizes as shown are ordered by their units first, and by their
    /// magnitudes where the units are of one size.
    fn partial_cmp(&self, other: &ByteSizeRepr) -> (r: Option<Ordering>) {
        match self.1.partial_cmp(&other.1) {
            Some(Ordering::Equal) => self.0.partial_cmp(&other.0),
            unequal => unequal,
        }
    }
}

impl vstd::std_specs::cmp::PartialOrdSpecImpl for ByteSizeRepr {
    open spec fn obeys_partial_cmp_spec() -> bool {
        true
    }

    open spec fn partial_cmp_spec(&self, other: &ByteSizeRepr) -> Option<Ordering> {
        if self.1.spec_effective_value() < other.1.spec_effective_value() {
            Some(Ordering::Less)
        } else if self.1.spec_effective_value() > other.1.spec_effective_value() {
            Some(Ordering::Greater)
        } else {
            Some(self.0.ordering(&other.0))
        }
    }
}

} // verus!
