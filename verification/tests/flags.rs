use xbytes::ReprConfigVariant::{Precision, Spaces, ThousandsSeparator};
use xbytes::{Format, Mode, ReprConfig, ReprFormat};

#[test]
fn mode_sets() {
    let both = Mode::Bits() | Mode::Decimal();
    assert!(both.bits && both.decimal && !both.no_prefix);
    assert_eq!(both, Mode::Bits().union(Mode::Decimal()));
    assert_eq!(both, Mode::Decimal() | Mode::Bits());
    assert!(both.contains(Mode::Bits()));
    assert!(both.contains(Mode::Decimal()));
    assert!(both.contains(both));
    assert!(both.contains(Mode::Default()));
    assert!(!both.contains(Mode::NoPrefix()));
    assert!(!Mode::Bits().contains(both));
    assert!(Mode::Default().is_empty());
    assert!(Mode::empty().is_empty());
    assert!(!Mode::NoPrefix().is_empty());
    assert_eq!(Mode::Bits(), Mode::Bits() | Mode::Bits());
    assert_eq!(Mode::Bits(), Mode::Bits() | Mode::Default());
}

#[test]
fn format_sets() {
    let all = [
        Format::Initials(),
        Format::Condensed(),
        Format::Long(),
        Format::NoPlural(),
        Format::ForcePlural(),
        Format::NoMultiCaps(),
        Format::LowerCaps(),
        Format::UpperCaps(),
        Format::NoFraction(),
        Format::ForceFraction(),
        Format::ShowThousandsSeparator(),
        Format::NoSpace(),
    ];
    let mut joined = Format::Default();
    for (i, one) in all.iter().enumerate() {
        assert!(!one.is_empty());
        assert!(one.contains(*one));
        assert!(one.contains(Format::Default()));
        assert!(!Format::Default().contains(*one));
        for (j, other) in all.iter().enumerate() {
            assert_eq!(i == j, one == other);
            assert_eq!(i == j, one.contains(*other));
        }
        assert!(!joined.contains(*one));
        joined = joined | *one;
        assert!(joined.contains(*one));
    }
    for one in all.iter() {
        assert!(joined.contains(*one));
    }
    assert!(Format::empty().is_empty());
    let pair = Format::Long().union(Format::NoSpace());
    assert!(pair.long && pair.no_space && !pair.initials);
    assert_eq!(pair, Format::NoSpace() | Format::Long());
}

#[test]
fn styles_are_changed_one_setting_at_a_time() {
    let plain = ReprFormat::default();
    assert_eq!(2, plain.precision);
    assert_eq!(1, plain.n_spaces);
    assert_eq!(",", plain.thousands_separator);
    assert!(plain.flags.is_empty());
    assert_eq!(plain, ReprFormat::default());
    let default: ReprFormat = Default::default();
    assert_eq!(plain, default);

    let changed = plain.with(Precision(5));
    assert_eq!(5, changed.precision);
    assert_eq!(ReprFormat { precision: 5, ..plain }, changed);
    assert_eq!(ReprFormat { n_spaces: 0, ..plain }, plain.with(Spaces(0)));
    assert_eq!(
        ReprFormat {
            thousands_separator: "'",
            ..plain
        },
        plain.with(ThousandsSeparator("'"))
    );
    assert_ne!(plain, plain.with(ThousandsSeparator("'")));
    assert_eq!(plain, plain.with(ThousandsSeparator(",")));

    // options are added, never taken away
    let long = plain.with(Format::Long());
    assert!(long.flags.long);
    let long_tight = long.with(Format::NoSpace());
    assert!(long_tight.flags.long && long_tight.flags.no_space);
    assert_eq!(long, long.with(Format::Long()));
    assert_eq!(long, long.with(Format::Default()));
    assert_eq!(long_tight, plain.with(Format::Long() | Format::NoSpace()));
    assert_eq!(long_tight, plain.with(&(Format::Long() | Format::NoSpace())));

    // a whole style replaces the settings and joins the options
    let wide = plain.with(Spaces(3)).with(Format::UpperCaps());
    let merged = long.with(wide);
    assert_eq!(3, merged.n_spaces);
    assert!(merged.flags.long && merged.flags.upper_caps);
    assert_eq!(merged, wide.apply(&long));
}

#[test]
fn changes_compare_by_setting_and_value() {
    assert_eq!(Precision(2), Precision(2));
    assert_ne!(Precision(2), Precision(3));
    assert_ne!(Precision(2), Spaces(2));
    assert_eq!(ThousandsSeparator("_"), ThousandsSeparator("_"));
    assert_ne!(ThousandsSeparator("_"), ThousandsSeparator(","));
    assert_ne!(ThousandsSeparator(""), Spaces(0));
}
