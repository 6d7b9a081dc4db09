use xbytes::{Directive, ParseError, ParseErrorKind, UnitPrefix};
use xbytes::UnitPrefix::{
    Exa, Exbi, Gibi, Giga, Kibi, Kilo, Mebi, Mega, Pebi, Peta, Tebi, Tera, Yobi, Yotta, Zebi,
    Zetta,
};

#[test]
fn decimal() {
    let lhs = [Kilo, Mega, Giga, Tera, Peta, Exa, Zetta, Yotta];

    for (index, unit) in lhs.iter().enumerate() {
        assert_eq!(unit, &UnitPrefix::DECIMAL[index]);
        assert_ne!(unit, &UnitPrefix::BINARY[index]);
    }
}

#[test]
fn binary() {
    let lhs = [Kibi, Mebi, Gibi, Tebi, Pebi, Exbi, Zebi, Yobi];

    for (index, unit) in lhs.iter().enumerate() {
        assert_eq!(unit, &UnitPrefix::BINARY[index]);
        assert_ne!(unit, &UnitPrefix::DECIMAL[index]);
    }
}

#[test]
fn is_decimal() {
    for unit in UnitPrefix::DECIMAL.iter() {
        assert!(unit.is_decimal())
    }
    for unit in UnitPrefix::BINARY.iter() {
        assert!(!unit.is_decimal())
    }
}

#[test]
fn is_binary() {
    for unit in UnitPrefix::BINARY.iter() {
        assert!(unit.is_binary())
    }
    for unit in UnitPrefix::DECIMAL.iter() {
        assert!(!unit.is_binary())
    }
}

#[test]
fn prefix_index() {
    let map = [
        (Kilo, 0),
        (Kibi, 0),
        (Mega, 1),
        (Mebi, 1),
        (Giga, 2),
        (Gibi, 2),
        (Tera, 3),
        (Tebi, 3),
        (Peta, 4),
        (Pebi, 4),
        (Exa, 5),
        (Exbi, 5),
        (Zetta, 6),
        (Yotta, 7),
        (Zebi, 6),
        (Yobi, 7),
    ];

    for (unit, index) in map.iter() {
        assert_eq!(
            *index,
            unit.index(),
            "expected [{:?}] to have the index {}",
            unit,
            index
        );
    }
}

#[test]
fn to_decimal() {
    let map = [
        (Kilo, Kilo),
        (Kibi, Kilo),
        (Mega, Mega),
        (Mebi, Mega),
        (Giga, Giga),
        (Gibi, Giga),
        (Tera, Tera),
        (Tebi, Tera),
        (Peta, Peta),
        (Pebi, Peta),
        (Exa, Exa),
        (Exbi, Exa),
        (Zetta, Zetta),
        (Yotta, Yotta),
        (Zebi, Zetta),
        (Yobi, Yotta),
    ];

    for (unit, expected) in map.iter() {
        assert_eq!(
            *expected,
            unit.decimal(),
            "expected [{:?}] to be represented as [{:?}] in decimal",
            unit,
            expected
        );
    }
}

#[test]
fn to_binary() {
    let map = [
        (Kilo, Kibi),
        (Kibi, Kibi),
        (Mega, Mebi),
        (Mebi, Mebi),
        (Giga, Gibi),
        (Gibi, Gibi),
        (Tera, Tebi),
        (Tebi, Tebi),
        (Peta, Pebi),
        (Pebi, Pebi),
        (Exa, Exbi),
        (Exbi, Exbi),
        (Zetta, Zebi),
        (Yotta, Yobi),
        (Zebi, Zebi),
        (Yobi, Yobi),
    ];

    for (unit, expected) in map.iter() {
        assert_eq!(
            *expected,
            unit.binary(),
            "expected [{:?}] to be represented as [{:?}] in binary",
            unit,
            expected
        );
    }
}

#[test]
fn format_and_display_symbol() {
    let map = [
        (Kilo, "K"),
        (Kibi, "Ki"),
        (Mega, "M"),
        (Mebi, "Mi"),
        (Giga, "G"),
        (Gibi, "Gi"),
        (Tera, "T"),
        (Tebi, "Ti"),
        (Peta, "P"),
        (Pebi, "Pi"),
        (Exa, "E"),
        (Exbi, "Ei"),
        (Zetta, "Z"),
        (Yotta, "Y"),
        (Zebi, "Zi"),
        (Yobi, "Yi"),
    ];

    for (unit, repr) in map.iter() {
        assert_eq!(
            *repr,
            unit.symbol(),
            "expected [{:?}] to be represented as {}",
            unit,
            repr
        );
        assert_eq!(
            *repr,
            unit.fmt(&Directive::none()),
            "expected [{:?}] to be represented as {}",
            unit,
            repr
        );
    }
}

#[test]
fn format_and_display_symbol_long() {
    let map = [
        (Kilo, "Kilo"),
        (Kibi, "Kibi"),
        (Mega, "Mega"),
        (Mebi, "Mebi"),
        (Giga, "Giga"),
        (Gibi, "Gibi"),
        (Tera, "Tera"),
        (Tebi, "Tebi"),
        (Peta, "Peta"),
        (Pebi, "Pebi"),
        (Exa, "Exa"),
        (Exbi, "Exbi"),
        (Zetta, "Zetta"),
        (Yotta, "Yotta"),
        (Zebi, "Zebi"),
        (Yobi, "Yobi"),
    ];

    for (unit, repr) in map.iter() {
        assert_eq!(
            *repr,
            unit.symbol_long(),
            "expected [{:?}] to be represented in long form as {}",
            unit,
            repr
        );
        assert_eq!(
            *repr,
            unit.fmt(&Directive::long()),
            "expected [{:?}] to be represented in long form as {}",
            unit,
            repr
        );
    }
}

#[test]
fn format_and_display_symbol_initials() {
    let map = [
        (Kilo, "K"),
        (Kibi, "K"),
        (Mega, "M"),
        (Mebi, "M"),
        (Giga, "G"),
        (Gibi, "G"),
        (Tera, "T"),
        (Tebi, "T"),
        (Peta, "P"),
        (Pebi, "P"),
        (Exa, "E"),
        (Exbi, "E"),
        (Zetta, "Z"),
        (Yotta, "Y"),
        (Zebi, "Z"),
        (Yobi, "Y"),
    ];

    for (unit, repr) in map.iter() {
        assert_eq!(
            *repr,
            unit.symbol_initials(),
            "expected [{:?}] to be represented in short form as {}",
            unit,
            repr
        );
        assert_eq!(
            *repr,
            unit.fmt(&Directive::short()),
            "expected [{:?}] to be represented in short form as {}",
            unit,
            repr
        );
    }
}

#[test]
fn str_parse() {
    let map = [
        ("k", Ok(Kilo)),
        ("K", Ok(Kilo)),
        ("Ki", Ok(Kibi)),
        ("M", Ok(Mega)),
        ("Mi", Ok(Mebi)),
        ("G", Ok(Giga)),
        ("Gi", Ok(Gibi)),
        ("T", Ok(Tera)),
        ("Ti", Ok(Tebi)),
        ("P", Ok(Peta)),
        ("Pi", Ok(Pebi)),
        ("E", Ok(Exa)),
        ("Ei", Ok(Exbi)),
        ("Z", Ok(Zetta)),
        ("Y", Ok(Yotta)),
        ("Zi", Ok(Zebi)),
        ("Yi", Ok(Yobi)),
    ];

    assert_eq!(
        Err(ParseError {
            kind: ParseErrorKind::EmptyInput
        }),
        "".parse::<UnitPrefix>()
    );

    for (value, unit) in map.iter() {
        assert_eq!(*unit, value.parse::<UnitPrefix>());
    }

    let invalid_formats = [
        "ki", "m", "mi", "g", "gi", "t", "ti", "p", "pi", "e", "ei", "z", "zi", "y", "yi",
    ];

    for value in invalid_formats.iter() {
        assert_eq!(
            Err(ParseError {
                kind: ParseErrorKind::InvalidPrefixCaseFormat
            }),
            value.parse::<UnitPrefix>()
        );
    }
}

#[test]
fn effective_value() {
    let map: [(UnitPrefix, u128); 16] = [
        (Kilo, 1000),
        (Kibi, 1024),
        (Mega, 1000000),
        (Mebi, 1048576),
        (Giga, 1000000000),
        (Gibi, 1073741824),
        (Tera, 1000000000000),
        (Tebi, 1099511627776),
        (Peta, 1000000000000000),
        (Pebi, 1125899906842624),
        (Exa, 1000000000000000000),
        (Exbi, 1152921504606846976),
        (Zetta, 1000000000000000000000),
        (Yotta, 1000000000000000000000000),
        (Zebi, 1180591620717411303424),
        (Yobi, 1208925819614629174706176),
    ];

    for (prefix, value) in map.iter() {
        assert_eq!(
            *value,
            prefix.effective_value(),
            "expected [{:?}] to have the value [{}]",
            prefix,
            value
        );
    }
}

#[test]
fn min_max() {
    assert_eq!(Kilo, UnitPrefix::MIN);
    assert_eq!(Yobi, UnitPrefix::MAX);
}

#[test]
fn prefix_long_names_in_any_case() {
    let names = [
        ("kilo", Kilo),
        ("KIBI", Kibi),
        ("Mega", Mega),
        ("mEbI", Mebi),
        ("giga", Giga),
        ("gibi", Gibi),
        ("TERA", Tera),
        ("tebi", Tebi),
        ("peta", Peta),
        ("pebi", Pebi),
        ("exa", Exa),
        ("EXBI", Exbi),
        ("zetta", Zetta),
        ("zebi", Zebi),
        ("Yotta", Yotta),
        ("yobi", Yobi),
    ];
    for (text, prefix) in names.iter() {
        assert_eq!(Ok(*prefix), UnitPrefix::from_str(text));
    }
}

#[test]
fn prefix_unknown_text() {
    for text in ["kil", "x", " K", "K ", "Kilos", "KI", "kI", "µ"] {
        assert_eq!(
            Err(ParseError {
                kind: ParseErrorKind::InvalidPrefix
            }),
            UnitPrefix::from_str(text),
            "{:?}",
            text
        );
    }
}

#[test]
fn prefix_kelvin_sign_reads_as_k() {
    // Beyond ASCII the lower-case form is the one of Unicode, in which the
    // Kelvin sign becomes the letter k.
    assert_eq!(Ok(Kilo), UnitPrefix::from_str("\u{212A}ilo"));
    assert_eq!(Ok(Kibi), "\u{212A}IBI".parse::<UnitPrefix>());
}

#[test]
fn prefix_families_are_dual() {
    for prefix in UnitPrefix::ALL.iter() {
        assert_eq!(prefix.decimal().binary(), prefix.binary());
        assert_eq!(prefix.binary().decimal(), prefix.decimal());
        assert_eq!(prefix.decimal().index(), prefix.index());
        assert_eq!(prefix.binary().index(), prefix.index());
    }
}

#[test]
fn prefix_multiplier_is_power_of_base() {
    for prefix in UnitPrefix::ALL.iter() {
        let base: u128 = if prefix.is_decimal() { 1000 } else { 1024 };
        assert_eq!(base.pow(prefix.index() as u32 + 1), prefix.effective_value());
    }
}
