use xbytes::sizes::{
    BIT, BYTE, GIBI_BYTE, GIGA_BYTE, KIBI_BYTE, KILO_BIT, KILO_BYTE, MEBI_BIT, MEBI_BYTE,
    MEGA_BYTE, PEBI_BYTE, TEBI_BYTE, TERA_BIT, TERA_BYTE, YOBI_BIT, YOBI_BYTE,
};
use xbytes::ReprConfigVariant::{Precision, Spaces, ThousandsSeparator};
use xbytes::{
    ByteSize, ByteSizeRepr, Directive, Format, Fraction, Mode, ParseError, ParseErrorKind,
    ReprFormat, Unit,
};

/// The magnitude that a decimal literal stands for, exactly.
fn dec(value: f64) -> Fraction {
    Fraction::from_str(&format!("{}", value)).unwrap()
}

/// The magnitude of a whole number.
fn whole(value: u128) -> Fraction {
    Fraction::from(value)
}

fn error(kind: ParseErrorKind) -> ParseError {
    ParseError { kind }
}

#[test]
fn bytesize() {
    let bytes = 1048576;

    let size = ByteSize::from_bits(bytes * 8);

    assert_eq!("1 MiB", size.to_string());
}

#[test]
fn bytesize_from_cmp() {
    let left = ByteSize::from_bits(8388608);

    let right = ByteSize::from_bytes(1048576).unwrap();

    assert_eq!(left, right);
}

#[test]
fn mode_default() {
    assert_eq!(Mode::default(), Mode::Default());
}

#[test]
fn format_default() {
    assert_eq!(Format::default(), Format::Default());
}

#[test]
fn repr_format_default() {
    assert_eq!(
        ReprFormat {
            flags: Format::Default(),
            n_spaces: 1,
            precision: 2,
            thousands_separator: ","
        },
        ReprFormat::default()
    )
}

#[test]
fn byte_size_repr_eq() {
    let l = ByteSizeRepr::of(dec(104.5), TEBI_BYTE());
    let r = ByteSizeRepr::of(dec(104.5), TEBI_BYTE());

    assert_eq!(l, r); // 104.50 TiB == 104.50 TiB
    assert_ne!(l.with(Precision(4)), r); // 104.5000 TiB != 104.50 TiB
    assert_ne!(l.with(Format::Long()), r); // 104.50 TebiBytes != 104.50 TiB
    assert_ne!(
        l.with(Format::Long() | Format::NoMultiCaps()),
        r.with(Format::Long())
    ); // 104.50 Tebibytes != 104.50 TebiBytes
    assert_ne!(
        l.with(Format::Initials() | Format::NoFraction()),
        r.with(Format::Condensed() | Format::NoSpace())
    ); // 104 TB != 104.50T

    let format = ReprFormat::default()
        .with(Spaces(2))
        .with(Precision(2))
        .with(ThousandsSeparator("_"))
        .with(Format::Long())
        .with(Format::ShowThousandsSeparator());

    assert_eq!(l.with(format), r.with(format));
}

#[test]
fn byte_size_repr_cmp() {
    let l = ByteSizeRepr::of(whole(1), MEBI_BYTE());
    let r = ByteSizeRepr::of(whole(1), MEGA_BYTE());
    println!("{}", l < r); // 1 MiB < 1 MB

    let l = ByteSizeRepr::of(whole(1), KILO_BYTE());
    let r = ByteSizeRepr::of(whole(1), KILO_BIT());
    println!("{}", l > r); // 1 kB > 1 kb

    let l = ByteSizeRepr::of(whole(1), GIGA_BYTE());
    let r = ByteSizeRepr::of(whole(1), PEBI_BYTE());
    println!("{}", l < r); // 1 GB < 1 PiB
}

#[test]
fn byte_size_repr_to_string() {
    let repr = ByteSizeRepr::of(dec(58375.284), xbytes::sizes::EXBI_BYTE());

    assert_eq!("58375.28 EiB", repr.to_string());
    assert_eq!(
        "58,375.28 EiB",
        repr.with(Format::ShowThousandsSeparator()).to_string()
    );
    assert_eq!(
        "58375.28 EiB",
        repr.with(ThousandsSeparator("_")).to_string()
    );
    assert_eq!("58375.28EiB", repr.with(Format::NoSpace()).to_string());
    assert_eq!(
        "58_375.28    EiB",
        repr.with(Spaces(4))
            .with(ThousandsSeparator("_"))
            .with(Format::ShowThousandsSeparator())
            .to_string()
    );
    assert_eq!(
        "58,375.2840  EiB",
        repr.with(Spaces(2))
            .with(Precision(4))
            .with(Format::ShowThousandsSeparator())
            .to_string()
    );
}

#[test]
fn bytesize_of() {
    assert_eq!(ByteSize(8), ByteSize::of(whole(1), BYTE()));

    assert_eq!(ByteSize(1), ByteSize::of(whole(1), BIT()));

    assert_eq!(ByteSize(8388608), ByteSize::of(whole(1), MEBI_BYTE()));

    assert_eq!(ByteSize(1048576), ByteSize::of(whole(1), MEBI_BIT()));

    assert_eq!(
        ByteSize(9671406556917033397649408),
        ByteSize::of(whole(1), YOBI_BYTE())
    );

    assert_eq!(
        ByteSize(1208925819614629174706176),
        ByteSize::of(whole(1), YOBI_BIT())
    );
}

#[test]
fn ops() {
    let a = ByteSize::of(whole(1), MEGA_BYTE());
    let b = ByteSize::of(whole(2), MEGA_BYTE());
    let sum = a + b;
    assert_eq!(ByteSize::of(whole(3), MEGA_BYTE()), sum);

    let a = ByteSize::of(whole(4), GIGA_BYTE());
    let b = ByteSize::of(whole(2), GIBI_BYTE());
    let sub = a - b;
    assert_eq!(ByteSize::of(dec(1.7252902985), GIBI_BYTE()), sub);

    let size = ByteSize::of(whole(5), MEGA_BYTE());
    let size_x5 = size * 5;
    assert_eq!(ByteSize::of(whole(25), MEGA_BYTE()), size_x5);

    let size = ByteSize::of(whole(1), GIBI_BYTE());
    let size_by_1024 = size / 1024;
    assert_eq!(ByteSize::of(whole(1), MEBI_BYTE()), size_by_1024);
}

#[test]
fn ops_assign() {
    let mut size = ByteSize::of(whole(5), GIBI_BYTE());
    size += ByteSize::of(dec(5.5), GIBI_BYTE());
    assert_eq!(ByteSize::of(dec(10.5), GIBI_BYTE()), size);

    let mut size = ByteSize::of(whole(50), GIBI_BYTE());
    size -= ByteSize::of(whole(10), GIBI_BYTE());
    assert_eq!(ByteSize::of(whole(40), GIBI_BYTE()), size);

    let mut size = ByteSize::of(whole(1), GIBI_BYTE());
    size *= 512;
    assert_eq!(ByteSize::of(whole(512), GIBI_BYTE()), size);

    let mut size = ByteSize::of(whole(1), TERA_BYTE());
    size /= 8;
    assert_eq!(ByteSize::of(whole(1), TERA_BIT()), size);
}

#[test]
fn byte_size_mode() {
    let size = ByteSize::of(dec(1.50), MEBI_BYTE());

    assert_eq!("1.50 MiB", size.to_string());
    assert_eq!("12 Mib", size.repr(Mode::Bits()).to_string());
    assert_eq!("1.57 MB", size.repr(Mode::Decimal()).to_string());
    assert_eq!(
        "12.58 Mb",
        size.repr(Mode::Decimal() | Mode::Bits()).to_string()
    );
}

#[test]
fn format_plurality() {
    let repr_1 = ByteSize::of(whole(1), MEGA_BYTE()).repr(Mode::Decimal());
    let repr_2 = ByteSize::of(whole(2), MEGA_BYTE()).repr(Mode::Decimal());

    assert_eq!("1 MegaByte", repr_1.fmt(&Directive::long()));
    assert_eq!("2 MegaBytes", repr_2.fmt(&Directive::long()));
}

#[test]
fn format_fractions() {
    let repr_1 = ByteSize::of(whole(1), MEGA_BYTE()).repr(Mode::Decimal());
    let repr_1_2 = ByteSize::of(dec(1.2), MEGA_BYTE()).repr(Mode::Decimal());
    let repr_2 = ByteSize::of(whole(2), MEGA_BYTE()).repr(Mode::Decimal());
    let repr_2_7 = ByteSize::of(dec(2.7234258), MEGA_BYTE()).repr(Mode::Decimal());

    let plain = Directive::none();
    let places_4 = Directive::none().places(4);
    let places_2 = Directive::none().places(2);

    assert_eq!("1 MB", repr_1.fmt(&plain));
    assert_eq!("1.20 MB", repr_1_2.fmt(&plain));
    assert_eq!("2 MB", repr_2.fmt(&plain));
    assert_eq!("2.72 MB", repr_2_7.fmt(&plain));
    // --
    assert_eq!("1.0000 MB", repr_1.fmt(&places_4));
    assert_eq!("1.2000 MB", repr_1_2.fmt(&places_4));
    assert_eq!("2.0000 MB", repr_2.fmt(&places_4));
    assert_eq!("2.7234 MB", repr_2_7.fmt(&places_4));
    // --
    let force_fraction = Format::ForceFraction();
    assert_eq!("1.00 MB", repr_1.with(force_fraction).fmt(&plain));
    assert_eq!("1.20 MB", repr_1_2.with(force_fraction).fmt(&plain));
    assert_eq!("2.00 MB", repr_2.with(force_fraction).fmt(&plain));
    assert_eq!("2.72 MB", repr_2_7.with(force_fraction).fmt(&plain));
    // --
    let no_fraction = Format::NoFraction();
    assert_eq!("1 MB", repr_1.with(no_fraction).fmt(&plain));
    assert_eq!("1 MB", repr_1_2.with(no_fraction).fmt(&plain));
    assert_eq!("2 MB", repr_2.with(no_fraction).fmt(&plain));
    assert_eq!("2 MB", repr_2_7.with(no_fraction).fmt(&plain));
    // --
    // the directive's precision (.4) took precedence over the style's `NoFraction`
    // and forced the representation to use fractions
    assert_eq!("1.0000 MB", repr_1.with(no_fraction).fmt(&places_4));
    assert_eq!("1.2000 MB", repr_1_2.with(no_fraction).fmt(&places_4));
    assert_eq!("2.0000 MB", repr_2.with(no_fraction).fmt(&places_4));
    assert_eq!("2.7234 MB", repr_2_7.with(no_fraction).fmt(&places_4));
    // --
    let precision = ReprFormat::default()
        .with(Precision(4))
        .with(Format::ForceFraction());
    assert_eq!("1.0000 MB", repr_1.with(precision).fmt(&plain));
    assert_eq!("1.2000 MB", repr_1_2.with(precision).fmt(&plain));
    assert_eq!("2.0000 MB", repr_2.with(precision).fmt(&plain));
    assert_eq!("2.7234 MB", repr_2_7.with(precision).fmt(&plain));
    // --
    // the directive's precision (.2) took precedence over the style's `Precision(4)`
    assert_eq!("1.00 MB", repr_1.with(precision).fmt(&places_2));
    assert_eq!("1.20 MB", repr_1_2.with(precision).fmt(&places_2));
    assert_eq!("2.00 MB", repr_2.with(precision).fmt(&places_2));
    assert_eq!("2.72 MB", repr_2_7.with(precision).fmt(&places_2));
}

#[test]
fn format_repr() {
    // directives take higher precedence over the style
    let repr = ByteSize::of(dec(1.59), MEGA_BYTE()).repr(Mode::Decimal());

    assert_eq!("1.59 MegaBytes", repr.fmt(&Directive::long()));

    assert_eq!(
        "1 MegaByte",
        repr.with(Format::NoFraction()).fmt(&Directive::long())
    );

    assert_eq!(
        "1 MegaBytes",
        repr.with(Format::NoFraction())
            .fmt(&Directive::long().alt())
    );

    assert_eq!(
        "1.59 MegaByte",
        repr.with(Format::NoPlural()).fmt(&Directive::long())
    );

    // the directive's plural (+#) took precedence over the style's `NoPlural`
    assert_eq!(
        "1.59 MegaBytes",
        repr.with(Format::NoPlural()).fmt(&Directive::long().alt())
    );

    assert_eq!(
        "1 MegaBytes",
        repr.with(Format::NoFraction() | Format::ForcePlural())
            .fmt(&Directive::long())
    );

    // the directive's condensed form (-#) took precedence over the style's `Long`
    assert_eq!(
        "1.59M",
        repr.with(Format::Long() | Format::NoSpace())
            .fmt(&Directive::short().alt())
    );
}

#[test]
fn bytes_and_bits_are_exact() {
    for n in [0u128, 1, 7, 1024, 1 << 100, u128::MAX / 8] {
        assert_eq!(n * 8, ByteSize::from_bytes(n).unwrap().bits());
        assert_eq!(Ok(n), ByteSize::from_bits(n * 8).bytes());
    }
    assert_eq!(
        Err(error(ParseErrorKind::ValueOverflow)),
        ByteSize::from_bytes(u128::MAX / 8 + 1)
    );
    assert_eq!(
        Err(error(ParseErrorKind::ValueOverflow)),
        ByteSize::from_bytes(u128::MAX)
    );
    // what is less than a byte is dropped
    assert_eq!(Ok(1), ByteSize::from_bits(15).bytes());
    assert_eq!(Ok(0), ByteSize::from_bits(7).bytes());
}

#[test]
fn of_drops_what_is_less_than_a_bit() {
    assert_eq!(ByteSize(0), ByteSize::of(dec(0.5), BIT()));
    assert_eq!(ByteSize(1), ByteSize::of(dec(1.999), BIT()));
    assert_eq!(ByteSize(512), ByteSize::of(dec(0.5), xbytes::sizes::KIBI_BIT()));
    assert_eq!(
        ByteSize(2),
        ByteSize::of(Fraction::new(1, 3).unwrap(), BYTE())
    );
}

#[test]
fn of_saturates() {
    assert_eq!(ByteSize(u128::MAX), ByteSize::of(whole(u128::MAX), BYTE()));
    assert_eq!(ByteSize(u128::MAX), ByteSize::of(whole(1 << 45), YOBI_BYTE()));
    assert_eq!(
        ByteSize((1u128 << 44) * 9671406556917033397649408),
        ByteSize::of(whole(1 << 44), YOBI_BYTE())
    );
    assert_eq!(ByteSize(u128::MAX), ByteSize::of(whole(u128::MAX), BIT()));
    // the product is formed in lowest terms: a sixteenth of the largest
    // number, in bytes, is still within reach
    assert_eq!(
        ByteSize(u128::MAX / 2),
        ByteSize::of(Fraction::new(u128::MAX, 16).unwrap(), BYTE())
    );
    assert_eq!(
        ByteSize(u128::MAX),
        ByteSize::of(Fraction::new(u128::MAX, 3).unwrap(), BYTE())
    );
}

#[test]
fn arithmetic_saturates() {
    let max = ByteSize(u128::MAX);
    assert_eq!(max, max + ByteSize(1));
    assert_eq!(ByteSize(0), ByteSize(1) - ByteSize(2));
    assert_eq!(max, ByteSize(u128::MAX / 2 + 1) * 2);
    assert_eq!(ByteSize(u128::MAX - 1), ByteSize(u128::MAX / 2) * 2);
    assert_eq!(ByteSize(0), ByteSize(5) * 0);
    assert_eq!(ByteSize(2), ByteSize(5) / 2);
    assert_eq!(max, ByteSize(5) / 0);
    assert_eq!(ByteSize(0), ByteSize(0) / 0);
}

#[test]
fn sizes_scale_by_fractions() {
    let size = ByteSize::of(whole(10), MEGA_BYTE());
    assert_eq!(ByteSize::of(whole(25), MEGA_BYTE()), size * dec(2.5));
    assert_eq!(ByteSize::of(whole(4), MEGA_BYTE()), size / dec(2.5));
    assert_eq!(ByteSize(3), ByteSize(10) * Fraction::new(1, 3).unwrap());
    assert_eq!(ByteSize(6), ByteSize(10) * Fraction::new(2, 3).unwrap());
    assert_eq!(ByteSize(15), ByteSize(10) / Fraction::new(2, 3).unwrap());
    assert_eq!(ByteSize(3), ByteSize(10) / whole(3));
    assert_eq!(ByteSize(0), ByteSize(10) * whole(0));
    assert_eq!(ByteSize(u128::MAX), ByteSize(10) / whole(0));
    assert_eq!(ByteSize(0), ByteSize(0) / whole(0));
    assert_eq!(ByteSize(u128::MAX), ByteSize(u128::MAX) * dec(1.5));
    assert_eq!(ByteSize(u128::MAX), ByteSize(u128::MAX) / dec(0.5));
    assert_eq!(ByteSize(u128::MAX / 2), ByteSize(u128::MAX) * dec(0.5));

    let mut size = ByteSize::of(whole(3), KIBI_BYTE());
    size *= dec(1.5);
    assert_eq!(ByteSize(8 * 4608), size);
    size /= dec(4.5);
    assert_eq!(ByteSize(8 * 1024), size);
}

#[test]
fn sizes_compare_by_their_bits() {
    assert!(ByteSize::of(whole(1), KIBI_BYTE()) > ByteSize::of(whole(1), KILO_BYTE()));
    assert_eq!(
        ByteSize::of(whole(1), KILO_BYTE()),
        ByteSize::of(whole(8), KILO_BIT())
    );
    assert_eq!(
        ByteSize::of(whole(1024), KIBI_BYTE()),
        ByteSize::of(whole(1), MEBI_BYTE())
    );
}

#[test]
fn repr_picks_the_largest_unit_reached() {
    let cases: [(u128, Mode, &str); 14] = [
        (0, Mode::Default(), "0 B"),
        (8, Mode::Default(), "1 B"),
        (8 * 1023, Mode::Default(), "1023 B"),
        (8 * 1024, Mode::Default(), "1 KiB"),
        (8 * 1000, Mode::Decimal(), "1 KB"),
        (8 * 999, Mode::Decimal(), "999 B"),
        (999, Mode::Bits(), "999 b"),
        (1000, Mode::Bits() | Mode::Decimal(), "1 Kb"),
        (1024, Mode::Bits(), "1 Kib"),
        (8 * 1024 * 1024, Mode::NoPrefix(), "1048576 B"),
        (8 * 1024 * 1024, Mode::NoPrefix() | Mode::Bits(), "8388608 b"),
        (8 * 1208925819614629174706176, Mode::Default(), "1 YiB"),
        (u128::MAX, Mode::Bits(), "281474976710656.00 Yib"),
        (u128::MAX, Mode::Decimal(), "42535295865117.31 YB"),
    ];
    for (bits, mode, text) in cases.iter() {
        assert_eq!(*text, ByteSize(*bits).repr(*mode).to_string(), "{}", bits);
    }
}

#[test]
fn repr_as_divides_by_the_unit() {
    let size = ByteSize::of(whole(3), MEBI_BYTE());
    assert_eq!("3 MiB", size.repr_as(MEBI_BYTE()).to_string());
    assert_eq!("24 Mib", size.repr_as(MEBI_BIT()).to_string());
    assert_eq!("3072 KiB", size.repr_as(KIBI_BYTE()).to_string());
    assert_eq!("3.15 MB", size.repr_as(MEGA_BYTE()).to_string());
    assert_eq!("25165824 b", size.repr_as(BIT()).to_string());
    assert_eq!("0.00 GiB", size.repr_as(GIBI_BYTE()).to_string());
    assert_eq!(Fraction::new(3, 1024).unwrap(), size.repr_as(GIBI_BYTE()).0);
    assert_eq!(whole(24), size.repr_as(MEBI_BIT()).0);
    assert_eq!(size, ByteSize::from(size.repr_as(GIBI_BYTE())));
}

#[test]
fn parse_sizes() {
    assert_eq!(Ok(ByteSize(8 * 1024)), "1 KiB".parse::<ByteSize>());
    assert_eq!(Ok(ByteSize(8 * 1000)), "1kB".parse::<ByteSize>());
    assert_eq!(Ok(ByteSize(12582912)), ByteSize::from_str("1.5 MiB"));
    assert_eq!(Ok(ByteSize(12582912)), ByteSize::from_str("1.50    Mebibytes"));
    assert_eq!(Ok(ByteSize(12)), ByteSize::from_str("+12\tbits"));
    assert_eq!(Ok(ByteSize(4)), ByteSize::from_str(".5B"));
    assert_eq!(Ok(ByteSize(40)), ByteSize::from_str("5.B"));
    assert_eq!(Ok(ByteSize(0)), ByteSize::from_str("-0 GB"));
    assert_eq!(
        Ok(ByteSize::of(dec(58375.28), xbytes::sizes::EXBI_BYTE())),
        ByteSize::from_str("58,375.28 EiB")
    );
    assert_eq!(Ok(ByteSize(8 * 1234567)), ByteSize::from_str("1,234,567 B"));
    assert_eq!(Ok(ByteSize(8 * 1234567)), ByteSize::from_str(",1,,234567, B"));
}

#[test]
fn parse_errors() {
    let cases = [
        ("", ParseErrorKind::EmptyInput),
        ("1024", ParseErrorKind::MissingUnit),
        ("1,024.5", ParseErrorKind::MissingUnit),
        ("-", ParseErrorKind::MissingUnit),
        ("KiB", ParseErrorKind::MissingValue),
        (" 1 KiB", ParseErrorKind::MissingValue),
        ("inf B", ParseErrorKind::MissingValue),
        ("1.2.3 KiB", ParseErrorKind::InvalidValue),
        ("1.5,0 KiB", ParseErrorKind::InvalidValue),
        (". KiB", ParseErrorKind::InvalidValue),
        ("+ KiB", ParseErrorKind::InvalidValue),
        (", KiB", ParseErrorKind::InvalidValue),
        ("1_000 KiB", ParseErrorKind::InvalidValue),
        ("--1 KiB", ParseErrorKind::InvalidValue),
        ("1- KiB", ParseErrorKind::InvalidValue),
        ("٣ KiB", ParseErrorKind::InvalidValue),
        ("-1 KiB", ParseErrorKind::ValueOverflow),
        ("-0.001 KiB", ParseErrorKind::ValueOverflow),
        (
            "340282366920938463463374607431768211456 b",
            ParseErrorKind::ValueOverflow,
        ),
        (
            "0.000000000000000000000000000000000000001 b",
            ParseErrorKind::ValueOverflow,
        ),
        ("1 ", ParseErrorKind::EmptyInput),
        ("1 K", ParseErrorKind::InvalidSizeVariant),
        ("1 KiX", ParseErrorKind::InvalidSizeVariant),
        ("1 e5B", ParseErrorKind::InvalidPrefix),
        ("1 XB", ParseErrorKind::InvalidPrefix),
        ("1 KiB ", ParseErrorKind::InvalidSizeVariant),
        ("10mb", ParseErrorKind::InvalidPrefixCaseFormat),
        ("10 gib", ParseErrorKind::InvalidPrefixCaseFormat),
        // an error in the number comes before one in the unit
        ("1.2.3 mb", ParseErrorKind::InvalidValue),
    ];
    for (text, kind) in cases.iter() {
        assert_eq!(
            Err(error(kind.clone())),
            ByteSize::from_str(text),
            "{:?}",
            text
        );
    }
}

#[test]
fn parse_largest_number() {
    assert_eq!(
        Ok(ByteSize(u128::MAX)),
        ByteSize::from_str("340282366920938463463374607431768211455 b")
    );
    assert_eq!(
        Ok(ByteSize(u128::MAX)),
        ByteSize::from_str("340282366920938463463374607431768211455 B")
    );
    assert_eq!(
        Ok(ByteSize(0)),
        ByteSize::from_str("0.00000000000000000000000000000000000001 Yb")
    );
    assert_eq!(
        Ok(ByteSize(12089258196146)),
        ByteSize::from_str("0.00000000001 Yib")
    );
}

#[test]
fn parse_beyond_ascii() {
    // a letter beyond ASCII ends the number as any letter does
    assert_eq!(
        Err(error(ParseErrorKind::InvalidPrefix)),
        ByteSize::from_str("5µB")
    );
    // white space beyond ASCII ends the number and is skipped before the unit
    assert_eq!(Ok(ByteSize(40000000)), ByteSize::from_str("5\u{a0}MB"));
    assert_eq!(
        Ok(ByteSize(40000000)),
        ByteSize::from_str("5\u{2003} \u{a0}MB")
    );
    // the Kelvin sign is a letter, and in lower case the letter k
    assert_eq!(
        Ok(ByteSize(5000)),
        ByteSize::from_str("5\u{212A}ilobit")
    );
}

#[test]
fn rendered_sizes_read_back() {
    let units = xbytes::sizes::ALL();
    for unit in units.iter() {
        for n in [0u128, 1, 2, 999, 1000, 1024, 123456789, 1 << 40] {
            let size = ByteSize::of(whole(n), *unit);
            let text = size.repr_as(*unit).to_string();
            assert_eq!(Ok(size), ByteSize::from_str(&text), "{}", text);
            let grouped = size
                .repr_as(*unit)
                .with(Format::ShowThousandsSeparator())
                .to_string();
            assert_eq!(Ok(size), ByteSize::from_str(&grouped), "{}", grouped);
            let long = size
                .repr_as(*unit)
                .with(Format::Long() | Format::NoSpace())
                .to_string();
            assert_eq!(Ok(size), ByteSize::from_str(&long), "{}", long);
        }
    }
}

#[test]
fn grouped_text_reads_back_to_the_same_text() {
    let format = Format::ShowThousandsSeparator();
    let size = ByteSize::from_str("58,375.28 EiB").unwrap();
    assert_eq!(
        "58,375.28 EiB",
        size.repr_as(xbytes::sizes::EXBI_BYTE())
            .with(format)
            .to_string()
    );
    assert_eq!(
        "58375.28 EiB",
        size.repr_as(xbytes::sizes::EXBI_BYTE()).to_string()
    );
}

#[test]
fn unit_styles() {
    let repr = ByteSize::of(whole(3), xbytes::sizes::GIBI_BIT()).repr(Mode::Bits());
    let plain = Directive::none();
    assert_eq!("3 Gib", repr.fmt(&plain));
    assert_eq!("3 Gb", repr.with(Format::Initials()).fmt(&plain));
    assert_eq!("3 G", repr.with(Format::Condensed()).fmt(&plain));
    assert_eq!("3 GibiBits", repr.with(Format::Long()).fmt(&plain));
    assert_eq!(
        "3 Gibibits",
        repr.with(Format::Long() | Format::NoMultiCaps()).fmt(&plain)
    );
    assert_eq!(
        "3 GibiBit",
        repr.with(Format::Long() | Format::NoPlural()).fmt(&plain)
    );
    assert_eq!("3 GIB", repr.with(Format::UpperCaps()).fmt(&plain));
    assert_eq!("3 gib", repr.with(Format::LowerCaps()).fmt(&plain));
    assert_eq!(
        "3 GIB",
        repr.with(Format::UpperCaps() | Format::LowerCaps()).fmt(&plain)
    );
    assert_eq!(
        "3 GIBIBITS",
        repr.with(Format::Long() | Format::UpperCaps()).fmt(&plain)
    );
    // long goes before condensed, condensed before initials
    assert_eq!(
        "3 GibiBits",
        repr.with(Format::Long() | Format::Condensed() | Format::Initials())
            .fmt(&plain)
    );
    assert_eq!(
        "3 G",
        repr.with(Format::Condensed() | Format::Initials()).fmt(&plain)
    );
    // any of `+`, `-`, `#` settles the form without the style
    assert_eq!("3 Gb", repr.with(Format::Long()).fmt(&Directive::short()));
    assert_eq!(
        "3 Gib",
        repr.with(Format::Long()).fmt(&Directive::none().alt())
    );
    // a unit without a prefix keeps its capital
    let bare = ByteSize(16).repr(Mode::Default());
    assert_eq!(
        "2 Bytes",
        bare.with(Format::Long() | Format::NoMultiCaps()).fmt(&plain)
    );
    assert_eq!("2 B", bare.with(Format::Condensed()).fmt(&plain));
}

#[test]
fn number_styles() {
    let repr = ByteSizeRepr::of(Fraction::new(1234567891, 1000).unwrap(), MEGA_BYTE());
    let plain = Directive::none();
    assert_eq!("1234567.89 MB", repr.fmt(&plain));
    assert_eq!("1234568 MB", repr.fmt(&Directive::none().places(0)));
    assert_eq!("1234567.891000 MB", repr.fmt(&Directive::none().places(6)));
    assert_eq!(
        "1,234,567.89 MB",
        repr.with(Format::ShowThousandsSeparator()).fmt(&plain)
    );
    assert_eq!(
        "1 234 567 MB",
        repr.with(Format::ShowThousandsSeparator() | Format::NoFraction())
            .with(ThousandsSeparator(" "))
            .fmt(&plain)
    );
    assert_eq!(
        "1<>234<>567.9MB",
        repr.with(Format::ShowThousandsSeparator() | Format::NoSpace())
            .with(ThousandsSeparator("<>"))
            .with(Precision(1))
            .fmt(&plain)
    );
    assert_eq!("1234567.89MB", repr.with(Spaces(0)).fmt(&plain));
    assert_eq!("1234567.89   MB", repr.with(Spaces(3)).fmt(&plain));
    // a number with a fraction is rounded to the nearest, a number without
    // is cut down
    let two_thirds = ByteSizeRepr::of(Fraction::new(2, 3).unwrap(), BYTE());
    assert_eq!("0.67 B", two_thirds.fmt(&plain));
    assert_eq!("0.666667 B", two_thirds.fmt(&Directive::none().places(6)));
    assert_eq!("1 B", two_thirds.fmt(&Directive::none().places(0)));
    assert_eq!("0 B", two_thirds.with(Format::NoFraction()).fmt(&plain));
    // of two numbers that are as near, the even one is taken
    let eighth = ByteSizeRepr::of(Fraction::new(1, 8).unwrap(), BYTE());
    assert_eq!("0.12 B", eighth.fmt(&plain));
    assert_eq!("0.38 B", ByteSizeRepr::of(Fraction::new(3, 8).unwrap(), BYTE()).fmt(&plain));
    assert_eq!("0.125 B", eighth.fmt(&Directive::none().places(3)));
    let places_0 = Directive::none().places(0);
    assert_eq!("2 B", ByteSizeRepr::of(Fraction::new(5, 2).unwrap(), BYTE()).fmt(&places_0));
    assert_eq!("4 B", ByteSizeRepr::of(Fraction::new(7, 2).unwrap(), BYTE()).fmt(&places_0));
    // rounding can reach the whole part, and its grouping
    let nines = ByteSizeRepr::of(Fraction::new(999999, 1000).unwrap(), BYTE());
    assert_eq!("1000.00 B", nines.fmt(&plain));
    assert_eq!(
        "1,000.00 B",
        nines.with(Format::ShowThousandsSeparator()).fmt(&plain)
    );
    assert_eq!("999.999 B", nines.fmt(&Directive::none().places(3)));
    assert_eq!("999 B", nines.with(Format::NoFraction()).fmt(&plain));
    // where the style forbids and forces the fraction, it is forbidden
    assert_eq!(
        "0 B",
        two_thirds
            .with(Format::NoFraction() | Format::ForceFraction())
            .fmt(&plain)
    );
    let small = ByteSizeRepr::of(Fraction::new(1001, 1000).unwrap(), BYTE());
    assert_eq!("1.00 B", small.fmt(&plain));
    assert_eq!("1.00 Bytes", small.fmt(&Directive::long()));
    assert_eq!(
        "1 Byte",
        small.with(Format::NoFraction()).fmt(&Directive::long())
    );
    let one = ByteSizeRepr::of(whole(1), BYTE());
    assert_eq!(
        "1.00 Byte",
        one.with(Format::ForceFraction()).fmt(&Directive::long())
    );
    assert_eq!("1.0 Byte", one.fmt(&Directive::long().places(1)));
    assert_eq!("0 Bytes", ByteSizeRepr::of(whole(0), BYTE()).fmt(&Directive::long()));
}

#[test]
fn large_denominators_render() {
    let repr = ByteSizeRepr::of(Fraction::new(1, u128::MAX).unwrap(), BIT());
    assert_eq!("0.00 b", repr.to_string());
    assert_eq!(
        "0.00000000000000000000000000000000000000293873587705571876992184134305561419455530 b",
        repr.fmt(&Directive::none().places(80))
    );
    let near_one = ByteSizeRepr::of(Fraction::new(u128::MAX - 1, u128::MAX).unwrap(), BIT());
    assert_eq!("1.0000000000 b", near_one.fmt(&Directive::none().places(10)));
    assert_eq!("1 Bits", near_one.fmt(&Directive::long().places(0)));
}

#[test]
fn repr_orders_by_unit_then_magnitude() {
    let mib = ByteSizeRepr::of(whole(1), MEBI_BYTE());
    let mb = ByteSizeRepr::of(whole(1), MEGA_BYTE());
    assert!(mb < mib);
    assert!(ByteSizeRepr::of(whole(1000), MEGA_BYTE()) < mib);
    assert!(ByteSizeRepr::of(whole(1), KILO_BYTE()) > ByteSizeRepr::of(whole(1), KILO_BIT()));
    assert!(ByteSizeRepr::of(dec(1.5), MEGA_BYTE()) > mb);
    assert!(ByteSizeRepr::of(dec(0.5), MEGA_BYTE()) < mb);
    assert!(
        ByteSizeRepr::of(Fraction::new(1, 3).unwrap(), BYTE())
            < ByteSizeRepr::of(Fraction::new(2, 5).unwrap(), BYTE())
    );
    assert!(mb <= mb.with(Format::Long()));
    assert!(mb >= mb.with(Format::Long()));
}

#[test]
fn error_messages() {
    assert_eq!("empty input", error(ParseErrorKind::EmptyInput).to_string());
    assert_eq!("missing unit", ParseErrorKind::MissingUnit.to_string());
    assert_eq!("invalid value", ParseErrorKind::InvalidValue.message());
    assert_eq!("missing value", ParseErrorKind::MissingValue.message());
    assert_eq!("invalid prefix", ParseErrorKind::InvalidPrefix.message());
    assert_eq!("value overflow", ParseErrorKind::ValueOverflow.message());
    assert_eq!(
        "invalid size variant",
        ParseErrorKind::InvalidSizeVariant.message()
    );
    assert_eq!(
        "invalid thousands format",
        ParseErrorKind::InvalidThousandsFormat.message()
    );
    assert_eq!(
        "invalid case: expected format like 'kB', 'Kb', 'KiB', 'Mb', 'MiB'",
        ParseErrorKind::InvalidUnitCaseFormat.message()
    );
    assert_eq!(
        "invalid case: expected format like 'k', 'K', 'Ki', 'M', 'Mi'",
        ParseErrorKind::InvalidPrefixCaseFormat.message()
    );
    assert_eq!(
        &ParseErrorKind::MissingUnit,
        error(ParseErrorKind::MissingUnit).kind()
    );
}

#[test]
fn size_in_another_unit() {
    let unit: Unit = GIGA_BYTE();
    let size = ByteSize::of(whole(7), unit);
    assert_eq!(ByteSize(56_000_000_000), size);
    assert_eq!("6.52 GiB", size.to_string());
    assert_eq!("6.5 GiB", size.fmt(&Directive::none().places(1)));
    assert_eq!("6.52 GibiBytes", size.fmt(&Directive::long()));
}
