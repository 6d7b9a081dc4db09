use xbytes::repr::thsep;
use xbytes::{Fraction, ParseError, ParseErrorKind};

fn parts(f: Fraction) -> (u128, u128) {
    (f.numer(), f.denom())
}

#[test]
fn fraction_new_reduces() {
    assert_eq!(None, Fraction::new(1, 0));
    assert_eq!(None, Fraction::new(0, 0));
    assert_eq!((1, 2), parts(Fraction::new(2, 4).unwrap()));
    assert_eq!((0, 1), parts(Fraction::new(0, 9).unwrap()));
    assert_eq!((1, 1), parts(Fraction::new(7, 7).unwrap()));
    assert_eq!((3, 1), parts(Fraction::new(12, 4).unwrap()));
    assert_eq!(
        (1, 1),
        parts(Fraction::new(u128::MAX, u128::MAX).unwrap())
    );
    assert_eq!((5, 1), parts(Fraction::from(5)));
    assert_eq!(Fraction::new(10, 4), Fraction::new(5, 2));
}

#[test]
fn fraction_product() {
    let three_halves = Fraction::new(3, 2).unwrap();
    let four = Fraction::from_int(4);
    assert_eq!(Some(Fraction::from_int(6)), three_halves.checked_mul(&four));
    assert_eq!(
        Fraction::new(9, 4),
        three_halves.checked_mul(&three_halves)
    );
    assert_eq!(
        Some(Fraction::from_int(0)),
        Fraction::from_int(0).checked_mul(&three_halves)
    );
    // what cancels does not overflow
    let large = Fraction::new(u128::MAX, 4).unwrap();
    assert_eq!(
        Some(Fraction::from_int(u128::MAX)),
        large.checked_mul(&Fraction::from_int(4))
    );
    assert_eq!(
        Fraction::new(u128::MAX, 2),
        large.checked_mul(&Fraction::from_int(2))
    );
    assert_eq!(None, large.checked_mul(&Fraction::from_int(3)));
    assert_eq!(
        None,
        Fraction::new(1, u128::MAX)
            .unwrap()
            .checked_mul(&Fraction::new(1, 2).unwrap())
    );
}

#[test]
fn fraction_quotient() {
    let three_halves = Fraction::new(3, 2).unwrap();
    assert_eq!(
        Fraction::new(3, 8),
        three_halves.checked_div(&Fraction::from_int(4))
    );
    assert_eq!(
        Some(Fraction::from_int(1)),
        three_halves.checked_div(&three_halves)
    );
    assert_eq!(None, three_halves.checked_div(&Fraction::from_int(0)));
    assert_eq!(
        Some(Fraction::from_int(0)),
        Fraction::from_int(0).checked_div(&three_halves)
    );
    assert_eq!(
        Fraction::new(9, 10),
        three_halves.checked_div(&Fraction::new(5, 3).unwrap())
    );
    assert_eq!(
        Fraction::new(2, 5),
        Fraction::new(2, 3)
            .unwrap()
            .checked_div(&Fraction::new(5, 3).unwrap())
    );
    assert_eq!(
        Fraction::new(7, 3),
        Fraction::new(2, 3)
            .unwrap()
            .checked_div(&Fraction::new(2, 7).unwrap())
    );
    assert_eq!(
        None,
        Fraction::new(1, u128::MAX)
            .unwrap()
            .checked_div(&Fraction::from_int(2))
    );
}

#[test]
fn fraction_order() {
    let third = Fraction::new(1, 3).unwrap();
    let two_fifths = Fraction::new(2, 5).unwrap();
    assert!(third < two_fifths);
    assert!(two_fifths > third);
    assert!(third <= third);
    assert!(third >= third);
    assert!(Fraction::from_int(0) < third);
    assert!(Fraction::from_int(1) > two_fifths);
    assert!(
        Fraction::new(u128::MAX - 1, u128::MAX).unwrap()
            < Fraction::new(u128::MAX, u128::MAX - 1).unwrap()
    );
    assert!(
        Fraction::new(u128::MAX - 2, u128::MAX - 1).unwrap()
            < Fraction::new(u128::MAX - 1, u128::MAX).unwrap()
    );
}

#[test]
fn fraction_whole_part() {
    let seven_halves = Fraction::new(7, 2).unwrap();
    assert_eq!(3, seven_halves.trunc());
    assert!(!seven_halves.is_whole());
    assert!(!seven_halves.is_one());
    assert!(!seven_halves.is_zero());
    assert!(Fraction::from_int(3).is_whole());
    assert!(Fraction::from_int(1).is_one());
    assert!(Fraction::from_int(0).is_zero());
    assert_eq!(0, Fraction::new(1, 2).unwrap().trunc());
}

#[test]
fn fraction_decimal_text() {
    let three_halves = Fraction::new(3, 2).unwrap();
    assert_eq!("2", three_halves.to_decimal(0));
    assert_eq!("2", Fraction::new(5, 2).unwrap().to_decimal(0));
    assert_eq!("1.5", three_halves.to_decimal(1));
    assert_eq!("1.50", three_halves.to_decimal(2));
    assert_eq!("0.333", Fraction::new(1, 3).unwrap().to_decimal(3));
    assert_eq!(
        "0.7142857142857143",
        Fraction::new(5, 7).unwrap().to_decimal(16)
    );
    assert_eq!("0", Fraction::from_int(0).to_decimal(0));
    assert_eq!("0.000", Fraction::from_int(0).to_decimal(3));
    assert_eq!(
        "340282366920938463463374607431768211455.0",
        Fraction::from_int(u128::MAX).to_decimal(1)
    );
    assert_eq!("1.00", Fraction::new(999, 1000).unwrap().to_decimal(2));
    assert_eq!("0.99", Fraction::new(994, 1000).unwrap().to_decimal(2));
    assert_eq!("0.12", Fraction::new(1, 8).unwrap().to_decimal(2));
    assert_eq!("0.38", Fraction::new(3, 8).unwrap().to_decimal(2));
}

#[test]
fn fraction_from_text() {
    assert_eq!(Fraction::new(3, 2), Fraction::from_str("1.5").ok());
    assert_eq!(Fraction::new(3, 2), "1.50".parse::<Fraction>().ok());
    assert_eq!(Fraction::new(3, 2), Fraction::from_str("+01.5").ok());
    assert_eq!(Ok(Fraction::from_int(42)), Fraction::from_str("42"));
    assert_eq!(Ok(Fraction::from_int(42)), Fraction::from_str("42."));
    assert_eq!(Fraction::new(1, 4), Fraction::from_str(".25").ok());
    assert_eq!(Ok(Fraction::from_int(0)), Fraction::from_str("-0.0"));
    assert_eq!(
        Ok(Fraction::from_int(u128::MAX)),
        Fraction::from_str("340282366920938463463374607431768211455")
    );
    assert_eq!(
        Fraction::new(1, 100000000000000000000000000000000000000),
        Fraction::from_str("0.00000000000000000000000000000000000001").ok()
    );
    let invalid = Err(ParseError {
        kind: ParseErrorKind::InvalidValue,
    });
    for text in ["", ".", "+", "-", "1,5", "1e5", "1.2.3", " 1", "1 ", "0x10", "١"] {
        assert_eq!(invalid, Fraction::from_str(text), "{:?}", text);
    }
    let overflow = Err(ParseError {
        kind: ParseErrorKind::ValueOverflow,
    });
    for text in [
        "-1",
        "-0.5",
        "340282366920938463463374607431768211456",
        "34028236692093846346337460743176821145.50",
        "0.000000000000000000000000000000000000001",
        "1.000000000000000000000000000000000000000",
    ] {
        assert_eq!(overflow, Fraction::from_str(text), "{:?}", text);
    }
}

#[test]
fn digits_in_groups_of_three() {
    let none: Vec<String> = Vec::new();
    assert_eq!(none, thsep(""));
    assert_eq!(vec!["5"], thsep("5"));
    assert_eq!(vec!["503"], thsep("503"));
    assert_eq!(vec!["405", "503"], thsep("405503"));
    assert_eq!(vec!["1", "234", "567"], thsep("1234567"));
    assert_eq!(vec!["12", "345", "678"], thsep("12345678"));
}
