//! What holds of the library as a whole, proved from what its functions
//! state.

use crate::bytesize::ByteSize;
use crate::decimal::{
    all_digits, behind_part, digits, find_dot, has_minus, is_number, lemma_digits, lemma_find_dot,
    sign_len, spec_read_number, whole_part,
};
use crate::directive::Directive;
use crate::error::ParseError;
use crate::fraction::Fraction;
use crate::flags::Mode;
use crate::gcd::{
    gcd, lemma_gcd_divides, lemma_gcd_of_divisor, lemma_gcd_one, lemma_gcd_symmetric,
    lemma_mod_multiple, lemma_multiple_mod, lemma_reduced,
};
use crate::parse::{
    ends_number, find_boundary, find_text, lemma_find_boundary, lemma_find_text,
    lemma_without_commas, strip_grouping, trim_start,
};
use crate::prefix::UnitPrefix;
use crate::repr::{ByteSizeRepr, ReprFormat};
use crate::sizes::{
    lemma_all_rising, lemma_binary_rising, lemma_bits_rising, lemma_bytes_rising,
    lemma_decimal_rising, lemma_noprefix_rising, lemma_prefixed_rising, lemma_rising, rising,
    spec_all, spec_binary, spec_bits, spec_bytes, spec_decimal, spec_noprefix, spec_prefixed,
};
use crate::text::{alphabetic, is_digit, spaces, whitespace};
use crate::unit::{spec_variant_start, SizeVariant, Unit};
use core::cmp::Ordering;
use vstd::arithmetic::power::pow;
use vstd::prelude::*;
use vstd::std_specs::cmp::PartialOrdSpec;
use vstd::std_specs::convert::FromSpec;

verus! {

/// The two families of prefixes are dual: the counterpart of a prefix in one
/// family is the same whether it is taken from the prefix or from its
/// counterpart in the other family, and a counterpart stays at the step of
/// the prefix.
pub proof fn law_prefix_families_dual(prefix: UnitPrefix)
    ensures
        prefix.spec_decimal().spec_binary() == prefix.spec_binary(),
        prefix.spec_binary().spec_decimal() == prefix.spec_decimal(),
        prefix.spec_decimal().spec_decimal() == prefix.spec_decimal(),
        prefix.spec_binary().spec_binary() == prefix.spec_binary(),
        prefix.spec_decimal().spec_is_decimal(),
        prefix.spec_binary().spec_is_binary(),
        prefix.spec_decimal().spec_index() == prefix.spec_index(),
        prefix.spec_binary().spec_index() == prefix.spec_index(),
        prefix.spec_is_decimal() ==> prefix.spec_decimal() == prefix,
        prefix.spec_is_binary() ==> prefix.spec_binary() == prefix,
{
}

/// The duality of the families carries over to units: the size variant is
/// kept, and a unit without a prefix is its own counterpart.
pub proof fn law_unit_families_dual(unit: Unit)
    ensures
        unit.spec_decimal().spec_binary() == unit.spec_binary(),
        unit.spec_binary().spec_decimal() == unit.spec_decimal(),
        unit.spec_decimal().1 == unit.1,
        unit.spec_binary().1 == unit.1,
        !unit.spec_is_prefixed() ==> unit.spec_decimal() == unit && unit.spec_binary() == unit,
{
    if unit.0 is Some {
        law_prefix_families_dual(unit.0->0);
    }
}

/// Each group of well-known units rises: taken in its order, each unit is
/// smaller than the next, and so smaller than every unit after it.
pub proof fn law_groups_rise()
    ensures
        rising(spec_noprefix()),
        rising(spec_decimal()),
        rising(spec_binary()),
        rising(spec_bits()),
        rising(spec_bytes()),
        rising(spec_prefixed()),
        rising(spec_all()),
        forall|i: int, j: int|
            0 <= i < j < spec_all().len() ==> spec_all()[i].spec_effective_value()
                < spec_all()[j].spec_effective_value(),
{
    lemma_noprefix_rising();
    lemma_decimal_rising();
    lemma_binary_rising();
    lemma_bits_rising();
    lemma_bytes_rising();
    lemma_prefixed_rising();
    lemma_all_rising();
    assert forall|i: int, j: int| 0 <= i < j < spec_all().len() implies spec_all()[i].spec_effective_value()
        < spec_all()[j].spec_effective_value() by {
        lemma_rising(spec_all(), i, j);
    }
}

/// The place of a unit among all the well-known units, by rising size.
pub open spec fn rank(unit: Unit) -> int {
    match unit.0 {
        None => if unit.spec_is_bit() {
            0
        } else {
            1
        },
        Some(prefix) => 2 + 4 * prefix.spec_index() + (if prefix.spec_is_binary() {
            1int
        } else {
            0int
        }) + (if unit.spec_is_byte() {
            2int
        } else {
            0int
        }),
    }
}

/// Every unit is one of the well-known units, at the place of its rank.
pub proof fn lemma_unit_is_well_known(unit: Unit)
    ensures
        0 <= rank(unit) < spec_all().len(),
        spec_all()[rank(unit)] == unit,
{
    let all = spec_all();
    match unit.0 {
        None => {
            assert(all[0] == Unit(None, SizeVariant::Bit));
            assert(all[1] == Unit(None, SizeVariant::Byte));
        },
        Some(prefix) => {
            let k = prefix.spec_index();
            if k == 0 {
                assert(all[2].0 == Some(UnitPrefix::Kilo) && all[3].0 == Some(UnitPrefix::Kibi));
                assert(all[4].1 == SizeVariant::Byte && all[5].1 == SizeVariant::Byte);
            } else if k == 1 {
                assert(all[6].0 == Some(UnitPrefix::Mega) && all[7].0 == Some(UnitPrefix::Mebi));
                assert(all[8].1 == SizeVariant::Byte && all[9].1 == SizeVariant::Byte);
            } else if k == 2 {
                assert(all[10].0 == Some(UnitPrefix::Giga) && all[11].0 == Some(UnitPrefix::Gibi));
                assert(all[12].1 == SizeVariant::Byte && all[13].1 == SizeVariant::Byte);
            } else if k == 3 {
                assert(all[14].0 == Some(UnitPrefix::Tera) && all[15].0 == Some(UnitPrefix::Tebi));
                assert(all[16].1 == SizeVariant::Byte && all[17].1 == SizeVariant::Byte);
            } else if k == 4 {
                assert(all[18].0 == Some(UnitPrefix::Peta) && all[19].0 == Some(UnitPrefix::Pebi));
                assert(all[20].1 == SizeVariant::Byte && all[21].1 == SizeVariant::Byte);
            } else if k == 5 {
                assert(all[22].0 == Some(UnitPrefix::Exa) && all[23].0 == Some(UnitPrefix::Exbi));
                assert(all[24].1 == SizeVariant::Byte && all[25].1 == SizeVariant::Byte);
            } else if k == 6 {
                assert(all[26].0 == Some(UnitPrefix::Zetta) && all[27].0 == Some(
                    UnitPrefix::Zebi,
                ));
                assert(all[28].1 == SizeVariant::Byte && all[29].1 == SizeVariant::Byte);
            } else {
                assert(all[30].0 == Some(UnitPrefix::Yotta) && all[31].0 == Some(
                    UnitPrefix::Yobi,
                ));
                assert(all[32].1 == SizeVariant::Byte && all[33].1 == SizeVariant::Byte);
            }
        },
    }
}

/// The order of units is total and agrees with their equality: units are
/// ordered as the bits in one of them are, and no two units hold as many
/// bits, so of two units one is the smaller or they are the same.
pub proof fn law_unit_order_total(a: Unit, b: Unit)
    ensures
        (a.spec_effective_value() == b.spec_effective_value()) == (a == b),
        (a.partial_cmp_spec(&b) == Some(Ordering::Equal)) == (a == b),
        (a.partial_cmp_spec(&b) == Some(Ordering::Less)) == (b.partial_cmp_spec(&a) == Some(
            Ordering::Greater,
        )),
        (a.spec_effective_value() < b.spec_effective_value()) == (rank(a) < rank(b)),
{
    lemma_unit_is_well_known(a);
    lemma_unit_is_well_known(b);
    lemma_all_rising();
    if rank(a) < rank(b) {
        lemma_rising(spec_all(), rank(a), rank(b));
    }
    if rank(b) < rank(a) {
        lemma_rising(spec_all(), rank(b), rank(a));
    }
}

/// Bytes and bits are exact: a count of bytes that can be held is eight
/// times as many bits, and eight times as many bits are that count of bytes
/// again.
pub proof fn law_bytes_bits_exact(n: u128)
    requires
        n * 8 <= u128::MAX,
    ensures
        ByteSize::spec_from_bytes(n) is Ok,
        ByteSize::spec_from_bytes(n)->Ok_0.spec_bits() == n * 8,
        ByteSize::spec_from_bits((n * 8) as u128).spec_bytes() == Ok::<u128, ParseError>(n),
        ByteSize::spec_from_bytes(n) == Ok::<ByteSize, ParseError>(
            ByteSize::spec_from_bits((n * 8) as u128),
        ),
{
}

/// The short symbols, character by character.
pub proof fn lemma_short_symbols()
    ensures
        ""@ == Seq::<char>::empty(),
        "b"@ == seq!['b'],
        "B"@ == seq!['B'],
        "k"@ == seq!['k'],
        "K"@ == seq!['K'],
        "Ki"@ == seq!['K', 'i'],
        "M"@ == seq!['M'],
        "Mi"@ == seq!['M', 'i'],
        "G"@ == seq!['G'],
        "Gi"@ == seq!['G', 'i'],
        "T"@ == seq!['T'],
        "Ti"@ == seq!['T', 'i'],
        "P"@ == seq!['P'],
        "Pi"@ == seq!['P', 'i'],
        "E"@ == seq!['E'],
        "Ei"@ == seq!['E', 'i'],
        "Z"@ == seq!['Z'],
        "Zi"@ == seq!['Z', 'i'],
        "Y"@ == seq!['Y'],
        "Yi"@ == seq!['Y', 'i'],
{
    reveal_strlit("");
    assert(""@ =~= Seq::<char>::empty());
    reveal_strlit("b");
    assert("b"@ =~= seq!['b']);
    reveal_strlit("B");
    assert("B"@ =~= seq!['B']);
    reveal_strlit("k");
    assert("k"@ =~= seq!['k']);
    reveal_strlit("K");
    assert("K"@ =~= seq!['K']);
    reveal_strlit("Ki");
    assert("Ki"@ =~= seq!['K', 'i']);
    reveal_strlit("M");
    assert("M"@ =~= seq!['M']);
    reveal_strlit("Mi");
    assert("Mi"@ =~= seq!['M', 'i']);
    reveal_strlit("G");
    assert("G"@ =~= seq!['G']);
    reveal_strlit("Gi");
    assert("Gi"@ =~= seq!['G', 'i']);
    reveal_strlit("T");
    assert("T"@ =~= seq!['T']);
    reveal_strlit("Ti");
    assert("Ti"@ =~= seq!['T', 'i']);
    reveal_strlit("P");
    assert("P"@ =~= seq!['P']);
    reveal_strlit("Pi");
    assert("Pi"@ =~= seq!['P', 'i']);
    reveal_strlit("E");
    assert("E"@ =~= seq!['E']);
    reveal_strlit("Ei");
    assert("Ei"@ =~= seq!['E', 'i']);
    reveal_strlit("Z");
    assert("Z"@ =~= seq!['Z']);
    reveal_strlit("Zi");
    assert("Zi"@ =~= seq!['Z', 'i']);
    reveal_strlit("Y");
    assert("Y"@ =~= seq!['Y']);
    reveal_strlit("Yi");
    assert("Yi"@ =~= seq!['Y', 'i']);
}

/// The short symbol of a prefix reads as the prefix.
pub proof fn lemma_prefix_symbol_reads(prefix: UnitPrefix)
    ensures
        prefix.spec_symbol().len() > 0,
        prefix.spec_symbol().len() <= 2,
        alphabetic(prefix.spec_symbol()[0]),
        !whitespace(prefix.spec_symbol()[0]),
        UnitPrefix::spec_from_short(prefix.spec_symbol()) == Some(prefix),
        UnitPrefix::spec_from_str(prefix.spec_symbol()) == Ok::<UnitPrefix, ParseError>(prefix),
{
    lemma_short_symbols();
    if prefix == UnitPrefix::Kilo {
        assert(prefix.spec_symbol() =~= seq!['K']);
    } else if prefix == UnitPrefix::Kibi {
        assert(prefix.spec_symbol() =~= seq!['K', 'i']);
    } else if prefix == UnitPrefix::Mega {
        assert(prefix.spec_symbol() =~= seq!['M']);
    } else if prefix == UnitPrefix::Mebi {
        assert(prefix.spec_symbol() =~= seq!['M', 'i']);
    } else if prefix == UnitPrefix::Giga {
        assert(prefix.spec_symbol() =~= seq!['G']);
    } else if prefix == UnitPrefix::Gibi {
        assert(prefix.spec_symbol() =~= seq!['G', 'i']);
    } else if prefix == UnitPrefix::Tera {
        assert(prefix.spec_symbol() =~= seq!['T']);
    } else if prefix == UnitPrefix::Tebi {
        assert(prefix.spec_symbol() =~= seq!['T', 'i']);
    } else if prefix == UnitPrefix::Peta {
        assert(prefix.spec_symbol() =~= seq!['P']);
    } else if prefix == UnitPrefix::Pebi {
        assert(prefix.spec_symbol() =~= seq!['P', 'i']);
    } else if prefix == UnitPrefix::Exa {
        assert(prefix.spec_symbol() =~= seq!['E']);
    } else if prefix == UnitPrefix::Exbi {
        assert(prefix.spec_symbol() =~= seq!['E', 'i']);
    } else if prefix == UnitPrefix::Zetta {
        assert(prefix.spec_symbol() =~= seq!['Z']);
    } else if prefix == UnitPrefix::Zebi {
        assert(prefix.spec_symbol() =~= seq!['Z', 'i']);
    } else if prefix == UnitPrefix::Yotta {
        assert(prefix.spec_symbol() =~= seq!['Y']);
    } else if prefix == UnitPrefix::Yobi {
        assert(prefix.spec_symbol() =~= seq!['Y', 'i']);
    }
    let s = prefix.spec_symbol();
    assert(UnitPrefix::spec_from_short(s) == Some(prefix));
    assert(s.len() > 0);
    assert(UnitPrefix::spec_from_short(s) is Some);
    assert(UnitPrefix::spec_from_short(s)->0 == prefix);
}

/// The letter of a size variant reads as the size variant.
pub proof fn lemma_variant_symbol_reads(size_variant: SizeVariant)
    ensures
        size_variant.spec_symbol().len() == 1,
        size_variant.spec_symbol()[0] == 'b' || size_variant.spec_symbol()[0] == 'B',
        SizeVariant::spec_from_str(size_variant.spec_symbol()) == Ok::<SizeVariant, ParseError>(
            size_variant,
        ),
{
    lemma_short_symbols();
}

/// The short symbol of a unit starts with a letter and reads as the unit.
pub proof fn lemma_unit_symbol_reads(unit: Unit)
    ensures
        unit.spec_symbol().len() > 0,
        alphabetic(unit.spec_symbol()[0]),
        !whitespace(unit.spec_symbol()[0]),
        Unit::spec_from_str(unit.spec_symbol()) == Ok::<Unit, ParseError>(unit),
{
    lemma_short_symbols();
    lemma_variant_symbol_reads(unit.1);
    let front = unit.spec_prefix_symbol();
    let letter = unit.1.spec_symbol();
    let s = unit.spec_symbol();
    assert(s == front + letter);
    assert(s.last() == letter[0]);
    assert(spec_variant_start(s) == s.len() - 1);
    assert(s.subrange(s.len() - 1, s.len() as int) =~= letter);
    assert(s.subrange(0, s.len() - 1) =~= front);
    match unit.0 {
        Some(prefix) => {
            lemma_prefix_symbol_reads(prefix);
            assert(s[0] == front[0]);
        },
        None => {
            assert(s =~= letter);
        },
    }
}

/// The digits of a number read as the number.
pub proof fn lemma_digits_read(n: u128)
    ensures
        strip_grouping(digits(n as nat)) == digits(n as nat),
        Fraction::spec_from_str(digits(n as nat)) == Ok::<Fraction, ParseError>(
            Fraction::spec_from_int(n),
        ),
{
    let d = digits(n as nat);
    lemma_digits(n as nat);
    lemma_find_dot(d, 0);
    assert(find_dot(d, 0) == d.len()) by {
        if find_dot(d, 0) < d.len() {
            assert(is_digit(d[find_dot(d, 0)]));
        }
    }
    assert forall|i: int| 0 <= i < d.len() implies d[i] != ',' by {
        assert(is_digit(d[i]));
    }
    lemma_without_commas(d);
    assert(d.subrange(0, d.len() as int) =~= d);
    assert(d.subrange(d.len() as int, d.len() as int) =~= Seq::<char>::empty());
    assert(strip_grouping(d) =~= d);
    assert(is_digit(d[0]));
    assert(sign_len(d) == 0);
    assert(!has_minus(d));
    assert(whole_part(d) =~= d);
    assert(behind_part(d) =~= Seq::<char>::empty());
    assert(whole_part(d) + behind_part(d) =~= d);
    assert(is_number(d));
    reveal_with_fuel(pow, 1);
    assert(pow(10, 0) == 1);
    assert(spec_read_number(d) == Ok::<(u128, u128), ParseError>((n, 1u128)));
    Fraction::lemma_from_int(n);
}

/// A text made of digits, a space and then a text that starts with a letter
/// splits into its number and its unit where the digits end.
pub proof fn lemma_text_splits(number: Seq<char>, unit: Seq<char>)
    requires
        number.len() > 0,
        all_digits(number),
        unit.len() > 0,
        !whitespace(unit[0]),
    ensures
        find_boundary(number + spaces(1) + unit, 0) == number.len(),
        (number + spaces(1) + unit).subrange(0, number.len() as int) == number,
        trim_start(
            (number + spaces(1) + unit).subrange(
                number.len() as int,
                (number + spaces(1) + unit).len() as int,
            ),
        ) == unit,
{
    let s = number + spaces(1) + unit;
    let b = number.len() as int;
    lemma_find_boundary(s, 0);
    assert(s[b] == ' ');
    assert(ends_number(s[b]));
    assert(find_boundary(s, 0) == b) by {
        let r = find_boundary(s, 0);
        if r < b {
            assert(s[r] == number[r]);
            assert(is_digit(number[r]));
        }
    }
    assert(s.subrange(0, b) =~= number);
    let tail = s.subrange(b, s.len() as int);
    assert(tail =~= spaces(1) + unit);
    lemma_find_text(tail, 0);
    assert(tail[0] == ' ');
    assert(tail[1] == unit[0]);
    assert(find_text(tail, 0) == 1) by {
        let r = find_text(tail, 0);
        if r > 1 {
            assert(whitespace(tail[1]));
        }
    }
    assert(tail.subrange(1, tail.len() as int) =~= unit);
}

/// The bits in one of a unit: at least 1, at most 2^83.
pub proof fn lemma_unit_value_bounds(unit: Unit)
    ensures
        1 <= unit.spec_effective_value() <= 0x80000_0000_0000_0000_0000,
{
    crate::prefix::lemma_multipliers();
}

/// A whole magnitude in a unit is a size of that many times the bits of the
/// unit, where they stay in `u128`; and that size in the unit is the
/// magnitude again.
pub proof fn law_whole_sizes_exact(n: u128, unit: Unit)
    requires
        n * unit.spec_effective_value() <= u128::MAX,
    ensures
        ByteSize::spec_of(Fraction::spec_from_int(n), unit).0 == n * unit.spec_effective_value(),
        ByteSize::spec_of(Fraction::spec_from_int(n), unit).spec_repr_as(unit)
            == ByteSizeRepr::spec_of(Fraction::spec_from_int(n), unit),
{
    let per_unit = unit.spec_effective_value();
    lemma_unit_value_bounds(unit);
    let value = Fraction::spec_from_int(n);
    Fraction::lemma_from_int(n);
    lemma_gcd_one(per_unit);
    lemma_gcd_symmetric(1, per_unit);
    Fraction::lemma_mul_int(value, per_unit as u128);
    let size = ByteSize::spec_of(value, unit);
    assert(size.0 == n * per_unit);
    assert(n * per_unit == size.0 * 1) by (nonlinear_arith)
        requires
            size.0 == n * per_unit,
    ;
    Fraction::lemma_new_unique(value, size.0, per_unit as u128);
}

/// A size round-trips through its text: for every unit and every whole
/// magnitude that gives a size in that unit without leaving `u128`, the size
/// written in that unit, in the default style, reads back as the same size.
pub proof fn law_round_trip(n: u128, unit: Unit)
    requires
        n * unit.spec_effective_value() <= u128::MAX,
    ensures
        ByteSize::spec_from_str(
            ByteSize::spec_of(Fraction::spec_from_int(n), unit).spec_repr_as(unit).spec_fmt(
                &Directive::spec_none(),
            ),
        ) == Ok::<ByteSize, ParseError>(ByteSize::spec_of(Fraction::spec_from_int(n), unit)),
        ByteSize::spec_of(Fraction::spec_from_int(n), unit).spec_repr_as(unit).spec_fmt(
            &Directive::spec_none(),
        ) == digits(n as nat) + spaces(1) + unit.spec_symbol(),
{
    let value = Fraction::spec_from_int(n);
    let size = ByteSize::spec_of(value, unit);
    let repr = size.spec_repr_as(unit);
    let none = Directive::spec_none();
    law_whole_sizes_exact(n, unit);
    Fraction::lemma_from_int(n);
    assert(repr.0 == value && repr.1 == unit && repr.2 == ReprFormat::spec_default());
    assert(value.spec_is_whole());
    assert(!repr.spec_shows_fraction(&none));
    assert(value.spec_trunc() == n);
    assert(repr.spec_whole(&none) == n);
    assert(repr.spec_number_text(&none) == digits(n as nat));
    assert(repr.spec_gap() == spaces(1));
    assert(repr.spec_unit_text(&none) == unit.spec_symbol());
    let text = repr.spec_fmt(&none);
    assert(text == digits(n as nat) + spaces(1) + unit.spec_symbol());
    lemma_digits(n as nat);
    lemma_unit_symbol_reads(unit);
    lemma_text_splits(digits(n as nat), unit.spec_symbol());
    lemma_digits_read(n);
    assert(text.len() > 0);
    assert(find_boundary(text, 0) != text.len());
}

/// The bits in one of the unit at a step of a mode's ladder: the bits of
/// what the mode counts, times its base to the power of the step.
pub proof fn lemma_unit_at_value(mode: Mode, step: nat)
    requires
        step <= 8,
    ensures
        ByteSize::spec_unit_at(mode, step).spec_effective_value() == ByteSize::spec_per_unit(mode)
            * pow(ByteSize::spec_base(mode) as int, step),
{
    crate::prefix::lemma_multipliers();
    reveal_with_fuel(pow, 1);
    if step == 0 {
    } else if step == 1 {
    } else if step == 2 {
    } else if step == 3 {
    } else if step == 4 {
    } else if step == 5 {
    } else if step == 6 {
    } else if step == 7 {
    } else {
    }
}

/// The step that a mode picks is one of its ladder.
pub proof fn lemma_step_bound(bits: nat, per_unit: nat, base: nat, top: nat)
    ensures
        crate::bytesize::spec_largest_step(bits, per_unit, base, top) <= top,
    decreases top,
{
    if top > 0 {
        lemma_step_bound(bits, per_unit, base, (top - 1) as nat);
    }
}

/// What a mode picks for a size is the size in the unit that the mode picks:
/// the unit at the largest step of the mode's ladder that the size reaches.
pub proof fn law_repr_is_repr_as(size: ByteSize, mode: Mode)
    ensures
        size.spec_repr(mode) == size.spec_repr_as(
            ByteSize::spec_unit_at(mode, size.spec_step(mode)),
        ),
        size.spec_step(mode) <= 8,
{
    lemma_step_bound(
        size.0 as nat,
        ByteSize::spec_per_unit(mode) as nat,
        ByteSize::spec_base(mode) as nat,
        ByteSize::spec_top(mode),
    );
    lemma_unit_at_value(mode, size.spec_step(mode));
}

/// A size is recovered from what it is in any unit: the magnitude of a size
/// in a unit, taken in that unit, is the size again.
pub proof fn law_size_recovered(size: ByteSize, unit: Unit)
    ensures
        ByteSize::spec_of(size.spec_repr_as(unit).0, unit) == size,
        ByteSize::from_spec(size.spec_repr_as(unit)) == size,
{
    let per_unit = unit.spec_effective_value();
    lemma_unit_value_bounds(unit);
    Fraction::lemma_new(size.0, per_unit as u128);
    let value = size.spec_repr_as(unit).0;
    let n = value.spec_numer() as nat;
    let d = value.spec_denom() as nat;
    let g = gcd(size.0 as nat, per_unit);
    lemma_reduced(size.0 as nat, per_unit);
    lemma_gcd_divides(size.0 as nat, per_unit);
    assert(n * g == size.0 && d * g == per_unit);
    assert(g * d == d * g) by (nonlinear_arith);
    lemma_multiple_mod(g, d);
    lemma_gcd_of_divisor(d, per_unit);
    lemma_mod_multiple(per_unit, d);
    assert(per_unit / d == g) by (nonlinear_arith)
        requires
            per_unit == (per_unit / d) * d,
            per_unit == d * g,
            d > 0,
    ;
    Fraction::lemma_mul_int(value, per_unit as u128);
    assert(n * per_unit == size.0 * d) by (nonlinear_arith)
        requires
            n * g == size.0,
            d * g == per_unit,
    ;
    vstd::arithmetic::div_mod::lemma_div_multiples_vanish(size.0 as int, d as int);
    assert(size.0 * d == d * size.0) by (nonlinear_arith);
}

} // verus!
