//! The well-known units, by name and in groups.
//!
//! Each unit is a function without arguments, named as the unit is written
//! in capitals; so is each group, which gives its units by rising size.

#![allow(non_snake_case)]

use crate::prefix::{lemma_multipliers, UnitPrefix};
use crate::unit::{SizeVariant, Unit};
use vstd::prelude::*;

verus! {

/// The bit.
#[verifier::allow_in_spec]
pub fn BIT() -> Unit
    returns
        Unit(None, SizeVariant::Bit),
{
    Unit(None, SizeVariant::Bit)
}

/// The byte.
#[verifier::allow_in_spec]
pub fn BYTE() -> Unit
    returns
        Unit(None, SizeVariant::Byte),
{
    Unit(None, SizeVariant::Byte)
}

/// The kilobit.
#[verifier::allow_in_spec]
pub fn KILO_BIT() -> Unit
    returns
        Unit(Some(UnitPrefix::Kilo), SizeVariant::Bit),
{
    Unit(Some(UnitPrefix::Kilo), SizeVariant::Bit)
}

/// The megabit.
#[verifier::allow_in_spec]
pub fn MEGA_BIT() -> Unit
    returns
        Unit(Some(UnitPrefix::Mega), SizeVariant::Bit),
{
    Unit(Some(UnitPrefix::Mega), SizeVariant::Bit)
}

/// The gigabit.
#[verifier::allow_in_spec]
pub fn GIGA_BIT() -> Unit
    returns
        Unit(Some(UnitPrefix::Giga), SizeVariant::Bit),
{
    Unit(Some(UnitPrefix::Giga), SizeVariant::Bit)
}

/// The terabit.
#[verifier::allow_in_spec]
pub fn TERA_BIT() -> Unit
    returns
        Unit(Some(UnitPrefix::Tera), SizeVariant::Bit),
{
    Unit(Some(UnitPrefix::Tera), SizeVariant::Bit)
}

/// The petabit.
#[verifier::allow_in_spec]
pub fn PETA_BIT() -> Unit
    returns
        Unit(Some(UnitPrefix::Peta), SizeVariant::Bit),
{
    Unit(Some(UnitPrefix::Peta), SizeVariant::Bit)
}

/// The exabit.
#[verifier::allow_in_spec]
pub fn EXA_BIT() -> Unit
    returns
        Unit(Some(UnitPrefix::Exa), SizeVariant::Bit),
{
    Unit(Some(UnitPrefix::Exa), SizeVariant::Bit)
}

/// The zettabit.
#[verifier::allow_in_spec]
pub fn ZETTA_BIT() -> Unit
    returns
        Unit(Some(UnitPrefix::Zetta), SizeVariant::Bit),
{
    Unit(Some(UnitPrefix::Zetta), SizeVariant::Bit)
}

/// The yottabit.
#[verifier::allow_in_spec]
pub fn YOTTA_BIT() -> Unit
    returns
        Unit(Some(UnitPrefix::Yotta), SizeVariant::Bit),
{
    Unit(Some(UnitPrefix::Yotta), SizeVariant::Bit)
}

/// The kilobyte.
#[verifier::allow_in_spec]
pub fn KILO_BYTE() -> Unit
    returns
        Unit(Some(UnitPrefix::Kilo), SizeVariant::Byte),
{
    Unit(Some(UnitPrefix::Kilo), SizeVariant::Byte)
}

/// The megabyte.
#[verifier::allow_in_spec]
pub fn MEGA_BYTE() -> Unit
    returns
        Unit(Some(UnitPrefix::Mega), SizeVariant::Byte),
{
    Unit(Some(UnitPrefix::Mega), SizeVariant::Byte)
}

/// The gigabyte.
#[verifier::allow_in_spec]
pub fn GIGA_BYTE() -> Unit
    returns
        Unit(Some(UnitPrefix::Giga), SizeVariant::Byte),
{
    Unit(Some(UnitPrefix::Giga), SizeVariant::Byte)
}

/// The terabyte.
#[verifier::allow_in_spec]
pub fn TERA_BYTE() -> Unit
    returns
        Unit(Some(UnitPrefix::Tera), SizeVariant::Byte),
{
    Unit(Some(UnitPrefix::Tera), SizeVariant::Byte)
}

/// The petabyte.
#[verifier::allow_in_spec]
pub fn PETA_BYTE() -> Unit
    returns
        Unit(Some(UnitPrefix::Peta), SizeVariant::Byte),
{
    Unit(Some(UnitPrefix::Peta), SizeVariant::Byte)
}

/// The exabyte.
#[verifier::allow_in_spec]
pub fn EXA_BYTE() -> Unit
    returns
        Unit(Some(UnitPrefix::Exa), SizeVariant::Byte),
{
    Unit(Some(UnitPrefix::Exa), SizeVariant::Byte)
}

/// The zettabyte.
#[verifier::allow_in_spec]
pub fn ZETTA_BYTE() -> Unit
    returns
        Unit(Some(UnitPrefix::Zetta), SizeVariant::Byte),
{
    Unit(Some(UnitPrefix::Zetta), SizeVariant::Byte)
}

/// The yottabyte.
#[verifier::allow_in_spec]
pub fn YOTTA_BYTE() -> Unit
    returns
        Unit(Some(UnitPrefix::Yotta), SizeVariant::Byte),
{
    Unit(Some(UnitPrefix::Yotta), SizeVariant::Byte)
}

/// The kibibit.
#[verifier::allow_in_spec]
pub fn KIBI_BIT() -> Unit
    returns
        Unit(Some(UnitPrefix::Kibi), SizeVariant::Bit),
{
    Unit(Some(UnitPrefix::Kibi), SizeVariant::Bit)
}

/// The mebibit.
#[verifier::allow_in_spec]
pub fn MEBI_BIT() -> Unit
    returns
        Unit(Some(UnitPrefix::Mebi), SizeVariant::Bit),
{
    Unit(Some(UnitPrefix::Mebi), SizeVariant::Bit)
}

/// The gibibit.
#[verifier::allow_in_spec]
pub fn GIBI_BIT() -> Unit
    returns
        Unit(Some(UnitPrefix::Gibi), SizeVariant::Bit),
{
    Unit(Some(UnitPrefix::Gibi), SizeVariant::Bit)
}

/// The tebibit.
#[verifier::allow_in_spec]
pub fn TEBI_BIT() -> Unit
    returns
        Unit(Some(UnitPrefix::Tebi), SizeVariant::Bit),
{
    Unit(Some(UnitPrefix::Tebi), SizeVariant::Bit)
}

/// The pebibit.
#[verifier::allow_in_spec]
pub fn PEBI_BIT() -> Unit
    returns
        Unit(Some(UnitPrefix::Pebi), SizeVariant::Bit),
{
    Unit(Some(UnitPrefix::Pebi), SizeVariant::Bit)
}

/// The exbibit.
#[verifier::allow_in_spec]
pub fn EXBI_BIT() -> Unit
    returns
        Unit(Some(UnitPrefix::Exbi), SizeVariant::Bit),
{
    Unit(Some(UnitPrefix::Exbi), SizeVariant::Bit)
}

/// The zebibit.
#[verifier::allow_in_spec]
pub fn ZEBI_BIT() -> Unit
    returns
        Unit(Some(UnitPrefix::Zebi), SizeVariant::Bit),
{
    Unit(Some(UnitPrefix::Zebi), SizeVariant::Bit)
}

/// The yobibit.
#[verifier::allow_in_spec]
pub fn YOBI_BIT() -> Unit
    returns
        Unit(Some(UnitPrefix::Yobi), SizeVariant::Bit),
{
    Unit(Some(UnitPrefix::Yobi), SizeVariant::Bit)
}

/// The kibibyte.
#[verifier::allow_in_spec]
pub fn KIBI_BYTE() -> Unit
    returns
        Unit(Some(UnitPrefix::Kibi), SizeVariant::Byte),
{
    Unit(Some(UnitPrefix::Kibi), SizeVariant::Byte)
}

/// The mebibyte.
#[verifier::allow_in_spec]
pub fn MEBI_BYTE() -> Unit
    returns
        Unit(Some(UnitPrefix::Mebi), SizeVariant::Byte),
{
    Unit(Some(UnitPrefix::Mebi), SizeVariant::Byte)
}

/// The gibibyte.
#[verifier::allow_in_spec]
pub fn GIBI_BYTE() -> Unit
    returns
        Unit(Some(UnitPrefix::Gibi), SizeVariant::Byte),
{
    Unit(Some(UnitPrefix::Gibi), SizeVariant::Byte)
}

/// The tebibyte.
#[verifier::allow_in_spec]
pub fn TEBI_BYTE() -> Unit
    returns
        Unit(Some(UnitPrefix::Tebi), SizeVariant::Byte),
{
    Unit(Some(UnitPrefix::Tebi), SizeVariant::Byte)
}

/// The pebibyte.
#[verifier::allow_in_spec]
pub fn PEBI_BYTE() -> Unit
    returns
        Unit(Some(UnitPrefix::Pebi), SizeVariant::Byte),
{
    Unit(Some(UnitPrefix::Pebi), SizeVariant::Byte)
}

/// The exbibyte.
#[verifier::allow_in_spec]
pub fn EXBI_BYTE() -> Unit
    returns
        Unit(Some(UnitPrefix::Exbi), SizeVariant::Byte),
{
    Unit(Some(UnitPrefix::Exbi), SizeVariant::Byte)
}

/// The zebibyte.
#[verifier::allow_in_spec]
pub fn ZEBI_BYTE() -> Unit
    returns
        Unit(Some(UnitPrefix::Zebi), SizeVariant::Byte),
{
    Unit(Some(UnitPrefix::Zebi), SizeVariant::Byte)
}

/// The yobibyte.
#[verifier::allow_in_spec]
pub fn YOBI_BYTE() -> Unit
    returns
        Unit(Some(UnitPrefix::Yobi), SizeVariant::Byte),
{
    Unit(Some(UnitPrefix::Yobi), SizeVariant::Byte)
}

/// The units without a prefix, by rising size.
pub open spec fn spec_noprefix() -> Seq<Unit> {
    seq![
        BIT(), BYTE(),
    ]
}

/// The units without a prefix, by rising size.
pub fn NOPREFIX() -> (units: [Unit; 2])
    ensures
        units@ == spec_noprefix(),
{
    let units = [
        BIT(), BYTE(),
    ];
    assert(units@ =~= spec_noprefix());
    units
}

/// The units with a decimal prefix, by rising size.
pub open spec fn spec_decimal() -> Seq<Unit> {
    seq![
        KILO_BIT(), KILO_BYTE(), MEGA_BIT(), MEGA_BYTE(), GIGA_BIT(), GIGA_BYTE(), TERA_BIT(),
        TERA_BYTE(), PETA_BIT(), PETA_BYTE(), EXA_BIT(), EXA_BYTE(), ZETTA_BIT(), ZETTA_BYTE(),
        YOTTA_BIT(), YOTTA_BYTE(),
    ]
}

/// The units with a decimal prefix, by rising size.
pub fn DECIMAL() -> (units: [Unit; 16])
    ensures
        units@ == spec_decimal(),
{
    let units = [
        KILO_BIT(), KILO_BYTE(), MEGA_BIT(), MEGA_BYTE(), GIGA_BIT(), GIGA_BYTE(), TERA_BIT(),
        TERA_BYTE(), PETA_BIT(), PETA_BYTE(), EXA_BIT(), EXA_BYTE(), ZETTA_BIT(), ZETTA_BYTE(),
        YOTTA_BIT(), YOTTA_BYTE(),
    ];
    assert(units@ =~= spec_decimal());
    units
}

/// The units with a binary prefix, by rising size.
pub open spec fn spec_binary() -> Seq<Unit> {
    seq![
        KIBI_BIT(), KIBI_BYTE(), MEBI_BIT(), MEBI_BYTE(), GIBI_BIT(), GIBI_BYTE(), TEBI_BIT(),
        TEBI_BYTE(), PEBI_BIT(), PEBI_BYTE(), EXBI_BIT(), EXBI_BYTE(), ZEBI_BIT(), ZEBI_BYTE(),
        YOBI_BIT(), YOBI_BYTE(),
    ]
}

/// The units with a binary prefix, by rising size.
pub fn BINARY() -> (units: [Unit; 16])
    ensures
        units@ == spec_binary(),
{
    let units = [
        KIBI_BIT(), KIBI_BYTE(), MEBI_BIT(), MEBI_BYTE(), GIBI_BIT(), GIBI_BYTE(), TEBI_BIT(),
        TEBI_BYTE(), PEBI_BIT(), PEBI_BYTE(), EXBI_BIT(), EXBI_BYTE(), ZEBI_BIT(), ZEBI_BYTE(),
        YOBI_BIT(), YOBI_BYTE(),
    ];
    assert(units@ =~= spec_binary());
    units
}

/// The units that count bits, by rising size.
pub open spec fn spec_bits() -> Seq<Unit> {
    seq![
        BIT(), KILO_BIT(), KIBI_BIT(), MEGA_BIT(), MEBI_BIT(), GIGA_BIT(), GIBI_BIT(),
        TERA_BIT(), TEBI_BIT(), PETA_BIT(), PEBI_BIT(), EXA_BIT(), EXBI_BIT(), ZETTA_BIT(),
        ZEBI_BIT(), YOTTA_BIT(), YOBI_BIT(),
    ]
}

/// The units that count bits, by rising size.
pub fn BITS() -> (units: [Unit; 17])
    ensures
        units@ == spec_bits(),
{
    let units = [
        BIT(), KILO_BIT(), KIBI_BIT(), MEGA_BIT(), MEBI_BIT(), GIGA_BIT(), GIBI_BIT(),
        TERA_BIT(), TEBI_BIT(), PETA_BIT(), PEBI_BIT(), EXA_BIT(), EXBI_BIT(), ZETTA_BIT(),
        ZEBI_BIT(), YOTTA_BIT(), YOBI_BIT(),
    ];
    assert(units@ =~= spec_bits());
    units
}

/// The units that count bytes, by rising size.
pub open spec fn spec_bytes() -> Seq<Unit> {
    seq![
        BYTE(), KILO_BYTE(), KIBI_BYTE(), MEGA_BYTE(), MEBI_BYTE(), GIGA_BYTE(), GIBI_BYTE(),
        TERA_BYTE(), TEBI_BYTE(), PETA_BYTE(), PEBI_BYTE(), EXA_BYTE(), EXBI_BYTE(),
        ZETTA_BYTE(), ZEBI_BYTE(), YOTTA_BYTE(), YOBI_BYTE(),
    ]
}

/// The units that count bytes, by rising size.
pub fn BYTES() -> (units: [Unit; 17])
    ensures
        units@ == spec_bytes(),
{
    let units = [
        BYTE(), KILO_BYTE(), KIBI_BYTE(), MEGA_BYTE(), MEBI_BYTE(), GIGA_BYTE(), GIBI_BYTE(),
        TERA_BYTE(), TEBI_BYTE(), PETA_BYTE(), PEBI_BYTE(), EXA_BYTE(), EXBI_BYTE(),
        ZETTA_BYTE(), ZEBI_BYTE(), YOTTA_BYTE(), YOBI_BYTE(),
    ];
    assert(units@ =~= spec_bytes());
    units
}

/// The units with a prefix, by rising size.
pub open spec fn spec_prefixed() -> Seq<Unit> {
    seq![
        KILO_BIT(), KIBI_BIT(), KILO_BYTE(), KIBI_BYTE(), MEGA_BIT(), MEBI_BIT(), MEGA_BYTE(),
        MEBI_BYTE(), GIGA_BIT(), GIBI_BIT(), GIGA_BYTE(), GIBI_BYTE(), TERA_BIT(), TEBI_BIT(),
        TERA_BYTE(), TEBI_BYTE(), PETA_BIT(), PEBI_BIT(), PETA_BYTE(), PEBI_BYTE(), EXA_BIT(),
        EXBI_BIT(), EXA_BYTE(), EXBI_BYTE(), ZETTA_BIT(), ZEBI_BIT(), ZETTA_BYTE(),
        ZEBI_BYTE(), YOTTA_BIT(), YOBI_BIT(), YOTTA_BYTE(), YOBI_BYTE(),
    ]
}

/// The units with a prefix, by rising size.
pub fn PREFIXED() -> (units: [Unit; 32])
    ensures
        units@ == spec_prefixed(),
{
    let units = [
        KILO_BIT(), KIBI_BIT(), KILO_BYTE(), KIBI_BYTE(), MEGA_BIT(), MEBI_BIT(), MEGA_BYTE(),
        MEBI_BYTE(), GIGA_BIT(), GIBI_BIT(), GIGA_BYTE(), GIBI_BYTE(), TERA_BIT(), TEBI_BIT(),
        TERA_BYTE(), TEBI_BYTE(), PETA_BIT(), PEBI_BIT(), PETA_BYTE(), PEBI_BYTE(), EXA_BIT(),
        EXBI_BIT(), EXA_BYTE(), EXBI_BYTE(), ZETTA_BIT(), ZEBI_BIT(), ZETTA_BYTE(),
        ZEBI_BYTE(), YOTTA_BIT(), YOBI_BIT(), YOTTA_BYTE(), YOBI_BYTE(),
    ];
    assert(units@ =~= spec_prefixed());
    units
}

/// Every well-known unit, by rising size.
pub open spec fn spec_all() -> Seq<Unit> {
    seq![
        BIT(), BYTE(), KILO_BIT(), KIBI_BIT(), KILO_BYTE(), KIBI_BYTE(), MEGA_BIT(),
        MEBI_BIT(), MEGA_BYTE(), MEBI_BYTE(), GIGA_BIT(), GIBI_BIT(), GIGA_BYTE(), GIBI_BYTE(),
        TERA_BIT(), TEBI_BIT(), TERA_BYTE(), TEBI_BYTE(), PETA_BIT(), PEBI_BIT(), PETA_BYTE(),
        PEBI_BYTE(), EXA_BIT(), EXBI_BIT(), EXA_BYTE(), EXBI_BYTE(), ZETTA_BIT(), ZEBI_BIT(),
        ZETTA_BYTE(), ZEBI_BYTE(), YOTTA_BIT(), YOBI_BIT(), YOTTA_BYTE(), YOBI_BYTE(),
    ]
}

/// Every well-known unit, by rising size.
pub fn ALL() -> (units: [Unit; 34])
    ensures
        units@ == spec_all(),
{
    let units = [
        BIT(), BYTE(), KILO_BIT(), KIBI_BIT(), KILO_BYTE(), KIBI_BYTE(), MEGA_BIT(),
        MEBI_BIT(), MEGA_BYTE(), MEBI_BYTE(), GIGA_BIT(), GIBI_BIT(), GIGA_BYTE(), GIBI_BYTE(),
        TERA_BIT(), TEBI_BIT(), TERA_BYTE(), TEBI_BYTE(), PETA_BIT(), PEBI_BIT(), PETA_BYTE(),
        PEBI_BYTE(), EXA_BIT(), EXBI_BIT(), EXA_BYTE(), EXBI_BYTE(), ZETTA_BIT(), ZEBI_BIT(),
        ZETTA_BYTE(), ZEBI_BYTE(), YOTTA_BIT(), YOBI_BIT(), YOTTA_BYTE(), YOBI_BYTE(),
    ];
    assert(units@ =~= spec_all());
    units
}

/// Whether each unit of the sequence is smaller than the one after it.
pub open spec fn rising(units: Seq<Unit>) -> bool {
    forall|i: int|
        0 <= i < units.len() - 1 ==> (#[trigger] units[i]).spec_effective_value() < units[i
            + 1].spec_effective_value()
}

/// In a rising sequence, a unit is smaller than every unit after it.
pub proof fn lemma_rising(units: Seq<Unit>, i: int, j: int)
    requires
        rising(units),
        0 <= i < j < units.len(),
    ensures
        units[i].spec_effective_value() < units[j].spec_effective_value(),
    decreases j - i,
{
    if i + 1 < j {
        lemma_rising(units, i, j - 1);
        assert(units[j - 1].spec_effective_value() < units[j - 1 + 1].spec_effective_value());
    } else {
        assert(units[i].spec_effective_value() < units[i + 1].spec_effective_value());
    }
}

/// `NOPREFIX` rises: each of its units is smaller than the next.
pub proof fn lemma_noprefix_rising()
    ensures
        rising(spec_noprefix()),
{
    lemma_multipliers();
    let units = spec_noprefix();
    assert(units[0].spec_effective_value() < units[1].spec_effective_value());
    assert forall|i: int| 0 <= i < units.len() - 1 implies (#[trigger] units[i]).spec_effective_value()
        < units[i + 1].spec_effective_value() by {
        if i == 0 {
        }
    }
}

/// `DECIMAL` rises: each of its units is smaller than the next.
pub proof fn lemma_decimal_rising()
    ensures
        rising(spec_decimal()),
{
    lemma_multipliers();
    let units = spec_decimal();
    assert(units[0].spec_effective_value() < units[1].spec_effective_value());
    assert(units[1].spec_effective_value() < units[2].spec_effective_value());
    assert(units[2].spec_effective_value() < units[3].spec_effective_value());
    assert(units[3].spec_effective_value() < units[4].spec_effective_value());
    assert(units[4].spec_effective_value() < units[5].spec_effective_value());
    assert(units[5].spec_effective_value() < units[6].spec_effective_value());
    assert(units[6].spec_effective_value() < units[7].spec_effective_value());
    assert(units[7].spec_effective_value() < units[8].spec_effective_value());
    assert(units[8].spec_effective_value() < units[9].spec_effective_value());
    assert(units[9].spec_effective_value() < units[10].spec_effective_value());
    assert(units[10].spec_effective_value() < units[11].spec_effective_value());
    assert(units[11].spec_effective_value() < units[12].spec_effective_value());
    assert(units[12].spec_effective_value() < units[13].spec_effective_value());
    assert(units[13].spec_effective_value() < units[14].spec_effective_value());
    assert(units[14].spec_effective_value() < units[15].spec_effective_value());
    assert forall|i: int| 0 <= i < units.len() - 1 implies (#[trigger] units[i]).spec_effective_value()
        < units[i + 1].spec_effective_value() by {
        if i == 0 {
        } else if i == 1 {
        } else if i == 2 {
        } else if i == 3 {
        } else if i == 4 {
        } else if i == 5 {
        } else if i == 6 {
        } else if i == 7 {
        } else if i == 8 {
        } else if i == 9 {
        } else if i == 10 {
        } else if i == 11 {
        } else if i == 12 {
        } else if i == 13 {
        } else if i == 14 {
        }
    }
}

/// `BINARY` rises: each of its units is smaller than the next.
pub proof fn lemma_binary_rising()
    ensures
        rising(spec_binary()),
{
    lemma_multipliers();
    let units = spec_binary();
    assert(units[0].spec_effective_value() < units[1].spec_effective_value());
    assert(units[1].spec_effective_value() < units[2].spec_effective_value());
    assert(units[2].spec_effective_value() < units[3].spec_effective_value());
    assert(units[3].spec_effective_value() < units[4].spec_effective_value());
    assert(units[4].spec_effective_value() < units[5].spec_effective_value());
    assert(units[5].spec_effective_value() < units[6].spec_effective_value());
    assert(units[6].spec_effective_value() < units[7].spec_effective_value());
    assert(units[7].spec_effective_value() < units[8].spec_effective_value());
    assert(units[8].spec_effective_value() < units[9].spec_effective_value());
    assert(units[9].spec_effective_value() < units[10].spec_effective_value());
    assert(units[10].spec_effective_value() < units[11].spec_effective_value());
    assert(units[11].spec_effective_value() < units[12].spec_effective_value());
    assert(units[12].spec_effective_value() < units[13].spec_effective_value());
    assert(units[13].spec_effective_value() < units[14].spec_effective_value());
    assert(units[14].spec_effective_value() < units[15].spec_effective_value());
    assert forall|i: int| 0 <= i < units.len() - 1 implies (#[trigger] units[i]).spec_effective_value()
        < units[i + 1].spec_effective_value() by {
        if i == 0 {
        } else if i == 1 {
        } else if i == 2 {
        } else if i == 3 {
        } else if i == 4 {
        } else if i == 5 {
        } else if i == 6 {
        } else if i == 7 {
        } else if i == 8 {
        } else if i == 9 {
        } else if i == 10 {
        } else if i == 11 {
        } else if i == 12 {
        } else if i == 13 {
        } else if i == 14 {
        }
    }
}

/// `BITS` rises: each of its units is smaller than the next.
pub proof fn lemma_bits_rising()
    ensures
        rising(spec_bits()),
{
    lemma_multipliers();
    let units = spec_bits();
    assert(units[0].spec_effective_value() < units[1].spec_effective_value());
    assert(units[1].spec_effective_value() < units[2].spec_effective_value());
    assert(units[2].spec_effective_value() < units[3].spec_effective_value());
    assert(units[3].spec_effective_value() < units[4].spec_effective_value());
    assert(units[4].spec_effective_value() < units[5].spec_effective_value());
    assert(units[5].spec_effective_value() < units[6].spec_effective_value());
    assert(units[6].spec_effective_value() < units[7].spec_effective_value());
    assert(units[7].spec_effective_value() < units[8].spec_effective_value());
    assert(units[8].spec_effective_value() < units[9].spec_effective_value());
    assert(units[9].spec_effective_value() < units[10].spec_effective_value());
    assert(units[10].spec_effective_value() < units[11].spec_effective_value());
    assert(units[11].spec_effective_value() < units[12].spec_effective_value());
    assert(units[12].spec_effective_value() < units[13].spec_effective_value());
    assert(units[13].spec_effective_value() < units[14].spec_effective_value());
    assert(units[14].spec_effective_value() < units[15].spec_effective_value());
    assert(units[15].spec_effective_value() < units[16].spec_effective_value());
    assert forall|i: int| 0 <= i < units.len() - 1 implies (#[trigger] units[i]).spec_effective_value()
        < units[i + 1].spec_effective_value() by {
        if i == 0 {
        } else if i == 1 {
        } else if i == 2 {
        } else if i == 3 {
        } else if i == 4 {
        } else if i == 5 {
        } else if i == 6 {
        } else if i == 7 {
        } else if i == 8 {
        } else if i == 9 {
        } else if i == 10 {
        } else if i == 11 {
        } else if i == 12 {
        } else if i == 13 {
        } else if i == 14 {
        } else if i == 15 {
        }
    }
}

/// `BYTES` rises: each of its units is smaller than the next.
pub proof fn lemma_bytes_rising()
    ensures
        rising(spec_bytes()),
{
    lemma_multipliers();
    let units = spec_bytes();
    assert(units[0].spec_effective_value() < units[1].spec_effective_value());
    assert(units[1].spec_effective_value() < units[2].spec_effective_value());
    assert(units[2].spec_effective_value() < units[3].spec_effective_value());
    assert(units[3].spec_effective_value() < units[4].spec_effective_value());
    assert(units[4].spec_effective_value() < units[5].spec_effective_value());
    assert(units[5].spec_effective_value() < units[6].spec_effective_value());
    assert(units[6].spec_effective_value() < units[7].spec_effective_value());
    assert(units[7].spec_effective_value() < units[8].spec_effective_value());
    assert(units[8].spec_effective_value() < units[9].spec_effective_value());
    assert(units[9].spec_effective_value() < units[10].spec_effective_value());
    assert(units[10].spec_effective_value() < units[11].spec_effective_value());
    assert(units[11].spec_effective_value() < units[12].spec_effective_value());
    assert(units[12].spec_effective_value() < units[13].spec_effective_value());
    assert(units[13].spec_effective_value() < units[14].spec_effective_value());
    assert(units[14].spec_effective_value() < units[15].spec_effective_value());
    assert(units[15].spec_effective_value() < units[16].spec_effective_value());
    assert forall|i: int| 0 <= i < units.len() - 1 implies (#[trigger] units[i]).spec_effective_value()
        < units[i + 1].spec_effective_value() by {
        if i == 0 {
        } else if i == 1 {
        } else if i == 2 {
        } else if i == 3 {
        } else if i == 4 {
        } else if i == 5 {
        } else if i == 6 {
        } else if i == 7 {
        } else if i == 8 {
        } else if i == 9 {
        } else if i == 10 {
        } else if i == 11 {
        } else if i == 12 {
        } else if i == 13 {
        } else if i == 14 {
        } else if i == 15 {
        }
    }
}

/// `PREFIXED` rises: each of its units is smaller than the next.
pub proof fn lemma_prefixed_rising()
    ensures
        rising(spec_prefixed()),
{
    lemma_multipliers();
    let units = spec_prefixed();
    assert(units[0].spec_effective_value() < units[1].spec_effective_value());
    assert(units[1].spec_effective_value() < units[2].spec_effective_value());
    assert(units[2].spec_effective_value() < units[3].spec_effective_value());
    assert(units[3].spec_effective_value() < units[4].spec_effective_value());
    assert(units[4].spec_effective_value() < units[5].spec_effective_value());
    assert(units[5].spec_effective_value() < units[6].spec_effective_value());
    assert(units[6].spec_effective_value() < units[7].spec_effective_value());
    assert(units[7].spec_effective_value() < units[8].spec_effective_value());
    assert(units[8].spec_effective_value() < units[9].spec_effective_value());
    assert(units[9].spec_effective_value() < units[10].spec_effective_value());
    assert(units[10].spec_effective_value() < units[11].spec_effective_value());
    assert(units[11].spec_effective_value() < units[12].spec_effective_value());
    assert(units[12].spec_effective_value() < units[13].spec_effective_value());
    assert(units[13].spec_effective_value() < units[14].spec_effective_value());
    assert(units[14].spec_effective_value() < units[15].spec_effective_value());
    assert(units[15].spec_effective_value() < units[16].spec_effective_value());
    assert(units[16].spec_effective_value() < units[17].spec_effective_value());
    assert(units[17].spec_effective_value() < units[18].spec_effective_value());
    assert(units[18].spec_effective_value() < units[19].spec_effective_value());
    assert(units[19].spec_effective_value() < units[20].spec_effective_value());
    assert(units[20].spec_effective_value() < units[21].spec_effective_value());
    assert(units[21].spec_effective_value() < units[22].spec_effective_value());
    assert(units[22].spec_effective_value() < units[23].spec_effective_value());
    assert(units[23].spec_effective_value() < units[24].spec_effective_value());
    assert(units[24].spec_effective_value() < units[25].spec_effective_value());
    assert(units[25].spec_effective_value() < units[26].spec_effective_value());
    assert(units[26].spec_effective_value() < units[27].spec_effective_value());
    assert(units[27].spec_effective_value() < units[28].spec_effective_value());
    assert(units[28].spec_effective_value() < units[29].spec_effective_value());
    assert(units[29].spec_effective_value() < units[30].spec_effective_value());
    assert(units[30].spec_effective_value() < units[31].spec_effective_value());
    assert forall|i: int| 0 <= i < units.len() - 1 implies (#[trigger] units[i]).spec_effective_value()
        < units[i + 1].spec_effective_value() by {
        if i == 0 {
        } else if i == 1 {
        } else if i == 2 {
        } else if i == 3 {
        } else if i == 4 {
        } else if i == 5 {
        } else if i == 6 {
        } else if i == 7 {
        } else if i == 8 {
        } else if i == 9 {
        } else if i == 10 {
        } else if i == 11 {
        } else if i == 12 {
        } else if i == 13 {
        } else if i == 14 {
        } else if i == 15 {
        } else if i == 16 {
        } else if i == 17 {
        } else if i == 18 {
        } else if i == 19 {
        } else if i == 20 {
        } else if i == 21 {
        } else if i == 22 {
        } else if i == 23 {
        } else if i == 24 {
        } else if i == 25 {
        } else if i == 26 {
        } else if i == 27 {
        } else if i == 28 {
        } else if i == 29 {
        } else if i == 30 {
        }
    }
}

/// `ALL` rises: each of its units is smaller than the next.
pub proof fn lemma_all_rising()
    ensures
        rising(spec_all()),
{
    lemma_multipliers();
    let units = spec_all();
    assert(units[0].spec_effective_value() < units[1].spec_effective_value());
    assert(units[1].spec_effective_value() < units[2].spec_effective_value());
    assert(units[2].spec_effective_value() < units[3].spec_effective_value());
    assert(units[3].spec_effective_value() < units[4].spec_effective_value());
    assert(units[4].spec_effective_value() < units[5].spec_effective_value());
    assert(units[5].spec_effective_value() < units[6].spec_effective_value());
    assert(units[6].spec_effective_value() < units[7].spec_effective_value());
    assert(units[7].spec_effective_value() < units[8].spec_effective_value());
    assert(units[8].spec_effective_value() < units[9].spec_effective_value());
    assert(units[9].spec_effective_value() < units[10].spec_effective_value());
    assert(units[10].spec_effective_value() < units[11].spec_effective_value());
    assert(units[11].spec_effective_value() < units[12].spec_effective_value());
    assert(units[12].spec_effective_value() < units[13].spec_effective_value());
    assert(units[13].spec_effective_value() < units[14].spec_effective_value());
    assert(units[14].spec_effective_value() < units[15].spec_effective_value());
    assert(units[15].spec_effective_value() < units[16].spec_effective_value());
    assert(units[16].spec_effective_value() < units[17].spec_effective_value());
    assert(units[17].spec_effective_value() < units[18].spec_effective_value());
    assert(units[18].spec_effective_value() < units[19].spec_effective_value());
    assert(units[19].spec_effective_value() < units[20].spec_effective_value());
    assert(units[20].spec_effective_value() < units[21].spec_effective_value());
    assert(units[21].spec_effective_value() < units[22].spec_effective_value());
    assert(units[22].spec_effective_value() < units[23].spec_effective_value());
    assert(units[23].spec_effective_value() < units[24].spec_effective_value());
    assert(units[24].spec_effective_value() < units[25].spec_effective_value());
    assert(units[25].spec_effective_value() < units[26].spec_effective_value());
    assert(units[26].spec_effective_value() < units[27].spec_effective_value());
    assert(units[27].spec_effective_value() < units[28].spec_effective_value());
    assert(units[28].spec_effective_value() < units[29].spec_effective_value());
    assert(units[29].spec_effective_value() < units[30].spec_effective_value());
    assert(units[30].spec_effective_value() < units[31].spec_effective_value());
    assert(units[31].spec_effective_value() < units[32].spec_effective_value());
    assert(units[32].spec_effective_value() < units[33].spec_effective_value());
    assert forall|i: int| 0 <= i < units.len() - 1 implies (#[trigger] units[i]).spec_effective_value()
        < units[i + 1].spec_effective_value() by {
        if i == 0 {
        } else if i == 1 {
        } else if i == 2 {
        } else if i == 3 {
        } else if i == 4 {
        } else if i == 5 {
        } else if i == 6 {
        } else if i == 7 {
        } else if i == 8 {
        } else if i == 9 {
        } else if i == 10 {
        } else if i == 11 {
        } else if i == 12 {
        } else if i == 13 {
        } else if i == 14 {
        } else if i == 15 {
        } else if i == 16 {
        } else if i == 17 {
        } else if i == 18 {
        } else if i == 19 {
        } else if i == 20 {
        } else if i == 21 {
        } else if i == 22 {
        } else if i == 23 {
        } else if i == 24 {
        } else if i == 25 {
        } else if i == 26 {
        } else if i == 27 {
        } else if i == 28 {
        } else if i == 29 {
        } else if i == 30 {
        } else if i == 31 {
        } else if i == 32 {
        }
    }
}

} // verus!
