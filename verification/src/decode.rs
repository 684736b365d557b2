//! The inbound decoder: interchange columns to internal arrays.
//!
//! Each column is decoded against its field. A field carrying an
//! extension tag is dispatched on the tag before the physical type
//! switch; an unknown tag is an error, never a silent fallback to plain
//! text, and a tag whose carrier is not a string type is a mismatch.
//! Untagged fields dispatch on the physical type, accepting the
//! large-offset string and binary variants, widening list offsets back to
//! the internal width, and rebuilding struct sub-fields from the field
//! metadata.

use vstd::prelude::*;
use vstd::string::StringSliceAdditionalSpecFns;

use crate::array::{opt_match, opt_rel, Array, ListArray, StructArray};
use crate::decimal::{
    dec_decode, dec_parse_pins, decimal_from_text, Decimal, DecimalNum, MAX_DEC_MANTISSA,
};
use crate::error::ConversionError;
use crate::interchange::{ColumnData, Field, PhysicalType};
use crate::jsonb::{json_canon, json_valid, Jsonb};
use crate::scalar::{
    Date, FromIntoArrow, Interval, Time, Timestamp, Timestamptz, UNIX_EPOCH_DAY, USECS_PER_DAY,
};

verus! {

/// The decimal value carried by one 128-bit decimal slot: three reserved
/// values denote the sentinels, every other value is a mantissa at the
/// column's scale.
pub open spec fn dec128_value(y: i128, scale: u32) -> Decimal {
    if y == i128::MIN + 1 {
        Decimal::NaN
    } else if y == i128::MAX {
        Decimal::PositiveInf
    } else if y == i128::MIN {
        Decimal::NegativeInf
    } else {
        Decimal::Normalized(DecimalNum { mantissa: y, scale })
    }
}

/// Whether a 128-bit decimal slot holds a non-sentinel mantissa outside
/// the representable 96-bit range.
pub open spec fn dec128_slot_bad(y: i128) -> bool {
    y != i128::MIN + 1 && y != i128::MAX && y != i128::MIN && !(-MAX_DEC_MANTISSA <= y
        <= MAX_DEC_MANTISSA)
}

/// Whether `a` is the internal column decoded from the interchange
/// column `c` described by the field `f`.
pub open spec fn decodes_to(f: Field, c: ColumnData, a: Array) -> bool
    decreases f, 0int,
{
    match f.extension {
        Some(tag) => {
            if tag@ == crate::mapper::decimal_tag() {
                match (c, a) {
                    (ColumnData::Utf8(w), Array::Decimal(v)) => opt_rel(
                        w@,
                        v@,
                        |s: String, d: Decimal| Some(d) == dec_decode(s@) && dec_parse_pins(s@)
                            && d.wf(),
                    ),
                    _ => false,
                }
            } else if tag@ == crate::mapper::json_tag() {
                match (c, a) {
                    (ColumnData::Utf8(w), Array::Jsonb(v)) => opt_rel(
                        w@,
                        v@,
                        |s: String, j: Jsonb| json_valid(s@) && j@ == json_canon(s@),
                    ),
                    _ => false,
                }
            } else {
                false
            }
        },
        None => match f.data_type {
            PhysicalType::Boolean => (match (c, a) {
                (ColumnData::Boolean(w), Array::Bool(v)) => v@ == w@,
                _ => false,
            }),
            PhysicalType::Int16 => (match (c, a) {
                (ColumnData::Int16(w), Array::Int16(v)) => v@ == w@,
                _ => false,
            }),
            PhysicalType::Int32 => (match (c, a) {
                (ColumnData::Int32(w), Array::Int32(v)) => v@ == w@,
                _ => false,
            }),
            PhysicalType::Int64 => (match (c, a) {
                (ColumnData::Int64(w), Array::Int64(v)) => v@ == w@,
                _ => false,
            }),
            PhysicalType::Float32 => (match (c, a) {
                (ColumnData::Float32(w), Array::Float32(v)) => v@ == w@,
                _ => false,
            }),
            PhysicalType::Float64 => (match (c, a) {
                (ColumnData::Float64(w), Array::Float64(v)) => v@ == w@,
                _ => false,
            }),
            PhysicalType::Decimal256(_, _) => (match (c, a) {
                (ColumnData::Decimal256(w), Array::Int256(v)) => v@ == w@,
                _ => false,
            }),
            PhysicalType::Decimal128(_, scale) => (match (c, a) {
                (ColumnData::Decimal128(w), Array::Decimal(v)) => 0 <= scale as int <= 28
                    && opt_rel(
                    w@,
                    v@,
                    |y: i128, d: Decimal| !dec128_slot_bad(y) && d == dec128_value(
                        y,
                        scale as u32,
                    ),
                ),
                _ => false,
            }),
            PhysicalType::Date32 => (match (c, a) {
                (ColumnData::Date32(w), Array::Date(v)) => opt_rel(
                    w@,
                    v@,
                    |y: i32, d: Date| y <= i32::MAX - UNIX_EPOCH_DAY && d == Date::of_arrow(y),
                ),
                _ => false,
            }),
            PhysicalType::Time64(u) => u is Microsecond && (match (c, a) {
                (ColumnData::Time64(w), Array::Time(v)) => opt_rel(
                    w@,
                    v@,
                    |y: i64, t: Time| 0 <= y < USECS_PER_DAY && t == Time::of_arrow(y),
                ),
                _ => false,
            }),
            PhysicalType::Timestamp(u, z) => u is Microsecond && (match z {
                Some(_) => (match (c, a) {
                    (ColumnData::Timestamp(w), Array::Timestamptz(v)) => opt_rel(
                        w@,
                        v@,
                        |y: i64, t: Timestamptz| t == Timestamptz::of_arrow(y),
                    ),
                    _ => false,
                }),
                None => (match (c, a) {
                    (ColumnData::Timestamp(w), Array::Timestamp(v)) => opt_rel(
                        w@,
                        v@,
                        |y: i64, t: Timestamp| t == Timestamp::of_arrow(y),
                    ),
                    _ => false,
                }),
            }),
            PhysicalType::Interval(u) => u is MonthDayNano && (match (c, a) {
                (ColumnData::Interval(w), Array::Interval(v)) => opt_rel(
                    w@,
                    v@,
                    |y: i128, iv: Interval| iv == Interval::of_arrow(y) && iv.wf(),
                ),
                _ => false,
            }),
            PhysicalType::Utf8 => (match (c, a) {
                (ColumnData::Utf8(w), Array::Utf8(v)) => opt_rel(
                    w@,
                    v@,
                    |s: String, t: String| t@ == s@,
                ),
                _ => false,
            }),
            PhysicalType::LargeUtf8 => (match (c, a) {
                (ColumnData::LargeUtf8(w), Array::Utf8(v)) => opt_rel(
                    w@,
                    v@,
                    |s: String, t: String| t@ == s@,
                ),
                _ => false,
            }),
            PhysicalType::Binary => (match (c, a) {
                (ColumnData::Binary(w), Array::Bytea(v)) => opt_rel(
                    w@,
                    v@,
                    |s: Vec<u8>, t: Vec<u8>| t@ == s@,
                ),
                _ => false,
            }),
            PhysicalType::LargeBinary => (match (c, a) {
                (ColumnData::LargeBinary(w), Array::Bytea(v)) => opt_rel(
                    w@,
                    v@,
                    |s: Vec<u8>, t: Vec<u8>| t@ == s@,
                ),
                _ => false,
            }),
            PhysicalType::List(inner) => (match (c, a) {
                (ColumnData::List(lc), Array::List(l)) => {
                    &&& l.validity@ == lc.validity@
                    &&& l.offsets@.len() == lc.offsets@.len()
                    &&& forall|i: int|
                        0 <= i < lc.offsets@.len() ==> (#[trigger] l.offsets@[i]) as int
                            == lc.offsets@[i] as int
                    &&& decodes_to(*inner, *lc.values, *l.value)
                },
                _ => false,
            }),
            PhysicalType::Struct(fs) => (match (c, a) {
                (ColumnData::Struct(sc), Array::Struct(s)) => {
                    &&& s.validity@ == sc.validity@
                    &&& s.children@.len() == fs@.len()
                    &&& sc.children@.len() == fs@.len()
                    &&& s.field_names@.len() == fs@.len()
                    &&& forall|i: int|
                        0 <= i < fs@.len() ==> (#[trigger] s.field_names@[i])@ == fs@[i].name@
                    &&& forall|i: int|
                        0 <= i < fs@.len() ==> decodes_to(
                            #[trigger] fs@[i],
                            sc.children@[i],
                            s.children@[i],
                        )
                },
                _ => false,
            }),
            _ => false,
        },
    }
}

/// The error that decoding the column `c` against the field `f` reports,
/// if any: field-level errors first (unknown tag, wrong carrier,
/// unmapped physical type), then a column whose variant does not match
/// the field, then value-level errors; for nested types, the first error
/// in field order.
pub open spec fn decode_err(f: Field, c: ColumnData) -> Option<ConversionError>
    decreases f, 0int,
{
    match f.extension {
        Some(tag) => {
            if tag@ == crate::mapper::decimal_tag() {
                if !(f.data_type is Utf8) {
                    Some(ConversionError::FieldTypeMismatch)
                } else {
                    match c {
                        ColumnData::Utf8(w) => {
                            if exists|i: int|
                                0 <= i < w@.len() && (match #[trigger] w@[i] {
                                    Some(s) => dec_decode(s@) is None,
                                    None => false,
                                }) {
                                Some(ConversionError::TextParseFailure)
                            } else {
                                None
                            }
                        },
                        _ => Some(ConversionError::FieldTypeMismatch),
                    }
                }
            } else if tag@ == crate::mapper::json_tag() {
                if !(f.data_type is Utf8) {
                    Some(ConversionError::FieldTypeMismatch)
                } else {
                    match c {
                        ColumnData::Utf8(w) => {
                            if exists|i: int|
                                0 <= i < w@.len() && (match #[trigger] w@[i] {
                                    Some(s) => !json_valid(s@),
                                    None => false,
                                }) {
                                Some(ConversionError::TextParseFailure)
                            } else {
                                None
                            }
                        },
                        _ => Some(ConversionError::FieldTypeMismatch),
                    }
                }
            } else {
                Some(ConversionError::UnsupportedExtensionTag)
            }
        },
        None => match f.data_type {
            PhysicalType::Boolean => (match c {
                ColumnData::Boolean(_) => None,
                _ => Some(ConversionError::FieldTypeMismatch),
            }),
            PhysicalType::Int16 => (match c {
                ColumnData::Int16(_) => None,
                _ => Some(ConversionError::FieldTypeMismatch),
            }),
            PhysicalType::Int32 => (match c {
                ColumnData::Int32(_) => None,
                _ => Some(ConversionError::FieldTypeMismatch),
            }),
            PhysicalType::Int64 => (match c {
                ColumnData::Int64(_) => None,
                _ => Some(ConversionError::FieldTypeMismatch),
            }),
            PhysicalType::Float32 => (match c {
                ColumnData::Float32(_) => None,
                _ => Some(ConversionError::FieldTypeMismatch),
            }),
            PhysicalType::Float64 => (match c {
                ColumnData::Float64(_) => None,
                _ => Some(ConversionError::FieldTypeMismatch),
            }),
            PhysicalType::Decimal256(_, _) => (match c {
                ColumnData::Decimal256(_) => None,
                _ => Some(ConversionError::FieldTypeMismatch),
            }),
            PhysicalType::Decimal128(_, scale) => (match c {
                ColumnData::Decimal128(w) => {
                    if !(0 <= scale as int <= 28) {
                        Some(ConversionError::UnsupportedNumericConfiguration)
                    } else if exists|i: int|
                        0 <= i < w@.len() && (match #[trigger] w@[i] {
                            Some(y) => dec128_slot_bad(y),
                            None => false,
                        }) {
                        Some(ConversionError::UnsupportedNumericConfiguration)
                    } else {
                        None
                    }
                },
                _ => Some(ConversionError::FieldTypeMismatch),
            }),
            PhysicalType::Date32 => (match c {
                ColumnData::Date32(w) => {
                    if exists|i: int|
                        0 <= i < w@.len() && (match #[trigger] w@[i] {
                            Some(y) => y > i32::MAX - UNIX_EPOCH_DAY,
                            None => false,
                        }) {
                        Some(ConversionError::UnsupportedNumericConfiguration)
                    } else {
                        None
                    }
                },
                _ => Some(ConversionError::FieldTypeMismatch),
            }),
            PhysicalType::Time64(u) => {
                if !(u is Microsecond) {
                    Some(ConversionError::UnsupportedPhysicalType)
                } else {
                    match c {
                        ColumnData::Time64(w) => {
                            if exists|i: int|
                                0 <= i < w@.len() && (match #[trigger] w@[i] {
                                    Some(y) => !(0 <= y < USECS_PER_DAY),
                                    None => false,
                                }) {
                                Some(ConversionError::UnsupportedNumericConfiguration)
                            } else {
                                None
                            }
                        },
                        _ => Some(ConversionError::FieldTypeMismatch),
                    }
                }
            },
            PhysicalType::Timestamp(u, _) => {
                if !(u is Microsecond) {
                    Some(ConversionError::UnsupportedPhysicalType)
                } else {
                    match c {
                        ColumnData::Timestamp(_) => None,
                        _ => Some(ConversionError::FieldTypeMismatch),
                    }
                }
            },
            PhysicalType::Interval(u) => {
                if !(u is MonthDayNano) {
                    Some(ConversionError::UnsupportedPhysicalType)
                } else {
                    match c {
                        ColumnData::Interval(_) => None,
                        _ => Some(ConversionError::FieldTypeMismatch),
                    }
                }
            },
            PhysicalType::Utf8 => (match c {
                ColumnData::Utf8(_) => None,
                _ => Some(ConversionError::FieldTypeMismatch),
            }),
            PhysicalType::LargeUtf8 => (match c {
                ColumnData::LargeUtf8(_) => None,
                _ => Some(ConversionError::FieldTypeMismatch),
            }),
            PhysicalType::Binary => (match c {
                ColumnData::Binary(_) => None,
                _ => Some(ConversionError::FieldTypeMismatch),
            }),
            PhysicalType::LargeBinary => (match c {
                ColumnData::LargeBinary(_) => None,
                _ => Some(ConversionError::FieldTypeMismatch),
            }),
            PhysicalType::List(inner) => (match c {
                ColumnData::List(lc) => decode_err(*inner, *lc.values),
                _ => Some(ConversionError::FieldTypeMismatch),
            }),
            PhysicalType::Struct(fs) => (match c {
                ColumnData::Struct(sc) => {
                    if fs@.len() != sc.children@.len() {
                        Some(ConversionError::FieldTypeMismatch)
                    } else {
                        struct_decode_err(fs@, sc.children@, 0)
                    }
                },
                _ => Some(ConversionError::FieldTypeMismatch),
            }),
            _ => Some(ConversionError::UnsupportedPhysicalType),
        },
    }
}

/// The first decoding error among the struct children from index `i` on.
pub open spec fn struct_decode_err(fs: Seq<Field>, children: Seq<ColumnData>, i: int) -> Option<
    ConversionError,
>
    decreases fs, fs.len() - i,
{
    if i < 0 || i >= fs.len() || fs.len() != children.len() {
        None
    } else {
        match decode_err(fs[i], children[i]) {
            Some(e) => Some(e),
            None => struct_decode_err(fs, children, i + 1),
        }
    }
}

/// Decodes a day-count column, rejecting values whose internal day number
/// would not fit.
fn dec_dates(w: &Vec<Option<i32>>) -> (r: Result<Vec<Option<Date>>, ConversionError>)
    ensures
        (match r {
            Ok(v) => opt_rel(
                w@,
                v@,
                |y: i32, d: Date| y <= i32::MAX - UNIX_EPOCH_DAY && d == Date::of_arrow(y),
            ) && (forall|i: int|
                0 <= i < v@.len() ==> (match #[trigger] v@[i] {
                    Some(d) => d.wf(),
                    None => true,
                })),
            Err(e) => e == ConversionError::UnsupportedNumericConfiguration && (exists|i: int|
                0 <= i < w@.len() && (match #[trigger] w@[i] {
                    Some(y) => y > i32::MAX - UNIX_EPOCH_DAY,
                    None => false,
                })),
        }),
{
    let n = w.len();
    let mut v: Vec<Option<Date>> = Vec::new();
    let mut i: usize = 0;
    while i < n
        invariant
            n == w@.len(),
            0 <= i <= n,
            v@.len() == i,
            forall|j: int|
                0 <= j < i ==> opt_match(
                    #[trigger] w@[j],
                    v@[j],
                    |y: i32, d: Date| y <= i32::MAX - UNIX_EPOCH_DAY && d == Date::of_arrow(y),
                ),
            forall|j: int|
                0 <= j < i ==> (match #[trigger] v@[j] {
                    Some(d) => d.wf(),
                    None => true,
                }),
        decreases n - i,
    {
        match w[i] {
            Some(y) => {
                if y > i32::MAX - UNIX_EPOCH_DAY {
                    return Err(ConversionError::UnsupportedNumericConfiguration);
                }
                v.push(Some(Date::from_arrow(y)));
            },
            None => v.push(None),
        }
        i = i + 1;
    }
    Ok(v)
}

/// Decodes a microsecond time column, rejecting values outside one day.
fn dec_times(w: &Vec<Option<i64>>) -> (r: Result<Vec<Option<Time>>, ConversionError>)
    ensures
        (match r {
            Ok(v) => opt_rel(
                w@,
                v@,
                |y: i64, t: Time| 0 <= y < USECS_PER_DAY && t == Time::of_arrow(y),
            ) && (forall|i: int|
                0 <= i < v@.len() ==> (match #[trigger] v@[i] {
                    Some(t) => t.wf(),
                    None => true,
                })),
            Err(e) => e == ConversionError::UnsupportedNumericConfiguration && (exists|i: int|
                0 <= i < w@.len() && (match #[trigger] w@[i] {
                    Some(y) => !(0 <= y < USECS_PER_DAY),
                    None => false,
                })),
        }),
{
    let n = w.len();
    let mut v: Vec<Option<Time>> = Vec::new();
    let mut i: usize = 0;
    while i < n
        invariant
            n == w@.len(),
            0 <= i <= n,
            v@.len() == i,
            forall|j: int|
                0 <= j < i ==> opt_match(
                    #[trigger] w@[j],
                    v@[j],
                    |y: i64, t: Time| 0 <= y < USECS_PER_DAY && t == Time::of_arrow(y),
                ),
            forall|j: int|
                0 <= j < i ==> (match #[trigger] v@[j] {
                    Some(t) => t.wf(),
                    None => true,
                }),
        decreases n - i,
    {
        match w[i] {
            Some(y) => {
                if !(0 <= y && y < USECS_PER_DAY) {
                    return Err(ConversionError::UnsupportedNumericConfiguration);
                }
                v.push(Some(Time::from_arrow(y)));
            },
            None => v.push(None),
        }
        i = i + 1;
    }
    Ok(v)
}

/// Decodes an epoch-microsecond column to naive timestamps.
fn dec_timestamps(w: &Vec<Option<i64>>) -> (r: Vec<Option<Timestamp>>)
    ensures
        opt_rel(w@, r@, |y: i64, t: Timestamp| t == Timestamp::of_arrow(y)),
{
    let n = w.len();
    let mut v: Vec<Option<Timestamp>> = Vec::new();
    let mut i: usize = 0;
    while i < n
        invariant
            n == w@.len(),
            0 <= i <= n,
            v@.len() == i,
            forall|j: int|
                0 <= j < i ==> opt_match(
                    #[trigger] w@[j],
                    v@[j],
                    |y: i64, t: Timestamp| t == Timestamp::of_arrow(y),
                ),
        decreases n - i,
    {
        match w[i] {
            Some(y) => v.push(Some(Timestamp::from_arrow(y))),
            None => v.push(None),
        }
        i = i + 1;
    }
    v
}

/// Decodes an epoch-microsecond column to instants.
fn dec_timestamptzs(w: &Vec<Option<i64>>) -> (r: Vec<Option<Timestamptz>>)
    ensures
        opt_rel(w@, r@, |y: i64, t: Timestamptz| t == Timestamptz::of_arrow(y)),
{
    let n = w.len();
    let mut v: Vec<Option<Timestamptz>> = Vec::new();
    let mut i: usize = 0;
    while i < n
        invariant
            n == w@.len(),
            0 <= i <= n,
            v@.len() == i,
            forall|j: int|
                0 <= j < i ==> opt_match(
                    #[trigger] w@[j],
                    v@[j],
                    |y: i64, t: Timestamptz| t == Timestamptz::of_arrow(y),
                ),
        decreases n - i,
    {
        match w[i] {
            Some(y) => v.push(Some(Timestamptz::from_arrow(y))),
            None => v.push(None),
        }
        i = i + 1;
    }
    v
}

/// Decodes a packed interval column, unpacking the three sub-fields.
fn dec_intervals(w: &Vec<Option<i128>>) -> (r: Vec<Option<Interval>>)
    ensures
        opt_rel(w@, r@, |y: i128, iv: Interval| iv == Interval::of_arrow(y) && iv.wf()),
        forall|i: int|
            0 <= i < r@.len() ==> (match #[trigger] r@[i] {
                Some(iv) => iv.wf(),
                None => true,
            }),
{
    let n = w.len();
    let mut v: Vec<Option<Interval>> = Vec::new();
    let mut i: usize = 0;
    while i < n
        invariant
            n == w@.len(),
            0 <= i <= n,
            v@.len() == i,
            forall|j: int|
                0 <= j < i ==> opt_match(
                    #[trigger] w@[j],
                    v@[j],
                    |y: i128, iv: Interval| iv == Interval::of_arrow(y) && iv.wf(),
                ),
            forall|j: int|
                0 <= j < i ==> (match #[trigger] v@[j] {
                    Some(iv) => iv.wf(),
                    None => true,
                }),
        decreases n - i,
    {
        match w[i] {
            Some(y) => v.push(Some(Interval::from_arrow(y))),
            None => v.push(None),
        }
        i = i + 1;
    }
    v
}

/// Parses a decimal text column, failing on the first unparseable slot.
pub fn decimal_array_from_text(w: &Vec<Option<String>>) -> (r: Result<Vec<Option<Decimal>>, ConversionError>)
    ensures
        (match r {
            Ok(v) => opt_rel(
                w@,
                v@,
                |s: String, d: Decimal| Some(d) == dec_decode(s@) && dec_parse_pins(s@) && d.wf(),
            ) && (forall|i: int|
                0 <= i < v@.len() ==> (match #[trigger] v@[i] {
                    Some(d) => d.wf(),
                    None => true,
                })),
            Err(e) => e == ConversionError::TextParseFailure && (exists|i: int|
                0 <= i < w@.len() && (match #[trigger] w@[i] {
                    Some(s) => dec_decode(s@) is None,
                    None => false,
                })),
        }),
{
    let n = w.len();
    let mut v: Vec<Option<Decimal>> = Vec::new();
    let mut i: usize = 0;
    while i < n
        invariant
            n == w@.len(),
            0 <= i <= n,
            v@.len() == i,
            forall|j: int|
                0 <= j < i ==> opt_match(
                    #[trigger] w@[j],
                    v@[j],
                    |s: String, d: Decimal| Some(d) == dec_decode(s@) && dec_parse_pins(s@)
                        && d.wf(),
                ),
            forall|j: int|
                0 <= j < i ==> (match #[trigger] v@[j] {
                    Some(d) => d.wf(),
                    None => true,
                }),
        decreases n - i,
    {
        match &w[i] {
            Some(s) => {
                match decimal_from_text(s.as_str()) {
                    Some(d) => v.push(Some(d)),
                    None => {
                        return Err(ConversionError::TextParseFailure);
                    },
                }
            },
            None => v.push(None),
        }
        i = i + 1;
    }
    Ok(v)
}

/// Parses a JSON text column, failing on the first invalid slot.
pub fn jsonb_array_from_text(w: &Vec<Option<String>>) -> (r: Result<Vec<Option<Jsonb>>, ConversionError>)
    ensures
        (match r {
            Ok(v) => opt_rel(
                w@,
                v@,
                |s: String, j: Jsonb| json_valid(s@) && j@ == json_canon(s@),
            ),
            Err(e) => e == ConversionError::TextParseFailure && (exists|i: int|
                0 <= i < w@.len() && (match #[trigger] w@[i] {
                    Some(s) => !json_valid(s@),
                    None => false,
                })),
        }),
{
    let n = w.len();
    let mut v: Vec<Option<Jsonb>> = Vec::new();
    let mut i: usize = 0;
    while i < n
        invariant
            n == w@.len(),
            0 <= i <= n,
            v@.len() == i,
            forall|j: int|
                0 <= j < i ==> opt_match(
                    #[trigger] w@[j],
                    v@[j],
                    |s: String, jv: Jsonb| json_valid(s@) && jv@ == json_canon(s@),
                ),
        decreases n - i,
    {
        match &w[i] {
            Some(s) => {
                match Jsonb::from_text(s.as_str()) {
                    Some(j) => v.push(Some(j)),
                    None => {
                        return Err(ConversionError::TextParseFailure);
                    },
                }
            },
            None => v.push(None),
        }
        i = i + 1;
    }
    Ok(v)
}

/// Relies on std's `str::from_utf8`: it succeeds exactly on valid UTF-8
/// bytes and returns the text that encodes to those bytes.
#[verifier::external_body]
fn bytes_to_str(b: &Vec<u8>) -> (r: Option<&str>)
    ensures
        r is Some <==> vstd::utf8::valid_utf8(b@),
        (match r {
            Some(s) => s.spec_bytes() == b@,
            None => true,
        }),
{
    std::str::from_utf8(b.as_slice()).ok()
}

/// Whether a byte-carried decimal slot cannot be decoded: its bytes are
/// not valid UTF-8, or the text they encode is no decimal.
pub open spec fn dec_binary_slot_bad(x: Vec<u8>) -> bool {
    !(vstd::utf8::valid_utf8(x@) && dec_decode(vstd::utf8::decode_utf8(x@)) is Some)
}

/// Parses a decimal column carried as UTF-8 bytes, failing exactly when
/// some slot is not valid UTF-8 or does not parse.
pub fn decimal_array_from_binary(w: &Vec<Option<Vec<u8>>>) -> (r: Result<
    Vec<Option<Decimal>>,
    ConversionError,
>)
    ensures
        (match r {
            Ok(v) => opt_rel(
                w@,
                v@,
                |x: Vec<u8>, d: Decimal| vstd::utf8::valid_utf8(x@) && Some(d) == dec_decode(
                    vstd::utf8::decode_utf8(x@),
                ) && d.wf(),
            ),
            Err(e) => e == ConversionError::TextParseFailure && (exists|i: int|
                0 <= i < w@.len() && (match #[trigger] w@[i] {
                    Some(x) => dec_binary_slot_bad(x),
                    None => false,
                })),
        }),
{
    let n = w.len();
    let mut v: Vec<Option<Decimal>> = Vec::new();
    let mut i: usize = 0;
    while i < n
        invariant
            n == w@.len(),
            0 <= i <= n,
            v@.len() == i,
            forall|j: int|
                0 <= j < i ==> opt_match(
                    #[trigger] w@[j],
                    v@[j],
                    |x: Vec<u8>, d: Decimal| vstd::utf8::valid_utf8(x@) && Some(d) == dec_decode(
                        vstd::utf8::decode_utf8(x@),
                    ) && d.wf(),
                ),
        decreases n - i,
    {
        match &w[i] {
            Some(b) => {
                let s = match bytes_to_str(b) {
                    Some(s) => s,
                    None => {
                        proof {
                            assert(match w@[i as int] {
                                Some(x) => dec_binary_slot_bad(x),
                                None => false,
                            });
                        }
                        return Err(ConversionError::TextParseFailure);
                    },
                };
                proof {
                    vstd::utf8::encode_utf8_decode_utf8(s@);
                }
                match decimal_from_text(s) {
                    Some(d) => v.push(Some(d)),
                    None => {
                        proof {
                            assert(match w@[i as int] {
                                Some(x) => dec_binary_slot_bad(x),
                                None => false,
                            });
                        }
                        return Err(ConversionError::TextParseFailure);
                    },
                }
            },
            None => v.push(None),
        }
        i = i + 1;
    }
    Ok(v)
}

/// Decodes a 128-bit decimal column at the field's scale, mapping the
/// three reserved values to sentinels and rejecting out-of-range
/// mantissas.
fn dec_decimal128(w: &Vec<Option<i128>>, scale: u32) -> (r: Result<
    Vec<Option<Decimal>>,
    ConversionError,
>)
    requires
        scale <= 28,
    ensures
        (match r {
            Ok(v) => opt_rel(
                w@,
                v@,
                |y: i128, d: Decimal| !dec128_slot_bad(y) && d == dec128_value(y, scale),
            ) && (forall|i: int|
                0 <= i < v@.len() ==> (match #[trigger] v@[i] {
                    Some(d) => d.wf(),
                    None => true,
                })),
            Err(e) => e == ConversionError::UnsupportedNumericConfiguration && (exists|i: int|
                0 <= i < w@.len() && (match #[trigger] w@[i] {
                    Some(y) => dec128_slot_bad(y),
                    None => false,
                })),
        }),
{
    let n = w.len();
    let mut v: Vec<Option<Decimal>> = Vec::new();
    let mut i: usize = 0;
    while i < n
        invariant
            n == w@.len(),
            scale <= 28,
            0 <= i <= n,
            v@.len() == i,
            forall|j: int|
                0 <= j < i ==> opt_match(
                    #[trigger] w@[j],
                    v@[j],
                    |y: i128, d: Decimal| !dec128_slot_bad(y) && d == dec128_value(y, scale),
                ),
            forall|j: int|
                0 <= j < i ==> (match #[trigger] v@[j] {
                    Some(d) => d.wf(),
                    None => true,
                }),
        decreases n - i,
    {
        match w[i] {
            Some(y) => {
                if y == i128::MIN + 1 {
                    v.push(Some(Decimal::NaN));
                } else if y == i128::MAX {
                    v.push(Some(Decimal::PositiveInf));
                } else if y == i128::MIN {
                    v.push(Some(Decimal::NegativeInf));
                } else if -MAX_DEC_MANTISSA <= y && y <= MAX_DEC_MANTISSA {
                    v.push(Some(Decimal::Normalized(DecimalNum { mantissa: y, scale })));
                } else {
                    return Err(ConversionError::UnsupportedNumericConfiguration);
                }
            },
            None => v.push(None),
        }
        i = i + 1;
    }
    Ok(v)
}

/// Every offset of a sound list column is non-negative: the first is
/// zero and they never decrease.
proof fn lemma_offsets_nonneg(o: Seq<i32>, i: int)
    requires
        o.len() >= 1,
        o[0] == 0,
        forall|j: int| 0 <= j < o.len() - 1 ==> #[trigger] o[j] <= o[j + 1],
        0 <= i < o.len(),
    ensures
        o[i] >= 0,
    decreases i,
{
    if i > 0 {
        lemma_offsets_nonneg(o, i - 1);
        assert(o[i - 1] <= o[(i - 1) + 1]);
    }
}

/// Widens interchange list offsets back to the internal width.
fn widen_offsets(offsets: &Vec<i32>) -> (r: Vec<u32>)
    requires
        forall|i: int| 0 <= i < offsets@.len() ==> #[trigger] offsets@[i] >= 0,
    ensures
        r@.len() == offsets@.len(),
        forall|i: int| 0 <= i < offsets@.len() ==> (#[trigger] r@[i]) as int == offsets@[i] as int,
{
    let n = offsets.len();
    let mut r: Vec<u32> = Vec::new();
    let mut i: usize = 0;
    while i < n
        invariant
            n == offsets@.len(),
            forall|j: int| 0 <= j < offsets@.len() ==> #[trigger] offsets@[j] >= 0,
            0 <= i <= n,
            r@.len() == i,
            forall|j: int| 0 <= j < i ==> (#[trigger] r@[j]) as int == offsets@[j] as int,
        decreases n - i,
    {
        r.push(offsets[i] as u32);
        i = i + 1;
    }
    r
}

/// Copies the names of the sub-fields for the reconstructed struct
/// array.
fn clone_field_names(fields: &Vec<Field>) -> (r: Vec<String>)
    ensures
        r@.len() == fields@.len(),
        forall|i: int| 0 <= i < fields@.len() ==> (#[trigger] r@[i])@ == fields@[i].name@,
{
    let n = fields.len();
    let mut r: Vec<String> = Vec::new();
    let mut i: usize = 0;
    while i < n
        invariant
            n == fields@.len(),
            0 <= i <= n,
            r@.len() == i,
            forall|j: int| 0 <= j < i ==> (#[trigger] r@[j])@ == fields@[j].name@,
        decreases n - i,
    {
        r.push(fields[i].name.clone());
        i = i + 1;
    }
    r
}

/// Decodes one interchange column against its field, dispatching on the
/// extension tag before the physical type.
#[verifier::rlimit(100)]
pub fn from_array(field: &Field, column: &ColumnData) -> (r: Result<Array, ConversionError>)
    requires
        column.wf(),
    ensures
        (match r {
            Ok(a) => {
                &&& decode_err(*field, *column) is None
                &&& decodes_to(*field, *column, a)
                &&& a.wf()
                &&& a.spec_len() == column.spec_len()
            },
            Err(e) => decode_err(*field, *column) == Some(e),
        }),
    decreases *field, 0int,
{
    match &field.extension {
        Some(tag) => {
            let is_dec = crate::strutil::str_eq(tag.as_str(), "ext.decimal");
            let is_json = crate::strutil::str_eq(tag.as_str(), "ext.json");
            if !is_dec && !is_json {
                return Err(ConversionError::UnsupportedExtensionTag);
            }
            let carrier_ok = match &field.data_type {
                PhysicalType::Utf8 => true,
                _ => false,
            };
            if !carrier_ok {
                return Err(ConversionError::FieldTypeMismatch);
            }
            match column {
                ColumnData::Utf8(w) => {
                    if is_dec {
                        match decimal_array_from_text(w) {
                            Ok(v) => Ok(Array::Decimal(v)),
                            Err(e) => Err(e),
                        }
                    } else {
                        match jsonb_array_from_text(w) {
                            Ok(v) => Ok(Array::Jsonb(v)),
                            Err(e) => Err(e),
                        }
                    }
                },
                _ => Err(ConversionError::FieldTypeMismatch),
            }
        },
        None => match &field.data_type {
            PhysicalType::Boolean => match column {
                ColumnData::Boolean(w) => Ok(Array::Bool(crate::encode::copy_vec(w))),
                _ => Err(ConversionError::FieldTypeMismatch),
            },
            PhysicalType::Int16 => match column {
                ColumnData::Int16(w) => Ok(Array::Int16(crate::encode::copy_vec(w))),
                _ => Err(ConversionError::FieldTypeMismatch),
            },
            PhysicalType::Int32 => match column {
                ColumnData::Int32(w) => Ok(Array::Int32(crate::encode::copy_vec(w))),
                _ => Err(ConversionError::FieldTypeMismatch),
            },
            PhysicalType::Int64 => match column {
                ColumnData::Int64(w) => Ok(Array::Int64(crate::encode::copy_vec(w))),
                _ => Err(ConversionError::FieldTypeMismatch),
            },
            PhysicalType::Float32 => match column {
                ColumnData::Float32(w) => Ok(Array::Float32(crate::encode::copy_vec(w))),
                _ => Err(ConversionError::FieldTypeMismatch),
            },
            PhysicalType::Float64 => match column {
                ColumnData::Float64(w) => Ok(Array::Float64(crate::encode::copy_vec(w))),
                _ => Err(ConversionError::FieldTypeMismatch),
            },
            PhysicalType::Decimal256(_, _) => match column {
                ColumnData::Decimal256(w) => Ok(Array::Int256(crate::encode::copy_vec(w))),
                _ => Err(ConversionError::FieldTypeMismatch),
            },
            PhysicalType::Decimal128(_, scale) => match column {
                ColumnData::Decimal128(w) => {
                    if *scale < 0 || *scale > 28 {
                        return Err(ConversionError::UnsupportedNumericConfiguration);
                    }
                    match dec_decimal128(w, *scale as u32) {
                        Ok(v) => Ok(Array::Decimal(v)),
                        Err(e) => Err(e),
                    }
                },
                _ => Err(ConversionError::FieldTypeMismatch),
            },
            PhysicalType::Date32 => match column {
                ColumnData::Date32(w) => match dec_dates(w) {
                    Ok(v) => Ok(Array::Date(v)),
                    Err(e) => Err(e),
                },
                _ => Err(ConversionError::FieldTypeMismatch),
            },
            PhysicalType::Time64(u) => match u {
                crate::interchange::TimeUnit::Microsecond => match column {
                    ColumnData::Time64(w) => match dec_times(w) {
                        Ok(v) => Ok(Array::Time(v)),
                        Err(e) => Err(e),
                    },
                    _ => Err(ConversionError::FieldTypeMismatch),
                },
                _ => Err(ConversionError::UnsupportedPhysicalType),
            },
            PhysicalType::Timestamp(u, z) => match u {
                crate::interchange::TimeUnit::Microsecond => match column {
                    ColumnData::Timestamp(w) => match z {
                        Some(_) => Ok(Array::Timestamptz(dec_timestamptzs(w))),
                        None => Ok(Array::Timestamp(dec_timestamps(w))),
                    },
                    _ => Err(ConversionError::FieldTypeMismatch),
                },
                _ => Err(ConversionError::UnsupportedPhysicalType),
            },
            PhysicalType::Interval(u) => match u {
                crate::interchange::IntervalUnit::MonthDayNano => match column {
                    ColumnData::Interval(w) => Ok(Array::Interval(dec_intervals(w))),
                    _ => Err(ConversionError::FieldTypeMismatch),
                },
                _ => Err(ConversionError::UnsupportedPhysicalType),
            },
            PhysicalType::Utf8 => match column {
                ColumnData::Utf8(w) => Ok(Array::Utf8(crate::encode::clone_strings(w))),
                _ => Err(ConversionError::FieldTypeMismatch),
            },
            PhysicalType::LargeUtf8 => match column {
                ColumnData::LargeUtf8(w) => Ok(Array::Utf8(crate::encode::clone_strings(w))),
                _ => Err(ConversionError::FieldTypeMismatch),
            },
            PhysicalType::Binary => match column {
                ColumnData::Binary(w) => Ok(Array::Bytea(crate::encode::clone_bytes(w))),
                _ => Err(ConversionError::FieldTypeMismatch),
            },
            PhysicalType::LargeBinary => match column {
                ColumnData::LargeBinary(w) => Ok(Array::Bytea(crate::encode::clone_bytes(w))),
                _ => Err(ConversionError::FieldTypeMismatch),
            },
            PhysicalType::List(inner) => match column {
                ColumnData::List(lc) => {
                    let value = match from_array(inner, &lc.values) {
                        Ok(a) => a,
                        Err(e) => {
                            return Err(e);
                        },
                    };
                    proof {
                        assert forall|i: int| 0 <= i < lc.offsets@.len() implies (
                        #[trigger] lc.offsets@[i]) >= 0 by {
                            lemma_offsets_nonneg(lc.offsets@, i);
                        };
                    }
                    let offsets = widen_offsets(&lc.offsets);
                    proof {
                        assert forall|i: int| 0 <= i < lc.validity@.len() implies (
                        #[trigger] offsets@[i]) <= offsets@[i + 1] by {
                            assert(offsets@[i] as int == lc.offsets@[i] as int);
                            assert(offsets@[i + 1] as int == lc.offsets@[i + 1] as int);
                            assert(lc.offsets@[i] <= lc.offsets@[i + 1]);
                        };
                        assert(offsets@[0] as int == lc.offsets@[0] as int);
                        assert(offsets@[lc.validity@.len() as int] as int == lc.offsets@[lc.validity@.len() as int] as int);
                    }
                    Ok(
                        Array::List(
                            ListArray {
                                validity: crate::encode::copy_vec(&lc.validity),
                                offsets,
                                value: Box::new(value),
                            },
                        ),
                    )
                },
                _ => Err(ConversionError::FieldTypeMismatch),
            },
            PhysicalType::Struct(fs) => match column {
                ColumnData::Struct(sc) => {
                    if fs.len() != sc.children.len() {
                        return Err(ConversionError::FieldTypeMismatch);
                    }
                    match decode_struct_children(fs, &sc.children) {
                        Ok(children) => {
                            let a = Array::Struct(
                                StructArray {
                                    validity: crate::encode::copy_vec(&sc.validity),
                                    field_names: clone_field_names(fs),
                                    children,
                                },
                            );
                            proof {
                                let s = a->Struct_0;
                                assert forall|i: int| 0 <= i < s.children@.len() implies (
                                #[trigger] s.children@[i]).spec_len() == s.validity@.len()
                                    && s.children@[i].wf() by {
                                    assert(decodes_to(fs@[i], sc.children@[i], s.children@[i]));
                                    assert(sc.children@[i].wf());
                                    assert(sc.children@[i].spec_len() == sc.validity@.len());
                                };
                            }
                            Ok(a)
                        },
                        Err(e) => Err(e),
                    }
                },
                _ => Err(ConversionError::FieldTypeMismatch),
            },
            _ => Err(ConversionError::UnsupportedPhysicalType),
        },
    }
}

/// Decodes the children of a struct column against its sub-fields, in
/// order, stopping at the first error.
#[verifier::rlimit(100)]
pub(crate) fn decode_struct_children(fs: &Vec<Field>, children: &Vec<ColumnData>) -> (r: Result<
    Vec<Array>,
    ConversionError,
>)
    requires
        fs@.len() == children@.len(),
        forall|i: int| 0 <= i < children@.len() ==> (#[trigger] children@[i]).wf(),
    ensures
        (match r {
            Ok(out) => {
                &&& struct_decode_err(fs@, children@, 0) is None
                &&& out@.len() == children@.len()
                &&& forall|i: int|
                    0 <= i < children@.len() ==> decodes_to(
                        #[trigger] fs@[i],
                        children@[i],
                        out@[i],
                    ) && out@[i].wf() && out@[i].spec_len() == children@[i].spec_len()
            },
            Err(e) => struct_decode_err(fs@, children@, 0) == Some(e),
        }),
    decreases fs@, 1int,
{
    let n = children.len();
    let mut out: Vec<Array> = Vec::new();
    let mut i: usize = 0;
    #[verifier::loop_isolation(false)]
    while i < n
        invariant
            0 <= i <= n,
            out@.len() == i,
            struct_decode_err(fs@, children@, 0) == struct_decode_err(fs@, children@, i as int),
            forall|j: int|
                0 <= j < i ==> decodes_to(#[trigger] fs@[j], children@[j], out@[j]) && out@[j].wf()
                    && out@[j].spec_len() == children@[j].spec_len(),
        decreases n - i,
    {
        match from_array(&fs[i], &children[i]) {
            Ok(a) => {
                let ghost ga = a;
                out.push(a);
                proof {
                    assert(out@[i as int] == ga);
                }
            },
            Err(e) => {
                return Err(e);
            },
        }
        proof {
            assert(struct_decode_err(fs@, children@, i as int) == struct_decode_err(
                fs@,
                children@,
                i as int + 1,
            ));
        }
        i = i + 1;
        proof {
            assert forall|j: int|
                0 <= j < i implies decodes_to(#[trigger] fs@[j], children@[j], out@[j])
                && out@[j].wf() && out@[j].spec_len() == children@[j].spec_len() by {
                assert(decodes_to(fs@[j], children@[j], out@[j]));
                assert(out@[j].wf());
                assert(out@[j].spec_len() == children@[j].spec_len());
            };
        }
    }
    Ok(out)
}

/// Decodes a full interchange batch into an internal batch whose
/// visibility mask is all ones: column count and row count are preserved.
pub fn from_record_batch(batch: &crate::interchange::InterchangeBatch) -> (r: Result<
    crate::array::InternalBatch,
    ConversionError,
>)
    requires
        batch.wf(),
    ensures
        (match r {
            Ok(chunk) => {
                &&& struct_decode_err(batch.fields@, batch.columns@, 0) is None
                &&& chunk.wf()
                &&& chunk.spec_is_compacted()
                &&& chunk.columns@.len() == batch.columns@.len()
                &&& chunk.spec_capacity() == batch.rows
                &&& forall|i: int|
                    0 <= i < batch.columns@.len() ==> decodes_to(
                        batch.fields@[i],
                        #[trigger] batch.columns@[i],
                        chunk.columns@[i],
                    )
            },
            Err(e) => struct_decode_err(batch.fields@, batch.columns@, 0) == Some(e),
        }),
{
    proof {
        assert forall|i: int| 0 <= i < batch.columns@.len() implies (
        #[trigger] batch.columns@[i]).wf() by {
            assert(batch.wf());
        };
    }
    let columns = match decode_struct_children(&batch.fields, &batch.columns) {
        Ok(cs) => cs,
        Err(e) => {
            return Err(e);
        },
    };
    let rows = batch.rows;
    let mut visibility: Vec<bool> = Vec::new();
    let mut k: usize = 0;
    while k < rows
        invariant
            0 <= k <= rows,
            visibility@.len() == k,
            forall|j: int| 0 <= j < k ==> visibility@[j],
        decreases rows - k,
    {
        visibility.push(true);
        k = k + 1;
    }
    let chunk = crate::array::InternalBatch { columns, visibility };
    proof {
        assert forall|i: int| 0 <= i < chunk.columns@.len() implies (
        #[trigger] chunk.columns@[i]).wf() && chunk.columns@[i].spec_len()
            == chunk.visibility@.len() by {
            assert(decodes_to(batch.fields@[i], batch.columns@[i], chunk.columns@[i]));
            assert(chunk.columns@[i].wf());
            assert(chunk.columns@[i].spec_len() == batch.columns@[i].spec_len());
            assert(batch.columns@[i].spec_len() == batch.rows);
        };
    }
    Ok(chunk)
}

} // verus!
