//! The outbound encoder: internal arrays to interchange columns.
//!
//! Each column is encoded against a positionally matched target field.
//! The natural encoding of the column's logical type is produced first;
//! if the target declares a different physical type, a supported
//! interchange-level cast is applied, and an unsupported one is a hard
//! error. Lists narrow their offsets to the interchange width, rejecting
//! overflow, and structs encode each child against the target's
//! sub-fields.

use vstd::prelude::*;
use vstd::utf8::encode_utf8;

use crate::array::{opt_match, opt_rel, Array};
use crate::cast::{
    cast_f32_col_to_f64, cast_f64_col_to_f32, f32_bits_of_f64_bits, f64_bits_of_f32_bits,
};
use crate::decimal::{dec_char, dec_text_parses, decimal_text, decimal_to_text, Decimal};
use crate::error::ConversionError;
use crate::interchange::{ColumnData, Field, PhysicalType};
use crate::jsonb::{json_canon, json_valid, Jsonb};
use crate::scalar::{Date, FromIntoArrow, Interval, Serial, Time, Timestamp, Timestamptz};

verus! {

/// Every rendered numeral of a finite decimal stays inside the numeral
/// alphabet; sentinel values render to their sentinel literals.
pub open spec fn dec_text_plain(x: Decimal) -> bool {
    x is Normalized ==> forall|k: int|
        0 <= k < decimal_text(x).len() ==> dec_char(#[trigger] decimal_text(x)[k])
}

/// Whether `c` is the encoding of the internal column `a` against the
/// target physical type `dt`, including any interchange-level cast.
pub open spec fn encodes_as(dt: PhysicalType, a: Array, c: ColumnData) -> bool
    decreases a,
{
    match a {
        Array::Bool(v) => dt is Boolean && (match c {
            ColumnData::Boolean(w) => w@ == v@,
            _ => false,
        }),
        Array::Int16(v) => match dt {
            PhysicalType::Int16 => (match c {
                ColumnData::Int16(w) => w@ == v@,
                _ => false,
            }),
            PhysicalType::Int32 => (match c {
                ColumnData::Int32(w) => opt_rel(v@, w@, |x: i16, y: i32| y as int == x as int),
                _ => false,
            }),
            PhysicalType::Int64 => (match c {
                ColumnData::Int64(w) => opt_rel(v@, w@, |x: i16, y: i64| y as int == x as int),
                _ => false,
            }),
            _ => false,
        },
        Array::Int32(v) => match dt {
            PhysicalType::Int32 => (match c {
                ColumnData::Int32(w) => w@ == v@,
                _ => false,
            }),
            PhysicalType::Int64 => (match c {
                ColumnData::Int64(w) => opt_rel(v@, w@, |x: i32, y: i64| y as int == x as int),
                _ => false,
            }),
            _ => false,
        },
        Array::Int64(v) => dt is Int64 && (match c {
            ColumnData::Int64(w) => w@ == v@,
            _ => false,
        }),
        Array::Int256(v) => dt == PhysicalType::Decimal256(76u8, 0i8) && (match c {
            ColumnData::Decimal256(w) => w@ == v@,
            _ => false,
        }),
        Array::Float32(v) => match dt {
            PhysicalType::Float32 => (match c {
                ColumnData::Float32(w) => w@ == v@,
                _ => false,
            }),
            PhysicalType::Float64 => (match c {
                ColumnData::Float64(w) => opt_rel(
                    v@,
                    w@,
                    |x: u32, y: u64| y == f64_bits_of_f32_bits(x),
                ),
                _ => false,
            }),
            _ => false,
        },
        Array::Float64(v) => match dt {
            PhysicalType::Float64 => (match c {
                ColumnData::Float64(w) => w@ == v@,
                _ => false,
            }),
            PhysicalType::Float32 => (match c {
                ColumnData::Float32(w) => opt_rel(
                    v@,
                    w@,
                    |x: u64, y: u32| y == f32_bits_of_f64_bits(x),
                ),
                _ => false,
            }),
            _ => false,
        },
        Array::Date(v) => dt is Date32 && (match c {
            ColumnData::Date32(w) => opt_rel(v@, w@, |x: Date, y: i32| y == x.as_arrow()),
            _ => false,
        }),
        Array::Time(v) => dt == PhysicalType::Time64(crate::interchange::TimeUnit::Microsecond)
            && (match c {
            ColumnData::Time64(w) => opt_rel(v@, w@, |x: Time, y: i64| y == x.as_arrow()),
            _ => false,
        }),
        Array::Timestamp(v) => (match dt {
            PhysicalType::Timestamp(u, z) => u is Microsecond && z is None,
            _ => false,
        }) && (match c {
            ColumnData::Timestamp(w) => opt_rel(v@, w@, |x: Timestamp, y: i64| y == x.as_arrow()),
            _ => false,
        }),
        Array::Timestamptz(v) => (match dt {
            PhysicalType::Timestamp(u, z) => u is Microsecond && (match z {
                Some(t) => t@ == "+00:00"@,
                None => false,
            }),
            _ => false,
        }) && (match c {
            ColumnData::Timestamp(w) => opt_rel(v@, w@, |x: Timestamptz, y: i64| y == x.as_arrow()),
            _ => false,
        }),
        Array::Interval(v) => dt == PhysicalType::Interval(
            crate::interchange::IntervalUnit::MonthDayNano,
        ) && (match c {
            ColumnData::Interval(w) => opt_rel(v@, w@, |x: Interval, y: i128| y == x.as_arrow()),
            _ => false,
        }),
        Array::Utf8(v) => match dt {
            PhysicalType::Utf8 => (match c {
                ColumnData::Utf8(w) => opt_rel(v@, w@, |x: String, y: String| y@ == x@),
                _ => false,
            }),
            PhysicalType::LargeUtf8 => (match c {
                ColumnData::LargeUtf8(w) => opt_rel(v@, w@, |x: String, y: String| y@ == x@),
                _ => false,
            }),
            PhysicalType::Binary => (match c {
                ColumnData::Binary(w) => opt_rel(
                    v@,
                    w@,
                    |x: String, y: Vec<u8>| y@ == encode_utf8(x@),
                ),
                _ => false,
            }),
            PhysicalType::LargeBinary => (match c {
                ColumnData::LargeBinary(w) => opt_rel(
                    v@,
                    w@,
                    |x: String, y: Vec<u8>| y@ == encode_utf8(x@),
                ),
                _ => false,
            }),
            _ => false,
        },
        Array::Bytea(v) => match dt {
            PhysicalType::Binary => (match c {
                ColumnData::Binary(w) => opt_rel(v@, w@, |x: Vec<u8>, y: Vec<u8>| y@ == x@),
                _ => false,
            }),
            PhysicalType::LargeBinary => (match c {
                ColumnData::LargeBinary(w) => opt_rel(v@, w@, |x: Vec<u8>, y: Vec<u8>| y@ == x@),
                _ => false,
            }),
            _ => false,
        },
        Array::Decimal(v) => match dt {
            PhysicalType::Utf8 => (match c {
                ColumnData::Utf8(w) => opt_rel(
                    v@,
                    w@,
                    |x: Decimal, y: String| y@ == decimal_text(x) && dec_text_plain(x) && dec_text_parses(x),
                ),
                _ => false,
            }),
            PhysicalType::LargeUtf8 => (match c {
                ColumnData::LargeUtf8(w) => opt_rel(
                    v@,
                    w@,
                    |x: Decimal, y: String| y@ == decimal_text(x) && dec_text_plain(x) && dec_text_parses(x),
                ),
                _ => false,
            }),
            PhysicalType::Binary => (match c {
                ColumnData::Binary(w) => opt_rel(
                    v@,
                    w@,
                    |x: Decimal, y: Vec<u8>| y@ == encode_utf8(decimal_text(x)) && dec_text_plain(
                        x,
                    ) && dec_text_parses(x),
                ),
                _ => false,
            }),
            PhysicalType::LargeBinary => (match c {
                ColumnData::LargeBinary(w) => opt_rel(
                    v@,
                    w@,
                    |x: Decimal, y: Vec<u8>| y@ == encode_utf8(decimal_text(x)) && dec_text_plain(
                        x,
                    ) && dec_text_parses(x),
                ),
                _ => false,
            }),
            _ => false,
        },
        Array::Jsonb(v) => match dt {
            PhysicalType::Utf8 => (match c {
                ColumnData::Utf8(w) => opt_rel(
                    v@,
                    w@,
                    |x: Jsonb, y: String| y@ == x@ && json_valid(x@) && json_canon(x@) == x@,
                ),
                _ => false,
            }),
            PhysicalType::LargeUtf8 => (match c {
                ColumnData::LargeUtf8(w) => opt_rel(
                    v@,
                    w@,
                    |x: Jsonb, y: String| y@ == x@ && json_valid(x@) && json_canon(x@) == x@,
                ),
                _ => false,
            }),
            PhysicalType::Binary => (match c {
                ColumnData::Binary(w) => opt_rel(
                    v@,
                    w@,
                    |x: Jsonb, y: Vec<u8>| y@ == encode_utf8(x@) && json_valid(x@) && json_canon(
                        x@,
                    ) == x@,
                ),
                _ => false,
            }),
            PhysicalType::LargeBinary => (match c {
                ColumnData::LargeBinary(w) => opt_rel(
                    v@,
                    w@,
                    |x: Jsonb, y: Vec<u8>| y@ == encode_utf8(x@) && json_valid(x@) && json_canon(
                        x@,
                    ) == x@,
                ),
                _ => false,
            }),
            _ => false,
        },
        Array::Serial(v) => dt is Int64 && (match c {
            ColumnData::Int64(w) => opt_rel(v@, w@, |x: Serial, y: i64| y == x.as_arrow()),
            _ => false,
        }),
        Array::List(l) => match dt {
            PhysicalType::List(field) => (match c {
                ColumnData::List(lc) => {
                    &&& lc.validity@ == l.validity@
                    &&& lc.offsets@.len() == l.offsets@.len()
                    &&& forall|i: int|
                        0 <= i < l.offsets@.len() ==> (#[trigger] lc.offsets@[i]) as int
                            == l.offsets@[i] as int
                    &&& encodes_as(field.data_type, *l.value, *lc.values)
                },
                _ => false,
            }),
            _ => false,
        },
        Array::Struct(s) => match dt {
            PhysicalType::Struct(fields) => (match c {
                ColumnData::Struct(sc) => {
                    &&& sc.validity@ == s.validity@
                    &&& fields@.len() == s.children@.len()
                    &&& sc.children@.len() == s.children@.len()
                    &&& forall|i: int|
                        0 <= i < s.children@.len() ==> encodes_as(
                            fields@[i].data_type,
                            #[trigger] s.children@[i],
                            sc.children@[i],
                        )
                },
                _ => false,
            }),
            _ => false,
        },
    }
}

/// The error that encoding the column `a` against the target type `dt`
/// reports, if any: an unsupported cast, or a list offset that does not
/// fit the interchange offset width; for nested types, the first error in
/// field order.
pub open spec fn encode_err(dt: PhysicalType, a: Array) -> Option<ConversionError>
    decreases a, 0int,
{
    match a {
        Array::Bool(_) => if dt is Boolean {
            None
        } else {
            Some(ConversionError::CastFailure)
        },
        Array::Int16(_) => match dt {
            PhysicalType::Int16 => None,
            PhysicalType::Int32 => None,
            PhysicalType::Int64 => None,
            _ => Some(ConversionError::CastFailure),
        },
        Array::Int32(_) => match dt {
            PhysicalType::Int32 => None,
            PhysicalType::Int64 => None,
            _ => Some(ConversionError::CastFailure),
        },
        Array::Int64(_) => if dt is Int64 {
            None
        } else {
            Some(ConversionError::CastFailure)
        },
        Array::Int256(_) => if dt == PhysicalType::Decimal256(76u8, 0i8) {
            None
        } else {
            Some(ConversionError::CastFailure)
        },
        Array::Float32(_) => match dt {
            PhysicalType::Float32 => None,
            PhysicalType::Float64 => None,
            _ => Some(ConversionError::CastFailure),
        },
        Array::Float64(_) => match dt {
            PhysicalType::Float64 => None,
            PhysicalType::Float32 => None,
            _ => Some(ConversionError::CastFailure),
        },
        Array::Date(_) => if dt is Date32 {
            None
        } else {
            Some(ConversionError::CastFailure)
        },
        Array::Time(_) => if dt == PhysicalType::Time64(crate::interchange::TimeUnit::Microsecond) {
            None
        } else {
            Some(ConversionError::CastFailure)
        },
        Array::Timestamp(_) => match dt {
            PhysicalType::Timestamp(u, z) => if u is Microsecond && z is None {
                None
            } else {
                Some(ConversionError::CastFailure)
            },
            _ => Some(ConversionError::CastFailure),
        },
        Array::Timestamptz(_) => match dt {
            PhysicalType::Timestamp(u, z) => if u is Microsecond && (match z {
                Some(t) => t@ == "+00:00"@,
                None => false,
            }) {
                None
            } else {
                Some(ConversionError::CastFailure)
            },
            _ => Some(ConversionError::CastFailure),
        },
        Array::Interval(_) => if dt == PhysicalType::Interval(
            crate::interchange::IntervalUnit::MonthDayNano,
        ) {
            None
        } else {
            Some(ConversionError::CastFailure)
        },
        Array::Utf8(_) => match dt {
            PhysicalType::Utf8 => None,
            PhysicalType::LargeUtf8 => None,
            PhysicalType::Binary => None,
            PhysicalType::LargeBinary => None,
            _ => Some(ConversionError::CastFailure),
        },
        Array::Bytea(_) => match dt {
            PhysicalType::Binary => None,
            PhysicalType::LargeBinary => None,
            _ => Some(ConversionError::CastFailure),
        },
        Array::Decimal(_) => match dt {
            PhysicalType::Utf8 => None,
            PhysicalType::LargeUtf8 => None,
            PhysicalType::Binary => None,
            PhysicalType::LargeBinary => None,
            _ => Some(ConversionError::CastFailure),
        },
        Array::Jsonb(_) => match dt {
            PhysicalType::Utf8 => None,
            PhysicalType::LargeUtf8 => None,
            PhysicalType::Binary => None,
            PhysicalType::LargeBinary => None,
            _ => Some(ConversionError::CastFailure),
        },
        Array::Serial(_) => if dt is Int64 {
            None
        } else {
            Some(ConversionError::CastFailure)
        },
        Array::List(l) => match dt {
            PhysicalType::List(field) => match encode_err(field.data_type, *l.value) {
                Some(e) => Some(e),
                None => {
                    if exists|i: int|
                        0 <= i < l.offsets@.len() && (#[trigger] l.offsets@[i]) > i32::MAX as u32 {
                        Some(ConversionError::OffsetOverflow)
                    } else {
                        None
                    }
                },
            },
            _ => Some(ConversionError::CastFailure),
        },
        Array::Struct(s) => match dt {
            PhysicalType::Struct(fields) => {
                if fields@.len() != s.children@.len() {
                    Some(ConversionError::CastFailure)
                } else {
                    struct_encode_err(fields@, s.children@, 0)
                }
            },
            _ => Some(ConversionError::CastFailure),
        },
    }
}

/// Copies a vector of copyable values.
pub(crate) fn copy_vec<T: Copy>(v: &Vec<T>) -> (r: Vec<T>)
    ensures
        r@ == v@,
{
    let n = v.len();
    let mut r: Vec<T> = Vec::new();
    let mut i: usize = 0;
    while i < n
        invariant
            n == v@.len(),
            0 <= i <= n,
            r@ =~= v@.subrange(0, i as int),
        decreases n - i,
    {
        r.push(v[i]);
        i = i + 1;
    }
    proof {
        assert(r@ =~= v@);
    }
    r
}

/// Widens a 16-bit column to 32 bits.
fn widen_16_32(v: &Vec<Option<i16>>) -> (r: Vec<Option<i32>>)
    ensures
        opt_rel(v@, r@, |x: i16, y: i32| y as int == x as int),
{
    let n = v.len();
    let mut r: Vec<Option<i32>> = Vec::new();
    let mut i: usize = 0;
    while i < n
        invariant
            n == v@.len(),
            0 <= i <= n,
            r@.len() == i,
            forall|j: int|
                0 <= j < i ==> opt_match(
                    #[trigger] v@[j],
                    r@[j],
                    |x: i16, y: i32| y as int == x as int,
                ),
        decreases n - i,
    {
        match v[i] {
            Some(x) => r.push(Some(x as i32)),
            None => r.push(None),
        }
        i = i + 1;
    }
    r
}

/// Widens a 16-bit column to 64 bits.
fn widen_16_64(v: &Vec<Option<i16>>) -> (r: Vec<Option<i64>>)
    ensures
        opt_rel(v@, r@, |x: i16, y: i64| y as int == x as int),
{
    let n = v.len();
    let mut r: Vec<Option<i64>> = Vec::new();
    let mut i: usize = 0;
    while i < n
        invariant
            n == v@.len(),
            0 <= i <= n,
            r@.len() == i,
            forall|j: int|
                0 <= j < i ==> opt_match(
                    #[trigger] v@[j],
                    r@[j],
                    |x: i16, y: i64| y as int == x as int,
                ),
        decreases n - i,
    {
        match v[i] {
            Some(x) => r.push(Some(x as i64)),
            None => r.push(None),
        }
        i = i + 1;
    }
    r
}

/// Widens a 32-bit column to 64 bits.
fn widen_32_64(v: &Vec<Option<i32>>) -> (r: Vec<Option<i64>>)
    ensures
        opt_rel(v@, r@, |x: i32, y: i64| y as int == x as int),
{
    let n = v.len();
    let mut r: Vec<Option<i64>> = Vec::new();
    let mut i: usize = 0;
    while i < n
        invariant
            n == v@.len(),
            0 <= i <= n,
            r@.len() == i,
            forall|j: int|
                0 <= j < i ==> opt_match(
                    #[trigger] v@[j],
                    r@[j],
                    |x: i32, y: i64| y as int == x as int,
                ),
        decreases n - i,
    {
        match v[i] {
            Some(x) => r.push(Some(x as i64)),
            None => r.push(None),
        }
        i = i + 1;
    }
    r
}

/// Copies a string column, preserving each string's characters.
pub(crate) fn clone_strings(v: &Vec<Option<String>>) -> (r: Vec<Option<String>>)
    ensures
        opt_rel(v@, r@, |x: String, y: String| y@ == x@),
{
    let n = v.len();
    let mut r: Vec<Option<String>> = Vec::new();
    let mut i: usize = 0;
    while i < n
        invariant
            n == v@.len(),
            0 <= i <= n,
            r@.len() == i,
            forall|j: int|
                0 <= j < i ==> opt_match(#[trigger] v@[j], r@[j], |x: String, y: String| y@ == x@),
        decreases n - i,
    {
        match &v[i] {
            Some(s) => r.push(Some(s.clone())),
            None => r.push(None),
        }
        i = i + 1;
    }
    r
}

/// Encodes a string column to its UTF-8 bytes.
fn strings_to_bytes(v: &Vec<Option<String>>) -> (r: Vec<Option<Vec<u8>>>)
    ensures
        opt_rel(v@, r@, |x: String, y: Vec<u8>| y@ == encode_utf8(x@)),
{
    let n = v.len();
    let mut r: Vec<Option<Vec<u8>>> = Vec::new();
    let mut i: usize = 0;
    while i < n
        invariant
            n == v@.len(),
            0 <= i <= n,
            r@.len() == i,
            forall|j: int|
                0 <= j < i ==> opt_match(
                    #[trigger] v@[j],
                    r@[j],
                    |x: String, y: Vec<u8>| y@ == encode_utf8(x@),
                ),
        decreases n - i,
    {
        match &v[i] {
            Some(s) => r.push(Some(s.as_str().as_bytes_vec())),
            None => r.push(None),
        }
        i = i + 1;
    }
    r
}

/// Copies a binary column, preserving each value's bytes.
pub(crate) fn clone_bytes(v: &Vec<Option<Vec<u8>>>) -> (r: Vec<Option<Vec<u8>>>)
    ensures
        opt_rel(v@, r@, |x: Vec<u8>, y: Vec<u8>| y@ == x@),
{
    let n = v.len();
    let mut r: Vec<Option<Vec<u8>>> = Vec::new();
    let mut i: usize = 0;
    while i < n
        invariant
            n == v@.len(),
            0 <= i <= n,
            r@.len() == i,
            forall|j: int|
                0 <= j < i ==> opt_match(
                    #[trigger] v@[j],
                    r@[j],
                    |x: Vec<u8>, y: Vec<u8>| y@ == x@,
                ),
        decreases n - i,
    {
        match &v[i] {
            Some(b) => {
                let mut nb: Vec<u8> = Vec::new();
                let m = b.len();
                let mut k: usize = 0;
                while k < m
                    invariant
                        m == b@.len(),
                        0 <= k <= m,
                        nb@ =~= b@.subrange(0, k as int),
                    decreases m - k,
                {
                    nb.push(b[k]);
                    k = k + 1;
                }
                proof {
                    assert(nb@ =~= b@);
                }
                r.push(Some(nb));
            },
            None => r.push(None),
        }
        i = i + 1;
    }
    r
}

/// Encodes a date column to 1970-epoch day counts.
fn enc_dates(v: &Vec<Option<Date>>) -> (r: Vec<Option<i32>>)
    requires
        forall|i: int|
            0 <= i < v@.len() ==> (match #[trigger] v@[i] {
                Some(d) => d.wf(),
                None => true,
            }),
    ensures
        opt_rel(v@, r@, |x: Date, y: i32| y == x.as_arrow()),
{
    let n = v.len();
    let mut r: Vec<Option<i32>> = Vec::new();
    let mut i: usize = 0;
    while i < n
        invariant
            n == v@.len(),
            0 <= i <= n,
            r@.len() == i,
            forall|j: int|
                0 <= j < v@.len() ==> (match #[trigger] v@[j] {
                    Some(d) => d.wf(),
                    None => true,
                }),
            forall|j: int|
                0 <= j < i ==> opt_match(#[trigger] v@[j], r@[j], |x: Date, y: i32| y == x.as_arrow()),
        decreases n - i,
    {
        match v[i] {
            Some(d) => r.push(Some(d.into_arrow())),
            None => r.push(None),
        }
        i = i + 1;
    }
    r
}

/// Encodes a time column to microseconds since midnight.
fn enc_times(v: &Vec<Option<Time>>) -> (r: Vec<Option<i64>>)
    requires
        forall|i: int|
            0 <= i < v@.len() ==> (match #[trigger] v@[i] {
                Some(t) => t.wf(),
                None => true,
            }),
    ensures
        opt_rel(v@, r@, |x: Time, y: i64| y == x.as_arrow()),
{
    let n = v.len();
    let mut r: Vec<Option<i64>> = Vec::new();
    let mut i: usize = 0;
    while i < n
        invariant
            n == v@.len(),
            0 <= i <= n,
            r@.len() == i,
            forall|j: int|
                0 <= j < v@.len() ==> (match #[trigger] v@[j] {
                    Some(t) => t.wf(),
                    None => true,
                }),
            forall|j: int|
                0 <= j < i ==> opt_match(#[trigger] v@[j], r@[j], |x: Time, y: i64| y == x.as_arrow()),
        decreases n - i,
    {
        match v[i] {
            Some(t) => r.push(Some(t.into_arrow())),
            None => r.push(None),
        }
        i = i + 1;
    }
    r
}

/// Encodes a timestamp column to epoch microseconds.
fn enc_timestamps(v: &Vec<Option<Timestamp>>) -> (r: Vec<Option<i64>>)
    ensures
        opt_rel(v@, r@, |x: Timestamp, y: i64| y == x.as_arrow()),
{
    let n = v.len();
    let mut r: Vec<Option<i64>> = Vec::new();
    let mut i: usize = 0;
    while i < n
        invariant
            n == v@.len(),
            0 <= i <= n,
            r@.len() == i,
            forall|j: int|
                0 <= j < i ==> opt_match(
                    #[trigger] v@[j],
                    r@[j],
                    |x: Timestamp, y: i64| y == x.as_arrow(),
                ),
        decreases n - i,
    {
        match v[i] {
            Some(t) => r.push(Some(t.into_arrow())),
            None => r.push(None),
        }
        i = i + 1;
    }
    r
}

/// Encodes an instant column to epoch microseconds in UTC.
fn enc_timestamptzs(v: &Vec<Option<Timestamptz>>) -> (r: Vec<Option<i64>>)
    ensures
        opt_rel(v@, r@, |x: Timestamptz, y: i64| y == x.as_arrow()),
{
    let n = v.len();
    let mut r: Vec<Option<i64>> = Vec::new();
    let mut i: usize = 0;
    while i < n
        invariant
            n == v@.len(),
            0 <= i <= n,
            r@.len() == i,
            forall|j: int|
                0 <= j < i ==> opt_match(
                    #[trigger] v@[j],
                    r@[j],
                    |x: Timestamptz, y: i64| y == x.as_arrow(),
                ),
        decreases n - i,
    {
        match v[i] {
            Some(t) => r.push(Some(t.into_arrow())),
            None => r.push(None),
        }
        i = i + 1;
    }
    r
}

/// Encodes a serial column to 64-bit values.
fn enc_serials(v: &Vec<Option<Serial>>) -> (r: Vec<Option<i64>>)
    ensures
        opt_rel(v@, r@, |x: Serial, y: i64| y == x.as_arrow()),
{
    let n = v.len();
    let mut r: Vec<Option<i64>> = Vec::new();
    let mut i: usize = 0;
    while i < n
        invariant
            n == v@.len(),
            0 <= i <= n,
            r@.len() == i,
            forall|j: int|
                0 <= j < i ==> opt_match(
                    #[trigger] v@[j],
                    r@[j],
                    |x: Serial, y: i64| y == x.as_arrow(),
                ),
        decreases n - i,
    {
        match v[i] {
            Some(s) => r.push(Some(s.into_arrow())),
            None => r.push(None),
        }
        i = i + 1;
    }
    r
}

/// Encodes an interval column to the packed 128-bit layout.
fn enc_intervals(v: &Vec<Option<Interval>>) -> (r: Vec<Option<i128>>)
    requires
        forall|i: int|
            0 <= i < v@.len() ==> (match #[trigger] v@[i] {
                Some(iv) => iv.wf(),
                None => true,
            }),
    ensures
        opt_rel(v@, r@, |x: Interval, y: i128| y == x.as_arrow()),
{
    let n = v.len();
    let mut r: Vec<Option<i128>> = Vec::new();
    let mut i: usize = 0;
    while i < n
        invariant
            n == v@.len(),
            0 <= i <= n,
            r@.len() == i,
            forall|j: int|
                0 <= j < v@.len() ==> (match #[trigger] v@[j] {
                    Some(iv) => iv.wf(),
                    None => true,
                }),
            forall|j: int|
                0 <= j < i ==> opt_match(
                    #[trigger] v@[j],
                    r@[j],
                    |x: Interval, y: i128| y == x.as_arrow(),
                ),
        decreases n - i,
    {
        match v[i] {
            Some(iv) => r.push(Some(iv.into_arrow())),
            None => r.push(None),
        }
        i = i + 1;
    }
    r
}

/// Renders a decimal column to its canonical text.
fn enc_decimals_text(v: &Vec<Option<Decimal>>) -> (r: Vec<Option<String>>)
    requires
        forall|i: int|
            0 <= i < v@.len() ==> (match #[trigger] v@[i] {
                Some(d) => d.wf(),
                None => true,
            }),
    ensures
        opt_rel(v@, r@, |x: Decimal, y: String| y@ == decimal_text(x) && dec_text_plain(x) && dec_text_parses(x)),
{
    let n = v.len();
    let mut r: Vec<Option<String>> = Vec::new();
    let mut i: usize = 0;
    while i < n
        invariant
            n == v@.len(),
            0 <= i <= n,
            r@.len() == i,
            forall|j: int|
                0 <= j < v@.len() ==> (match #[trigger] v@[j] {
                    Some(d) => d.wf(),
                    None => true,
                }),
            forall|j: int|
                0 <= j < i ==> opt_match(
                    #[trigger] v@[j],
                    r@[j],
                    |x: Decimal, y: String| y@ == decimal_text(x) && dec_text_plain(x) && dec_text_parses(x),
                ),
        decreases n - i,
    {
        match &v[i] {
            Some(d) => r.push(Some(decimal_to_text(d))),
            None => r.push(None),
        }
        i = i + 1;
    }
    r
}

/// Renders a decimal column to the UTF-8 bytes of its canonical text.
fn enc_decimals_bytes(v: &Vec<Option<Decimal>>) -> (r: Vec<Option<Vec<u8>>>)
    requires
        forall|i: int|
            0 <= i < v@.len() ==> (match #[trigger] v@[i] {
                Some(d) => d.wf(),
                None => true,
            }),
    ensures
        opt_rel(
            v@,
            r@,
            |x: Decimal, y: Vec<u8>| y@ == encode_utf8(decimal_text(x)) && dec_text_plain(
                x,
            ) && dec_text_parses(x),
        ),
{
    let n = v.len();
    let mut r: Vec<Option<Vec<u8>>> = Vec::new();
    let mut i: usize = 0;
    while i < n
        invariant
            n == v@.len(),
            0 <= i <= n,
            r@.len() == i,
            forall|j: int|
                0 <= j < v@.len() ==> (match #[trigger] v@[j] {
                    Some(d) => d.wf(),
                    None => true,
                }),
            forall|j: int|
                0 <= j < i ==> opt_match(
                    #[trigger] v@[j],
                    r@[j],
                    |x: Decimal, y: Vec<u8>| y@ == encode_utf8(decimal_text(x)) && dec_text_plain(
                        x,
                    ) && dec_text_parses(x),
                ),
        decreases n - i,
    {
        match &v[i] {
            Some(d) => {
                let t = decimal_to_text(d);
                r.push(Some(t.as_str().as_bytes_vec()));
            },
            None => r.push(None),
        }
        i = i + 1;
    }
    r
}

/// Renders a JSON column to its canonical text.
fn enc_jsonbs_text(v: &Vec<Option<Jsonb>>) -> (r: Vec<Option<String>>)
    ensures
        opt_rel(
            v@,
            r@,
            |x: Jsonb, y: String| y@ == x@ && json_valid(x@) && json_canon(x@) == x@,
        ),
{
    let n = v.len();
    let mut r: Vec<Option<String>> = Vec::new();
    let mut i: usize = 0;
    while i < n
        invariant
            n == v@.len(),
            0 <= i <= n,
            r@.len() == i,
            forall|j: int|
                0 <= j < i ==> opt_match(
                    #[trigger] v@[j],
                    r@[j],
                    |x: Jsonb, y: String| y@ == x@ && json_valid(x@) && json_canon(x@) == x@,
                ),
        decreases n - i,
    {
        match &v[i] {
            Some(j) => r.push(Some(j.to_text())),
            None => r.push(None),
        }
        i = i + 1;
    }
    r
}

/// Renders a JSON column to the UTF-8 bytes of its canonical text.
fn enc_jsonbs_bytes(v: &Vec<Option<Jsonb>>) -> (r: Vec<Option<Vec<u8>>>)
    ensures
        opt_rel(
            v@,
            r@,
            |x: Jsonb, y: Vec<u8>| y@ == encode_utf8(x@) && json_valid(x@) && json_canon(x@) == x@,
        ),
{
    let n = v.len();
    let mut r: Vec<Option<Vec<u8>>> = Vec::new();
    let mut i: usize = 0;
    while i < n
        invariant
            n == v@.len(),
            0 <= i <= n,
            r@.len() == i,
            forall|j: int|
                0 <= j < i ==> opt_match(
                    #[trigger] v@[j],
                    r@[j],
                    |x: Jsonb, y: Vec<u8>| y@ == encode_utf8(x@) && json_valid(x@) && json_canon(
                        x@,
                    ) == x@,
                ),
        decreases n - i,
    {
        match &v[i] {
            Some(j) => {
                let t = j.to_text();
                r.push(Some(t.as_str().as_bytes_vec()));
            },
            None => r.push(None),
        }
        i = i + 1;
    }
    r
}

/// Narrows internal list offsets to the interchange offset width,
/// rejecting overflow.
fn narrow_offsets(offsets: &Vec<u32>) -> (r: Result<Vec<i32>, ConversionError>)
    ensures
        (match r {
            Ok(w) => {
                &&& w@.len() == offsets@.len()
                &&& forall|i: int|
                    0 <= i < offsets@.len() ==> (#[trigger] w@[i]) as int == offsets@[i] as int
                &&& !(exists|i: int|
                    0 <= i < offsets@.len() && (#[trigger] offsets@[i]) > i32::MAX as u32)
            },
            Err(e) => e == ConversionError::OffsetOverflow && (exists|i: int|
                0 <= i < offsets@.len() && (#[trigger] offsets@[i]) > i32::MAX as u32),
        }),
{
    let n = offsets.len();
    let mut r: Vec<i32> = Vec::new();
    let mut i: usize = 0;
    while i < n
        invariant
            n == offsets@.len(),
            0 <= i <= n,
            r@.len() == i,
            forall|j: int| 0 <= j < i ==> (#[trigger] r@[j]) as int == offsets@[j] as int,
            forall|j: int| 0 <= j < i ==> (#[trigger] offsets@[j]) <= i32::MAX as u32,
        decreases n - i,
    {
        let o = offsets[i];
        if o > i32::MAX as u32 {
            return Err(ConversionError::OffsetOverflow);
        }
        r.push(o as i32);
        i = i + 1;
    }
    Ok(r)
}

/// The first encoding error among the struct children from index `i` on.
pub open spec fn struct_encode_err(fields: Seq<Field>, children: Seq<Array>, i: int) -> Option<
    ConversionError,
>
    decreases children, children.len() - i,
{
    if i < 0 || i >= children.len() || fields.len() != children.len() {
        None
    } else {
        match encode_err(fields[i].data_type, children[i]) {
            Some(e) => Some(e),
            None => struct_encode_err(fields, children, i + 1),
        }
    }
}

/// Encodes one internal column against a target physical type,
/// producing the natural encoding and applying an interchange-level cast
/// where the target differs.
pub fn to_array(data_type: &PhysicalType, array: &Array) -> (r: Result<
    ColumnData,
    ConversionError,
>)
    requires
        array.wf(),
    ensures
        (match r {
            Ok(c) => {
                &&& encode_err(*data_type, *array) is None
                &&& encodes_as(*data_type, *array, c)
                &&& c.wf()
                &&& c.spec_len() == array.spec_len()
            },
            Err(e) => encode_err(*data_type, *array) == Some(e),
        }),
    decreases *array, 0int,
{
    match array {
        Array::Bool(v) => match data_type {
            PhysicalType::Boolean => Ok(ColumnData::Boolean(copy_vec(v))),
            _ => Err(ConversionError::CastFailure),
        },
        Array::Int16(v) => match data_type {
            PhysicalType::Int16 => Ok(ColumnData::Int16(copy_vec(v))),
            PhysicalType::Int32 => Ok(ColumnData::Int32(widen_16_32(v))),
            PhysicalType::Int64 => Ok(ColumnData::Int64(widen_16_64(v))),
            _ => Err(ConversionError::CastFailure),
        },
        Array::Int32(v) => match data_type {
            PhysicalType::Int32 => Ok(ColumnData::Int32(copy_vec(v))),
            PhysicalType::Int64 => Ok(ColumnData::Int64(widen_32_64(v))),
            _ => Err(ConversionError::CastFailure),
        },
        Array::Int64(v) => match data_type {
            PhysicalType::Int64 => Ok(ColumnData::Int64(copy_vec(v))),
            _ => Err(ConversionError::CastFailure),
        },
        Array::Int256(v) => match data_type {
            PhysicalType::Decimal256(p, s) => {
                if *p == 76u8 && *s == 0i8 {
                    Ok(ColumnData::Decimal256(copy_vec(v)))
                } else {
                    Err(ConversionError::CastFailure)
                }
            },
            _ => Err(ConversionError::CastFailure),
        },
        Array::Float32(v) => match data_type {
            PhysicalType::Float32 => Ok(ColumnData::Float32(copy_vec(v))),
            PhysicalType::Float64 => Ok(ColumnData::Float64(cast_f32_col_to_f64(v))),
            _ => Err(ConversionError::CastFailure),
        },
        Array::Float64(v) => match data_type {
            PhysicalType::Float64 => Ok(ColumnData::Float64(copy_vec(v))),
            PhysicalType::Float32 => Ok(ColumnData::Float32(cast_f64_col_to_f32(v))),
            _ => Err(ConversionError::CastFailure),
        },
        Array::Date(v) => match data_type {
            PhysicalType::Date32 => Ok(ColumnData::Date32(enc_dates(v))),
            _ => Err(ConversionError::CastFailure),
        },
        Array::Time(v) => match data_type {
            PhysicalType::Time64(u) => match u {
                crate::interchange::TimeUnit::Microsecond => Ok(
                    ColumnData::Time64(enc_times(v)),
                ),
                _ => Err(ConversionError::CastFailure),
            },
            _ => Err(ConversionError::CastFailure),
        },
        Array::Timestamp(v) => match data_type {
            PhysicalType::Timestamp(u, z) => match (u, z) {
                (crate::interchange::TimeUnit::Microsecond, Option::None) => Ok(
                    ColumnData::Timestamp(enc_timestamps(v)),
                ),
                _ => Err(ConversionError::CastFailure),
            },
            _ => Err(ConversionError::CastFailure),
        },
        Array::Timestamptz(v) => match data_type {
            PhysicalType::Timestamp(u, z) => match (u, z) {
                (crate::interchange::TimeUnit::Microsecond, Option::Some(tz)) => {
                    if crate::strutil::str_eq(tz.as_str(), "+00:00") {
                        Ok(ColumnData::Timestamp(enc_timestamptzs(v)))
                    } else {
                        Err(ConversionError::CastFailure)
                    }
                },
                _ => Err(ConversionError::CastFailure),
            },
            _ => Err(ConversionError::CastFailure),
        },
        Array::Interval(v) => match data_type {
            PhysicalType::Interval(u) => match u {
                crate::interchange::IntervalUnit::MonthDayNano => Ok(
                    ColumnData::Interval(enc_intervals(v)),
                ),
                _ => Err(ConversionError::CastFailure),
            },
            _ => Err(ConversionError::CastFailure),
        },
        Array::Utf8(v) => match data_type {
            PhysicalType::Utf8 => Ok(ColumnData::Utf8(clone_strings(v))),
            PhysicalType::LargeUtf8 => Ok(ColumnData::LargeUtf8(clone_strings(v))),
            PhysicalType::Binary => Ok(ColumnData::Binary(strings_to_bytes(v))),
            PhysicalType::LargeBinary => Ok(ColumnData::LargeBinary(strings_to_bytes(v))),
            _ => Err(ConversionError::CastFailure),
        },
        Array::Bytea(v) => match data_type {
            PhysicalType::Binary => Ok(ColumnData::Binary(clone_bytes(v))),
            PhysicalType::LargeBinary => Ok(ColumnData::LargeBinary(clone_bytes(v))),
            _ => Err(ConversionError::CastFailure),
        },
        Array::Decimal(v) => match data_type {
            PhysicalType::Utf8 => Ok(ColumnData::Utf8(enc_decimals_text(v))),
            PhysicalType::LargeUtf8 => Ok(ColumnData::LargeUtf8(enc_decimals_text(v))),
            PhysicalType::Binary => Ok(ColumnData::Binary(enc_decimals_bytes(v))),
            PhysicalType::LargeBinary => Ok(ColumnData::LargeBinary(enc_decimals_bytes(v))),
            _ => Err(ConversionError::CastFailure),
        },
        Array::Jsonb(v) => match data_type {
            PhysicalType::Utf8 => Ok(ColumnData::Utf8(enc_jsonbs_text(v))),
            PhysicalType::LargeUtf8 => Ok(ColumnData::LargeUtf8(enc_jsonbs_text(v))),
            PhysicalType::Binary => Ok(ColumnData::Binary(enc_jsonbs_bytes(v))),
            PhysicalType::LargeBinary => Ok(ColumnData::LargeBinary(enc_jsonbs_bytes(v))),
            _ => Err(ConversionError::CastFailure),
        },
        Array::Serial(v) => match data_type {
            PhysicalType::Int64 => Ok(ColumnData::Int64(enc_serials(v))),
            _ => Err(ConversionError::CastFailure),
        },
        Array::List(l) => match data_type {
            PhysicalType::List(field) => {
                let values = match to_array(&field.data_type, &l.value) {
                    Ok(c) => c,
                    Err(e) => {
                        return Err(e);
                    },
                };
                let offsets = match narrow_offsets(&l.offsets) {
                    Ok(o) => o,
                    Err(e) => {
                        return Err(e);
                    },
                };
                Ok(
                    ColumnData::List(
                        crate::interchange::ListColumn {
                            validity: copy_vec(&l.validity),
                            offsets,
                            values: Box::new(values),
                        },
                    ),
                )
            },
            _ => Err(ConversionError::CastFailure),
        },
        Array::Struct(s) => match data_type {
            PhysicalType::Struct(fields) => {
                if fields.len() != s.children.len() {
                    return Err(ConversionError::CastFailure);
                }
                match encode_struct_children(fields, &s.children) {
                    Ok(children) => {
                        let c = ColumnData::Struct(
                            crate::interchange::StructColumn {
                                validity: copy_vec(&s.validity),
                                children,
                            },
                        );
                        proof {
                            let sc = c->Struct_0;
                            assert forall|i: int| 0 <= i < sc.children@.len() implies (
                            #[trigger] sc.children@[i]).spec_len() == sc.validity@.len() && sc.children@[i].wf() by {
                                assert(encodes_as(
                                    fields@[i].data_type,
                                    s.children@[i],
                                    sc.children@[i],
                                ));
                                assert(s.children@[i].wf());
                                assert(s.children@[i].spec_len() == s.validity@.len());
                            };
                        }
                        Ok(c)
                    },
                    Err(e) => Err(e),
                }
            },
            _ => Err(ConversionError::CastFailure),
        },
    }
}

/// Encodes the children of a struct column against the target's
/// sub-fields, in order, stopping at the first error.
pub(crate) fn encode_struct_children(fields: &Vec<Field>, children: &Vec<Array>) -> (r: Result<
    Vec<ColumnData>,
    ConversionError,
>)
    requires
        fields@.len() == children@.len(),
        forall|i: int| 0 <= i < children@.len() ==> (#[trigger] children@[i]).wf(),
    ensures
        (match r {
            Ok(cs) => {
                &&& struct_encode_err(fields@, children@, 0) is None
                &&& cs@.len() == children@.len()
                &&& forall|i: int|
                    0 <= i < children@.len() ==> encodes_as(
                        fields@[i].data_type,
                        #[trigger] children@[i],
                        cs@[i],
                    ) && cs@[i].wf() && cs@[i].spec_len() == children@[i].spec_len()
            },
            Err(e) => struct_encode_err(fields@, children@, 0) == Some(e),
        }),
    decreases children@, 1int,
{
    let n = children.len();
    let mut out: Vec<ColumnData> = Vec::new();
    let mut i: usize = 0;
    while i < n
        invariant
            n == children@.len(),
            fields@.len() == children@.len(),
            forall|k: int| 0 <= k < children@.len() ==> (#[trigger] children@[k]).wf(),
            0 <= i <= n,
            out@.len() == i,
            struct_encode_err(fields@, children@, 0) == struct_encode_err(
                fields@,
                children@,
                i as int,
            ),
            forall|j: int|
                0 <= j < i ==> encodes_as(fields@[j].data_type, #[trigger] children@[j], out@[j])
                    && out@[j].wf() && out@[j].spec_len() == children@[j].spec_len(),
        decreases n - i,
    {
        match to_array(&fields[i].data_type, &children[i]) {
            Ok(c) => out.push(c),
            Err(e) => {
                return Err(e);
            },
        }
        i = i + 1;
    }
    Ok(out)
}

/// Encodes an internal batch against a target schema into an interchange
/// batch. A batch with a pending visibility mask is compacted first: the
/// interchange format never carries mask state.
pub fn to_record_batch(schema: &Vec<Field>, chunk: &crate::array::InternalBatch) -> (r: Result<
    crate::interchange::InterchangeBatch,
    ConversionError,
>)
    requires
        chunk.wf(),
        schema@.len() == chunk.columns@.len(),
    ensures
        (match r {
            Ok(b) => {
                &&& b.wf()
                &&& b.fields@.len() == schema@.len()
                &&& forall|i: int|
                    0 <= i < schema@.len() ==> crate::interchange::field_equiv(
                        #[trigger] b.fields@[i],
                        schema@[i],
                    )
                &&& b.rows == crate::compact::mask_count(
                    chunk.visibility@,
                    chunk.visibility@.len() as int,
                )
                &&& b.columns@.len() == schema@.len()
            },
            Err(_) => true,
        }),
        chunk.spec_is_compacted() ==> (match r {
            Ok(b) => {
                &&& struct_encode_err(schema@, chunk.columns@, 0) is None
                &&& forall|i: int|
                    0 <= i < schema@.len() ==> encodes_as(
                        schema@[i].data_type,
                        #[trigger] chunk.columns@[i],
                        b.columns@[i],
                    )
            },
            Err(e) => struct_encode_err(schema@, chunk.columns@, 0) == Some(e),
        }),
        !chunk.spec_is_compacted() ==> (exists|cc: crate::array::InternalBatch|
            {
                &&& cc.wf()
                &&& cc.spec_is_compacted()
                &&& cc.columns@.len() == chunk.columns@.len()
                &&& (forall|i: int|
                    0 <= i < chunk.columns@.len() ==> crate::compact::compacted_rel(
                        #[trigger] chunk.columns@[i],
                        chunk.visibility@,
                        cc.columns@[i],
                    ))
                &&& (match r {
                    Ok(b) => {
                        &&& struct_encode_err(schema@, cc.columns@, 0) is None
                        &&& forall|i: int|
                            0 <= i < schema@.len() ==> encodes_as(
                                schema@[i].data_type,
                                #[trigger] cc.columns@[i],
                                b.columns@[i],
                            )
                    },
                    Err(e) => struct_encode_err(schema@, cc.columns@, 0) == Some(e),
                })
            }),
{
    if !chunk.is_compacted() {
        let cc = crate::compact::compact(chunk);
        proof {
            assert forall|i: int| 0 <= i < cc.columns@.len() implies (
            #[trigger] cc.columns@[i]).wf() by {
                assert(cc.wf());
            };
        }
        let columns = match encode_struct_children(schema, &cc.columns) {
            Ok(cs) => cs,
            Err(e) => {
                return Err(e);
            },
        };
        let rows = cc.capacity();
        let fields = crate::interchange::clone_fields(schema);
        let b = crate::interchange::InterchangeBatch { fields, columns, rows };
        proof {
            assert forall|i: int| 0 <= i < b.columns@.len() implies (
            #[trigger] b.columns@[i]).spec_len() == b.rows && b.columns@[i].wf() by {
                assert(encodes_as(schema@[i].data_type, cc.columns@[i], b.columns@[i]));
                assert(b.columns@[i].wf());
                assert(b.columns@[i].spec_len() == cc.columns@[i].spec_len());
                assert(cc.columns@[i].spec_len() == cc.visibility@.len());
            };
        }
        Ok(b)
    } else {
        proof {
            assert forall|i: int| 0 <= i < chunk.columns@.len() implies (
            #[trigger] chunk.columns@[i]).wf() by {
                assert(chunk.wf());
            };
            crate::compact::lemma_mask_count_all(chunk.visibility@);
        }
        let columns = match encode_struct_children(schema, &chunk.columns) {
            Ok(cs) => cs,
            Err(e) => {
                return Err(e);
            },
        };
        let rows = chunk.capacity();
        let fields = crate::interchange::clone_fields(schema);
        let b = crate::interchange::InterchangeBatch { fields, columns, rows };
        proof {
            assert forall|i: int| 0 <= i < b.columns@.len() implies (
            #[trigger] b.columns@[i]).spec_len() == b.rows && b.columns@[i].wf() by {
                assert(encodes_as(schema@[i].data_type, chunk.columns@[i], b.columns@[i]));
                assert(b.columns@[i].wf());
                assert(b.columns@[i].spec_len() == chunk.columns@[i].spec_len());
                assert(chunk.columns@[i].spec_len() == chunk.visibility@.len());
            };
        }
        Ok(b)
    }
}

} // verus!
