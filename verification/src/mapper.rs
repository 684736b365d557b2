//! Bidirectional mapping between logical types and interchange fields.
//!
//! Primitive logical types map one-to-one onto fixed interchange types.
//! Decimal and JSON have no native interchange type: they map to a
//! string-typed field annotated with an extension tag, and decoding
//! inspects the tag before the physical type switch, so an untagged plain
//! string field is never mistaken for them. Decode additionally accepts
//! the large-offset string and binary variants as legacy aliases of
//! Varchar and Bytea.

use vstd::prelude::*;

use crate::error::ConversionError;
use crate::interchange::{Field, IntervalUnit, PhysicalType, TimeUnit};
use crate::logical::{LogicalType, StructField};
use crate::strutil::str_eq;

verus! {

/// The extension tag carrying decimals as text.
pub open spec fn decimal_tag() -> Seq<char> {
    "ext.decimal"@
}

/// The extension tag carrying JSON as text.
pub open spec fn json_tag() -> Seq<char> {
    "ext.json"@
}

/// Whether `f` is the interchange field that the logical type `ty` maps
/// to, up to the field name, which the caller chooses freely.
pub open spec fn maps_to_field(ty: LogicalType, f: Field) -> bool
    decreases ty,
{
    match ty {
        LogicalType::Boolean => f.data_type is Boolean && f.extension is None,
        LogicalType::Int16 => f.data_type is Int16 && f.extension is None,
        LogicalType::Int32 => f.data_type is Int32 && f.extension is None,
        LogicalType::Int64 => f.data_type is Int64 && f.extension is None,
        LogicalType::Int256 => f.data_type == PhysicalType::Decimal256(76, 0) && f.extension
            is None,
        LogicalType::Float32 => f.data_type is Float32 && f.extension is None,
        LogicalType::Float64 => f.data_type is Float64 && f.extension is None,
        LogicalType::Date => f.data_type is Date32 && f.extension is None,
        LogicalType::Time => f.data_type == PhysicalType::Time64(TimeUnit::Microsecond)
            && f.extension is None,
        LogicalType::Timestamp => (match f.data_type {
            PhysicalType::Timestamp(u, z) => u is Microsecond && z is None,
            _ => false,
        }) && f.extension is None,
        LogicalType::Timestamptz => (match f.data_type {
            PhysicalType::Timestamp(u, z) => u is Microsecond && (match z {
                Some(z) => z@ == "+00:00"@,
                None => false,
            }),
            _ => false,
        }) && f.extension is None,
        LogicalType::Interval => f.data_type == PhysicalType::Interval(IntervalUnit::MonthDayNano)
            && f.extension is None,
        LogicalType::Varchar => f.data_type is Utf8 && f.extension is None,
        LogicalType::Bytea => f.data_type is Binary && f.extension is None,
        LogicalType::Decimal => f.data_type is Utf8 && (match f.extension {
            Some(tag) => tag@ == decimal_tag(),
            None => false,
        }),
        LogicalType::Jsonb => f.data_type is Utf8 && (match f.extension {
            Some(tag) => tag@ == json_tag(),
            None => false,
        }),
        LogicalType::Serial => f.data_type is Int64 && f.extension is None,
        LogicalType::Struct(fields) => (match f.data_type {
            PhysicalType::Struct(inner) => {
                &&& inner@.len() == fields@.len()
                &&& forall|i: int|
                    0 <= i < fields@.len() ==> maps_to_field(
                        (#[trigger] fields@[i]).ty,
                        inner@[i],
                    ) && inner@[i].name@ == fields@[i].name@
            },
            _ => false,
        }) && f.extension is None,
        LogicalType::List(elem) => (match f.data_type {
            PhysicalType::List(inner) => maps_to_field(*elem, *inner) && inner.name@ == "item"@,
            _ => false,
        }) && f.extension is None,
    }
}

/// Maps a logical type to its interchange field. Total: every logical
/// type has a mapping.
pub fn to_arrow_field(name: &str, value: &LogicalType) -> (r: Result<Field, ConversionError>)
    ensures
        (match r {
            Ok(f) => maps_to_field(*value, f) && f.name@ == name@,
            Err(_) => false,
        }),
    decreases *value, 0int,
{
    let data_type = match value {
        LogicalType::Boolean => PhysicalType::Boolean,
        LogicalType::Int16 => PhysicalType::Int16,
        LogicalType::Int32 => PhysicalType::Int32,
        LogicalType::Int64 => PhysicalType::Int64,
        LogicalType::Int256 => PhysicalType::Decimal256(76, 0),
        LogicalType::Float32 => PhysicalType::Float32,
        LogicalType::Float64 => PhysicalType::Float64,
        LogicalType::Date => PhysicalType::Date32,
        LogicalType::Time => PhysicalType::Time64(TimeUnit::Microsecond),
        LogicalType::Timestamp => PhysicalType::Timestamp(TimeUnit::Microsecond, None),
        LogicalType::Timestamptz => PhysicalType::Timestamp(
            TimeUnit::Microsecond,
            Some("+00:00".to_owned()),
        ),
        LogicalType::Interval => PhysicalType::Interval(IntervalUnit::MonthDayNano),
        LogicalType::Varchar => PhysicalType::Utf8,
        LogicalType::Bytea => PhysicalType::Binary,
        LogicalType::Serial => PhysicalType::Int64,
        LogicalType::Decimal => {
            return Ok(
                Field {
                    name: name.to_owned(),
                    data_type: PhysicalType::Utf8,
                    extension: Some("ext.decimal".to_owned()),
                },
            );
        },
        LogicalType::Jsonb => {
            return Ok(
                Field {
                    name: name.to_owned(),
                    data_type: PhysicalType::Utf8,
                    extension: Some("ext.json".to_owned()),
                },
            );
        },
        LogicalType::Struct(fields) => {
            match struct_fields_to_arrow(fields) {
                Ok(inner) => PhysicalType::Struct(inner),
                Err(e) => {
                    return Err(e);
                },
            }
        },
        LogicalType::List(elem) => {
            match to_arrow_field("item", elem) {
                Ok(f) => PhysicalType::List(Box::new(f)),
                Err(e) => {
                    return Err(e);
                },
            }
        },
    };
    Ok(Field { name: name.to_owned(), data_type, extension: None })
}

/// Maps the named sub-fields of a struct type to interchange fields, in
/// order.
pub fn struct_fields_to_arrow(fields: &Vec<StructField>) -> (r: Result<Vec<Field>, ConversionError>)
    ensures
        (match r {
            Ok(inner) => {
                &&& inner@.len() == fields@.len()
                &&& forall|i: int|
                    0 <= i < fields@.len() ==> maps_to_field(
                        (#[trigger] fields@[i]).ty,
                        inner@[i],
                    ) && inner@[i].name@ == fields@[i].name@
            },
            Err(_) => false,
        }),
    decreases fields@, 1int,
{
    let n = fields.len();
    let mut inner: Vec<Field> = Vec::new();
    let mut i: usize = 0;
    while i < n
        invariant
            n == fields@.len(),
            0 <= i <= n,
            inner@.len() == i,
            forall|j: int|
                0 <= j < i ==> maps_to_field((#[trigger] fields@[j]).ty, inner@[j])
                    && inner@[j].name@ == fields@[j].name@,
        decreases n - i,
    {
        match to_arrow_field(fields[i].name.as_str(), &fields[i].ty) {
            Ok(f) => inner.push(f),
            Err(e) => {
                return Err(e);
            },
        }
        i = i + 1;
    }
    Ok(inner)
}

/// Whether the field `f` decodes to the logical type `ty`.
pub open spec fn field_decodes_to(f: Field, ty: LogicalType) -> bool
    decreases f,
{
    match f.extension {
        Some(tag) => {
            if tag@ == decimal_tag() {
                f.data_type is Utf8 && ty is Decimal
            } else if tag@ == json_tag() {
                f.data_type is Utf8 && ty is Jsonb
            } else {
                false
            }
        },
        None => match f.data_type {
            PhysicalType::Boolean => ty is Boolean,
            PhysicalType::Int16 => ty is Int16,
            PhysicalType::Int32 => ty is Int32,
            PhysicalType::Int64 => ty is Int64,
            PhysicalType::Float32 => ty is Float32,
            PhysicalType::Float64 => ty is Float64,
            PhysicalType::Decimal128(_, _) => ty is Decimal,
            PhysicalType::Decimal256(_, _) => ty is Int256,
            PhysicalType::Date32 => ty is Date,
            PhysicalType::Time64(u) => u is Microsecond && ty is Time,
            PhysicalType::Timestamp(u, z) => u is Microsecond && (match z {
                Some(_) => ty is Timestamptz,
                None => ty is Timestamp,
            }),
            PhysicalType::Interval(u) => u is MonthDayNano && ty is Interval,
            PhysicalType::Utf8 => ty is Varchar,
            PhysicalType::Binary => ty is Bytea,
            PhysicalType::LargeUtf8 => ty is Varchar,
            PhysicalType::LargeBinary => ty is Bytea,
            PhysicalType::List(inner) => (match ty {
                LogicalType::List(elem) => field_decodes_to(*inner, *elem),
                _ => false,
            }),
            PhysicalType::Struct(inner) => (match ty {
                LogicalType::Struct(fields) => {
                    &&& fields@.len() == inner@.len()
                    &&& forall|i: int|
                        0 <= i < inner@.len() ==> field_decodes_to(
                            #[trigger] inner@[i],
                            fields@[i].ty,
                        ) && fields@[i].name@ == inner@[i].name@
                },
                _ => false,
            }),
            _ => false,
        },
    }
}

/// The error that decoding the field `f` reports, if any: an unknown
/// extension tag, a tag whose carrier is not a string type, or a physical
/// type with no mapping; for nested types, the first error in field order.
pub open spec fn field_decode_err(f: Field) -> Option<ConversionError>
    decreases f, 0int,
{
    match f.extension {
        Some(tag) => {
            if tag@ == decimal_tag() || tag@ == json_tag() {
                if f.data_type is Utf8 {
                    None
                } else {
                    Some(ConversionError::FieldTypeMismatch)
                }
            } else {
                Some(ConversionError::UnsupportedExtensionTag)
            }
        },
        None => match f.data_type {
            PhysicalType::Float16 => Some(ConversionError::UnsupportedPhysicalType),
            PhysicalType::Date64 => Some(ConversionError::UnsupportedPhysicalType),
            PhysicalType::Time64(u) => if u is Microsecond {
                None
            } else {
                Some(ConversionError::UnsupportedPhysicalType)
            },
            PhysicalType::Timestamp(u, _) => if u is Microsecond {
                None
            } else {
                Some(ConversionError::UnsupportedPhysicalType)
            },
            PhysicalType::Interval(u) => if u is MonthDayNano {
                None
            } else {
                Some(ConversionError::UnsupportedPhysicalType)
            },
            PhysicalType::List(inner) => field_decode_err(*inner),
            PhysicalType::Struct(inner) => fields_decode_err(inner@, 0),
            _ => None,
        },
    }
}

/// The first decode error among the fields from index `i` on, if any.
pub open spec fn fields_decode_err(fs: Seq<Field>, i: int) -> Option<ConversionError>
    decreases fs, fs.len() - i,
{
    if i < 0 || i >= fs.len() {
        None
    } else {
        match field_decode_err(fs[i]) {
            Some(e) => Some(e),
            None => fields_decode_err(fs, i + 1),
        }
    }
}

/// Maps an extension tag and its physical carrier type to the logical
/// type the tag names. Exactly the two known tags are accepted, and only
/// on a string carrier.
pub fn from_extension_type(tag_name: &str, physical_type: &PhysicalType) -> (r: Result<
    LogicalType,
    ConversionError,
>)
    ensures
        (match r {
            Ok(ty) => (tag_name@ == decimal_tag() || tag_name@ == json_tag()) && *physical_type
                is Utf8 && (if tag_name@ == decimal_tag() {
                ty is Decimal
            } else {
                ty is Jsonb
            }),
            Err(e) => {
                if tag_name@ != decimal_tag() && tag_name@ != json_tag() {
                    e == ConversionError::UnsupportedExtensionTag
                } else {
                    !(*physical_type is Utf8) && e == ConversionError::FieldTypeMismatch
                }
            },
        }),
{
    let is_dec = str_eq(tag_name, "ext.decimal");
    let is_json = str_eq(tag_name, "ext.json");
    if !is_dec && !is_json {
        return Err(ConversionError::UnsupportedExtensionTag);
    }
    let carrier_ok = match physical_type {
        PhysicalType::Utf8 => true,
        _ => false,
    };
    if !carrier_ok {
        return Err(ConversionError::FieldTypeMismatch);
    }
    if is_dec {
        proof {
            reveal_strlit("ext.decimal");
            reveal_strlit("ext.json");
        }
        Ok(LogicalType::Decimal)
    } else {
        Ok(LogicalType::Jsonb)
    }
}

/// Maps an interchange field back to its logical type, dispatching on the
/// extension tag before the physical type.
pub fn from_field(field: &Field) -> (r: Result<LogicalType, ConversionError>)
    ensures
        (match r {
            Ok(ty) => field_decode_err(*field) is None && field_decodes_to(*field, ty),
            Err(e) => field_decode_err(*field) == Some(e),
        }),
    decreases *field, 0int,
{
    match &field.extension {
        Some(tag) => from_extension_type(tag.as_str(), &field.data_type),
        None => {
            match &field.data_type {
                PhysicalType::Boolean => Ok(LogicalType::Boolean),
                PhysicalType::Int16 => Ok(LogicalType::Int16),
                PhysicalType::Int32 => Ok(LogicalType::Int32),
                PhysicalType::Int64 => Ok(LogicalType::Int64),
                PhysicalType::Float32 => Ok(LogicalType::Float32),
                PhysicalType::Float64 => Ok(LogicalType::Float64),
                PhysicalType::Decimal128(_, _) => Ok(LogicalType::Decimal),
                PhysicalType::Decimal256(_, _) => Ok(LogicalType::Int256),
                PhysicalType::Date32 => Ok(LogicalType::Date),
                PhysicalType::Time64(u) => match u {
                    TimeUnit::Microsecond => Ok(LogicalType::Time),
                    _ => Err(ConversionError::UnsupportedPhysicalType),
                },
                PhysicalType::Timestamp(u, z) => match u {
                    TimeUnit::Microsecond => match z {
                        Some(_) => Ok(LogicalType::Timestamptz),
                        None => Ok(LogicalType::Timestamp),
                    },
                    _ => Err(ConversionError::UnsupportedPhysicalType),
                },
                PhysicalType::Interval(u) => match u {
                    IntervalUnit::MonthDayNano => Ok(LogicalType::Interval),
                    _ => Err(ConversionError::UnsupportedPhysicalType),
                },
                PhysicalType::Utf8 => Ok(LogicalType::Varchar),
                PhysicalType::Binary => Ok(LogicalType::Bytea),
                PhysicalType::LargeUtf8 => Ok(LogicalType::Varchar),
                PhysicalType::LargeBinary => Ok(LogicalType::Bytea),
                PhysicalType::List(inner) => match from_field(inner) {
                    Ok(elem) => Ok(LogicalType::List(Box::new(elem))),
                    Err(e) => Err(e),
                },
                PhysicalType::Struct(inner) => match from_fields(inner) {
                    Ok(fields) => Ok(LogicalType::Struct(fields)),
                    Err(e) => Err(e),
                },
                _ => Err(ConversionError::UnsupportedPhysicalType),
            }
        },
    }
}

/// Maps a sequence of interchange fields to named logical sub-fields,
/// stopping at the first field that fails.
pub fn from_fields(fields: &Vec<Field>) -> (r: Result<Vec<StructField>, ConversionError>)
    ensures
        (match r {
            Ok(tys) => {
                &&& fields_decode_err(fields@, 0) is None
                &&& tys@.len() == fields@.len()
                &&& forall|i: int|
                    0 <= i < fields@.len() ==> field_decodes_to(
                        #[trigger] fields@[i],
                        tys@[i].ty,
                    ) && tys@[i].name@ == fields@[i].name@
            },
            Err(e) => fields_decode_err(fields@, 0) == Some(e),
        }),
    decreases fields@, 1int,
{
    let n = fields.len();
    let mut out: Vec<StructField> = Vec::new();
    let mut i: usize = 0;
    while i < n
        invariant
            n == fields@.len(),
            0 <= i <= n,
            out@.len() == i,
            fields_decode_err(fields@, 0) == fields_decode_err(fields@, i as int),
            forall|j: int|
                0 <= j < i ==> field_decodes_to(#[trigger] fields@[j], out@[j].ty) && out@[j].name@
                    == fields@[j].name@,
        decreases n - i,
    {
        match from_field(&fields[i]) {
            Ok(ty) => {
                out.push(StructField { name: fields[i].name.clone(), ty });
            },
            Err(e) => {
                proof {
                    assert(fields_decode_err(fields@, i as int) == Some(e));
                }
                return Err(e);
            },
        }
        i = i + 1;
    }
    Ok(out)
}

/// Structural equality of logical types, comparing struct field names by
/// their characters.
pub open spec fn lt_equiv(a: LogicalType, b: LogicalType) -> bool
    decreases a,
{
    match (a, b) {
        (LogicalType::Boolean, LogicalType::Boolean) => true,
        (LogicalType::Int16, LogicalType::Int16) => true,
        (LogicalType::Int32, LogicalType::Int32) => true,
        (LogicalType::Int64, LogicalType::Int64) => true,
        (LogicalType::Int256, LogicalType::Int256) => true,
        (LogicalType::Float32, LogicalType::Float32) => true,
        (LogicalType::Float64, LogicalType::Float64) => true,
        (LogicalType::Date, LogicalType::Date) => true,
        (LogicalType::Time, LogicalType::Time) => true,
        (LogicalType::Timestamp, LogicalType::Timestamp) => true,
        (LogicalType::Timestamptz, LogicalType::Timestamptz) => true,
        (LogicalType::Interval, LogicalType::Interval) => true,
        (LogicalType::Varchar, LogicalType::Varchar) => true,
        (LogicalType::Bytea, LogicalType::Bytea) => true,
        (LogicalType::Decimal, LogicalType::Decimal) => true,
        (LogicalType::Jsonb, LogicalType::Jsonb) => true,
        (LogicalType::Serial, LogicalType::Serial) => true,
        (LogicalType::Struct(fs1), LogicalType::Struct(fs2)) => {
            &&& fs1@.len() == fs2@.len()
            &&& forall|i: int|
                0 <= i < fs1@.len() ==> (#[trigger] fs1@[i]).name@ == fs2@[i].name@ && lt_equiv(
                    fs1@[i].ty,
                    fs2@[i].ty,
                )
        },
        (LogicalType::List(a1), LogicalType::List(b1)) => lt_equiv(*a1, *b1),
        _ => false,
    }
}

} // verus!
