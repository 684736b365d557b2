//! The interchange-side batch representation.
//!
//! An interchange batch is always dense: fields describe the physical
//! type of each column, optionally annotated with an extension tag for
//! logical types that have no native physical type. Columns hold plain
//! values plus validity; list columns carry 32-bit offsets, and the two
//! large-offset string and binary variants are accepted as legacy aliases
//! on decode.

use vstd::prelude::*;

use crate::scalar::Int256;

verus! {

/// Granularity of an interchange time or timestamp type.
#[derive(Clone, Copy, Debug, PartialEq, Eq, Structural)]
pub enum TimeUnit {
    Second,
    Millisecond,
    Microsecond,
    Nanosecond,
}

/// Layout of an interchange interval type.
#[derive(Clone, Copy, Debug, PartialEq, Eq, Structural)]
pub enum IntervalUnit {
    YearMonth,
    DayTime,
    MonthDayNano,
}

/// An interchange field: a name, a physical type, and an optional
/// extension tag naming a logical type carried inside the physical one.
#[derive(Debug, PartialEq)]
pub struct Field {
    pub name: String,
    pub data_type: PhysicalType,
    pub extension: Option<String>,
}

/// The physical interchange types this codec can meet. `Float16` and
/// `Date64` exist in the interchange format but have no internal mapping
/// and are rejected on decode.
#[derive(Debug, PartialEq)]
pub enum PhysicalType {
    Boolean,
    Int16,
    Int32,
    Int64,
    Float16,
    Float32,
    Float64,
    Decimal128(u8, i8),
    Decimal256(u8, i8),
    Date32,
    Date64,
    Time64(TimeUnit),
    Timestamp(TimeUnit, Option<String>),
    Interval(IntervalUnit),
    Utf8,
    Binary,
    LargeUtf8,
    LargeBinary,
    List(Box<Field>),
    Struct(Vec<Field>),
}

/// One interchange column. Floating-point columns hold IEEE bit patterns;
/// 256-bit decimal columns hold the raw 256-bit integers; interval columns
/// hold the packed 128-bit month/day/nanosecond encoding.
#[derive(Debug, PartialEq)]
pub enum ColumnData {
    Boolean(Vec<Option<bool>>),
    Int16(Vec<Option<i16>>),
    Int32(Vec<Option<i32>>),
    Int64(Vec<Option<i64>>),
    Float32(Vec<Option<u32>>),
    Float64(Vec<Option<u64>>),
    Decimal128(Vec<Option<i128>>),
    Decimal256(Vec<Option<Int256>>),
    Date32(Vec<Option<i32>>),
    Time64(Vec<Option<i64>>),
    Timestamp(Vec<Option<i64>>),
    Interval(Vec<Option<i128>>),
    Utf8(Vec<Option<String>>),
    Binary(Vec<Option<Vec<u8>>>),
    LargeUtf8(Vec<Option<String>>),
    LargeBinary(Vec<Option<Vec<u8>>>),
    List(ListColumn),
    Struct(StructColumn),
}

/// A list column with interchange-width offsets.
#[derive(Debug, PartialEq)]
pub struct ListColumn {
    pub validity: Vec<bool>,
    pub offsets: Vec<i32>,
    pub values: Box<ColumnData>,
}

/// A struct column: child columns plus the struct-level validity.
#[derive(Debug, PartialEq)]
pub struct StructColumn {
    pub validity: Vec<bool>,
    pub children: Vec<ColumnData>,
}

impl ColumnData {
    /// The number of rows.
    pub open spec fn spec_len(self) -> int {
        match self {
            ColumnData::Boolean(v) => v@.len() as int,
            ColumnData::Int16(v) => v@.len() as int,
            ColumnData::Int32(v) => v@.len() as int,
            ColumnData::Int64(v) => v@.len() as int,
            ColumnData::Float32(v) => v@.len() as int,
            ColumnData::Float64(v) => v@.len() as int,
            ColumnData::Decimal128(v) => v@.len() as int,
            ColumnData::Decimal256(v) => v@.len() as int,
            ColumnData::Date32(v) => v@.len() as int,
            ColumnData::Time64(v) => v@.len() as int,
            ColumnData::Timestamp(v) => v@.len() as int,
            ColumnData::Interval(v) => v@.len() as int,
            ColumnData::Utf8(v) => v@.len() as int,
            ColumnData::Binary(v) => v@.len() as int,
            ColumnData::LargeUtf8(v) => v@.len() as int,
            ColumnData::LargeBinary(v) => v@.len() as int,
            ColumnData::List(l) => l.validity@.len() as int,
            ColumnData::Struct(s) => s.validity@.len() as int,
        }
    }

    /// Structural soundness: list offsets start at zero, never decrease,
    /// and end at the child length.
    pub open spec fn wf(self) -> bool
        decreases self,
    {
        match self {
            ColumnData::List(l) => {
                &&& l.offsets@.len() == l.validity@.len() + 1
                &&& l.offsets@[0] == 0
                &&& forall|i: int|
                    0 <= i < l.validity@.len() ==> #[trigger] l.offsets@[i] <= l.offsets@[i + 1]
                &&& l.offsets@[l.validity@.len() as int] == l.values.spec_len()
                &&& l.values.wf()
            },
            ColumnData::Struct(s) => {
                &&& forall|i: int|
                    0 <= i < s.children@.len() ==> (#[trigger] s.children@[i]).spec_len()
                        == s.validity@.len()
                &&& forall|i: int| 0 <= i < s.children@.len() ==> (#[trigger] s.children@[i]).wf()
            },
            _ => true,
        }
    }

    /// The number of rows.
    pub fn len(&self) -> (r: usize)
        ensures
            r == self.spec_len(),
    {
        match self {
            ColumnData::Boolean(v) => v.len(),
            ColumnData::Int16(v) => v.len(),
            ColumnData::Int32(v) => v.len(),
            ColumnData::Int64(v) => v.len(),
            ColumnData::Float32(v) => v.len(),
            ColumnData::Float64(v) => v.len(),
            ColumnData::Decimal128(v) => v.len(),
            ColumnData::Decimal256(v) => v.len(),
            ColumnData::Date32(v) => v.len(),
            ColumnData::Time64(v) => v.len(),
            ColumnData::Timestamp(v) => v.len(),
            ColumnData::Interval(v) => v.len(),
            ColumnData::Utf8(v) => v.len(),
            ColumnData::Binary(v) => v.len(),
            ColumnData::LargeUtf8(v) => v.len(),
            ColumnData::LargeBinary(v) => v.len(),
            ColumnData::List(l) => l.validity.len(),
            ColumnData::Struct(s) => s.validity.len(),
        }
    }
}

/// An interchange batch: positionally matched fields and columns, plus the
/// row count (which alone survives for a batch of zero columns).
#[derive(Debug, PartialEq)]
pub struct InterchangeBatch {
    pub fields: Vec<Field>,
    pub columns: Vec<ColumnData>,
    pub rows: usize,
}

impl InterchangeBatch {
    pub open spec fn wf(self) -> bool {
        &&& self.fields@.len() == self.columns@.len()
        &&& forall|i: int|
            0 <= i < self.columns@.len() ==> (#[trigger] self.columns@[i]).spec_len() == self.rows
        &&& forall|i: int| 0 <= i < self.columns@.len() ==> (#[trigger] self.columns@[i]).wf()
    }
}

/// Structural equality of physical types, comparing nested field names,
/// extension tags and type parameters.
pub open spec fn pt_equiv(a: PhysicalType, b: PhysicalType) -> bool
    decreases a,
{
    match (a, b) {
        (PhysicalType::Boolean, PhysicalType::Boolean) => true,
        (PhysicalType::Int16, PhysicalType::Int16) => true,
        (PhysicalType::Int32, PhysicalType::Int32) => true,
        (PhysicalType::Int64, PhysicalType::Int64) => true,
        (PhysicalType::Float16, PhysicalType::Float16) => true,
        (PhysicalType::Float32, PhysicalType::Float32) => true,
        (PhysicalType::Float64, PhysicalType::Float64) => true,
        (PhysicalType::Decimal128(p1, s1), PhysicalType::Decimal128(p2, s2)) => p1 == p2 && s1
            == s2,
        (PhysicalType::Decimal256(p1, s1), PhysicalType::Decimal256(p2, s2)) => p1 == p2 && s1
            == s2,
        (PhysicalType::Date32, PhysicalType::Date32) => true,
        (PhysicalType::Date64, PhysicalType::Date64) => true,
        (PhysicalType::Time64(u1), PhysicalType::Time64(u2)) => u1 == u2,
        (PhysicalType::Timestamp(u1, z1), PhysicalType::Timestamp(u2, z2)) => u1 == u2 && (match (
            z1,
            z2,
        ) {
            (Some(t1), Some(t2)) => t1@ == t2@,
            (None, None) => true,
            _ => false,
        }),
        (PhysicalType::Interval(u1), PhysicalType::Interval(u2)) => u1 == u2,
        (PhysicalType::Utf8, PhysicalType::Utf8) => true,
        (PhysicalType::Binary, PhysicalType::Binary) => true,
        (PhysicalType::LargeUtf8, PhysicalType::LargeUtf8) => true,
        (PhysicalType::LargeBinary, PhysicalType::LargeBinary) => true,
        (PhysicalType::List(f1), PhysicalType::List(f2)) => field_equiv(*f1, *f2),
        (PhysicalType::Struct(fs1), PhysicalType::Struct(fs2)) => fs1@.len() == fs2@.len()
            && (forall|i: int|
            0 <= i < fs1@.len() ==> field_equiv(#[trigger] fs1@[i], fs2@[i])),
        _ => false,
    }
}

/// Structural equality of fields: name, extension tag and physical type.
pub open spec fn field_equiv(a: Field, b: Field) -> bool
    decreases a,
{
    &&& a.name@ == b.name@
    &&& (match (a.extension, b.extension) {
        (Some(t1), Some(t2)) => t1@ == t2@,
        (None, None) => true,
        _ => false,
    })
    &&& pt_equiv(a.data_type, b.data_type)
}

/// Copies a physical type, preserving its full structure.
pub fn clone_physical_type(dt: &PhysicalType) -> (r: PhysicalType)
    ensures
        pt_equiv(r, *dt),
    decreases *dt, 0int,
{
    match dt {
        PhysicalType::Boolean => PhysicalType::Boolean,
        PhysicalType::Int16 => PhysicalType::Int16,
        PhysicalType::Int32 => PhysicalType::Int32,
        PhysicalType::Int64 => PhysicalType::Int64,
        PhysicalType::Float16 => PhysicalType::Float16,
        PhysicalType::Float32 => PhysicalType::Float32,
        PhysicalType::Float64 => PhysicalType::Float64,
        PhysicalType::Decimal128(p, s) => PhysicalType::Decimal128(*p, *s),
        PhysicalType::Decimal256(p, s) => PhysicalType::Decimal256(*p, *s),
        PhysicalType::Date32 => PhysicalType::Date32,
        PhysicalType::Date64 => PhysicalType::Date64,
        PhysicalType::Time64(u) => PhysicalType::Time64(*u),
        PhysicalType::Timestamp(u, z) => PhysicalType::Timestamp(
            *u,
            match z {
                Some(t) => Some(t.clone()),
                None => None,
            },
        ),
        PhysicalType::Interval(u) => PhysicalType::Interval(*u),
        PhysicalType::Utf8 => PhysicalType::Utf8,
        PhysicalType::Binary => PhysicalType::Binary,
        PhysicalType::LargeUtf8 => PhysicalType::LargeUtf8,
        PhysicalType::LargeBinary => PhysicalType::LargeBinary,
        PhysicalType::List(f) => PhysicalType::List(Box::new(clone_field(f))),
        PhysicalType::Struct(fs) => PhysicalType::Struct(clone_fields(fs)),
    }
}

/// Copies a field, preserving name, extension tag and physical type.
pub fn clone_field(f: &Field) -> (r: Field)
    ensures
        field_equiv(r, *f),
    decreases *f, 1int,
{
    Field {
        name: f.name.clone(),
        data_type: clone_physical_type(&f.data_type),
        extension: match &f.extension {
            Some(t) => Some(t.clone()),
            None => None,
        },
    }
}

/// Copies a field list, preserving every field.
pub fn clone_fields(fs: &Vec<Field>) -> (r: Vec<Field>)
    ensures
        r@.len() == fs@.len(),
        forall|i: int| 0 <= i < fs@.len() ==> field_equiv(#[trigger] r@[i], fs@[i]),
    decreases fs@, 2int,
{
    let n = fs.len();
    let mut r: Vec<Field> = Vec::new();
    let mut i: usize = 0;
    while i < n
        invariant
            n == fs@.len(),
            0 <= i <= n,
            r@.len() == i,
            forall|j: int| 0 <= j < i ==> field_equiv(#[trigger] r@[j], fs@[j]),
        decreases n - i,
    {
        let cf = clone_field(&fs[i]);
        let ghost gcf = cf;
        r.push(cf);
        proof {
            assert(r@[i as int] == gcf);
            assert forall|j: int| 0 <= j < i + 1 implies field_equiv(#[trigger] r@[j], fs@[j]) by {
                assert(field_equiv(r@[j], fs@[j]));
            };
        }
        i = i + 1;
    }
    r
}

} // verus!
