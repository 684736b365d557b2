//! The internal columnar batch representation.
//!
//! A column is a homogeneous array of one logical type; every slot is
//! either null or a value. Composite arrays carry their structure
//! explicitly: a list array holds a monotone offsets buffer plus one child
//! array with all elements laid end to end, and a struct array holds one
//! independently nullable child array per sub-field, so a struct slot may
//! be null while its children still hold defined values.

use vstd::prelude::*;

use crate::decimal::Decimal;
use crate::jsonb::Jsonb;
use crate::scalar::{Date, Int256, Interval, Serial, Time, Timestamp, Timestamptz};

verus! {

/// Whether two optional slots are both null, or both values related by
/// `f`.
pub open spec fn opt_match<T, U>(x: Option<T>, y: Option<U>, f: spec_fn(T, U) -> bool) -> bool {
    match (x, y) {
        (Some(a), Some(b)) => f(a, b),
        (None, None) => true,
        _ => false,
    }
}

/// Pointwise correspondence of two optional-value columns: equal length,
/// nulls in the same slots, and values related by `f`.
pub open spec fn opt_rel<T, U>(a: Seq<Option<T>>, b: Seq<Option<U>>, f: spec_fn(T, U) -> bool) -> bool {
    &&& a.len() == b.len()
    &&& forall|i: int| 0 <= i < a.len() ==> opt_match(#[trigger] a[i], b[i], f)
}

/// A column of values of one logical type. Floating-point columns hold
/// the IEEE bit patterns of their values, which the codec moves verbatim.
#[derive(Debug, PartialEq)]
pub enum Array {
    Bool(Vec<Option<bool>>),
    Int16(Vec<Option<i16>>),
    Int32(Vec<Option<i32>>),
    Int64(Vec<Option<i64>>),
    Int256(Vec<Option<Int256>>),
    Float32(Vec<Option<u32>>),
    Float64(Vec<Option<u64>>),
    Date(Vec<Option<Date>>),
    Time(Vec<Option<Time>>),
    Timestamp(Vec<Option<Timestamp>>),
    Timestamptz(Vec<Option<Timestamptz>>),
    Interval(Vec<Option<Interval>>),
    Utf8(Vec<Option<String>>),
    Bytea(Vec<Option<Vec<u8>>>),
    Decimal(Vec<Option<Decimal>>),
    Jsonb(Vec<Option<Jsonb>>),
    Serial(Vec<Option<Serial>>),
    List(ListArray),
    Struct(StructArray),
}

/// A list column: row `i` holds the child elements in
/// `offsets[i] .. offsets[i + 1]`.
#[derive(Debug, PartialEq)]
pub struct ListArray {
    pub validity: Vec<bool>,
    pub offsets: Vec<u32>,
    pub value: Box<Array>,
}

/// A struct column: one child array per sub-field, each of the parent's
/// length, plus the struct-level validity.
#[derive(Debug, PartialEq)]
pub struct StructArray {
    pub validity: Vec<bool>,
    pub field_names: Vec<String>,
    pub children: Vec<Array>,
}

impl Array {
    /// The number of rows.
    pub open spec fn spec_len(self) -> int {
        match self {
            Array::Bool(v) => v@.len() as int,
            Array::Int16(v) => v@.len() as int,
            Array::Int32(v) => v@.len() as int,
            Array::Int64(v) => v@.len() as int,
            Array::Int256(v) => v@.len() as int,
            Array::Float32(v) => v@.len() as int,
            Array::Float64(v) => v@.len() as int,
            Array::Date(v) => v@.len() as int,
            Array::Time(v) => v@.len() as int,
            Array::Timestamp(v) => v@.len() as int,
            Array::Timestamptz(v) => v@.len() as int,
            Array::Interval(v) => v@.len() as int,
            Array::Utf8(v) => v@.len() as int,
            Array::Bytea(v) => v@.len() as int,
            Array::Decimal(v) => v@.len() as int,
            Array::Jsonb(v) => v@.len() as int,
            Array::Serial(v) => v@.len() as int,
            Array::List(l) => l.validity@.len() as int,
            Array::Struct(s) => s.validity@.len() as int,
        }
    }

    /// Value ranges and structural soundness of the column, recursively.
    pub open spec fn wf(self) -> bool
        decreases self,
    {
        match self {
            Array::Date(v) => forall|i: int|
                0 <= i < v@.len() ==> (match #[trigger] v@[i] {
                    Some(d) => d.wf(),
                    None => true,
                }),
            Array::Time(v) => forall|i: int|
                0 <= i < v@.len() ==> (match #[trigger] v@[i] {
                    Some(t) => t.wf(),
                    None => true,
                }),
            Array::Interval(v) => forall|i: int|
                0 <= i < v@.len() ==> (match #[trigger] v@[i] {
                    Some(iv) => iv.wf(),
                    None => true,
                }),
            Array::Decimal(v) => forall|i: int|
                0 <= i < v@.len() ==> (match #[trigger] v@[i] {
                    Some(d) => d.wf(),
                    None => true,
                }),
            Array::List(l) => {
                &&& l.offsets@.len() == l.validity@.len() + 1
                &&& l.offsets@[0] == 0
                &&& forall|i: int|
                    0 <= i < l.validity@.len() ==> #[trigger] l.offsets@[i] <= l.offsets@[i + 1]
                &&& l.offsets@[l.validity@.len() as int] == l.value.spec_len()
                &&& l.value.wf()
            },
            Array::Struct(s) => {
                &&& s.field_names@.len() == s.children@.len()
                &&& forall|i: int|
                    0 <= i < s.children@.len() ==> (#[trigger] s.children@[i]).spec_len()
                        == s.validity@.len()
                &&& forall|i: int| 0 <= i < s.children@.len() ==> (#[trigger] s.children@[i]).wf()
            },
            _ => true,
        }
    }

    /// The number of rows.
    pub fn len(&self) -> (r: usize)
        ensures
            r == self.spec_len(),
    {
        match self {
            Array::Bool(v) => v.len(),
            Array::Int16(v) => v.len(),
            Array::Int32(v) => v.len(),
            Array::Int64(v) => v.len(),
            Array::Int256(v) => v.len(),
            Array::Float32(v) => v.len(),
            Array::Float64(v) => v.len(),
            Array::Date(v) => v.len(),
            Array::Time(v) => v.len(),
            Array::Timestamp(v) => v.len(),
            Array::Timestamptz(v) => v.len(),
            Array::Interval(v) => v.len(),
            Array::Utf8(v) => v.len(),
            Array::Bytea(v) => v.len(),
            Array::Decimal(v) => v.len(),
            Array::Jsonb(v) => v.len(),
            Array::Serial(v) => v.len(),
            Array::List(l) => l.validity.len(),
            Array::Struct(s) => s.validity.len(),
        }
    }
}

/// An internal batch: columns of equal length plus a visibility mask over
/// the rows. A batch whose mask is all ones is compacted; the encoder
/// refuses to work on anything else until compaction has been applied.
#[derive(Debug, PartialEq)]
pub struct InternalBatch {
    pub columns: Vec<Array>,
    pub visibility: Vec<bool>,
}

impl InternalBatch {
    /// All columns share the mask's length and are themselves sound.
    pub open spec fn wf(self) -> bool {
        forall|i: int|
            0 <= i < self.columns@.len() ==> (#[trigger] self.columns@[i]).wf()
                && self.columns@[i].spec_len() == self.visibility@.len()
    }

    /// The row count, counting rows hidden by the mask.
    pub open spec fn spec_capacity(self) -> int {
        self.visibility@.len() as int
    }

    pub open spec fn spec_is_compacted(self) -> bool {
        forall|i: int| 0 <= i < self.visibility@.len() ==> self.visibility@[i]
    }

    pub fn capacity(&self) -> (r: usize)
        ensures
            r == self.spec_capacity(),
    {
        self.visibility.len()
    }

    /// Whether no row is hidden by the visibility mask.
    pub fn is_compacted(&self) -> (r: bool)
        ensures
            r == self.spec_is_compacted(),
    {
        let n = self.visibility.len();
        let mut i: usize = 0;
        while i < n
            invariant
                n == self.visibility@.len(),
                0 <= i <= n,
                forall|j: int| 0 <= j < i ==> self.visibility@[j],
            decreases n - i,
        {
            if !self.visibility[i] {
                return false;
            }
            i = i + 1;
        }
        true
    }
}

} // verus!
