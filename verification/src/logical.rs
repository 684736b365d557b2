//! The internal logical type vocabulary and the schema model.

use vstd::prelude::*;

verus! {

/// One named sub-field of a struct type.
#[derive(Debug, PartialEq, Eq)]
pub struct StructField {
    pub name: String,
    pub ty: LogicalType,
}

/// The closed set of internal column types. `Struct` and `List` are
/// recursive; every other variant is primitive.
#[derive(Debug, PartialEq, Eq)]
pub enum LogicalType {
    Boolean,
    Int16,
    Int32,
    Int64,
    Int256,
    Float32,
    Float64,
    Date,
    Time,
    Timestamp,
    Timestamptz,
    Interval,
    Varchar,
    Bytea,
    Decimal,
    Jsonb,
    Serial,
    Struct(Vec<StructField>),
    List(Box<LogicalType>),
}

} // verus!
