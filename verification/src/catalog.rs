//! The catalog's classification of stored tables.

use vstd::prelude::*;

verus! {

/// What kind of relation a stored table backs.
#[derive(Clone, Copy, Debug, PartialEq, Eq, Structural)]
pub enum TableType {
    /// A user table.
    Table,
    /// A materialized view.
    MaterializedView,
    /// An index on another relation.
    Index,
    /// An internal state table of a streaming job.
    Internal,
}

impl Default for TableType {
    /// The default classification is a plain user table.
    fn default() -> (r: TableType)
        ensures
            r == TableType::Table,
    {
        TableType::Table
    }
}

impl TableType {
    pub fn is_table(&self) -> (r: bool)
        ensures
            r == (*self is Table),
    {
        match self {
            TableType::Table => true,
            _ => false,
        }
    }

    pub fn is_mview(&self) -> (r: bool)
        ensures
            r == (*self is MaterializedView),
    {
        match self {
            TableType::MaterializedView => true,
            _ => false,
        }
    }

    pub fn is_index(&self) -> (r: bool)
        ensures
            r == (*self is Index),
    {
        match self {
            TableType::Index => true,
            _ => false,
        }
    }

    pub fn is_internal_table(&self) -> (r: bool)
        ensures
            r == (*self is Internal),
    {
        match self {
            TableType::Internal => true,
            _ => false,
        }
    }
}

} // verus!
