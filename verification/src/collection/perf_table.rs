//! Metadata on the columns of the performance table written to each log
//! file, used when parsing it

use vstd::prelude::*;

verus! {

/// Enum representing known variants of a column
#[derive(Clone, Copy, Debug, PartialEq, Eq, Structural)]
pub enum ColumnType {
    /// Generic integer type
    Int,
    /// Nanosecond timestamp
    Epoch19,
}

/// Contains the definitions for a single column
#[derive(Clone, Copy, Debug, PartialEq, Eq, Structural)]
pub enum Column {
    /// A column holding one value
    Scalar { kind: ColumnType },
    /// A column holding `count` space-delimited values
    Vector { kind: ColumnType, count: usize },
}

/// Contains all metadata used for perf table parsing: the delimiter, and the
/// columns that have metadata by name, in ascending name order
pub struct TableMetadata {
    pub delimiter: &'static str,
    pub columns: Vec<(String, Column)>,
}

/// The names and definitions of the columns
pub open spec fn column_views(c: Seq<(String, Column)>) -> Seq<(Seq<char>, Column)> {
    c.map_values(|e: (String, Column)| (e.0@, e.1))
}

} // verus!
