//! Columnar row-batch storage with lazy, schema-driven decoding.
//!
//! Rows arrive as opaque encoded byte strings ("datums"), one per column.
//! Each column stores them raw until a consumer asks for typed values; only
//! then is the whole column decoded, using the column's schema to resolve
//! absent cells into default values, NULLs, or a NOT NULL violation.

pub mod cell;
pub mod datum;
pub mod lazy_column;
pub mod mask;
pub mod rows;
pub mod schema;
pub mod vector;

pub use cell::RawCell;
pub use datum::{encode_bytes_datum, encode_int_datum, encode_null_datum, encode_real_datum};
pub use lazy_column::{ColumnView, LazyBatchColumn, RawCells};
pub use rows::BatchRows;
pub use schema::{ColumnSchema, Datum, EvalType, SchemaView, Tz};
pub use vector::{VectorData, VectorValue, VectorView};

use vstd::prelude::*;

verus! {

/// The typed errors that decoding can report to a caller.
///
/// Contract violations (pushing into a decoded column, arity mismatches)
/// are not errors of this kind: they are ruled out by preconditions.
#[derive(Clone, Copy, Debug, PartialEq, Eq, Structural)]
pub enum Error {
    /// A datum byte string could not be decoded for the column's type.
    InvalidDatum,
    /// A cell was absent, the schema has no default value, and the column
    /// is not nullable; the payload is the offending column's id.
    NotNullViolation(i64),
}

} // verus!
