//! Per-column schema metadata and the typed values that decoding produces.

use vstd::prelude::*;

verus! {

/// The evaluation type of a column: which kind of typed value its cells
/// decode into.
#[derive(Clone, Copy, Debug, PartialEq, Eq, Structural)]
pub enum EvalType {
    /// 64-bit signed integers.
    Int,
    /// 64-bit IEEE 754 values, carried as their bit patterns. The container
    /// never interprets the bits; turning them into floats is the caller's
    /// business.
    Real,
    /// Arbitrary byte strings.
    Bytes,
}

/// A single decoded value, at the specification level.
///
/// `Real` carries the IEEE 754 bit pattern of the value; the container
/// stores and moves the bits without interpreting them.
pub enum Datum {
    Int(i64),
    Real(u64),
    Bytes(Seq<u8>),
}

/// A time zone context, passed through to the decode step unmodified.
/// The value kinds this crate decodes do not depend on it; it is part of
/// the decode interface so that callers can supply one uniformly.
#[derive(Clone, Copy, Debug, PartialEq, Eq, Structural)]
pub struct Tz {
    /// Offset from UTC in seconds.
    pub offset_secs: i64,
}

impl Tz {
    /// The UTC time zone.
    pub fn utc() -> (r: Tz)
        ensures
            r.offset_secs == 0,
    {
        Tz { offset_secs: 0 }
    }
}

/// The schema metadata of one column, as consumed by decoding.
pub struct ColumnSchema {
    /// Which kind of typed value the column holds once decoded.
    pub eval_type: EvalType,
    /// Whether an absent cell without a default value decodes to NULL
    /// (`true`) or is a NOT NULL violation (`false`).
    pub nullable: bool,
    /// The encoded default value substituted for absent cells, if any.
    pub default_value: Option<Vec<u8>>,
    /// The column's identifier, used only to report NOT NULL violations.
    pub column_id: i64,
}

/// The mathematical model of a [`ColumnSchema`].
pub struct SchemaView {
    pub eval_type: EvalType,
    pub nullable: bool,
    pub default_value: Option<Seq<u8>>,
    pub column_id: i64,
}

impl View for ColumnSchema {
    type V = SchemaView;

    open spec fn view(&self) -> SchemaView {
        SchemaView {
            eval_type: self.eval_type,
            nullable: self.nullable,
            default_value: match self.default_value {
                Option::None => Option::None,
                Option::Some(d) => Option::Some(d@),
            },
            column_id: self.column_id,
        }
    }
}

impl ColumnSchema {
    /// A schema with neither default value nor NOT NULL constraint.
    pub fn nullable_without_default(eval_type: EvalType, column_id: i64) -> (r: ColumnSchema)
        ensures
            r@ == (SchemaView {
                eval_type,
                nullable: true,
                default_value: Option::<Seq<u8>>::None,
                column_id,
            }),
    {
        ColumnSchema { eval_type, nullable: true, default_value: Option::None, column_id }
    }
}

} // verus!
