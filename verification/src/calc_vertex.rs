//! Addresses, references and formula operands.

use vstd::prelude::*;
use crate::error::ErrorKind;
use crate::number::Number;
use crate::value::{CalcValue, Value};

verus! {

/// The id of a sheet.
pub type SheetId = u16;

/// The zero-based position of one cell.
#[derive(Debug, Clone, Copy, Default, Hash, PartialEq, Eq, Structural)]
pub struct Address {
    pub row: usize,
    pub col: usize,
}

/// A band of whole columns. The two ends come in either order.
#[derive(Debug, Clone, Copy, Hash, PartialEq, Eq, Structural)]
pub struct ColRange {
    pub start: usize,
    pub end: usize,
}

/// A band of whole rows. The two ends come in either order.
#[derive(Debug, Clone, Copy, Hash, PartialEq, Eq, Structural)]
pub struct RowRange {
    pub start: usize,
    pub end: usize,
}

/// A description of one or more cells of a sheet: a point, a band of columns,
/// a band of rows, or the rectangle spanned by two corners. Corners and ends
/// are kept as given; the algebra orders them when it needs to.
#[derive(Debug, Clone, Copy, Hash, PartialEq, Eq, Structural)]
pub enum Reference {
    Addr(Address),
    ColumnRange(ColRange),
    RowRange(RowRange),
    Range(Address, Address),
}

/// A reference together with its sheet and, for a reference that runs through
/// several sheets, the sheet it starts from.
#[derive(Debug, Clone, Copy, Hash, PartialEq, Eq, Structural)]
pub struct CalcReference {
    pub from_sheet: Option<SheetId>,
    pub sheet: SheetId,
    pub reference: Reference,
}

/// One operand or result of a formula: a value, or a reference not yet
/// resolved.
#[derive(Debug, Clone, PartialEq)]
pub enum CalcVertex {
    Value(CalcValue),
    Reference(CalcReference),
}

impl CalcVertex {
    /// The vertex that holds the error `kind`.
    pub open spec fn error(kind: ErrorKind) -> CalcVertex {
        CalcVertex::Value(CalcValue::Scalar(Value::Error(kind)))
    }

    /// The vertex that holds the number `n`.
    pub open spec fn number(n: Number) -> CalcVertex {
        CalcVertex::Value(CalcValue::Scalar(Value::Number(n)))
    }

    /// Wraps an error as a vertex.
    pub fn from_error(kind: ErrorKind) -> (v: CalcVertex)
        ensures
            v == CalcVertex::error(kind),
    {
        CalcVertex::Value(CalcValue::Scalar(Value::Error(kind)))
    }

    /// Wraps a number as a vertex.
    pub fn from_number(n: Number) -> (v: CalcVertex)
        ensures
            v == CalcVertex::number(n),
    {
        CalcVertex::Value(CalcValue::Scalar(Value::Number(n)))
    }
}

} // verus!
