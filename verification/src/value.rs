//! Scalar values and the values of formula operands.

use vstd::prelude::*;
use crate::error::ErrorKind;
use crate::number::Number;

verus! {

/// A scalar. Failure is data: an error is a value like any other.
#[derive(Debug, Clone, PartialEq)]
pub enum Value {
    Number(Number),
    Text(String),
    Boolean(bool),
    Error(ErrorKind),
}

/// What an operand evaluates to: one scalar, or an array of scalars in
/// row-major order.
#[derive(Debug, Clone, PartialEq)]
pub enum CalcValue {
    Scalar(Value),
    Array(Vec<Vec<Value>>),
}

impl CalcValue {
    /// The number that a value stands for. An error passes through as it is;
    /// anything else that is no number is a mismatch, of the kind that the
    /// caller names.
    pub open spec fn as_number(self, mismatch: ErrorKind) -> Result<Number, ErrorKind> {
        match self {
            CalcValue::Scalar(Value::Number(n)) => Ok(n),
            CalcValue::Scalar(Value::Error(kind)) => Err(kind),
            _ => Err(mismatch),
        }
    }

    /// Takes the number out of a value, or says why there is none.
    pub fn to_number(&self, mismatch: ErrorKind) -> (res: Result<Number, ErrorKind>)
        ensures
            res == self.as_number(mismatch),
    {
        match self {
            CalcValue::Scalar(Value::Number(n)) => Ok(*n),
            CalcValue::Scalar(Value::Error(kind)) => Err(*kind),
            _ => Err(mismatch),
        }
    }
}

} // verus!
