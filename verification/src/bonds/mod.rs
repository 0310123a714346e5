//! What the bond functions share: the check of the number of arguments, the
//! domains of their fields, and the choice of a day-count convention.

use vstd::prelude::*;
use crate::day_count::DayCountConvention;
use crate::error::ErrorKind;
use crate::number::Number;
use crate::value::{CalcValue, Value};

pub mod received;
pub mod yieldmat;

verus! {

/// The bit pattern of the number four, the greatest basis.
pub const GREATEST_BASIS: u64 = 0x4010_0000_0000_0000;

/// The domain of a field.
#[derive(Debug, Clone, Copy, PartialEq, Eq, Structural)]
pub enum Domain {
    /// Greater than zero.
    Positive,
    /// Zero or greater.
    NonNegative,
}

impl Domain {
    /// Whether a number lies in the domain.
    pub open spec fn admits(self, n: Number) -> bool {
        match self {
            Domain::Positive => n.positive(),
            Domain::NonNegative => n.non_negative(),
        }
    }

    /// Whether a number lies in the domain.
    pub fn holds(&self, n: &Number) -> (b: bool)
        ensures
            b == self.admits(*n),
    {
        match self {
            Domain::Positive => n.is_positive(),
            Domain::NonNegative => n.is_non_negative(),
        }
    }
}

/// Whether a function that takes from `min` to `max` arguments takes `n`.
pub open spec fn arity_within(n: int, min: int, max: int) -> bool {
    min <= n <= max
}

/// A field read from the value of its argument: the number, if the value is
/// one and lies in the field's domain. An error value comes back as it is, a
/// value that is no number is of kind `Value`, and a number outside the
/// domain is of the kind that the field names.
pub open spec fn field_of(value: CalcValue, domain: Domain, kind: ErrorKind) -> Result<
    Number,
    ErrorKind,
> {
    match value.as_number(ErrorKind::Value) {
        Ok(n) => if domain.admits(n) {
            Ok(n)
        } else {
            Err(kind)
        },
        Err(e) => Err(e),
    }
}

/// The convention that a basis selects. A basis is a number from 0 to 4,
/// whose integer part is the code; any other number is of kind `Num`.
pub open spec fn convention_of(value: CalcValue) -> Result<DayCountConvention, ErrorKind> {
    match value.as_number(ErrorKind::Value) {
        Ok(b) => if b.non_negative() && b.at_most(Number { bits: GREATEST_BASIS }) {
            match DayCountConvention::of_code(b.floor_u32()) {
                Some(c) => Ok(c),
                None => Err(ErrorKind::Num),
            }
        } else {
            Err(ErrorKind::Num)
        },
        Err(e) => Err(e),
    }
}

/// Whether a function that takes from `min` to `max` arguments takes `n`.
pub fn check_arity(n: usize, min: usize, max: usize) -> (ok: bool)
    ensures
        ok == arity_within(n as int, min as int, max as int),
{
    n >= min && n <= max
}

/// Reads a field from the value of its argument.
pub fn read_field(value: &CalcValue, domain: Domain, kind: ErrorKind) -> (res: Result<
    Number,
    ErrorKind,
>)
    ensures
        res == field_of(*value, domain, kind),
{
    match value.to_number(ErrorKind::Value) {
        Ok(n) => {
            if domain.holds(&n) {
                Ok(n)
            } else {
                Err(kind)
            }
        },
        Err(e) => Err(e),
    }
}

/// Reads the convention that a basis selects.
pub fn read_convention(value: &CalcValue) -> (res: Result<DayCountConvention, ErrorKind>)
    ensures
        res == convention_of(*value),
{
    match value.to_number(ErrorKind::Value) {
        Ok(b) => {
            if b.is_non_negative() && b.le(&Number { bits: GREATEST_BASIS }) {
                match DayCountConvention::from_code(b.floor_to_u32()) {
                    Some(c) => Ok(c),
                    None => Err(ErrorKind::Num),
                }
            } else {
                Err(ErrorKind::Num)
            }
        },
        Err(e) => Err(e),
    }
}

/// An error among the arguments comes back as it is, whatever the field.
pub proof fn lemma_error_passes_through(e: ErrorKind, domain: Domain, kind: ErrorKind)
    ensures
        field_of(CalcValue::Scalar(Value::Error(e)), domain, kind) == Err::<Number, ErrorKind>(e),
        convention_of(CalcValue::Scalar(Value::Error(e))) == Err::<DayCountConvention, ErrorKind>(
            e,
        ),
{
}

/// A basis from 0 to 4 selects the convention whose code is its integer
/// part; any other number is of kind `Num`.
pub proof fn lemma_basis_selects(b: Number)
    ensures
        b.non_negative() && b.at_most(Number { bits: GREATEST_BASIS }) ==> {
            &&& 0 <= b.floor_u32() <= 4
            &&& convention_of(CalcValue::Scalar(Value::Number(b))) matches Ok(c)
            &&& c.code_of() == b.floor_u32()
        },
        !(b.non_negative() && b.at_most(Number { bits: GREATEST_BASIS })) ==> convention_of(
            CalcValue::Scalar(Value::Number(b)),
        ) == Err::<DayCountConvention, ErrorKind>(ErrorKind::Num),
{
    if b.non_negative() && b.at_most(Number { bits: GREATEST_BASIS }) {
        b.lemma_floor_up_to_four();
        DayCountConvention::lemma_codes_select_distinct(b.floor_u32(), 0);
    }
}

} // verus!
