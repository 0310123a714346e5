//! The error vocabulary of formula evaluation.

use vstd::prelude::*;

verus! {

/// The kind of an error value. The vocabulary is the formula parser's; the
/// engine only ever picks from it.
#[derive(Debug, Clone, Copy, PartialEq, Eq, Structural, Hash)]
pub enum ErrorKind {
    /// An arity or structural violation (`#UNKNOWN!`).
    Unspecified,
    /// Division by zero (`#DIV/0!`).
    Div0,
    /// A value that is not available (`#N/A`).
    Na,
    /// An unknown name (`#NAME?`).
    Name,
    /// An empty intersection (`#NULL!`).
    Null,
    /// A violation of a numeric domain (`#NUM!`).
    Num,
    /// A reference that dangles after a deletion (`#REF!`).
    Ref,
    /// A value of the wrong type or shape (`#VALUE!`).
    Value,
    /// A value that is still being fetched (`#GETTING_DATA`).
    GettingData,
    /// A value that stands in for one not yet computed (`#PLACEHOLDER`).
    Placeholder,
}

} // verus!
