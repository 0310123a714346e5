//! The way from an operand to its live value.

use vstd::prelude::*;
use crate::calc_vertex::CalcVertex;
use crate::value::CalcValue;

verus! {

/// What resolves operands to values. The grid behind it is the
/// implementor's; so is any caching.
///
/// Nothing here is proved of an implementor: what the method's contract
/// says is what an implementor undertakes, and what evaluation is proved
/// from. Within one action the grid stands still, so that asking changes no
/// answer, and the connector keeps count of what it was asked.
pub trait Connector: Sized {
    /// The value that the grid holds for an operand.
    spec fn value_of(&self, vertex: CalcVertex) -> CalcValue;

    /// The operands asked for so far, in the order of the asking.
    spec fn asked(&self) -> Seq<CalcVertex>;

    /// The value of an operand.
    fn get_calc_value(&mut self, vertex: CalcVertex) -> (value: CalcValue)
        ensures
            value == old(self).value_of(vertex),
            final(self).asked() == old(self).asked().push(vertex),
            forall|v: CalcVertex| #[trigger] final(self).value_of(v) == old(self).value_of(v),
    ;
}

/// What a connector answers to each of the operands.
pub open spec fn answers<C: Connector>(args: Seq<CalcVertex>, connector: C) -> Seq<CalcValue> {
    args.map_values(|a: CalcVertex| connector.value_of(a))
}

} // verus!
