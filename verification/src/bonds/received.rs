//! The amount received at maturity for a fully invested security: the checks
//! of its arguments.

use vstd::prelude::*;
use crate::bonds::{check_arity, convention_of, field_of, read_convention, read_field, Domain};
use crate::calc_vertex::CalcVertex;
use crate::connector::{answers, Connector};
use crate::day_count::DayCountConvention;
use crate::error::ErrorKind;
use crate::number::Number;
use crate::value::CalcValue;

verus! {

/// The fewest arguments that the function takes.
pub const MIN_ARGS: usize = 4;

/// The most arguments that the function takes.
pub const MAX_ARGS: usize = 5;

/// The arguments of the function, checked and ready for the formula.
#[derive(Debug, Clone, Copy, PartialEq, Eq, Structural)]
pub struct Received {
    /// The day of settlement, as a serial number.
    pub settlement: u32,
    /// The day of maturity, as a serial number.
    pub maturity: u32,
    /// The amount invested.
    pub investment: Number,
    /// The rate of discount.
    pub discount: Number,
    /// The day-count convention.
    pub convention: DayCountConvention,
}

/// The dates checked against each other and brought to serial numbers:
/// settlement must come before maturity, as the numbers stand before their
/// fractions are dropped. The two are dates, so a failure is of kind `Value`.
pub open spec fn dated(settlement: Number, maturity: Number) -> Result<(u32, u32), ErrorKind> {
    if settlement.less_than(maturity) {
        Ok((settlement.floor_u32() as u32, maturity.floor_u32() as u32))
    } else {
        Err(ErrorKind::Value)
    }
}

/// What the checks come to on the values of the arguments, taken from left
/// to right, the first failure deciding: the number of arguments, then each
/// field by itself, then the two dates against each other, then the basis
/// where there is one.
pub open spec fn checked(values: Seq<CalcValue>) -> Result<Received, ErrorKind> {
    if !(MIN_ARGS <= values.len() <= MAX_ARGS) {
        Err(ErrorKind::Unspecified)
    } else {
        match field_of(values[0], Domain::Positive, ErrorKind::Value) {
            Err(e) => Err(e),
            Ok(settlement) => match field_of(values[1], Domain::Positive, ErrorKind::Value) {
                Err(e) => Err(e),
                Ok(maturity) => match field_of(values[2], Domain::Positive, ErrorKind::Num) {
                    Err(e) => Err(e),
                    Ok(investment) => match field_of(values[3], Domain::Positive, ErrorKind::Num) {
                        Err(e) => Err(e),
                        Ok(discount) => match dated(settlement, maturity) {
                            Err(e) => Err(e),
                            Ok(dates) => match (if values.len() == MAX_ARGS {
                                convention_of(values[4])
                            } else {
                                Ok(DayCountConvention::standard())
                            }) {
                                Err(e) => Err(e),
                                Ok(convention) => Ok(
                                    Received {
                                        settlement: dates.0,
                                        maturity: dates.1,
                                        investment,
                                        discount,
                                        convention,
                                    },
                                ),
                            },
                        },
                    },
                },
            },
        }
    }
}

/// The result of the function: the checked arguments, or the error as a
/// vertex.
pub open spec fn outcome(values: Seq<CalcValue>) -> Result<Received, CalcVertex> {
    match checked(values) {
        Ok(r) => Ok(r),
        Err(kind) => Err(CalcVertex::error(kind)),
    }
}

/// Checks the two dates against each other and brings them to serial
/// numbers.
pub fn date(settlement: &Number, maturity: &Number) -> (res: Result<(u32, u32), ErrorKind>)
    ensures
        res == dated(*settlement, *maturity),
{
    if settlement.lt(maturity) {
        Ok((settlement.floor_to_u32(), maturity.floor_to_u32()))
    } else {
        Err(ErrorKind::Value)
    }
}

/// Checks the values of the arguments.
pub fn check(values: &Vec<CalcValue>) -> (res: Result<Received, ErrorKind>)
    ensures
        res == checked(values@),
{
    if !check_arity(values.len(), MIN_ARGS, MAX_ARGS) {
        return Err(ErrorKind::Unspecified);
    }
    let settlement = match read_field(&values[0], Domain::Positive, ErrorKind::Value) {
        Ok(n) => n,
        Err(e) => { return Err(e); },
    };
    let maturity = match read_field(&values[1], Domain::Positive, ErrorKind::Value) {
        Ok(n) => n,
        Err(e) => { return Err(e); },
    };
    let investment = match read_field(&values[2], Domain::Positive, ErrorKind::Num) {
        Ok(n) => n,
        Err(e) => { return Err(e); },
    };
    let discount = match read_field(&values[3], Domain::Positive, ErrorKind::Num) {
        Ok(n) => n,
        Err(e) => { return Err(e); },
    };
    let dates = match date(&settlement, &maturity) {
        Ok(d) => d,
        Err(e) => { return Err(e); },
    };
    let convention = if values.len() == MAX_ARGS {
        match read_convention(&values[4]) {
            Ok(c) => c,
            Err(e) => { return Err(e); },
        }
    } else {
        DayCountConvention::UsPsa30_360
    };
    Ok(Received { settlement: dates.0, maturity: dates.1, investment, discount, convention })
}

/// How many of the arguments are read before the checks are decided: none
/// with the wrong number of arguments, those up to the first field that
/// fails, the four fields where the dates fail against each other, and all
/// of them otherwise.
pub open spec fn read(values: Seq<CalcValue>) -> int {
    if !(MIN_ARGS <= values.len() <= MAX_ARGS) {
        0
    } else if field_of(values[0], Domain::Positive, ErrorKind::Value) is Err {
        1
    } else if field_of(values[1], Domain::Positive, ErrorKind::Value) is Err {
        2
    } else if field_of(values[2], Domain::Positive, ErrorKind::Num) is Err {
        3
    } else if field_of(values[3], Domain::Positive, ErrorKind::Num) is Err {
        4
    } else if dated(
        field_of(values[0], Domain::Positive, ErrorKind::Value).unwrap(),
        field_of(values[1], Domain::Positive, ErrorKind::Value).unwrap(),
    ) is Err {
        4
    } else {
        values.len() as int
    }
}

/// Reads the arguments through the connector, from left to right, and checks
/// each as it comes; the first failure ends the reading. With the wrong
/// number of arguments nothing is read at all. The result is what `checked`
/// says of the connector's answers, and the connector was asked for the
/// arguments that `read` counts, in their order, and for nothing else.
pub fn calc<C: Connector>(args: Vec<CalcVertex>, fetcher: &mut C) -> (res: Result<
    Received,
    CalcVertex,
>)
    ensures
        res == outcome(answers(args@, *old(fetcher))),
        final(fetcher).asked() == old(fetcher).asked() + args@.subrange(
            0,
            read(answers(args@, *old(fetcher))),
        ),
        forall|v: CalcVertex| #[trigger] final(fetcher).value_of(v) == old(fetcher).value_of(v),
        !(MIN_ARGS <= args.len() <= MAX_ARGS) ==> res == Err::<Received, CalcVertex>(
            CalcVertex::error(ErrorKind::Unspecified),
        ) && *final(fetcher) == *old(fetcher),
{
    let ghost all = args@;
    let ghost values = answers(all, *old(fetcher));
    let ghost before = old(fetcher).asked();
    let mut args = args;
    let n: usize = args.len();
    if !check_arity(n, MIN_ARGS, MAX_ARGS) {
        assert(before + all.subrange(0, 0) =~= before);
        return Err(CalcVertex::from_error(ErrorKind::Unspecified));
    }
    let first = fetcher.get_calc_value(args.remove(0));
    assert(first == values[0]);
    assert(fetcher.asked() =~= before + all.subrange(0, 1));
    let settlement = match read_field(&first, Domain::Positive, ErrorKind::Value) {
        Ok(x) => x,
        Err(e) => {
            return Err(CalcVertex::from_error(e));
        },
    };
    let second = fetcher.get_calc_value(args.remove(0));
    assert(second == values[1]);
    assert(fetcher.asked() =~= before + all.subrange(0, 2));
    let maturity = match read_field(&second, Domain::Positive, ErrorKind::Value) {
        Ok(x) => x,
        Err(e) => {
            return Err(CalcVertex::from_error(e));
        },
    };
    let third = fetcher.get_calc_value(args.remove(0));
    assert(third == values[2]);
    assert(fetcher.asked() =~= before + all.subrange(0, 3));
    let investment = match read_field(&third, Domain::Positive, ErrorKind::Num) {
        Ok(x) => x,
        Err(e) => {
            return Err(CalcVertex::from_error(e));
        },
    };
    let fourth = fetcher.get_calc_value(args.remove(0));
    assert(fourth == values[3]);
    assert(fetcher.asked() =~= before + all.subrange(0, 4));
    let discount = match read_field(&fourth, Domain::Positive, ErrorKind::Num) {
        Ok(x) => x,
        Err(e) => {
            return Err(CalcVertex::from_error(e));
        },
    };
    let dates = match date(&settlement, &maturity) {
        Ok(d) => d,
        Err(e) => {
            return Err(CalcVertex::from_error(e));
        },
    };
    let convention = if n == MAX_ARGS {
        let fifth = fetcher.get_calc_value(args.remove(0));
        assert(fifth == values[4]);
        assert(fetcher.asked() =~= before + all.subrange(0, 5));
        match read_convention(&fifth) {
            Ok(c) => c,
            Err(e) => {
                return Err(CalcVertex::from_error(e));
            },
        }
    } else {
        DayCountConvention::UsPsa30_360
    };
    Ok(Received { settlement: dates.0, maturity: dates.1, investment, discount, convention })
}

/// With too few or too many arguments the result is an error of kind
/// `Unspecified`, whatever the arguments are.
pub proof fn lemma_arity_decides_first(values: Seq<CalcValue>)
    requires
        values.len() < MIN_ARGS || values.len() > MAX_ARGS,
    ensures
        checked(values) == Err::<Received, ErrorKind>(ErrorKind::Unspecified),
        outcome(values) == Err::<Received, CalcVertex>(CalcVertex::error(ErrorKind::Unspecified)),
{
}

/// Without a basis the convention is the one of code 0; with a basis it is
/// the one that the basis selects, and a basis that selects none makes the
/// result an error.
pub proof fn lemma_basis_decides_convention(values: Seq<CalcValue>)
    ensures
        values.len() == MIN_ARGS && checked(values) is Ok ==> checked(values).unwrap().convention
            == DayCountConvention::standard() && checked(values).unwrap().convention.code_of()
            == 0,
        values.len() == MAX_ARGS && checked(values) is Ok ==> convention_of(values[MAX_ARGS - 1])
            == Ok::<DayCountConvention, ErrorKind>(checked(values).unwrap().convention),
        values.len() == MAX_ARGS && convention_of(values[MAX_ARGS - 1]) is Err ==> checked(values)
            is Err,
{
}

/// Dates that pass the check keep their order as serial numbers: dropping
/// the fractions never puts settlement after maturity, though it may bring
/// the two to the same day.
pub proof fn lemma_dates_keep_order(settlement: Number, maturity: Number)
    ensures
        dated(settlement, maturity) matches Ok(d) ==> d.0 <= d.1,
        dated(settlement, maturity) is Ok <==> settlement.less_than(maturity),
{
    if settlement.less_than(maturity) {
        settlement.lemma_floor_keeps_order(maturity);
        settlement.lemma_floor_in_range();
        maturity.lemma_floor_in_range();
    }
}

/// Arguments that pass every check have settlement no later than maturity.
pub proof fn lemma_checked_dates_in_order(values: Seq<CalcValue>)
    ensures
        checked(values) matches Ok(r) ==> r.settlement <= r.maturity,
{
    if let Ok(r) = checked(values) {
        let settlement = field_of(values[0], Domain::Positive, ErrorKind::Value).unwrap();
        let maturity = field_of(values[1], Domain::Positive, ErrorKind::Value).unwrap();
        lemma_dates_keep_order(settlement, maturity);
    }
}

} // verus!
