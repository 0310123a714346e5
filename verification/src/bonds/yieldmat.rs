//! The annual yield of a security that pays interest at maturity: the checks
//! of its arguments.

use vstd::prelude::*;
use crate::bonds::received::{date, dated, lemma_dates_keep_order};
use crate::bonds::{check_arity, convention_of, field_of, read_convention, read_field, Domain};
use crate::calc_vertex::CalcVertex;
use crate::connector::{answers, Connector};
use crate::day_count::DayCountConvention;
use crate::error::ErrorKind;
use crate::number::Number;
use crate::value::CalcValue;

verus! {

/// The fewest arguments that the function takes.
pub const MIN_ARGS: usize = 5;

/// The most arguments that the function takes.
pub const MAX_ARGS: usize = 6;

/// The arguments of the function, checked and ready for the formula.
#[derive(Debug, Clone, Copy, PartialEq, Eq, Structural)]
pub struct YieldAtMaturity {
    /// The day of settlement, as a serial number.
    pub settlement: u32,
    /// The day of maturity, as a serial number.
    pub maturity: u32,
    /// The day of issue, as a serial number.
    pub issue: u32,
    /// The rate of interest at the day of issue.
    pub rate: Number,
    /// The price for each 100 of face value.
    pub price: Number,
    /// The day-count convention.
    pub convention: DayCountConvention,
}

/// What the checks come to on the values of the arguments, taken from left
/// to right, the first failure deciding: the number of arguments, then each
/// field by itself (the three dates must be positive, the rate and the price
/// not negative), then settlement against maturity, then the basis where
/// there is one.
pub open spec fn checked(values: Seq<CalcValue>) -> Result<YieldAtMaturity, ErrorKind> {
    if !(MIN_ARGS <= values.len() <= MAX_ARGS) {
        Err(ErrorKind::Unspecified)
    } else {
        match field_of(values[0], Domain::Positive, ErrorKind::Value) {
            Err(e) => Err(e),
            Ok(settlement) => match field_of(values[1], Domain::Positive, ErrorKind::Value) {
                Err(e) => Err(e),
                Ok(maturity) => match field_of(values[2], Domain::Positive, ErrorKind::Value) {
                    Err(e) => Err(e),
                    Ok(issue) => match field_of(values[3], Domain::NonNegative, ErrorKind::Num) {
                        Err(e) => Err(e),
                        Ok(rate) => match field_of(values[4], Domain::NonNegative, ErrorKind::Num) {
                            Err(e) => Err(e),
                            Ok(price) => match dated(settlement, maturity) {
                                Err(e) => Err(e),
                                Ok(dates) => match (if values.len() == MAX_ARGS {
                                    convention_of(values[5])
                                } else {
                                    Ok(DayCountConvention::standard())
                                }) {
                                    Err(e) => Err(e),
                                    Ok(convention) => Ok(
                                        YieldAtMaturity {
                                            settlement: dates.0,
                                            maturity: dates.1,
                                            issue: issue.floor_u32() as u32,
                                            rate,
                                            price,
                                            convention,
                                        },
                                    ),
                                },
                            },
                        },
                    },
                },
            },
        }
    }
}

/// The result of the function: the checked arguments, or the error as a
/// vertex.
pub open spec fn outcome(values: Seq<CalcValue>) -> Result<YieldAtMaturity, CalcVertex> {
    match checked(values) {
        Ok(r) => Ok(r),
        Err(kind) => Err(CalcVertex::error(kind)),
    }
}

/// Checks the values of the arguments.
pub fn check(values: &Vec<CalcValue>) -> (res: Result<YieldAtMaturity, ErrorKind>)
    ensures
        res == checked(values@),
{
    if !check_arity(values.len(), MIN_ARGS, MAX_ARGS) {
        return Err(ErrorKind::Unspecified);
    }
    let settlement = match read_field(&values[0], Domain::Positive, ErrorKind::Value) {
        Ok(n) => n,
        Err(e) => { return Err(e); },
    };
    let maturity = match read_field(&values[1], Domain::Positive, ErrorKind::Value) {
        Ok(n) => n,
        Err(e) => { return Err(e); },
    };
    let issue = match read_field(&values[2], Domain::Positive, ErrorKind::Value) {
        Ok(n) => n,
        Err(e) => { return Err(e); },
    };
    let rate = match read_field(&values[3], Domain::NonNegative, ErrorKind::Num) {
        Ok(n) => n,
        Err(e) => { return Err(e); },
    };
    let price = match read_field(&values[4], Domain::NonNegative, ErrorKind::Num) {
        Ok(n) => n,
        Err(e) => { return Err(e); },
    };
    let dates = match date(&settlement, &maturity) {
        Ok(d) => d,
        Err(e) => { return Err(e); },
    };
    let convention = if values.len() == MAX_ARGS {
        match read_convention(&values[5]) {
            Ok(c) => c,
            Err(e) => { return Err(e); },
        }
    } else {
        DayCountConvention::UsPsa30_360
    };
    Ok(
        YieldAtMaturity {
            settlement: dates.0,
            maturity: dates.1,
            issue: issue.floor_to_u32(),
            rate,
            price,
            convention,
        },
    )
}

/// How many of the arguments are read before the checks are decided: none
/// with the wrong number of arguments, those up to the first field that
/// fails, the five fields where the dates fail against each other, and all
/// of them otherwise.
pub open spec fn read(values: Seq<CalcValue>) -> int {
    if !(MIN_ARGS <= values.len() <= MAX_ARGS) {
        0
    } else if field_of(values[0], Domain::Positive, ErrorKind::Value) is Err {
        1
    } else if field_of(values[1], Domain::Positive, ErrorKind::Value) is Err {
        2
    } else if field_of(values[2], Domain::Positive, ErrorKind::Value) is Err {
        3
    } else if field_of(values[3], Domain::NonNegative, ErrorKind::Num) is Err {
        4
    } else if field_of(values[4], Domain::NonNegative, ErrorKind::Num) is Err {
        5
    } else if dated(
        field_of(values[0], Domain::Positive, ErrorKind::Value).unwrap(),
        field_of(values[1], Domain::Positive, ErrorKind::Value).unwrap(),
    ) is Err {
        5
    } else {
        values.len() as int
    }
}

/// Reads the arguments through the connector, from left to right, and checks
/// each as it comes; the first failure ends the reading. With the wrong
/// number of arguments nothing is read at all. The result is what `checked`
/// says of the connector's answers, and the connector was asked for the
/// arguments that `read` counts, in their order, and for nothing else.
pub fn calc<C: Connector>(args: Vec<CalcVertex>, fetcher: &mut C) -> (res: Result<
    YieldAtMaturity,
    CalcVertex,
>)
    ensures
        res == outcome(answers(args@, *old(fetcher))),
        final(fetcher).asked() == old(fetcher).asked() + args@.subrange(
            0,
            read(answers(args@, *old(fetcher))),
        ),
        forall|v: CalcVertex| #[trigger] final(fetcher).value_of(v) == old(fetcher).value_of(v),
        !(MIN_ARGS <= args.len() <= MAX_ARGS) ==> res == Err::<YieldAtMaturity, CalcVertex>(
            CalcVertex::error(ErrorKind::Unspecified),
        ) && *final(fetcher) == *old(fetcher),
{
    let ghost all = args@;
    let ghost values = answers(all, *old(fetcher));
    let ghost before = old(fetcher).asked();
    let mut args = args;
    let n: usize = args.len();
    if !check_arity(n, MIN_ARGS, MAX_ARGS) {
        assert(before + all.subrange(0, 0) =~= before);
        return Err(CalcVertex::from_error(ErrorKind::Unspecified));
    }
    let first = fetcher.get_calc_value(args.remove(0));
    assert(first == values[0]);
    assert(fetcher.asked() =~= before + all.subrange(0, 1));
    let settlement = match read_field(&first, Domain::Positive, ErrorKind::Value) {
        Ok(x) => x,
        Err(e) => {
            return Err(CalcVertex::from_error(e));
        },
    };
    let second = fetcher.get_calc_value(args.remove(0));
    assert(second == values[1]);
    assert(fetcher.asked() =~= before + all.subrange(0, 2));
    let maturity = match read_field(&second, Domain::Positive, ErrorKind::Value) {
        Ok(x) => x,
        Err(e) => {
            return Err(CalcVertex::from_error(e));
        },
    };
    let third = fetcher.get_calc_value(args.remove(0));
    assert(third == values[2]);
    assert(fetcher.asked() =~= before + all.subrange(0, 3));
    let issue = match read_field(&third, Domain::Positive, ErrorKind::Value) {
        Ok(x) => x,
        Err(e) => {
            return Err(CalcVertex::from_error(e));
        },
    };
    let fourth = fetcher.get_calc_value(args.remove(0));
    assert(fourth == values[3]);
    assert(fetcher.asked() =~= before + all.subrange(0, 4));
    let rate = match read_field(&fourth, Domain::NonNegative, ErrorKind::Num) {
        Ok(x) => x,
        Err(e) => {
            return Err(CalcVertex::from_error(e));
        },
    };
    let fifth = fetcher.get_calc_value(args.remove(0));
    assert(fifth == values[4]);
    assert(fetcher.asked() =~= before + all.subrange(0, 5));
    let price = match read_field(&fifth, Domain::NonNegative, ErrorKind::Num) {
        Ok(x) => x,
        Err(e) => {
            return Err(CalcVertex::from_error(e));
        },
    };
    let dates = match date(&settlement, &maturity) {
        Ok(d) => d,
        Err(e) => {
            return Err(CalcVertex::from_error(e));
        },
    };
    let convention = if n == MAX_ARGS {
        let sixth = fetcher.get_calc_value(args.remove(0));
        assert(sixth == values[5]);
        assert(fetcher.asked() =~= before + all.subrange(0, 6));
        match read_convention(&sixth) {
            Ok(c) => c,
            Err(e) => {
                return Err(CalcVertex::from_error(e));
            },
        }
    } else {
        DayCountConvention::UsPsa30_360
    };
    Ok(
        YieldAtMaturity {
            settlement: dates.0,
            maturity: dates.1,
            issue: issue.floor_to_u32(),
            rate,
            price,
            convention,
        },
    )
}

/// With too few or too many arguments the result is an error of kind
/// `Unspecified`, whatever the arguments are.
pub proof fn lemma_arity_decides_first(values: Seq<CalcValue>)
    requires
        values.len() < MIN_ARGS || values.len() > MAX_ARGS,
    ensures
        checked(values) == Err::<YieldAtMaturity, ErrorKind>(ErrorKind::Unspecified),
        outcome(values) == Err::<YieldAtMaturity, CalcVertex>(CalcVertex::error(ErrorKind::Unspecified)),
{
}

/// Without a basis the convention is the one of code 0; with a basis it is
/// the one that the basis selects, and a basis that selects none makes the
/// result an error.
pub proof fn lemma_basis_decides_convention(values: Seq<CalcValue>)
    ensures
        values.len() == MIN_ARGS && checked(values) is Ok ==> checked(values).unwrap().convention
            == DayCountConvention::standard() && checked(values).unwrap().convention.code_of()
            == 0,
        values.len() == MAX_ARGS && checked(values) is Ok ==> convention_of(values[MAX_ARGS - 1])
            == Ok::<DayCountConvention, ErrorKind>(checked(values).unwrap().convention),
        values.len() == MAX_ARGS && convention_of(values[MAX_ARGS - 1]) is Err ==> checked(values)
            is Err,
{
}

/// Arguments that pass every check have settlement no later than maturity.
pub proof fn lemma_checked_dates_in_order(values: Seq<CalcValue>)
    ensures
        checked(values) matches Ok(r) ==> r.settlement <= r.maturity,
{
    if let Ok(r) = checked(values) {
        let settlement = field_of(values[0], Domain::Positive, ErrorKind::Value).unwrap();
        let maturity = field_of(values[1], Domain::Positive, ErrorKind::Value).unwrap();
        lemma_dates_keep_order(settlement, maturity);
    }
}

} // verus!
