use sheet_engine::bonds::received::Received;
use sheet_engine::bonds::yieldmat::YieldAtMaturity;
use sheet_engine::bonds::{check_arity, read_convention, read_field, received, yieldmat, Domain};
use sheet_engine::calc_vertex::{Address, CalcReference, CalcVertex, Reference};
use sheet_engine::connector::Connector;
use sheet_engine::day_count::DayCountConvention;
use sheet_engine::error::ErrorKind;
use sheet_engine::number::Number;
use sheet_engine::value::{CalcValue, Value};

struct Counting {
    calls: usize,
    seen: Vec<CalcVertex>,
    cell: CalcValue,
}

impl Connector for Counting {
    fn value_of(&self, vertex: CalcVertex) -> CalcValue {
        match vertex {
            CalcVertex::Value(v) => v,
            CalcVertex::Reference(_) => self.cell.clone(),
        }
    }

    fn asked(&self) -> vstd::seq::Seq<CalcVertex> {
        panic!("the record of what was asked is not kept at run time")
    }

    fn get_calc_value(&mut self, vertex: CalcVertex) -> CalcValue {
        self.calls += 1;
        self.seen.push(vertex.clone());
        self.value_of(vertex)
    }
}

fn counting() -> Counting {
    Counting { calls: 0, seen: Vec::new(), cell: number(7.0) }
}

fn n(x: f64) -> Number {
    Number::from_bits(x.to_bits())
}

fn number(x: f64) -> CalcValue {
    CalcValue::Scalar(Value::Number(n(x)))
}

fn operand(x: f64) -> CalcVertex {
    CalcVertex::Value(number(x))
}

fn operands(xs: &[f64]) -> Vec<CalcVertex> {
    xs.iter().map(|x| operand(*x)).collect()
}

fn failure(kind: ErrorKind) -> CalcVertex {
    CalcVertex::Value(CalcValue::Scalar(Value::Error(kind)))
}

#[test]
fn received_checks_its_arguments() {
    let mut c = counting();
    let r = received::calc(operands(&[39000.7, 39100.2, 1_000_000.0, 0.0575]), &mut c);
    assert_eq!(
        r,
        Ok(Received {
            settlement: 39000,
            maturity: 39100,
            investment: n(1_000_000.0),
            discount: n(0.0575),
            convention: DayCountConvention::UsPsa30_360,
        })
    );
    assert_eq!(c.calls, 4);
}

#[test]
fn received_reads_a_basis() {
    let mut c = counting();
    let r = received::calc(operands(&[39000.0, 39100.0, 1_000_000.0, 0.0575, 2.0]), &mut c);
    assert_eq!(r.unwrap().convention, DayCountConvention::Actual360);
    assert_eq!(c.calls, 5);
}

#[test]
fn arity_is_checked_before_anything_is_read() {
    for len in [0usize, 1, 2, 3, 6, 7] {
        let mut c = counting();
        let args = operands(&vec![1.0; len]);
        assert_eq!(received::calc(args, &mut c), Err(failure(ErrorKind::Unspecified)));
        assert_eq!(c.calls, 0);
    }
    for len in [0usize, 1, 4, 7, 8] {
        let mut c = counting();
        let args = operands(&vec![1.0; len]);
        assert_eq!(yieldmat::calc(args, &mut c), Err(failure(ErrorKind::Unspecified)));
        assert_eq!(c.calls, 0);
    }
}

#[test]
fn arity_is_within_its_ends() {
    assert!(check_arity(4, 4, 5));
    assert!(check_arity(5, 4, 5));
    assert!(!check_arity(3, 4, 5));
    assert!(!check_arity(6, 4, 5));
    assert_eq!(received::MIN_ARGS, 4);
    assert_eq!(received::MAX_ARGS, 5);
    assert_eq!(yieldmat::MIN_ARGS, 5);
    assert_eq!(yieldmat::MAX_ARGS, 6);
}

#[test]
fn arguments_are_read_from_left_to_right() {
    let mut c = counting();
    let args = operands(&[39000.0, 39100.0, 1_000_000.0, 0.0575, 3.0]);
    let expected = args.clone();
    assert!(received::calc(args, &mut c).is_ok());
    assert_eq!(c.seen, expected);
}

#[test]
fn references_are_resolved_through_the_connector() {
    let mut c = counting();
    c.cell = number(0.25);
    let cell = CalcVertex::Reference(CalcReference {
        from_sheet: None,
        sheet: 1,
        reference: Reference::Addr(Address { row: 0, col: 0 }),
    });
    let args = vec![operand(39000.0), operand(39100.0), operand(500.0), cell];
    assert_eq!(received::calc(args, &mut c).unwrap().discount, n(0.25));
}

#[test]
fn first_failure_ends_the_reading() {
    let mut c = counting();
    let r = received::calc(operands(&[0.0, 0.0, 0.0, 0.0]), &mut c);
    assert_eq!(r, Err(failure(ErrorKind::Value)));
    assert_eq!(c.calls, 1);

    let mut c = counting();
    let r = received::calc(operands(&[39000.0, -1.0, 0.0, 0.0]), &mut c);
    assert_eq!(r, Err(failure(ErrorKind::Value)));
    assert_eq!(c.calls, 2);

    let mut c = counting();
    let r = received::calc(operands(&[39000.0, 39100.0, 0.0, 0.0]), &mut c);
    assert_eq!(r, Err(failure(ErrorKind::Num)));
    assert_eq!(c.calls, 3);

    let mut c = counting();
    let r = received::calc(operands(&[39000.0, 39100.0, 100.0, 0.0, 9.0]), &mut c);
    assert_eq!(r, Err(failure(ErrorKind::Num)));
    assert_eq!(c.calls, 4);
}

#[test]
fn dates_are_checked_against_each_other_after_the_fields() {
    let mut c = counting();
    let r = received::calc(operands(&[39100.0, 39000.0, 100.0, 0.5, 9.0]), &mut c);
    assert_eq!(r, Err(failure(ErrorKind::Value)));
    assert_eq!(c.calls, 4);

    let mut c = counting();
    let r = received::calc(operands(&[39000.0, 39000.0, 100.0, 0.5]), &mut c);
    assert_eq!(r, Err(failure(ErrorKind::Value)));

    let mut c = counting();
    let r = received::calc(operands(&[39100.0, 39000.0, -100.0, 0.5]), &mut c);
    assert_eq!(r, Err(failure(ErrorKind::Num)));
    assert_eq!(c.calls, 3);
}

#[test]
fn dates_are_compared_before_their_fractions_are_dropped() {
    let mut c = counting();
    let r = received::calc(operands(&[39000.2, 39000.7, 100.0, 0.5]), &mut c).unwrap();
    assert_eq!((r.settlement, r.maturity), (39000, 39000));
}

#[test]
fn basis_selects_one_of_five_conventions() {
    let conventions = [
        DayCountConvention::UsPsa30_360,
        DayCountConvention::ActualActual,
        DayCountConvention::Actual360,
        DayCountConvention::Actual365,
        DayCountConvention::Europe30_360,
    ];
    for (code, convention) in conventions.iter().enumerate() {
        let mut c = counting();
        let basis = code as f64;
        let r = received::calc(operands(&[39000.0, 39100.0, 100.0, 0.5, basis]), &mut c);
        assert_eq!(r.unwrap().convention, *convention);
        let mut c = counting();
        let r = yieldmat::calc(operands(&[39000.0, 39100.0, 38000.0, 0.05, 99.0, basis]), &mut c);
        assert_eq!(r.unwrap().convention, *convention);
        assert_eq!(DayCountConvention::from_code(code as u32), Some(*convention));
        assert_eq!(convention.code(), code as u32);
    }
    for (i, a) in conventions.iter().enumerate() {
        for (k, b) in conventions.iter().enumerate() {
            assert_eq!(a == b, i == k);
        }
    }
    assert_eq!(DayCountConvention::from_code(5), None);
    assert_eq!(DayCountConvention::from_code(u32::MAX), None);
}

#[test]
fn basis_is_cut_down_to_its_integer_part() {
    assert_eq!(read_convention(&number(0.0)), Ok(DayCountConvention::UsPsa30_360));
    assert_eq!(read_convention(&number(-0.0)), Ok(DayCountConvention::UsPsa30_360));
    assert_eq!(read_convention(&number(0.99)), Ok(DayCountConvention::UsPsa30_360));
    assert_eq!(read_convention(&number(1.5)), Ok(DayCountConvention::ActualActual));
    assert_eq!(read_convention(&number(3.999)), Ok(DayCountConvention::Actual365));
    assert_eq!(read_convention(&number(4.0)), Ok(DayCountConvention::Europe30_360));
}

#[test]
fn basis_out_of_range_is_a_num_error() {
    for basis in [-0.001, -1.0, 4.000_001, 5.0, 1.0e9, f64::INFINITY, f64::NAN] {
        assert_eq!(read_convention(&number(basis)), Err(ErrorKind::Num), "basis {}", basis);
        let mut c = counting();
        let r = received::calc(operands(&[39000.0, 39100.0, 100.0, 0.5, basis]), &mut c);
        assert_eq!(r, Err(failure(ErrorKind::Num)));
        assert_eq!(c.calls, 5);
    }
}

#[test]
fn basis_left_out_is_code_zero() {
    let mut c = counting();
    let r = received::calc(operands(&[39000.0, 39100.0, 100.0, 0.5]), &mut c).unwrap();
    assert_eq!(r.convention.code(), 0);
    let mut c = counting();
    let r = yieldmat::calc(operands(&[39000.0, 39100.0, 38000.0, 0.05, 99.0]), &mut c).unwrap();
    assert_eq!(r.convention.code(), 0);
    assert_eq!(c.calls, 5);
}

#[test]
fn errors_among_the_arguments_come_back_as_they_are() {
    for kind in [ErrorKind::Div0, ErrorKind::Na, ErrorKind::Ref, ErrorKind::Name] {
        let mut c = counting();
        let args = vec![operand(39000.0), failure(kind), operand(1.0), operand(1.0)];
        assert_eq!(received::calc(args, &mut c), Err(failure(kind)));
        assert_eq!(c.calls, 2);
        let values = vec![
            number(39000.0),
            number(39100.0),
            number(1.0),
            number(1.0),
            CalcValue::Scalar(Value::Error(kind)),
        ];
        assert_eq!(received::check(&values), Err(kind));
    }
}

#[test]
fn values_that_are_no_numbers_are_value_errors() {
    let text = CalcValue::Scalar(Value::Text(String::from("soon")));
    let truth = CalcValue::Scalar(Value::Boolean(true));
    let array = CalcValue::Array(vec![vec![Value::Number(n(1.0))]]);
    for v in [text, truth, array] {
        assert_eq!(read_field(&v, Domain::Positive, ErrorKind::Num), Err(ErrorKind::Value));
        assert_eq!(read_convention(&v), Err(ErrorKind::Value));
        assert_eq!(v.to_number(ErrorKind::Na), Err(ErrorKind::Na));
    }
    assert_eq!(number(2.0).to_number(ErrorKind::Na), Ok(n(2.0)));
}

#[test]
fn fields_have_domains() {
    assert_eq!(read_field(&number(0.0), Domain::Positive, ErrorKind::Num), Err(ErrorKind::Num));
    assert_eq!(read_field(&number(0.0), Domain::NonNegative, ErrorKind::Num), Ok(n(0.0)));
    assert_eq!(read_field(&number(-0.0), Domain::NonNegative, ErrorKind::Num), Ok(n(-0.0)));
    assert_eq!(read_field(&number(-3.0), Domain::NonNegative, ErrorKind::Value), Err(ErrorKind::Value));
    assert_eq!(read_field(&number(f64::NAN), Domain::NonNegative, ErrorKind::Num), Err(ErrorKind::Num));
    assert_eq!(read_field(&number(1e-300), Domain::Positive, ErrorKind::Num), Ok(n(1e-300)));
    assert!(Domain::Positive.holds(&n(2.0)));
    assert!(!Domain::Positive.holds(&n(0.0)));
}

#[test]
fn yieldmat_checks_its_arguments() {
    let mut c = counting();
    let r = yieldmat::calc(operands(&[39522.9, 39755.0, 39394.5, 0.0625, 100.0123, 0.0]), &mut c);
    assert_eq!(
        r,
        Ok(YieldAtMaturity {
            settlement: 39522,
            maturity: 39755,
            issue: 39394,
            rate: n(0.0625),
            price: n(100.0123),
            convention: DayCountConvention::UsPsa30_360,
        })
    );
    assert_eq!(c.calls, 6);
    let values: Vec<CalcValue> =
        [39522.9, 39755.0, 39394.5, 0.0625, 100.0123, 0.0].iter().map(|x| number(*x)).collect();
    assert_eq!(yieldmat::check(&values), r.map_err(|_| ErrorKind::Unspecified));
}

#[test]
fn yieldmat_names_the_kind_of_each_failure() {
    let good = [39522.0, 39755.0, 39394.0, 0.0625, 100.0];
    let cases: [(usize, f64, ErrorKind); 5] = [
        (0, 0.0, ErrorKind::Value),
        (1, -2.0, ErrorKind::Value),
        (2, 0.0, ErrorKind::Value),
        (3, -0.01, ErrorKind::Num),
        (4, -1.0, ErrorKind::Num),
    ];
    for (at, bad, kind) in cases {
        let mut xs = good;
        xs[at] = bad;
        let mut c = counting();
        assert_eq!(yieldmat::calc(operands(&xs), &mut c), Err(failure(kind)));
        assert_eq!(c.calls, at + 1);
    }
    let mut c = counting();
    let r = yieldmat::calc(operands(&[39755.0, 39522.0, 39394.0, 0.0, 0.0]), &mut c);
    assert_eq!(r, Err(failure(ErrorKind::Value)));
    assert_eq!(c.calls, 5);
    let mut c = counting();
    let r = yieldmat::calc(operands(&[39522.0, 39755.0, 39394.0, 0.0, 0.0]), &mut c);
    assert!(r.is_ok());
}

#[test]
fn check_agrees_with_calc() {
    let rows: [&[f64]; 6] = [
        &[39000.7, 39100.2, 1_000_000.0, 0.0575],
        &[39000.7, 39100.2, 1_000_000.0, 0.0575, 4.0],
        &[39000.7, 39100.2, 1_000_000.0, 0.0575, 4.5],
        &[39000.7, 1.0, 1_000_000.0, 0.0575],
        &[1.0, 2.0, 3.0],
        &[1.0, 2.0, 3.0, 4.0, 0.0, 0.0],
    ];
    for xs in rows {
        let values: Vec<CalcValue> = xs.iter().map(|x| number(*x)).collect();
        let mut c = counting();
        let through = received::calc(operands(xs), &mut c);
        assert_eq!(received::check(&values).map_err(failure), through);
    }
}

#[test]
fn vertices_wrap_errors_and_numbers() {
    assert_eq!(CalcVertex::from_error(ErrorKind::Num), failure(ErrorKind::Num));
    assert_eq!(CalcVertex::from_number(n(1.5)), operand(1.5));
    let d = received::date(&n(10.9), &n(11.1));
    assert_eq!(d, Ok((10, 11)));
    assert_eq!(received::date(&n(11.1), &n(10.9)), Err(ErrorKind::Value));
    assert_eq!(received::date(&n(11.1), &n(11.1)), Err(ErrorKind::Value));
}
