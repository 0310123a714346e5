use sheet_engine::calc_vertex::{Address, ColRange, Reference, RowRange};
use sheet_engine::edit_action::{ColShift, RowShift};
use sheet_engine::error::ErrorKind;
use sheet_engine::shift::LineShift;

fn rows(start: usize, count: usize, insert: bool) -> RowShift {
    RowShift { sheet_idx: 0, start, count, insert }
}

fn cols(start: usize, count: usize, insert: bool) -> ColShift {
    ColShift { sheet_idx: 0, start, count, insert }
}

fn rect(r0: usize, c0: usize, r1: usize, c1: usize) -> Reference {
    Reference::Range(Address { row: r0, col: c0 }, Address { row: r1, col: c1 })
}

#[test]
fn reference_below_an_insertion_moves_by_its_count() {
    let s = rows(3, 2, true);
    assert_eq!(
        s.rewrite(Reference::Addr(Address { row: 3, col: 8 })),
        Ok(Reference::Addr(Address { row: 5, col: 8 }))
    );
    assert_eq!(s.rewrite(rect(4, 1, 9, 2)), Ok(rect(6, 1, 11, 2)));
    assert_eq!(s.rewrite(rect(9, 1, 4, 2)), Ok(rect(11, 1, 6, 2)));
    assert_eq!(
        s.rewrite(Reference::RowRange(RowRange { start: 7, end: 3 })),
        Ok(Reference::RowRange(RowRange { start: 9, end: 5 }))
    );
}

#[test]
fn reference_above_a_shift_stays() {
    for insert in [true, false] {
        let s = rows(10, 4, insert);
        for r in [
            Reference::Addr(Address { row: 9, col: 30 }),
            rect(0, 50, 9, 2),
            rect(9, 0, 3, 7),
            Reference::RowRange(RowRange { start: 9, end: 0 }),
            Reference::ColumnRange(ColRange { start: 20, end: 11 }),
        ] {
            assert_eq!(s.rewrite(r), Ok(r));
        }
        assert!(!s.dirties(&rect(0, 50, 9, 2)));
        assert!(s.dirties(&rect(0, 50, 10, 2)));
        assert!(s.dirties(&Reference::ColumnRange(ColRange { start: 20, end: 11 })));
    }
}

#[test]
fn reference_across_an_insertion_grows() {
    let s = rows(3, 2, true);
    assert_eq!(s.rewrite(rect(1, 1, 4, 2)), Ok(rect(1, 1, 6, 2)));
    assert_eq!(s.rewrite(rect(4, 1, 1, 2)), Ok(rect(6, 1, 1, 2)));
}

#[test]
fn reference_inside_a_deletion_dangles() {
    let s = rows(3, 4, false);
    assert_eq!(s.rewrite(Reference::Addr(Address { row: 3, col: 0 })), Err(ErrorKind::Ref));
    assert_eq!(s.rewrite(Reference::Addr(Address { row: 6, col: 0 })), Err(ErrorKind::Ref));
    assert_eq!(s.rewrite(rect(3, 0, 6, 9)), Err(ErrorKind::Ref));
    assert_eq!(s.rewrite(rect(5, 0, 4, 9)), Err(ErrorKind::Ref));
    assert_eq!(
        s.rewrite(Reference::RowRange(RowRange { start: 4, end: 4 })),
        Err(ErrorKind::Ref)
    );
}

#[test]
fn reference_below_a_deletion_moves_up() {
    let s = rows(3, 4, false);
    assert_eq!(
        s.rewrite(Reference::Addr(Address { row: 7, col: 0 })),
        Ok(Reference::Addr(Address { row: 3, col: 0 }))
    );
    assert_eq!(s.rewrite(rect(8, 0, 12, 9)), Ok(rect(4, 0, 8, 9)));
}

#[test]
fn reference_straddling_a_deletion_is_clipped() {
    let s = rows(3, 4, false);
    assert_eq!(s.rewrite(rect(1, 0, 4, 9)), Ok(rect(1, 0, 2, 9)));
    assert_eq!(s.rewrite(rect(5, 0, 9, 9)), Ok(rect(3, 0, 5, 9)));
    assert_eq!(s.rewrite(rect(1, 0, 9, 9)), Ok(rect(1, 0, 5, 9)));
    assert_eq!(s.rewrite(rect(9, 0, 5, 9)), Ok(rect(5, 0, 3, 9)));
    assert_eq!(
        s.rewrite(Reference::RowRange(RowRange { start: 0, end: 3 })),
        Ok(Reference::RowRange(RowRange { start: 0, end: 2 }))
    );
}

#[test]
fn columns_shift_as_rows_do() {
    let s = cols(3, 2, true);
    assert_eq!(
        s.rewrite(Reference::Addr(Address { row: 8, col: 3 })),
        Ok(Reference::Addr(Address { row: 8, col: 5 }))
    );
    assert_eq!(s.rewrite(rect(1, 4, 2, 9)), Ok(rect(1, 6, 2, 11)));
    assert_eq!(
        s.rewrite(Reference::ColumnRange(ColRange { start: 7, end: 3 })),
        Ok(Reference::ColumnRange(ColRange { start: 9, end: 5 }))
    );
    let rr = Reference::RowRange(RowRange { start: 7, end: 3 });
    assert_eq!(s.rewrite(rr), Ok(rr));
    assert!(s.dirties(&rr));
    let d = cols(3, 4, false);
    assert_eq!(d.rewrite(rect(0, 3, 9, 6)), Err(ErrorKind::Ref));
    assert_eq!(d.rewrite(rect(0, 1, 9, 4)), Ok(rect(0, 1, 9, 2)));
    assert_eq!(d.rewrite(rect(0, 5, 9, 9)), Ok(rect(0, 3, 9, 5)));
    assert!(!d.dirties(&rect(0, 0, 9, 2)));
    assert!(d.dirties(&rect(0, 0, 9, 3)));
}

#[test]
fn shift_of_no_lines_does_nothing() {
    for insert in [true, false] {
        let s = rows(0, 0, insert);
        let r = rect(usize::MAX, 0, 0, 9);
        assert_eq!(s.rewrite(r), Ok(r));
        assert!(!s.dirties(&r));
        assert!(!s.dirties(&Reference::ColumnRange(ColRange { start: 0, end: 1 })));
    }
}

#[test]
fn reference_pushed_off_the_sheet_dangles() {
    let s = rows(0, 2, true);
    assert_eq!(
        s.rewrite(Reference::Addr(Address { row: usize::MAX - 1, col: 0 })),
        Err(ErrorKind::Ref)
    );
    assert_eq!(
        s.rewrite(Reference::Addr(Address { row: usize::MAX - 2, col: 0 })),
        Ok(Reference::Addr(Address { row: usize::MAX, col: 0 }))
    );
    assert_eq!(s.rewrite(rect(1, 0, usize::MAX, 0)), Err(ErrorKind::Ref));
}

#[test]
fn deletion_that_runs_to_the_end_of_the_sheet() {
    let s = rows(5, usize::MAX, false);
    assert_eq!(s.rewrite(rect(1, 0, usize::MAX, 0)), Ok(rect(1, 0, 4, 0)));
    assert_eq!(s.rewrite(rect(5, 0, usize::MAX, 0)), Err(ErrorKind::Ref));
}

#[test]
fn line_shift_moves_points_and_intervals() {
    let ins = LineShift { start: 3, count: 2, insert: true };
    let del = LineShift { start: 3, count: 2, insert: false };
    assert_eq!(rows(3, 2, true).line_shift(), ins);
    assert_eq!(cols(3, 2, false).line_shift(), del);
    assert_eq!(ins.shift_point(2), Some(2));
    assert_eq!(ins.shift_point(3), Some(5));
    assert_eq!(del.shift_point(2), Some(2));
    assert_eq!(del.shift_point(3), None);
    assert_eq!(del.shift_point(4), None);
    assert_eq!(del.shift_point(5), Some(3));
    assert!(del.is_deleted(4));
    assert!(!del.is_deleted(5));
    assert!(!ins.is_deleted(4));
    assert_eq!(ins.shift_interval(1, 3), Some((1, 5)));
    assert_eq!(del.shift_interval(4, 8), Some((3, 6)));
    assert_eq!(del.shift_interval(8, 4), Some((6, 3)));
    assert_eq!(del.shift_interval(3, 4), None);
    assert!(del.reaches(3));
    assert!(!del.reaches(2));
}
