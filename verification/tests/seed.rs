use logisheets_base::async_func::Task;
use sheet_engine::calc_vertex::{Address, ColRange, Reference, RowRange};
use sheet_engine::edit_action::{
    BlockInput, CellId, CellInput, ColShift, CreateBlock, EditPayload, LineShiftInBlock,
    MoveBlock, NormalCellId, RowShift,
};
use sheet_engine::error::ErrorKind;
use sheet_engine::seed::{cols_of, does_meet, is_confined_to, rows_of, Answers, BlockPlace, Formula};

fn id(row: u32, col: u32) -> CellId {
    CellId::NormalCell(NormalCellId { row, col })
}

fn point(row: usize, col: usize) -> Reference {
    Reference::Addr(Address { row, col })
}

fn area(r0: usize, c0: usize, r1: usize, c1: usize) -> Reference {
    Reference::Range(Address { row: r0, col: c0 }, Address { row: r1, col: c1 })
}

fn formula(row: u32, references: Vec<Reference>) -> Formula {
    Formula { sheet: 1, cell: id(row, 0), references }
}

fn nothing_said() -> Answers {
    Answers { cell: None, dependents: vec![], formulas: vec![], block: None, tasks: vec![] }
}

fn block() -> BlockPlace {
    BlockPlace { master_row: 10, master_col: 20, row_cnt: 5, col_cnt: 4 }
}

#[test]
fn input_leaves_its_cell_and_the_dependents_stale() {
    let p = EditPayload::CellInput(CellInput {
        sheet_idx: 2,
        row: 0,
        col: 0,
        content: String::from("1"),
    });
    let mut a = nothing_said();
    a.cell = Some((1, id(0, 0)));
    a.dependents = vec![(1, id(5, 5)), (1, id(0, 0)), (3, id(5, 5)), (1, id(5, 5))];
    a.formulas = vec![formula(9, vec![point(0, 0)])];
    a.tasks = vec![Task { async_func: String::from("f"), args: vec![] }];
    let e = p.effect_of(a);
    assert_eq!(e.sheets, vec![2]);
    assert_eq!(e.dirtys, vec![(1, id(0, 0)), (1, id(5, 5)), (3, id(5, 5))]);
    assert_eq!(e.async_tasks, vec![Task { async_func: String::from("f"), args: vec![] }]);
}

#[test]
fn input_to_a_cell_that_is_not_there_leaves_the_dependents_given() {
    let p = EditPayload::BlockInput(BlockInput {
        sheet_idx: 0,
        id: 1,
        row: 0,
        col: 0,
        input: String::from("x"),
    });
    let mut a = nothing_said();
    a.dependents = vec![(1, id(5, 5))];
    let e = p.effect_of(a);
    assert_eq!(e.sheets, vec![0]);
    assert_eq!(e.dirtys, vec![(1, id(5, 5))]);
}

#[test]
fn row_shift_leaves_the_formulas_stale_that_read_what_it_reaches() {
    let p = EditPayload::RowShift(RowShift { sheet_idx: 4, start: 10, count: 2, insert: true });
    let mut a = nothing_said();
    a.cell = Some((1, id(99, 99)));
    a.dependents = vec![(1, id(98, 98))];
    a.formulas = vec![
        formula(1, vec![point(3, 3), area(0, 0, 9, 9)]),
        formula(2, vec![point(3, 3), area(0, 0, 10, 9)]),
        formula(3, vec![Reference::ColumnRange(ColRange { start: 1, end: 2 })]),
        formula(4, vec![]),
        formula(2, vec![point(12, 0)]),
        formula(5, vec![Reference::RowRange(RowRange { start: 40, end: 30 })]),
    ];
    let e = p.effect_of(a);
    assert_eq!(e.sheets, vec![4]);
    assert_eq!(e.dirtys, vec![(1, id(2, 0)), (1, id(3, 0)), (1, id(5, 0))]);
    assert!(e.async_tasks.is_empty());
}

#[test]
fn edits_that_rewrite_nothing_leave_nothing_stale() {
    let p = EditPayload::CreateBlock(CreateBlock {
        sheet_idx: 1,
        id: 1,
        master_row: 0,
        master_col: 0,
        row_cnt: 2,
        col_cnt: 2,
    });
    let mut a = nothing_said();
    a.cell = Some((1, id(0, 0)));
    a.formulas = vec![formula(1, vec![point(0, 0)])];
    a.block = Some(block());
    let e = p.effect_of(a);
    assert_eq!(e.sheets, vec![1]);
    assert!(e.dirtys.is_empty());
    assert_eq!(p.rewrite(&Some(block()), point(0, 0)), Ok(point(0, 0)));
    assert!(!p.dirties(&Some(block()), &point(0, 0)));
}

#[test]
fn payload_rewrites_as_its_shift_does() {
    let rows = EditPayload::RowShift(RowShift { sheet_idx: 0, start: 3, count: 4, insert: false });
    assert_eq!(rows.rewrite(&None, area(1, 0, 4, 9)), Ok(area(1, 0, 2, 9)));
    assert_eq!(rows.rewrite(&None, point(5, 0)), Err(ErrorKind::Ref));
    assert!(rows.dirties(&None, &point(3, 0)));
    assert!(!rows.dirties(&None, &point(2, 0)));
    let cols = EditPayload::ColShift(ColShift { sheet_idx: 0, start: 3, count: 1, insert: true });
    assert_eq!(cols.rewrite(&None, point(5, 3)), Ok(point(5, 4)));
    assert!(cols.dirties_any(&None, &vec![point(0, 0), point(0, 3)]));
    assert!(!cols.dirties_any(&None, &vec![point(0, 0), point(9, 2)]));
    assert!(!cols.dirties_any(&None, &vec![]));
}

#[test]
fn moved_block_carries_its_references() {
    let p = MoveBlock { sheet_idx: 0, id: 1, new_master_row: 2, new_master_col: 30 };
    let b = block();
    assert_eq!(p.rewrite(&b, point(10, 20)), Ok(point(2, 30)));
    assert_eq!(p.rewrite(&b, point(14, 23)), Ok(point(6, 33)));
    assert_eq!(p.rewrite(&b, area(13, 21, 11, 23)), Ok(area(5, 31, 3, 33)));
    assert_eq!(p.rewrite(&b, point(15, 20)), Ok(point(15, 20)));
    assert_eq!(p.rewrite(&b, area(9, 20, 11, 21)), Ok(area(9, 20, 11, 21)));
    let rr = Reference::RowRange(RowRange { start: 10, end: 11 });
    assert_eq!(p.rewrite(&b, rr), Ok(rr));
    assert!(p.dirties(&b, &rr));
    assert!(p.dirties(&b, &area(9, 20, 11, 21)));
    assert!(p.dirties(&b, &point(2, 30)));
    assert!(!p.dirties(&b, &point(9, 19)));
    let far = MoveBlock { sheet_idx: 0, id: 1, new_master_row: usize::MAX, new_master_col: 0 };
    assert_eq!(far.rewrite(&b, point(10, 20)), Ok(point(usize::MAX, 0)));
    assert_eq!(far.rewrite(&b, point(11, 20)), Err(ErrorKind::Ref));
    let still = MoveBlock { sheet_idx: 0, id: 1, new_master_row: 10, new_master_col: 20 };
    assert_eq!(still.rewrite(&b, point(11, 21)), Ok(point(11, 21)));
    assert!(!still.dirties(&b, &point(11, 21)));
}

#[test]
fn lines_shift_within_the_columns_of_the_block() {
    let p = LineShiftInBlock {
        sheet_idx: 0,
        id: 1,
        idx: 2,
        cnt: 1,
        horizontal: true,
        insert: true,
    };
    let b = block();
    assert_eq!(p.rewrite(&b, point(12, 20)), Ok(point(13, 20)));
    assert_eq!(p.rewrite(&b, point(11, 20)), Ok(point(11, 20)));
    assert_eq!(p.rewrite(&b, point(12, 24)), Ok(point(12, 24)));
    assert_eq!(p.rewrite(&b, area(10, 21, 14, 23)), Ok(area(10, 21, 15, 23)));
    assert_eq!(p.rewrite(&b, area(10, 19, 14, 23)), Ok(area(10, 19, 14, 23)));
    assert!(p.dirties(&b, &point(12, 20)));
    assert!(!p.dirties(&b, &point(11, 20)));
    assert!(!p.dirties(&b, &point(12, 24)));
    let q = LineShiftInBlock {
        sheet_idx: 0,
        id: 1,
        idx: 1,
        cnt: 2,
        horizontal: false,
        insert: false,
    };
    assert_eq!(q.rewrite(&b, point(10, 21)), Err(ErrorKind::Ref));
    assert_eq!(q.rewrite(&b, point(10, 23)), Ok(point(10, 21)));
    assert_eq!(q.rewrite(&b, point(15, 23)), Ok(point(15, 23)));
    assert_eq!(q.rewrite(&b, area(10, 20, 14, 23)), Ok(area(10, 20, 14, 21)));
}

#[test]
fn edit_of_a_block_that_is_not_there_changes_nothing() {
    let p = EditPayload::MoveBlock(MoveBlock {
        sheet_idx: 3,
        id: 1,
        new_master_row: 0,
        new_master_col: 0,
    });
    assert_eq!(p.rewrite(&None, point(10, 20)), Ok(point(10, 20)));
    assert!(!p.dirties(&None, &point(10, 20)));
    let mut a = nothing_said();
    a.formulas = vec![formula(1, vec![point(10, 20)])];
    let e = p.effect_of(a);
    assert_eq!(e.sheets, vec![3]);
    assert!(e.dirtys.is_empty());
    let mut a = nothing_said();
    a.formulas = vec![formula(1, vec![point(10, 20)]), formula(2, vec![point(0, 0)])];
    a.block = Some(block());
    let e = p.effect_of(a);
    assert_eq!(e.dirtys, vec![(1, id(1, 0)), (1, id(2, 0))]);
}

#[test]
fn extents_are_tested_against_runs_of_lines() {
    assert_eq!(rows_of(&area(9, 1, 3, 7)), Some((3, 9)));
    assert_eq!(cols_of(&area(9, 7, 3, 1)), Some((1, 7)));
    assert_eq!(rows_of(&Reference::ColumnRange(ColRange { start: 1, end: 2 })), None);
    assert_eq!(cols_of(&Reference::RowRange(RowRange { start: 1, end: 2 })), None);
    assert!(is_confined_to(Some((3, 9)), 3, 7));
    assert!(!is_confined_to(Some((3, 9)), 3, 6));
    assert!(!is_confined_to(Some((3, 9)), 4, 7));
    assert!(!is_confined_to(None, 0, usize::MAX));
    assert!(is_confined_to(Some((0, usize::MAX - 1)), 0, usize::MAX));
    assert!(does_meet(Some((3, 9)), 9, 1));
    assert!(!does_meet(Some((3, 9)), 10, 5));
    assert!(does_meet(Some((3, 9)), 0, 4));
    assert!(!does_meet(Some((3, 9)), 0, 3));
    assert!(!does_meet(Some((3, 9)), 5, 0));
    assert!(does_meet(None, 5, 1));
    assert!(does_meet(Some((3, 9)), 1, usize::MAX));
}
