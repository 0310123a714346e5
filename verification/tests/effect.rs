use logisheets_base::async_func::Task;
use sheet_engine::edit_action::{
    BlockCellId, CellId, CellInput, EditAction, EditPayload, NormalCellId, RowShift,
    BlockStyleUpdate,
};
use sheet_engine::effect::ActionEffect;

fn cell(row: u32, col: u32) -> CellId {
    CellId::NormalCell(NormalCellId { row, col })
}

fn task(name: &str) -> Task {
    Task { async_func: String::from(name), args: vec![String::from("1")] }
}

#[test]
fn new_effect_is_empty() {
    let e = ActionEffect::new();
    assert!(e.sheets.is_empty() && e.async_tasks.is_empty() && e.dirtys.is_empty());
    let d = ActionEffect::default();
    assert!(d.sheets.is_empty() && d.async_tasks.is_empty() && d.dirtys.is_empty());
}

#[test]
fn dirty_cell_is_listed_once() {
    let mut e = ActionEffect::new();
    e.add_dirty(1, cell(2, 3));
    e.add_dirty(1, cell(2, 4));
    e.add_dirty(1, cell(2, 3));
    e.add_dirty(2, cell(2, 3));
    e.add_dirty(1, CellId::BlockCell(BlockCellId { block_id: 0, row: 2, col: 3 }));
    e.add_dirty(1, CellId::EphemeralCell(9));
    e.add_dirty(1, CellId::EphemeralCell(9));
    assert_eq!(
        e.dirtys,
        vec![
            (1, cell(2, 3)),
            (1, cell(2, 4)),
            (2, cell(2, 3)),
            (1, CellId::BlockCell(BlockCellId { block_id: 0, row: 2, col: 3 })),
            (1, CellId::EphemeralCell(9)),
        ]
    );
    assert!(e.has_dirty(2, cell(2, 3)));
    assert!(!e.has_dirty(2, cell(2, 4)));
}

#[test]
fn sheet_is_listed_once() {
    let mut e = ActionEffect::new();
    e.add_sheet(4);
    e.add_sheet(0);
    e.add_sheet(4);
    assert_eq!(e.sheets, vec![4, 0]);
    assert!(e.has_sheet(0));
    assert!(!e.has_sheet(1));
}

#[test]
fn tasks_keep_the_order_in_which_they_were_enqueued() {
    let mut e = ActionEffect::new();
    e.add_task(task("b"));
    e.add_task(task("a"));
    e.add_task(task("b"));
    assert_eq!(e.async_tasks, vec![task("b"), task("a"), task("b")]);
}

#[test]
fn two_payloads_that_dirty_one_cell_list_it_once() {
    let mut first = ActionEffect::new();
    first.add_sheet(0);
    first.add_dirty(1, cell(0, 0));
    first.add_dirty(1, cell(0, 1));
    first.add_task(task("first"));
    let mut second = ActionEffect::new();
    second.add_sheet(0);
    second.add_sheet(3);
    second.add_dirty(1, cell(0, 1));
    second.add_dirty(1, cell(5, 5));
    second.add_task(task("second"));

    let e = ActionEffect::collect(vec![first, second]);
    assert_eq!(e.sheets, vec![0, 3]);
    assert_eq!(e.dirtys, vec![(1, cell(0, 0)), (1, cell(0, 1)), (1, cell(5, 5))]);
    assert_eq!(e.async_tasks, vec![task("first"), task("second")]);
}

#[test]
fn merge_takes_out_duplicates_of_the_part_itself() {
    let mut e = ActionEffect::new();
    e.add_dirty(7, cell(1, 1));
    let part = ActionEffect {
        sheets: vec![2, 2, 1],
        async_tasks: vec![task("x"), task("x")],
        dirtys: vec![(7, cell(1, 1)), (7, cell(2, 2)), (7, cell(2, 2))],
    };
    e.merge(part);
    assert_eq!(e.sheets, vec![2, 1]);
    assert_eq!(e.dirtys, vec![(7, cell(1, 1)), (7, cell(2, 2))]);
    assert_eq!(e.async_tasks, vec![task("x"), task("x")]);
}

#[test]
fn collect_of_nothing_is_nothing() {
    let e = ActionEffect::collect(Vec::new());
    assert!(e.sheets.is_empty() && e.async_tasks.is_empty() && e.dirtys.is_empty());
}

#[test]
fn payloads_name_their_sheet() {
    let input = EditPayload::CellInput(CellInput {
        sheet_idx: 3,
        row: 1,
        col: 2,
        content: String::from("=A1"),
    });
    assert_eq!(input.sheet_idx(), Some(3));
    let shift =
        EditPayload::RowShift(RowShift { sheet_idx: 5, start: 1, count: 2, insert: true });
    assert_eq!(shift.sheet_idx(), Some(5));
    assert_eq!(EditPayload::BlockStyleUpdate(BlockStyleUpdate {}).sheet_idx(), None);
    let action = EditAction::Payloads(vec![input, shift]);
    let mut e = ActionEffect::new();
    if let EditAction::Payloads(ps) = &action {
        for p in ps {
            if let Some(idx) = p.sheet_idx() {
                e.add_sheet(idx);
            }
        }
    }
    assert_eq!(e.sheets, vec![3, 5]);
}
