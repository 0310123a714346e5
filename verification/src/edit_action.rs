//! Edits, and what an action of edits comes to.

use vstd::prelude::*;
use crate::calc_vertex::SheetId;
use crate::number::Number;

verus! {

/// `logisheets_base::async_func::Task`: a deferred piece of work, as the
/// scheduler outside takes it. The type is taken as it is and nothing is
/// claimed of what a task holds: the engine hands tasks on in the order in
/// which they were enqueued and never looks inside one.
#[verifier::external_type_specification]
#[verifier::external_body]
pub struct ExTask(logisheets_base::async_func::Task);

/// The id of a cell of the grid: the ids of its row and column within its
/// sheet.
#[derive(Debug, Clone, Copy, Hash, PartialEq, Eq, Structural)]
pub struct NormalCellId {
    pub row: u32,
    pub col: u32,
}

/// The id of a cell of a block: the block, and the ids of the cell's row and
/// column within the block.
#[derive(Debug, Clone, Copy, Hash, PartialEq, Eq, Structural)]
pub struct BlockCellId {
    pub block_id: usize,
    pub row: u32,
    pub col: u32,
}

/// The id of a cell, which stays with the cell when rows and columns move.
#[derive(Debug, Clone, Copy, Hash, PartialEq, Eq, Structural)]
pub enum CellId {
    NormalCell(NormalCellId),
    BlockCell(BlockCellId),
    EphemeralCell(u64),
}

/// What a user submits in one transaction.
#[derive(Debug)]
pub enum EditAction {
    Undo,
    Redo,
    Payloads(Vec<EditPayload>),
}

/// One edit. Each kind is a record of coordinates and content.
#[derive(Debug)]
pub enum EditPayload {
    BlockInput(BlockInput),
    BlockStyleUpdate(BlockStyleUpdate),
    CellInput(CellInput),
    ColShift(ColShift),
    CreateBlock(CreateBlock),
    LineShiftInBlock(LineShiftInBlock),
    MoveBlock(MoveBlock),
    RowShift(RowShift),
    SetColWidth(SetColWidth),
    SetRowHeight(SetRowHeight),
    StyleUpdate(StyleUpdate),
}

/// Rows inserted before row `start`, or the rows from `start` on deleted,
/// `count` of them.
#[derive(Debug)]
pub struct RowShift {
    pub sheet_idx: usize,
    pub start: usize,
    pub count: usize,
    pub insert: bool,
}

/// Columns inserted before column `start`, or the columns from `start` on
/// deleted, `count` of them.
#[derive(Debug)]
pub struct ColShift {
    pub sheet_idx: usize,
    pub start: usize,
    pub count: usize,
    pub insert: bool,
}

/// Content typed into a cell, as typed.
#[derive(Debug)]
pub struct CellInput {
    pub sheet_idx: usize,
    pub row: usize,
    pub col: usize,
    pub content: String,
}

/// A block created with its first cell at the master row and column.
#[derive(Debug)]
pub struct CreateBlock {
    pub sheet_idx: usize,
    pub id: usize,
    pub master_row: usize,
    pub master_col: usize,
    pub row_cnt: usize,
    pub col_cnt: usize,
}

/// The height of a row set.
#[derive(Debug)]
pub struct SetRowHeight {
    pub sheet_idx: usize,
    pub idx: usize,
    pub height: Number,
}

/// The width of a column set.
#[derive(Debug)]
pub struct SetColWidth {
    pub sheet_idx: usize,
    pub idx: usize,
    pub width: Number,
}

/// A block moved to a new master row and column.
#[derive(Debug)]
pub struct MoveBlock {
    pub sheet_idx: usize,
    pub id: usize,
    pub new_master_row: usize,
    pub new_master_col: usize,
}

/// Content typed into a cell of a block, as typed.
#[derive(Debug)]
pub struct BlockInput {
    pub sheet_idx: usize,
    pub id: usize,
    pub row: usize,
    pub col: usize,
    pub input: String,
}

/// Lines inserted into a block or deleted from it.
#[derive(Debug)]
pub struct LineShiftInBlock {
    pub sheet_idx: usize,
    pub id: usize,
    pub idx: usize,
    pub cnt: usize,
    pub horizontal: bool,
    pub insert: bool,
}

/// The style of a block changed.
#[derive(Debug)]
pub struct BlockStyleUpdate {}

/// The style of a cell changed.
#[derive(Debug)]
pub struct StyleUpdate {
    pub sheet_idx: usize,
    pub row: usize,
    pub col: usize,
}

impl EditPayload {
    /// The sheet that the edit is made on, where the edit names one.
    pub open spec fn sheet(self) -> Option<usize> {
        match self {
            EditPayload::BlockInput(p) => Some(p.sheet_idx),
            EditPayload::BlockStyleUpdate(_) => None,
            EditPayload::CellInput(p) => Some(p.sheet_idx),
            EditPayload::ColShift(p) => Some(p.sheet_idx),
            EditPayload::CreateBlock(p) => Some(p.sheet_idx),
            EditPayload::LineShiftInBlock(p) => Some(p.sheet_idx),
            EditPayload::MoveBlock(p) => Some(p.sheet_idx),
            EditPayload::RowShift(p) => Some(p.sheet_idx),
            EditPayload::SetColWidth(p) => Some(p.sheet_idx),
            EditPayload::SetRowHeight(p) => Some(p.sheet_idx),
            EditPayload::StyleUpdate(p) => Some(p.sheet_idx),
        }
    }

    /// The sheet that the edit is made on, where the edit names one.
    pub fn sheet_idx(&self) -> (idx: Option<usize>)
        ensures
            idx == self.sheet(),
    {
        match self {
            EditPayload::BlockInput(p) => Some(p.sheet_idx),
            EditPayload::BlockStyleUpdate(_) => None,
            EditPayload::CellInput(p) => Some(p.sheet_idx),
            EditPayload::ColShift(p) => Some(p.sheet_idx),
            EditPayload::CreateBlock(p) => Some(p.sheet_idx),
            EditPayload::LineShiftInBlock(p) => Some(p.sheet_idx),
            EditPayload::MoveBlock(p) => Some(p.sheet_idx),
            EditPayload::RowShift(p) => Some(p.sheet_idx),
            EditPayload::SetColWidth(p) => Some(p.sheet_idx),
            EditPayload::SetRowHeight(p) => Some(p.sheet_idx),
            EditPayload::StyleUpdate(p) => Some(p.sheet_idx),
        }
    }
}

} // verus!
