//! Sheets inserted, deleted and renamed.

use vstd::prelude::*;
use crate::calc_vertex::SheetId;

verus! {

/// A sheet inserted at an index, or the sheet at an index deleted.
#[derive(Debug, Clone)]
pub struct SheetShiftPayload {
    pub idx: usize,
    pub ty: SheetShiftType,
    pub id: SheetId,
}

/// Whether a sheet comes or goes.
#[derive(Debug, Clone)]
pub enum SheetShiftType {
    Insert,
    Delete,
}

/// A sheet renamed.
#[derive(Debug, Clone)]
pub struct SheetRenamePayload {
    pub old_name: String,
    pub new_name: String,
}

} // verus!
