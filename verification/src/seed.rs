//! What one edit does to the formulas of its sheet: which references it
//! rewrites, and which cells it leaves stale.

use vstd::prelude::*;
use crate::calc_vertex::{Address, Reference, SheetId};
use crate::edit_action::{CellId, ColShift, EditPayload, LineShiftInBlock, MoveBlock, RowShift};
use crate::effect::{absorbed, ActionEffect, EffectView};
use crate::error::ErrorKind;
use crate::range::{col_extent, order, row_extent};
use crate::shift::{cols_shifted, lemma_untouched_reference, rows_shifted, touches, LineShift};
use logisheets_base::async_func::Task;

verus! {

/// Where a block lies on its sheet: its first cell, and how many rows and
/// columns it has.
#[derive(Debug, Clone, Copy, PartialEq, Eq, Structural)]
pub struct BlockPlace {
    pub master_row: usize,
    pub master_col: usize,
    pub row_cnt: usize,
    pub col_cnt: usize,
}

/// A formula, by the cell that holds it, and the references that it reads
/// on the sheet of the edit.
#[derive(Debug, Clone)]
pub struct Formula {
    pub sheet: SheetId,
    pub cell: CellId,
    pub references: Vec<Reference>,
}

/// What the workbook says of an edit before the edit is carried out.
#[derive(Debug)]
pub struct Answers {
    /// The cell that an input goes to, if the sheet has it.
    pub cell: Option<(SheetId, CellId)>,
    /// The cells that depend on that cell, as far as the dependency graph
    /// follows them.
    pub dependents: Vec<(SheetId, CellId)>,
    /// The formulas that read the sheet of the edit.
    pub formulas: Vec<Formula>,
    /// Where the block of the edit lies, if the edit names a block and the
    /// sheet has it.
    pub block: Option<BlockPlace>,
    /// The work that the edit puts off.
    pub tasks: Vec<Task>,
}

/// Whether an extent lies wholly within the `cnt` lines from `lo` on.
pub open spec fn confined_to(extent: Option<(usize, usize)>, lo: int, cnt: int) -> bool {
    match extent {
        Some(e) => lo <= e.0 && e.1 < lo + cnt,
        None => false,
    }
}

/// Whether an extent has a line among the `cnt` lines from `lo` on.
pub open spec fn meets(extent: Option<(usize, usize)>, lo: int, cnt: int) -> bool {
    cnt > 0 && match extent {
        Some(e) => e.0 < lo + cnt && lo <= e.1,
        None => true,
    }
}

/// The rows that a reference is confined to, if it is.
pub fn rows_of(r: &Reference) -> (res: Option<(usize, usize)>)
    ensures
        res == row_extent(*r),
{
    match r {
        Reference::Addr(a) => Some((a.row, a.row)),
        Reference::ColumnRange(_) => None,
        Reference::RowRange(rr) => Some(order(rr.start, rr.end)),
        Reference::Range(s, e) => Some(order(s.row, e.row)),
    }
}

/// The columns that a reference is confined to, if it is.
pub fn cols_of(r: &Reference) -> (res: Option<(usize, usize)>)
    ensures
        res == col_extent(*r),
{
    match r {
        Reference::Addr(a) => Some((a.col, a.col)),
        Reference::ColumnRange(cr) => Some(order(cr.start, cr.end)),
        Reference::RowRange(_) => None,
        Reference::Range(s, e) => Some(order(s.col, e.col)),
    }
}

/// Whether an extent lies wholly within the `cnt` lines from `lo` on.
pub fn is_confined_to(extent: Option<(usize, usize)>, lo: usize, cnt: usize) -> (b: bool)
    ensures
        b == confined_to(extent, lo as int, cnt as int),
{
    match extent {
        Some(e) => lo <= e.0 && (e.1 < lo || e.1 - lo < cnt),
        None => false,
    }
}

/// Whether an extent has a line among the `cnt` lines from `lo` on.
pub fn does_meet(extent: Option<(usize, usize)>, lo: usize, cnt: usize) -> (b: bool)
    ensures
        b == meets(extent, lo as int, cnt as int),
{
    cnt > 0 && match extent {
        Some(e) => lo <= e.1 && (e.0 < lo || e.0 - lo < cnt),
        None => true,
    }
}

impl LineShiftInBlock {
    /// The shift in the lines of the sheet: it starts `idx` lines into the
    /// block, along the rows where the lines are horizontal and along the
    /// columns where they are not. There is none where that line cannot be
    /// named.
    pub open spec fn lines(self, b: BlockPlace) -> Option<LineShift> {
        let first = if self.horizontal { b.master_row } else { b.master_col };
        if first + self.idx <= usize::MAX {
            Some(
                LineShift { start: (first + self.idx) as usize, count: self.cnt, insert: self.insert },
            )
        } else {
            None
        }
    }

    /// Whether the shift is one for a reference: the reference lies, across
    /// the lines shifted, wholly within the block.
    pub open spec fn subject(self, b: BlockPlace, r: Reference) -> bool {
        if self.horizontal {
            confined_to(col_extent(r), b.master_col as int, b.col_cnt as int)
        } else {
            confined_to(row_extent(r), b.master_row as int, b.row_cnt as int)
        }
    }

    /// A reference after the shift: shifted as by a shift of the sheet's
    /// lines if the shift is one for it, and as it was if not.
    pub open spec fn rewritten(self, b: BlockPlace, r: Reference) -> Result<Reference, ErrorKind> {
        match self.lines(b) {
            Some(s) => if !self.subject(b, r) {
                Ok(r)
            } else if self.horizontal {
                rows_shifted(r, s)
            } else {
                cols_shifted(r, s)
            },
            None => Ok(r),
        }
    }

    /// Whether the shift moves or deletes a line of a reference.
    pub open spec fn reaches(self, b: BlockPlace, r: Reference) -> bool {
        match self.lines(b) {
            Some(s) => self.subject(b, r) && touches(
                s,
                if self.horizontal { row_extent(r) } else { col_extent(r) },
            ),
            None => false,
        }
    }

    /// Rewrites a reference into the sheet as it is after the shift.
    pub fn rewrite(&self, b: &BlockPlace, r: Reference) -> (res: Result<Reference, ErrorKind>)
        ensures
            res == self.rewritten(*b, r),
    {
        let first: usize = if self.horizontal { b.master_row } else { b.master_col };
        match first.checked_add(self.idx) {
            None => Ok(r),
            Some(start) => {
                if self.horizontal {
                    if is_confined_to(cols_of(&r), b.master_col, b.col_cnt) {
                        let s = RowShift {
                            sheet_idx: self.sheet_idx,
                            start,
                            count: self.cnt,
                            insert: self.insert,
                        };
                        s.rewrite(r)
                    } else {
                        Ok(r)
                    }
                } else {
                    if is_confined_to(rows_of(&r), b.master_row, b.row_cnt) {
                        let s = ColShift {
                            sheet_idx: self.sheet_idx,
                            start,
                            count: self.cnt,
                            insert: self.insert,
                        };
                        s.rewrite(r)
                    } else {
                        Ok(r)
                    }
                }
            },
        }
    }

    /// Whether the shift makes a formula stale that reads the reference.
    pub fn dirties(&self, b: &BlockPlace, r: &Reference) -> (res: bool)
        ensures
            res == self.reaches(*b, *r),
    {
        let first: usize = if self.horizontal { b.master_row } else { b.master_col };
        match first.checked_add(self.idx) {
            None => false,
            Some(start) => {
                if self.horizontal {
                    let s = RowShift {
                        sheet_idx: self.sheet_idx,
                        start,
                        count: self.cnt,
                        insert: self.insert,
                    };
                    is_confined_to(cols_of(r), b.master_col, b.col_cnt) && s.dirties(r)
                } else {
                    let s = ColShift {
                        sheet_idx: self.sheet_idx,
                        start,
                        count: self.cnt,
                        insert: self.insert,
                    };
                    is_confined_to(rows_of(r), b.master_row, b.row_cnt) && s.dirties(r)
                }
            },
        }
    }
}

impl MoveBlock {
    /// Whether a reference lies wholly within the block.
    pub open spec fn inside(b: BlockPlace, r: Reference) -> bool {
        confined_to(row_extent(r), b.master_row as int, b.row_cnt as int) && confined_to(
            col_extent(r),
            b.master_col as int,
            b.col_cnt as int,
        )
    }

    /// Where a cell of the block lies after the move: as far from the new
    /// first cell as it was from the old. There is no such place if it
    /// cannot be named.
    pub open spec fn carried(self, b: BlockPlace, a: Address) -> Option<Address> {
        let row = a.row - b.master_row + self.new_master_row;
        let col = a.col - b.master_col + self.new_master_col;
        if row <= usize::MAX && col <= usize::MAX {
            Some(Address { row: row as usize, col: col as usize })
        } else {
            None
        }
    }

    /// A reference after the move: carried along if it lies wholly within
    /// the block, and as it was if not. It dangles if a corner is carried to
    /// where no cell can be named.
    pub open spec fn rewritten(self, b: BlockPlace, r: Reference) -> Result<Reference, ErrorKind> {
        if !Self::inside(b, r) {
            Ok(r)
        } else {
            match r {
                Reference::Addr(a) => match self.carried(b, a) {
                    Some(to) => Ok(Reference::Addr(to)),
                    None => Err(ErrorKind::Ref),
                },
                Reference::Range(s, e) => match (self.carried(b, s), self.carried(b, e)) {
                    (Some(to_s), Some(to_e)) => Ok(Reference::Range(to_s, to_e)),
                    _ => Err(ErrorKind::Ref),
                },
                _ => Ok(r),
            }
        }
    }

    /// Whether the move changes a cell of a reference: the block goes
    /// somewhere else, and the reference has a cell where the block was or
    /// where it comes to lie.
    pub open spec fn reaches(self, b: BlockPlace, r: Reference) -> bool {
        (self.new_master_row != b.master_row || self.new_master_col != b.master_col) && ((meets(
            row_extent(r),
            b.master_row as int,
            b.row_cnt as int,
        ) && meets(col_extent(r), b.master_col as int, b.col_cnt as int)) || (meets(
            row_extent(r),
            self.new_master_row as int,
            b.row_cnt as int,
        ) && meets(col_extent(r), self.new_master_col as int, b.col_cnt as int)))
    }

    /// Where a cell of the block lies after the move.
    fn carry(&self, b: &BlockPlace, a: &Address) -> (res: Option<Address>)
        requires
            b.master_row <= a.row,
            b.master_col <= a.col,
        ensures
            res == self.carried(*b, *a),
    {
        match (a.row - b.master_row).checked_add(self.new_master_row) {
            None => None,
            Some(row) => match (a.col - b.master_col).checked_add(self.new_master_col) {
                None => None,
                Some(col) => Some(Address { row, col }),
            },
        }
    }

    /// Rewrites a reference into the sheet as it is after the move.
    pub fn rewrite(&self, b: &BlockPlace, r: Reference) -> (res: Result<Reference, ErrorKind>)
        ensures
            res == self.rewritten(*b, r),
    {
        if !(is_confined_to(rows_of(&r), b.master_row, b.row_cnt) && is_confined_to(
            cols_of(&r),
            b.master_col,
            b.col_cnt,
        )) {
            return Ok(r);
        }
        match r {
            Reference::Addr(a) => match self.carry(b, &a) {
                Some(to) => Ok(Reference::Addr(to)),
                None => Err(ErrorKind::Ref),
            },
            Reference::Range(s, e) => match self.carry(b, &s) {
                Some(to_s) => match self.carry(b, &e) {
                    Some(to_e) => Ok(Reference::Range(to_s, to_e)),
                    None => Err(ErrorKind::Ref),
                },
                None => Err(ErrorKind::Ref),
            },
            _ => Ok(r),
        }
    }

    /// Whether the move makes a formula stale that reads the reference.
    pub fn dirties(&self, b: &BlockPlace, r: &Reference) -> (res: bool)
        ensures
            res == self.reaches(*b, *r),
    {
        let rows = rows_of(r);
        let cols = cols_of(r);
        (self.new_master_row != b.master_row || self.new_master_col != b.master_col) && ((does_meet(
            rows,
            b.master_row,
            b.row_cnt,
        ) && does_meet(cols, b.master_col, b.col_cnt)) || (does_meet(
            rows,
            self.new_master_row,
            b.row_cnt,
        ) && does_meet(cols, self.new_master_col, b.col_cnt)))
    }
}

impl EditPayload {
    /// A reference after the edit. Shifts of rows and columns, shifts of
    /// lines in a block and moves of a block rewrite references; no other
    /// edit does, nor one that names a block which the sheet does not have.
    pub open spec fn rewritten(self, block: Option<BlockPlace>, r: Reference) -> Result<
        Reference,
        ErrorKind,
    > {
        match (self, block) {
            (EditPayload::RowShift(p), _) => rows_shifted(r, p.lines()),
            (EditPayload::ColShift(p), _) => cols_shifted(r, p.lines()),
            (EditPayload::LineShiftInBlock(p), Some(b)) => p.rewritten(b, r),
            (EditPayload::MoveBlock(p), Some(b)) => p.rewritten(b, r),
            _ => Ok(r),
        }
    }

    /// Whether the edit makes a formula stale that reads the reference.
    pub open spec fn reaches(self, block: Option<BlockPlace>, r: Reference) -> bool {
        match (self, block) {
            (EditPayload::RowShift(p), _) => touches(p.lines(), row_extent(r)),
            (EditPayload::ColShift(p), _) => touches(p.lines(), col_extent(r)),
            (EditPayload::LineShiftInBlock(p), Some(b)) => p.reaches(b, r),
            (EditPayload::MoveBlock(p), Some(b)) => p.reaches(b, r),
            _ => false,
        }
    }

    /// Whether the edit makes a formula stale that reads these references:
    /// it does if it reaches one of them.
    pub open spec fn reaches_any(self, block: Option<BlockPlace>, rs: Seq<Reference>) -> bool {
        exists|i: int| 0 <= i < rs.len() && self.reaches(block, #[trigger] rs[i])
    }

    /// The cells of the formulas that the edit makes stale, in the order of
    /// the formulas.
    pub open spec fn stale(self, block: Option<BlockPlace>, formulas: Seq<Formula>) -> Seq<
        (SheetId, CellId),
    >
        decreases formulas.len(),
    {
        if formulas.len() == 0 {
            Seq::empty()
        } else {
            let rest = self.stale(block, formulas.drop_last());
            let f = formulas.last();
            if self.reaches_any(block, f.references@) {
                rest.push((f.sheet, f.cell))
            } else {
                rest
            }
        }
    }

    /// The cells that the edit leaves stale, each once. An input leaves the
    /// cell it goes to and the cells that depend on it; an edit that
    /// rewrites references leaves the formulas that read what it reaches;
    /// any other edit leaves none.
    pub open spec fn seeds(
        self,
        cell: Option<(SheetId, CellId)>,
        dependents: Seq<(SheetId, CellId)>,
        formulas: Seq<Formula>,
        block: Option<BlockPlace>,
    ) -> Seq<(SheetId, CellId)> {
        match self {
            EditPayload::CellInput(_) | EditPayload::BlockInput(_) => absorbed(
                match cell {
                    Some(c) => seq![c],
                    None => Seq::empty(),
                },
                dependents,
            ),
            EditPayload::RowShift(_)
            | EditPayload::ColShift(_)
            | EditPayload::LineShiftInBlock(_)
            | EditPayload::MoveBlock(_) => absorbed(Seq::empty(), self.stale(block, formulas)),
            _ => Seq::empty(),
        }
    }

    /// What the edit comes to: its sheet, the cells it leaves stale, and
    /// the work it puts off.
    pub open spec fn effect(self, answers: Answers) -> EffectView {
        EffectView {
            sheets: match self.sheet() {
                Some(idx) => seq![idx],
                None => Seq::empty(),
            },
            async_tasks: answers.tasks@,
            dirtys: self.seeds(answers.cell, answers.dependents@, answers.formulas@, answers.block),
        }
    }

    /// Rewrites a reference into the sheet as it is after the edit.
    pub fn rewrite(&self, block: &Option<BlockPlace>, r: Reference) -> (res: Result<
        Reference,
        ErrorKind,
    >)
        ensures
            res == self.rewritten(*block, r),
    {
        match self {
            EditPayload::RowShift(p) => p.rewrite(r),
            EditPayload::ColShift(p) => p.rewrite(r),
            EditPayload::LineShiftInBlock(p) => match block {
                Some(b) => p.rewrite(b, r),
                None => Ok(r),
            },
            EditPayload::MoveBlock(p) => match block {
                Some(b) => p.rewrite(b, r),
                None => Ok(r),
            },
            _ => Ok(r),
        }
    }

    /// Whether the edit makes a formula stale that reads the reference.
    pub fn dirties(&self, block: &Option<BlockPlace>, r: &Reference) -> (res: bool)
        ensures
            res == self.reaches(*block, *r),
    {
        match self {
            EditPayload::RowShift(p) => p.dirties(r),
            EditPayload::ColShift(p) => p.dirties(r),
            EditPayload::LineShiftInBlock(p) => match block {
                Some(b) => p.dirties(b, r),
                None => false,
            },
            EditPayload::MoveBlock(p) => match block {
                Some(b) => p.dirties(b, r),
                None => false,
            },
            _ => false,
        }
    }

    /// Whether the edit makes a formula stale that reads these references.
    pub fn dirties_any(&self, block: &Option<BlockPlace>, rs: &Vec<Reference>) -> (res: bool)
        ensures
            res == self.reaches_any(*block, rs@),
    {
        let mut i: usize = 0;
        while i < rs.len()
            invariant
                i <= rs.len(),
                forall|j: int| 0 <= j < i ==> !self.reaches(*block, #[trigger] rs@[j]),
            decreases rs.len() - i,
        {
            if self.dirties(block, &rs[i]) {
                return true;
            }
            i += 1;
        }
        false
    }

    /// What the edit comes to, from what the workbook says of it.
    pub fn effect_of(&self, answers: Answers) -> (e: ActionEffect)
        ensures
            e@ == self.effect(answers),
            e@.distinct(),
    {
        let mut answers = answers;
        let ghost given = answers;
        let mut e = ActionEffect::new();
        if let Some(idx) = self.sheet_idx() {
            e.add_sheet(idx);
        }
        match self {
            EditPayload::CellInput(_) | EditPayload::BlockInput(_) => {
                if let Some(c) = answers.cell {
                    e.add_dirty(c.0, c.1);
                }
                let mut i: usize = 0;
                while i < answers.dependents.len()
                    invariant
                        i <= answers.dependents.len(),
                        answers == given,
                        e@.sheets == self.effect(given).sheets,
                        e@.async_tasks == Seq::<Task>::empty(),
                        e@.distinct(),
                        e@.dirtys == absorbed(
                            match given.cell {
                                Some(c) => seq![c],
                                None => Seq::empty(),
                            },
                            given.dependents@.subrange(0, i as int),
                        ),
                    decreases answers.dependents.len() - i,
                {
                    proof {
                        let next = given.dependents@.subrange(0, i + 1);
                        assert(next.drop_last() =~= given.dependents@.subrange(0, i as int));
                    }
                    let d: (SheetId, CellId) = answers.dependents[i];
                    e.add_dirty(d.0, d.1);
                    i += 1;
                }
                assert(given.dependents@.subrange(0, i as int) =~= given.dependents@);
            },
            EditPayload::RowShift(_)
            | EditPayload::ColShift(_)
            | EditPayload::LineShiftInBlock(_)
            | EditPayload::MoveBlock(_) => {
                let mut i: usize = 0;
                while i < answers.formulas.len()
                    invariant
                        i <= answers.formulas.len(),
                        answers == given,
                        e@.sheets == self.effect(given).sheets,
                        e@.async_tasks == Seq::<Task>::empty(),
                        e@.distinct(),
                        e@.dirtys == absorbed(
                            Seq::empty(),
                            self.stale(given.block, given.formulas@.subrange(0, i as int)),
                        ),
                    decreases answers.formulas.len() - i,
                {
                    proof {
                        let next = given.formulas@.subrange(0, i + 1);
                        assert(next.drop_last() =~= given.formulas@.subrange(0, i as int));
                        assert(next.last() == given.formulas@[i as int]);
                    }
                    if self.dirties_any(&answers.block, &answers.formulas[i].references) {
                        proof {
                            let before = self.stale(
                                given.block,
                                given.formulas@.subrange(0, i as int),
                            );
                            let f = given.formulas@[i as int];
                            assert(before.push((f.sheet, f.cell)).drop_last() =~= before);
                        }
                        e.add_dirty(answers.formulas[i].sheet, answers.formulas[i].cell);
                    }
                    i += 1;
                }
                assert(given.formulas@.subrange(0, i as int) =~= given.formulas@);
            },
            _ => {},
        }
        e.async_tasks.append(&mut answers.tasks);
        assert(e@.async_tasks =~= given.tasks@);
        e
    }
}

/// An edit rewrites no reference that it does not reach.
pub proof fn lemma_unreached_reference_stays(p: EditPayload, block: Option<BlockPlace>, r: Reference)
    requires
        !p.reaches(block, r),
    ensures
        p.rewritten(block, r) == Ok::<Reference, ErrorKind>(r),
{
    match (p, block) {
        (EditPayload::RowShift(q), _) => {
            lemma_untouched_reference(r, q.lines());
        },
        (EditPayload::ColShift(q), _) => {
            lemma_untouched_reference(r, q.lines());
        },
        (EditPayload::LineShiftInBlock(q), Some(b)) => {
            if let Some(s) = q.lines(b) {
                lemma_untouched_reference(r, s);
            }
        },
        _ => {},
    }
}

/// An edit that names a block which the sheet does not have rewrites
/// nothing and leaves no formula stale.
pub proof fn lemma_missing_block_changes_nothing(p: EditPayload, r: Reference)
    requires
        p is LineShiftInBlock || p is MoveBlock,
    ensures
        p.rewritten(None, r) == Ok::<Reference, ErrorKind>(r),
        !p.reaches(None, r),
        forall|formulas: Seq<Formula>| #[trigger] p.stale(None, formulas) == Seq::<(SheetId, CellId)>::empty(),
{
    assert forall|formulas: Seq<Formula>| #[trigger]
        p.stale(None, formulas) == Seq::<(SheetId, CellId)>::empty() by {
        lemma_stale_of_missing_block(p, formulas);
    }
}

/// Without its block an edit of a block leaves no formula stale.
proof fn lemma_stale_of_missing_block(p: EditPayload, formulas: Seq<Formula>)
    requires
        p is LineShiftInBlock || p is MoveBlock,
    ensures
        p.stale(None, formulas) == Seq::<(SheetId, CellId)>::empty(),
    decreases formulas.len(),
{
    if formulas.len() > 0 {
        lemma_stale_of_missing_block(p, formulas.drop_last());
    }
}

/// A reference within a block that moves is carried along as it is: it
/// keeps its shape and its size, and lies as far from the block's new first
/// cell as it lay from the old.
pub proof fn lemma_moved_with_its_block(p: MoveBlock, b: BlockPlace, r: Reference)
    requires
        MoveBlock::inside(b, r),
    ensures
        p.rewritten(b, r) matches Ok(q) ==> {
            &&& row_extent(q) matches Some(f)
            &&& col_extent(q) matches Some(g)
            &&& f.0 - p.new_master_row == row_extent(r).unwrap().0 - b.master_row
            &&& f.1 - p.new_master_row == row_extent(r).unwrap().1 - b.master_row
            &&& g.0 - p.new_master_col == col_extent(r).unwrap().0 - b.master_col
            &&& g.1 - p.new_master_col == col_extent(r).unwrap().1 - b.master_col
            &&& MoveBlock::inside(
                BlockPlace {
                    master_row: p.new_master_row,
                    master_col: p.new_master_col,
                    row_cnt: b.row_cnt,
                    col_cnt: b.col_cnt,
                },
                q,
            )
        },
        p.rewritten(b, r) is Err ==> p.rewritten(b, r) == Err::<Reference, ErrorKind>(
            ErrorKind::Ref,
        ),
{
}

/// The cells that an edit leaves stale among the formulas are those of the
/// formulas that read a reference which the edit reaches.
pub proof fn lemma_stale_holds(p: EditPayload, block: Option<BlockPlace>, formulas: Seq<Formula>)
    ensures
        forall|c: (SheetId, CellId)|
            p.stale(block, formulas).contains(c) <==> exists|i: int|
                0 <= i < formulas.len() && (#[trigger] formulas[i].sheet, formulas[i].cell) == c
                    && p.reaches_any(block, formulas[i].references@),
    decreases formulas.len(),
{
    if formulas.len() > 0 {
        let rest = formulas.drop_last();
        let f = formulas.last();
        lemma_stale_holds(p, block, rest);
        let before = p.stale(block, rest);
        let after = p.stale(block, formulas);
        assert forall|c: (SheetId, CellId)|
            after.contains(c) <==> exists|i: int|
                0 <= i < formulas.len() && (#[trigger] formulas[i].sheet, formulas[i].cell) == c
                    && p.reaches_any(block, formulas[i].references@) by {
            if before.contains(c) {
                let i = choose|i: int|
                    0 <= i < rest.len() && (#[trigger] rest[i].sheet, rest[i].cell) == c
                        && p.reaches_any(block, rest[i].references@);
                assert((formulas[i].sheet, formulas[i].cell) == c);
                let k = choose|k: int| 0 <= k < before.len() && before[k] == c;
                assert(after[k] == c);
            }
            if p.reaches_any(block, f.references@) && (f.sheet, f.cell) == c {
                assert(after[after.len() - 1] == c);
                assert((formulas[formulas.len() - 1].sheet, formulas[formulas.len() - 1].cell)
                    == c);
            }
            if after.contains(c) && !before.contains(c) {
                let k = choose|k: int| 0 <= k < after.len() && after[k] == c;
                if k < before.len() {
                    assert(before[k] == c);
                }
                assert((formulas[formulas.len() - 1].sheet, formulas[formulas.len() - 1].cell)
                    == c);
            }
            if exists|i: int|
                0 <= i < formulas.len() && (#[trigger] formulas[i].sheet, formulas[i].cell) == c
                    && p.reaches_any(block, formulas[i].references@) {
                let i = choose|i: int|
                    0 <= i < formulas.len() && (#[trigger] formulas[i].sheet, formulas[i].cell)
                        == c && p.reaches_any(block, formulas[i].references@);
                if i < rest.len() {
                    assert((rest[i].sheet, rest[i].cell) == c);
                }
            }
        }
    } else {
        assert forall|c: (SheetId, CellId)| !p.stale(block, formulas).contains(c) by {}
    }
}

} // verus!
