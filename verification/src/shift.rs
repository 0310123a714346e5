//! How references follow the lines of a sheet when rows or columns are
//! inserted or deleted.

use vstd::prelude::*;
use crate::calc_vertex::{Address, ColRange, Reference, RowRange};
use crate::edit_action::{ColShift, RowShift};
use crate::error::ErrorKind;
use crate::range::{col_extent, lower, order, row_extent, upper};

verus! {

/// Lines inserted before line `start`, or the lines from `start` on deleted,
/// `count` of them, along one axis.
#[derive(Debug, Clone, Copy, PartialEq, Eq, Structural)]
pub struct LineShift {
    pub start: usize,
    pub count: usize,
    pub insert: bool,
}

/// A pair of ends in the order of another pair.
pub open spec fn oriented(given: (usize, usize), ends: (usize, usize)) -> (usize, usize) {
    if given.0 <= given.1 {
        ends
    } else {
        (ends.1, ends.0)
    }
}

impl LineShift {
    /// Whether the shift deletes line `i`.
    pub open spec fn deletes(self, i: int) -> bool {
        !self.insert && self.start <= i < self.start + self.count
    }

    /// Where line `i` lies after the shift, if the shift does not delete it:
    /// the lines before `start` stay, the others move by `count`.
    pub open spec fn moved(self, i: int) -> int {
        if i < self.start {
            i
        } else if self.insert {
            i + self.count
        } else {
            i - self.count
        }
    }

    /// Whether the shift leaves every line up to `hi` where it is.
    pub open spec fn leaves(self, hi: int) -> bool {
        self.count == 0 || hi < self.start
    }

    /// Where a point lies after the shift. There is no such place if its
    /// line is deleted, or pushed beyond the last line that can be named.
    pub open spec fn point(self, p: usize) -> Option<usize> {
        if self.deletes(p as int) || self.moved(p as int) > usize::MAX {
            None
        } else {
            Some(self.moved(p as int) as usize)
        }
    }

    /// What is left of the lines from `lo` to `hi` after the shift, and where
    /// it lies. An insertion moves each end, so that lines inserted between
    /// the ends join them. A deletion takes out what it deletes and closes
    /// the gap. Nothing is left if every line is deleted, or if an end is
    /// pushed beyond the last line that can be named.
    pub open spec fn span(self, lo: usize, hi: usize) -> Option<(usize, usize)>
        recommends
            lo <= hi,
    {
        if self.insert {
            if self.moved(hi as int) > usize::MAX {
                None
            } else {
                Some((self.moved(lo as int) as usize, self.moved(hi as int) as usize))
            }
        } else if self.deletes(lo as int) && self.deletes(hi as int) {
            None
        } else {
            Some(
                (
                    if self.deletes(lo as int) {
                        self.start
                    } else {
                        self.moved(lo as int) as usize
                    },
                    if self.deletes(hi as int) {
                        (self.start - 1) as usize
                    } else {
                        self.moved(hi as int) as usize
                    },
                ),
            )
        }
    }

    /// What is left of the lines between two ends that come in either order,
    /// with the ends in the order given.
    pub open spec fn interval(self, a: usize, b: usize) -> Option<(usize, usize)> {
        match self.span(lower(a, b), upper(a, b)) {
            Some(ends) => Some(oriented((a, b), ends)),
            None => None,
        }
    }

    /// Whether the shift deletes line `i`.
    pub fn is_deleted(&self, i: usize) -> (b: bool)
        ensures
            b == self.deletes(i as int),
    {
        !self.insert && i >= self.start && i - self.start < self.count
    }

    /// Where a point lies after the shift, if anywhere.
    pub fn shift_point(&self, p: usize) -> (res: Option<usize>)
        ensures
            res == self.point(p),
    {
        if p < self.start {
            Some(p)
        } else if self.insert {
            p.checked_add(self.count)
        } else if p - self.start < self.count {
            None
        } else {
            Some(p - self.count)
        }
    }

    /// What is left of the lines between two ends after the shift, if
    /// anything. The ends come in either order and come back in that order.
    pub fn shift_interval(&self, a: usize, b: usize) -> (res: Option<(usize, usize)>)
        ensures
            res == self.interval(a, b),
    {
        let ends: (usize, usize) = order(a, b);
        let lo: usize = ends.0;
        let hi: usize = ends.1;
        let new_ends: (usize, usize) = if self.insert {
            match self.shift_point(hi) {
                None => { return None; },
                Some(new_hi) => match self.shift_point(lo) {
                    None => { return None; },
                    Some(new_lo) => (new_lo, new_hi),
                },
            }
        } else {
            let lo_gone: bool = self.is_deleted(lo);
            let hi_gone: bool = self.is_deleted(hi);
            if lo_gone && hi_gone {
                return None;
            }
            let new_lo: usize = if lo_gone {
                self.start
            } else if lo < self.start {
                lo
            } else {
                lo - self.count
            };
            let new_hi: usize = if hi_gone {
                self.start - 1
            } else if hi < self.start {
                hi
            } else {
                hi - self.count
            };
            (new_lo, new_hi)
        };
        if a <= b {
            Some(new_ends)
        } else {
            Some((new_ends.1, new_ends.0))
        }
    }

    /// Whether the shift moves or deletes a line at or before `hi`.
    pub fn reaches(&self, hi: usize) -> (b: bool)
        ensures
            b == !self.leaves(hi as int),
    {
        self.count != 0 && hi >= self.start
    }
}

/// A reference after a shift of rows. A point follows its row; a band of rows
/// and a rectangle keep what is left of their rows; a band of columns stays
/// as it is. Columns stay, and ends stay in the order given. A reference of
/// which nothing is left dangles.
pub open spec fn rows_shifted(r: Reference, s: LineShift) -> Result<Reference, ErrorKind> {
    match r {
        Reference::Addr(a) => match s.point(a.row) {
            Some(row) => Ok(Reference::Addr(Address { row, col: a.col })),
            None => Err(ErrorKind::Ref),
        },
        Reference::ColumnRange(_) => Ok(r),
        Reference::RowRange(rr) => match s.interval(rr.start, rr.end) {
            Some(ends) => Ok(Reference::RowRange(RowRange { start: ends.0, end: ends.1 })),
            None => Err(ErrorKind::Ref),
        },
        Reference::Range(a, b) => match s.interval(a.row, b.row) {
            Some(ends) => Ok(
                Reference::Range(
                    Address { row: ends.0, col: a.col },
                    Address { row: ends.1, col: b.col },
                ),
            ),
            None => Err(ErrorKind::Ref),
        },
    }
}

/// A reference after a shift of columns: as for rows, with the axes swapped.
pub open spec fn cols_shifted(r: Reference, s: LineShift) -> Result<Reference, ErrorKind> {
    match r {
        Reference::Addr(a) => match s.point(a.col) {
            Some(col) => Ok(Reference::Addr(Address { row: a.row, col })),
            None => Err(ErrorKind::Ref),
        },
        Reference::ColumnRange(cr) => match s.interval(cr.start, cr.end) {
            Some(ends) => Ok(Reference::ColumnRange(ColRange { start: ends.0, end: ends.1 })),
            None => Err(ErrorKind::Ref),
        },
        Reference::RowRange(_) => Ok(r),
        Reference::Range(a, b) => match s.interval(a.col, b.col) {
            Some(ends) => Ok(
                Reference::Range(
                    Address { row: a.row, col: ends.0 },
                    Address { row: b.row, col: ends.1 },
                ),
            ),
            None => Err(ErrorKind::Ref),
        },
    }
}

/// Whether a shift touches an extent: it moves or deletes one of its lines.
/// An extent that runs through every line is touched by any shift that does
/// anything.
pub open spec fn touches(s: LineShift, extent: Option<(usize, usize)>) -> bool {
    match extent {
        Some(e) => !s.leaves(e.1 as int),
        None => s.count != 0,
    }
}

impl RowShift {
    /// The shift along the axis of rows.
    pub open spec fn lines(self) -> LineShift {
        LineShift { start: self.start, count: self.count, insert: self.insert }
    }

    /// The shift along the axis of rows.
    pub fn line_shift(&self) -> (s: LineShift)
        ensures
            s == self.lines(),
    {
        LineShift { start: self.start, count: self.count, insert: self.insert }
    }

    /// Rewrites a reference into the sheet as it is after the shift.
    pub fn rewrite(&self, r: Reference) -> (res: Result<Reference, ErrorKind>)
        ensures
            res == rows_shifted(r, self.lines()),
    {
        let s: LineShift = self.line_shift();
        match r {
            Reference::Addr(a) => match s.shift_point(a.row) {
                Some(row) => Ok(Reference::Addr(Address { row, col: a.col })),
                None => Err(ErrorKind::Ref),
            },
            Reference::ColumnRange(_) => Ok(r),
            Reference::RowRange(rr) => match s.shift_interval(rr.start, rr.end) {
                Some(ends) => Ok(Reference::RowRange(RowRange { start: ends.0, end: ends.1 })),
                None => Err(ErrorKind::Ref),
            },
            Reference::Range(a, b) => match s.shift_interval(a.row, b.row) {
                Some(ends) => Ok(
                    Reference::Range(
                        Address { row: ends.0, col: a.col },
                        Address { row: ends.1, col: b.col },
                    ),
                ),
                None => Err(ErrorKind::Ref),
            },
        }
    }

    /// Whether the shift makes a formula stale that reads the reference: it
    /// moves or deletes a row that the reference runs through.
    pub fn dirties(&self, r: &Reference) -> (b: bool)
        ensures
            b == touches(self.lines(), row_extent(*r)),
    {
        let s: LineShift = self.line_shift();
        match r {
            Reference::Addr(a) => s.reaches(a.row),
            Reference::ColumnRange(_) => self.count != 0,
            Reference::RowRange(rr) => s.reaches(order(rr.start, rr.end).1),
            Reference::Range(a, b) => s.reaches(order(a.row, b.row).1),
        }
    }
}

impl ColShift {
    /// The shift along the axis of columns.
    pub open spec fn lines(self) -> LineShift {
        LineShift { start: self.start, count: self.count, insert: self.insert }
    }

    /// The shift along the axis of columns.
    pub fn line_shift(&self) -> (s: LineShift)
        ensures
            s == self.lines(),
    {
        LineShift { start: self.start, count: self.count, insert: self.insert }
    }

    /// Rewrites a reference into the sheet as it is after the shift.
    pub fn rewrite(&self, r: Reference) -> (res: Result<Reference, ErrorKind>)
        ensures
            res == cols_shifted(r, self.lines()),
    {
        let s: LineShift = self.line_shift();
        match r {
            Reference::Addr(a) => match s.shift_point(a.col) {
                Some(col) => Ok(Reference::Addr(Address { row: a.row, col })),
                None => Err(ErrorKind::Ref),
            },
            Reference::ColumnRange(cr) => match s.shift_interval(cr.start, cr.end) {
                Some(ends) => Ok(Reference::ColumnRange(ColRange { start: ends.0, end: ends.1 })),
                None => Err(ErrorKind::Ref),
            },
            Reference::RowRange(_) => Ok(r),
            Reference::Range(a, b) => match s.shift_interval(a.col, b.col) {
                Some(ends) => Ok(
                    Reference::Range(
                        Address { row: a.row, col: ends.0 },
                        Address { row: b.row, col: ends.1 },
                    ),
                ),
                None => Err(ErrorKind::Ref),
            },
        }
    }

    /// Whether the shift makes a formula stale that reads the reference: it
    /// moves or deletes a column that the reference runs through.
    pub fn dirties(&self, r: &Reference) -> (b: bool)
        ensures
            b == touches(self.lines(), col_extent(*r)),
    {
        let s: LineShift = self.line_shift();
        match r {
            Reference::Addr(a) => s.reaches(a.col),
            Reference::ColumnRange(cr) => s.reaches(order(cr.start, cr.end).1),
            Reference::RowRange(_) => self.count != 0,
            Reference::Range(a, b) => s.reaches(order(a.col, b.col).1),
        }
    }
}

/// The number of lines from `lo` to `hi` that a deletion takes out.
pub open spec fn deleted_within(s: LineShift, lo: int, hi: int) -> int {
    let first = if lo < s.start { s.start as int } else { lo };
    let last = if hi < s.start + s.count { hi } else { s.start + s.count - 1 };
    if !s.insert && first <= last {
        last - first + 1
    } else {
        0
    }
}

/// A reference with every row that it names moved down by `by`.
pub open spec fn rows_moved_by(r: Reference, by: usize) -> Reference {
    match r {
        Reference::Addr(a) => Reference::Addr(Address { row: (a.row + by) as usize, col: a.col }),
        Reference::ColumnRange(_) => r,
        Reference::RowRange(rr) => Reference::RowRange(
            RowRange { start: (rr.start + by) as usize, end: (rr.end + by) as usize },
        ),
        Reference::Range(a, b) => Reference::Range(
            Address { row: (a.row + by) as usize, col: a.col },
            Address { row: (b.row + by) as usize, col: b.col },
        ),
    }
}

/// A reference with every column that it names moved right by `by`.
pub open spec fn cols_moved_by(r: Reference, by: usize) -> Reference {
    match r {
        Reference::Addr(a) => Reference::Addr(Address { row: a.row, col: (a.col + by) as usize }),
        Reference::ColumnRange(cr) => Reference::ColumnRange(
            ColRange { start: (cr.start + by) as usize, end: (cr.end + by) as usize },
        ),
        Reference::RowRange(_) => r,
        Reference::Range(a, b) => Reference::Range(
            Address { row: a.row, col: (a.col + by) as usize },
            Address { row: b.row, col: (b.col + by) as usize },
        ),
    }
}

/// What a shift does to an extent: nothing to one that runs through every
/// line, and to one that is confined what it does to its lines.
pub open spec fn extent_shifted(s: LineShift, extent: Option<(usize, usize)>) -> Option<
    Option<(usize, usize)>,
> {
    match extent {
        None => Some(None),
        Some(e) => match s.span(e.0, e.1) {
            Some(ends) => Some(Some(ends)),
            None => None,
        },
    }
}

/// Whether line `j` of the sheet after the shift is a line of the run from
/// `lo` to `hi` that the shift did not delete.
pub open spec fn left_at(s: LineShift, lo: usize, hi: usize, j: int) -> bool {
    exists|i: int| lo <= i <= hi && !s.deletes(i) && #[trigger] s.moved(i) == j
}

/// A shift leaves the lines before it where they are.
pub proof fn lemma_span_untouched(s: LineShift, lo: usize, hi: usize)
    requires
        lo <= hi,
        s.leaves(hi as int),
    ensures
        s.span(lo, hi) == Some((lo, hi)),
        s.point(hi) == Some(hi),
{
}

/// Lines that lie wholly at or below an insertion move down by its count.
pub proof fn lemma_span_below_insertion(s: LineShift, lo: usize, hi: usize)
    requires
        s.insert,
        s.start <= lo <= hi,
        hi + s.count <= usize::MAX,
    ensures
        s.span(lo, hi) == Some(((lo + s.count) as usize, (hi + s.count) as usize)),
        s.point(lo) == Some((lo + s.count) as usize),
{
}

/// Of lines that lie wholly inside a deletion nothing is left.
pub proof fn lemma_span_inside_deletion(s: LineShift, lo: usize, hi: usize)
    requires
        !s.insert,
        s.start <= lo <= hi < s.start + s.count,
    ensures
        s.span(lo, hi) is None,
        s.point(lo) is None,
{
}

/// Lines that straddle a boundary of a deletion are clipped, not moved as
/// one: what is left is shorter by the number of lines deleted, and starts
/// where the lines did or where the deletion does, whichever comes first.
pub proof fn lemma_span_straddling_deletion(s: LineShift, lo: usize, hi: usize)
    requires
        !s.insert,
        lo <= hi,
        deleted_within(s, lo as int, hi as int) > 0,
        lo < s.start || hi >= s.start + s.count,
    ensures
        s.span(lo, hi) is Some,
        s.span(lo, hi).unwrap().0 == lower(lo, s.start),
        s.span(lo, hi).unwrap().1 - s.span(lo, hi).unwrap().0 == (hi - lo) - deleted_within(
            s,
            lo as int,
            hi as int,
        ),
        s.span(lo, hi).unwrap().1 - s.span(lo, hi).unwrap().0 < hi - lo,
{
}

/// What is left of a run of lines is a run. After a deletion it holds exactly
/// the lines of the run that were not deleted, each where the shift puts it;
/// after an insertion it holds every line of the run, from the first to the
/// last, and so the inserted lines between them as well.
pub proof fn lemma_span_holds_what_is_left(s: LineShift, lo: usize, hi: usize)
    requires
        lo <= hi,
    ensures
        s.span(lo, hi) matches Some(e) ==> {
            &&& e.0 <= e.1
            &&& forall|i: int| lo <= i <= hi && !s.deletes(i) ==> e.0 <= #[trigger] s.moved(i) <= e.1
            &&& !s.insert ==> forall|j: int| e.0 <= j <= e.1 <==> #[trigger] left_at(s, lo, hi, j)
            &&& s.insert ==> e.0 == s.moved(lo as int) && e.1 == s.moved(hi as int)
        },
        s.span(lo, hi) is None && !s.insert ==> forall|i: int| lo <= i <= hi ==> s.deletes(i),
{
    if let Some(e) = s.span(lo, hi) {
        if !s.insert {
            assert forall|j: int| e.0 <= j <= e.1 implies #[trigger] left_at(s, lo, hi, j) by {
                let i = if j < s.start { j } else { j + s.count };
                assert(lo <= i <= hi && !s.deletes(i) && s.moved(i) == j);
            }
        }
    }
}

/// A shift of rows acts on the rows of a reference and on nothing else: the
/// columns stay, and the rows are what the shift leaves of them. The
/// reference dangles exactly if nothing is left.
pub proof fn lemma_rows_shifted_by_extent(r: Reference, s: LineShift)
    ensures
        rows_shifted(r, s) is Ok <==> extent_shifted(s, row_extent(r)) is Some,
        rows_shifted(r, s) is Err ==> rows_shifted(r, s) == Err::<Reference, ErrorKind>(
            ErrorKind::Ref,
        ),
        rows_shifted(r, s) matches Ok(q) ==> {
            &&& Some(row_extent(q)) == extent_shifted(s, row_extent(r))
            &&& col_extent(q) == col_extent(r)
        },
{
    match r {
        Reference::RowRange(rr) => {
            lemma_span_holds_what_is_left(s, lower(rr.start, rr.end), upper(rr.start, rr.end));
        },
        Reference::Range(a, b) => {
            lemma_span_holds_what_is_left(s, lower(a.row, b.row), upper(a.row, b.row));
        },
        _ => {},
    }
}

/// A shift of columns acts on the columns of a reference and on nothing
/// else.
pub proof fn lemma_cols_shifted_by_extent(r: Reference, s: LineShift)
    ensures
        cols_shifted(r, s) is Ok <==> extent_shifted(s, col_extent(r)) is Some,
        cols_shifted(r, s) is Err ==> cols_shifted(r, s) == Err::<Reference, ErrorKind>(
            ErrorKind::Ref,
        ),
        cols_shifted(r, s) matches Ok(q) ==> {
            &&& Some(col_extent(q)) == extent_shifted(s, col_extent(r))
            &&& row_extent(q) == row_extent(r)
        },
{
    match r {
        Reference::ColumnRange(cr) => {
            lemma_span_holds_what_is_left(s, lower(cr.start, cr.end), upper(cr.start, cr.end));
        },
        Reference::Range(a, b) => {
            lemma_span_holds_what_is_left(s, lower(a.col, b.col), upper(a.col, b.col));
        },
        _ => {},
    }
}

/// A reference that a shift does not touch is rewritten to itself.
pub proof fn lemma_untouched_reference(r: Reference, s: LineShift)
    ensures
        !touches(s, row_extent(r)) ==> rows_shifted(r, s) == Ok::<Reference, ErrorKind>(r),
        !touches(s, col_extent(r)) ==> cols_shifted(r, s) == Ok::<Reference, ErrorKind>(r),
        row_extent(r) is None ==> rows_shifted(r, s) == Ok::<Reference, ErrorKind>(r),
        col_extent(r) is None ==> cols_shifted(r, s) == Ok::<Reference, ErrorKind>(r),
{
}

/// A reference that a shift touches along an axis on which it is confined
/// does not stay as it is.
pub proof fn lemma_touched_reference(r: Reference, s: LineShift)
    ensures
        row_extent(r) is Some && touches(s, row_extent(r)) ==> rows_shifted(r, s) != Ok::<
            Reference,
            ErrorKind,
        >(r),
        col_extent(r) is Some && touches(s, col_extent(r)) ==> cols_shifted(r, s) != Ok::<
            Reference,
            ErrorKind,
        >(r),
{
}

/// A reference that lies wholly at or below an insertion moves by its count,
/// as it is.
pub proof fn lemma_reference_below_insertion(r: Reference, s: LineShift)
    requires
        s.insert,
    ensures
        row_extent(r) matches Some(e) && s.start <= e.0 && e.1 + s.count <= usize::MAX
            ==> rows_shifted(r, s) == Ok::<Reference, ErrorKind>(rows_moved_by(r, s.count)),
        col_extent(r) matches Some(e) && s.start <= e.0 && e.1 + s.count <= usize::MAX
            ==> cols_shifted(r, s) == Ok::<Reference, ErrorKind>(cols_moved_by(r, s.count)),
{
}

/// A reference that lies wholly inside a deletion dangles.
pub proof fn lemma_reference_inside_deletion(r: Reference, s: LineShift)
    requires
        !s.insert,
    ensures
        row_extent(r) matches Some(e) && s.start <= e.0 && e.1 < s.start + s.count
            ==> rows_shifted(r, s) == Err::<Reference, ErrorKind>(ErrorKind::Ref),
        col_extent(r) matches Some(e) && s.start <= e.0 && e.1 < s.start + s.count
            ==> cols_shifted(r, s) == Err::<Reference, ErrorKind>(ErrorKind::Ref),
{
}

/// A reference that straddles a boundary of a deletion is clipped: it stays
/// a reference, of fewer lines by the number deleted.
pub proof fn lemma_reference_straddling_deletion(r: Reference, s: LineShift)
    requires
        !s.insert,
    ensures
        row_extent(r) is Some ==> {
            let e = row_extent(r).unwrap();
            deleted_within(s, e.0 as int, e.1 as int) > 0 && (e.0 < s.start || e.1 >= s.start
                + s.count) ==> {
                &&& rows_shifted(r, s) matches Ok(q)
                &&& row_extent(q) matches Some(f)
                &&& f.0 == lower(e.0, s.start)
                &&& f.1 - f.0 == (e.1 - e.0) - deleted_within(s, e.0 as int, e.1 as int)
                &&& col_extent(q) == col_extent(r)
            }
        },
        col_extent(r) is Some ==> {
            let e = col_extent(r).unwrap();
            deleted_within(s, e.0 as int, e.1 as int) > 0 && (e.0 < s.start || e.1 >= s.start
                + s.count) ==> {
                &&& cols_shifted(r, s) matches Ok(q)
                &&& col_extent(q) matches Some(f)
                &&& f.0 == lower(e.0, s.start)
                &&& f.1 - f.0 == (e.1 - e.0) - deleted_within(s, e.0 as int, e.1 as int)
                &&& row_extent(q) == row_extent(r)
            }
        },
{
    lemma_rows_shifted_by_extent(r, s);
    lemma_cols_shifted_by_extent(r, s);
}

} // verus!
