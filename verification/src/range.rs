//! The bounding algebra of references.

use vstd::prelude::*;
use crate::calc_vertex::{Address, CalcReference, CalcVertex, ColRange, Reference, RowRange};
use crate::error::ErrorKind;

verus! {

/// The smaller of two indices.
pub open spec fn lower(a: usize, b: usize) -> usize {
    if a <= b { a } else { b }
}

/// The larger of two indices.
pub open spec fn upper(a: usize, b: usize) -> usize {
    if a <= b { b } else { a }
}

/// A pair of ends put in order.
pub open spec fn ordered(p: (usize, usize)) -> (usize, usize) {
    (lower(p.0, p.1), upper(p.0, p.1))
}

/// The smallest interval that holds both intervals, whose ends come in either
/// order.
pub open spec fn hull(l: (usize, usize), r: (usize, usize)) -> (usize, usize) {
    (lower(ordered(l).0, ordered(r).0), upper(ordered(l).1, ordered(r).1))
}

/// The rows that a reference is confined to, in order; `None` where it runs
/// through every row.
pub open spec fn row_extent(r: Reference) -> Option<(usize, usize)> {
    match r {
        Reference::Addr(a) => Some((a.row, a.row)),
        Reference::ColumnRange(_) => None,
        Reference::RowRange(rr) => Some(ordered((rr.start, rr.end))),
        Reference::Range(s, e) => Some(ordered((s.row, e.row))),
    }
}

/// The columns that a reference is confined to, in order; `None` where it
/// runs through every column.
pub open spec fn col_extent(r: Reference) -> Option<(usize, usize)> {
    match r {
        Reference::Addr(a) => Some((a.col, a.col)),
        Reference::ColumnRange(cr) => Some(ordered((cr.start, cr.end))),
        Reference::RowRange(_) => None,
        Reference::Range(s, e) => Some(ordered((s.col, e.col))),
    }
}

/// Whether an index lies within an extent.
pub open spec fn within(extent: Option<(usize, usize)>, i: int) -> bool {
    match extent {
        Some(e) => e.0 <= i <= e.1,
        None => true,
    }
}

/// Whether the cell at `row` and `col` is one of those that `r` describes.
pub open spec fn covers(r: Reference, row: int, col: int) -> bool {
    within(row_extent(r), row) && within(col_extent(r), col)
}

/// The reference with its corners or ends put in order along each axis.
pub open spec fn normalized(r: Reference) -> Reference {
    match r {
        Reference::Addr(a) => r,
        Reference::ColumnRange(cr) => Reference::ColumnRange(
            ColRange { start: lower(cr.start, cr.end), end: upper(cr.start, cr.end) },
        ),
        Reference::RowRange(rr) => Reference::RowRange(
            RowRange { start: lower(rr.start, rr.end), end: upper(rr.start, rr.end) },
        ),
        Reference::Range(s, e) => Reference::Range(
            Address { row: lower(s.row, e.row), col: lower(s.col, e.col) },
            Address { row: upper(s.row, e.row), col: upper(s.col, e.col) },
        ),
    }
}

/// The extent that holds two extents along one axis: their hull where both
/// are confined, every index where either is not.
pub open spec fn join(l: Option<(usize, usize)>, r: Option<(usize, usize)>) -> Option<
    (usize, usize),
> {
    match (l, r) {
        (Some(a), Some(b)) => Some(hull(a, b)),
        _ => None,
    }
}

/// The reference with the given extents: a rectangle, a band of columns or a
/// band of rows. Nothing describes the whole sheet.
pub open spec fn shape_of(rows: Option<(usize, usize)>, cols: Option<(usize, usize)>) -> Option<
    Reference,
> {
    match (rows, cols) {
        (Some(r), Some(c)) => Some(
            Reference::Range(Address { row: r.0, col: c.0 }, Address { row: r.1, col: c.1 }),
        ),
        (None, Some(c)) => Some(Reference::ColumnRange(ColRange { start: c.0, end: c.1 })),
        (Some(r), None) => Some(Reference::RowRange(RowRange { start: r.0, end: r.1 })),
        (None, None) => None,
    }
}

/// The bounding reference of two references of one sheet. Two points span a
/// rectangle whose corners are the points as given, in their order. Any other
/// pair is bounded along each axis on its own; a band of columns and a band
/// of rows have no bound.
pub open spec fn bounding_reference(l: Reference, r: Reference) -> Option<Reference> {
    match (l, r) {
        (Reference::Addr(la), Reference::Addr(ra)) => Some(Reference::Range(la, ra)),
        _ => shape_of(join(row_extent(l), row_extent(r)), join(col_extent(l), col_extent(r))),
    }
}

/// The bounding reference of two operands: an error of kind `Value` unless
/// both are references of one sheet that have a bound.
pub open spec fn bounding_vertex(lhs: CalcVertex, rhs: CalcVertex) -> CalcVertex {
    match (lhs, rhs) {
        (CalcVertex::Reference(l), CalcVertex::Reference(r)) => {
            if l.sheet != r.sheet {
                CalcVertex::error(ErrorKind::Value)
            } else {
                match bounding_reference(l.reference, r.reference) {
                    Some(b) => CalcVertex::Reference(
                        CalcReference { from_sheet: None, sheet: l.sheet, reference: b },
                    ),
                    None => CalcVertex::error(ErrorKind::Value),
                }
            }
        },
        _ => CalcVertex::error(ErrorKind::Value),
    }
}

/// The bounding reference of two operands. Both must be references of the
/// same sheet; the result names that sheet and no starting sheet.
pub fn get_range(lhs: CalcVertex, rhs: CalcVertex) -> (res: CalcVertex)
    ensures
        res == bounding_vertex(lhs, rhs),
        !(lhs is Reference && rhs is Reference) ==> res == CalcVertex::error(ErrorKind::Value),
        lhs is Reference && rhs is Reference && lhs->Reference_0.sheet != rhs->Reference_0.sheet
            ==> res == CalcVertex::error(ErrorKind::Value),
{
    match (lhs, rhs) {
        (CalcVertex::Reference(lhs_ref), CalcVertex::Reference(rhs_ref)) => {
            let lhs_prefix: u16 = lhs_ref.sheet;
            let rhs_prefix: u16 = rhs_ref.sheet;
            if lhs_prefix != rhs_prefix {
                return CalcVertex::from_error(ErrorKind::Value);
            }
            let result = get_range_without_prefix(lhs_ref.reference, rhs_ref.reference);
            match result {
                Some(r) => CalcVertex::Reference(
                    CalcReference { from_sheet: None, sheet: lhs_prefix, reference: r },
                ),
                None => CalcVertex::from_error(ErrorKind::Value),
            }
        },
        _ => CalcVertex::from_error(ErrorKind::Value),
    }
}

/// The bounding reference of two references of one sheet, by the shapes of
/// the two.
pub fn get_range_without_prefix(l_ref: Reference, r_ref: Reference) -> (res: Option<Reference>)
    ensures
        res == bounding_reference(l_ref, r_ref),
{
    match (l_ref, r_ref) {
        (Reference::Addr(la), Reference::Addr(ra)) => get_range_of_addresses(la, ra),
        (Reference::Addr(addr), Reference::ColumnRange(cr)) => {
            get_range_of_addr_and_col_range(addr, cr)
        },
        (Reference::Addr(addr), Reference::RowRange(rr)) => {
            get_range_of_addr_and_row_range(addr, rr)
        },
        (Reference::Addr(addr), Reference::Range(start, end)) => {
            get_range_of_addr_and_range(addr, start, end)
        },
        (Reference::ColumnRange(cr), Reference::Addr(addr)) => {
            get_range_of_addr_and_col_range(addr, cr)
        },
        (Reference::ColumnRange(lcr), Reference::ColumnRange(rcr)) => {
            get_range_of_col_ranges(lcr, rcr)
        },
        (Reference::ColumnRange(cr), Reference::RowRange(rr)) => {
            get_range_of_col_range_and_row_range(cr, rr)
        },
        (Reference::ColumnRange(cr), Reference::Range(start, end)) => {
            get_range_of_range_and_col_range(start, end, cr)
        },
        (Reference::RowRange(rr), Reference::Addr(addr)) => {
            get_range_of_addr_and_row_range(addr, rr)
        },
        (Reference::RowRange(rr), Reference::ColumnRange(cr)) => {
            get_range_of_col_range_and_row_range(cr, rr)
        },
        (Reference::RowRange(lrr), Reference::RowRange(rrr)) => get_range_of_row_ranges(lrr, rrr),
        (Reference::RowRange(rr), Reference::Range(start, end)) => {
            get_range_of_range_and_row_range(start, end, rr)
        },
        (Reference::Range(start, end), Reference::Addr(addr)) => {
            get_range_of_addr_and_range(addr, start, end)
        },
        (Reference::Range(start, end), Reference::ColumnRange(cr)) => {
            get_range_of_range_and_col_range(start, end, cr)
        },
        (Reference::Range(start, end), Reference::RowRange(rr)) => {
            get_range_of_range_and_row_range(start, end, rr)
        },
        (Reference::Range(left_start, left_end), Reference::Range(right_start, right_end)) => {
            get_range_of_ranges(left_start, left_end, right_start, right_end)
        },
    }
}

/// Two points: the rectangle whose corners are the points as given.
pub fn get_range_of_addresses(la: Address, ra: Address) -> (res: Option<Reference>)
    ensures
        res == Some(Reference::Range(la, ra)),
        res == bounding_reference(Reference::Addr(la), Reference::Addr(ra)),
{
    Some(Reference::Range(la, ra))
}

/// Two rectangles: the rectangle that holds both.
pub fn get_range_of_ranges(
    lr_start: Address,
    lr_end: Address,
    rr_start: Address,
    rr_end: Address,
) -> (res: Option<Reference>)
    ensures
        res == bounding_reference(
            Reference::Range(lr_start, lr_end),
            Reference::Range(rr_start, rr_end),
        ),
{
    let cols: (usize, usize) = get_range_of_intervals(
        (lr_start.col, lr_end.col),
        (rr_start.col, rr_end.col),
    );
    let rows: (usize, usize) = get_range_of_intervals(
        (lr_start.row, lr_end.row),
        (rr_start.row, rr_end.row),
    );
    Some(
        Reference::Range(
            Address { col: cols.0, row: rows.0 },
            Address { col: cols.1, row: rows.1 },
        ),
    )
}

/// Two bands of columns: the band that holds both.
pub fn get_range_of_col_ranges(lcr: ColRange, rcr: ColRange) -> (res: Option<Reference>)
    ensures
        res == bounding_reference(Reference::ColumnRange(lcr), Reference::ColumnRange(rcr)),
{
    let ends: (usize, usize) = get_range_of_intervals((lcr.start, lcr.end), (rcr.start, rcr.end));
    Some(Reference::ColumnRange(ColRange { start: ends.0, end: ends.1 }))
}

/// Two bands of rows: the band that holds both.
pub fn get_range_of_row_ranges(lrr: RowRange, rrr: RowRange) -> (res: Option<Reference>)
    ensures
        res == bounding_reference(Reference::RowRange(lrr), Reference::RowRange(rrr)),
{
    let ends: (usize, usize) = get_range_of_intervals((lrr.start, lrr.end), (rrr.start, rrr.end));
    Some(Reference::RowRange(RowRange { start: ends.0, end: ends.1 }))
}

/// A point and a rectangle: the rectangle that holds both.
pub fn get_range_of_addr_and_range(
    addr: Address,
    range_start: Address,
    range_end: Address,
) -> (res: Option<Reference>)
    ensures
        res == bounding_reference(Reference::Addr(addr), Reference::Range(range_start, range_end)),
        res == bounding_reference(Reference::Range(range_start, range_end), Reference::Addr(addr)),
{
    let cols: (usize, usize) = get_range_of_point_and_interval(
        addr.col,
        (range_start.col, range_end.col),
    );
    let rows: (usize, usize) = get_range_of_point_and_interval(
        addr.row,
        (range_start.row, range_end.row),
    );
    Some(
        Reference::Range(
            Address { col: cols.0, row: rows.0 },
            Address { col: cols.1, row: rows.1 },
        ),
    )
}

/// A point and a band of columns: the band widened to the point's column.
pub fn get_range_of_addr_and_col_range(addr: Address, cr: ColRange) -> (res: Option<Reference>)
    ensures
        res == bounding_reference(Reference::Addr(addr), Reference::ColumnRange(cr)),
        res == bounding_reference(Reference::ColumnRange(cr), Reference::Addr(addr)),
{
    let ends: (usize, usize) = get_range_of_point_and_interval(addr.col, (cr.start, cr.end));
    Some(Reference::ColumnRange(ColRange { start: ends.0, end: ends.1 }))
}

/// A point and a band of rows: the band widened to the point's row.
pub fn get_range_of_addr_and_row_range(addr: Address, rr: RowRange) -> (res: Option<Reference>)
    ensures
        res == bounding_reference(Reference::Addr(addr), Reference::RowRange(rr)),
        res == bounding_reference(Reference::RowRange(rr), Reference::Addr(addr)),
{
    let ends: (usize, usize) = get_range_of_point_and_interval(addr.row, (rr.start, rr.end));
    Some(Reference::RowRange(RowRange { start: ends.0, end: ends.1 }))
}

/// A rectangle and a band of columns: the band widened to the rectangle's
/// columns.
pub fn get_range_of_range_and_col_range(
    range_start: Address,
    range_end: Address,
    cr: ColRange,
) -> (res: Option<Reference>)
    ensures
        res == bounding_reference(
            Reference::Range(range_start, range_end),
            Reference::ColumnRange(cr),
        ),
        res == bounding_reference(
            Reference::ColumnRange(cr),
            Reference::Range(range_start, range_end),
        ),
{
    let ends: (usize, usize) = get_range_of_intervals(
        (range_start.col, range_end.col),
        (cr.start, cr.end),
    );
    Some(Reference::ColumnRange(ColRange { start: ends.0, end: ends.1 }))
}

/// A rectangle and a band of rows: the band widened to the rectangle's rows.
pub fn get_range_of_range_and_row_range(
    range_start: Address,
    range_end: Address,
    rr: RowRange,
) -> (res: Option<Reference>)
    ensures
        res == bounding_reference(
            Reference::Range(range_start, range_end),
            Reference::RowRange(rr),
        ),
        res == bounding_reference(
            Reference::RowRange(rr),
            Reference::Range(range_start, range_end),
        ),
{
    let ends: (usize, usize) = get_range_of_intervals(
        (range_start.row, range_end.row),
        (rr.start, rr.end),
    );
    Some(Reference::RowRange(RowRange { start: ends.0, end: ends.1 }))
}

/// A band of columns and a band of rows: no reference bounds the two.
pub fn get_range_of_col_range_and_row_range(cr: ColRange, rr: RowRange) -> (res: Option<Reference>)
    ensures
        res is None,
        res == bounding_reference(Reference::ColumnRange(cr), Reference::RowRange(rr)),
        res == bounding_reference(Reference::RowRange(rr), Reference::ColumnRange(cr)),
{
    None
}

/// Puts two indices in order.
pub fn order(l: usize, r: usize) -> (res: (usize, usize))
    ensures
        res == ordered((l, r)),
{
    if l < r {
        (l, r)
    } else {
        (r, l)
    }
}

/// The smallest interval that holds two intervals.
pub fn get_range_of_intervals(
    l_interval: (usize, usize),
    r_interval: (usize, usize),
) -> (res: (usize, usize))
    ensures
        res == hull(l_interval, r_interval),
{
    let l_ordered: (usize, usize) = order(l_interval.0, l_interval.1);
    let r_ordered: (usize, usize) = order(r_interval.0, r_interval.1);
    (order(l_ordered.0, r_ordered.0).0, order(l_ordered.1, r_ordered.1).1)
}

/// The smallest interval that holds a point and an interval.
pub fn get_range_of_point_and_interval(p: usize, interval: (usize, usize)) -> (res: (usize, usize))
    ensures
        res == hull((p, p), interval),
{
    let ordered: (usize, usize) = order(interval.0, interval.1);
    (order(p, ordered.0).0, order(p, ordered.1).1)
}

/// The bound of two references holds every cell of either.
pub proof fn lemma_bound_covers_both(l: Reference, r: Reference, row: int, col: int)
    requires
        covers(l, row, col) || covers(r, row, col),
    ensures
        bounding_reference(l, r) matches Some(b) ==> covers(b, row, col),
{
}

/// The bound is tight: along an axis on which both references are confined,
/// each end of the bound is an end of one of the two.
pub proof fn lemma_bound_is_tight(l: Reference, r: Reference)
    ensures
        bounding_reference(l, r) matches Some(b) ==> {
            &&& row_extent(b) == join(row_extent(l), row_extent(r))
            &&& col_extent(b) == join(col_extent(l), col_extent(r))
        },
        bounding_reference(l, r) is None <==> (l is ColumnRange && r is RowRange) || (l is RowRange
            && r is ColumnRange),
{
}

/// The algebra is symmetric: the two orders of the operands give bounds of
/// the same extents, and the same reference unless both operands are points,
/// where the corners swap with the operands.
pub proof fn lemma_bound_symmetric(l: Reference, r: Reference)
    ensures
        bounding_reference(l, r) is Some <==> bounding_reference(r, l) is Some,
        bounding_reference(l, r) matches Some(b) ==> {
            &&& row_extent(b) == row_extent(bounding_reference(r, l).unwrap())
            &&& col_extent(b) == col_extent(bounding_reference(r, l).unwrap())
        },
        !(l is Addr && r is Addr) ==> bounding_reference(l, r) == bounding_reference(r, l),
        l is Addr && r is Addr ==> {
            &&& bounding_reference(l, r) == Some(Reference::Range(l->Addr_0, r->Addr_0))
            &&& bounding_reference(r, l) == Some(Reference::Range(r->Addr_0, l->Addr_0))
        },
{
}

/// The bound of a reference with itself is the reference with its ends put in
/// order; a point becomes the rectangle of that one cell. Either way it
/// describes the same cells.
pub proof fn lemma_bound_with_itself(r: Reference)
    ensures
        bounding_reference(r, r) is Some,
        r !is Addr ==> bounding_reference(r, r) == Some(normalized(r)),
        r matches Reference::Addr(a) ==> bounding_reference(r, r) == Some(Reference::Range(a, a)),
        row_extent(bounding_reference(r, r).unwrap()) == row_extent(r),
        col_extent(bounding_reference(r, r).unwrap()) == col_extent(r),
        forall|row: int, col: int|
            covers(bounding_reference(r, r).unwrap(), row, col) <==> covers(r, row, col),
{
}

/// Putting the ends of a reference in order changes none of its cells, and
/// doing it twice changes nothing more.
pub proof fn lemma_normalized(r: Reference)
    ensures
        row_extent(normalized(r)) == row_extent(r),
        col_extent(normalized(r)) == col_extent(r),
        normalized(normalized(r)) == normalized(r),
{
}

/// References of different sheets have no bound, whatever they describe.
pub proof fn lemma_sheets_must_match(l: CalcReference, r: CalcReference)
    requires
        l.sheet != r.sheet,
    ensures
        bounding_vertex(CalcVertex::Reference(l), CalcVertex::Reference(r)) == CalcVertex::error(
            ErrorKind::Value,
        ),
{
}

/// An operand that is no reference has no bound with anything.
pub proof fn lemma_operands_must_be_references(lhs: CalcVertex, rhs: CalcVertex)
    requires
        lhs is Value || rhs is Value,
    ensures
        bounding_vertex(lhs, rhs) == CalcVertex::error(ErrorKind::Value),
{
}

} // verus!
