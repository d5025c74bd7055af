use std::cmp::Ordering;
use vstd::prelude::*;

verus! {

/// Where an entry of a matrix lands once one row and one column are deleted:
/// the shift to apply to its row and to its column, or `None` when the entry
/// sits on the deleted row or column and so disappears.
pub open spec fn offset_of(ordering_row: Ordering, ordering_col: Ordering) -> Option<(i32, i32)> {
    match (ordering_row, ordering_col) {
        (Ordering::Equal, _) => None,
        (_, Ordering::Equal) => None,
        (Ordering::Greater, Ordering::Greater) => Some((-1i32, -1i32)),
        (Ordering::Less, Ordering::Greater) => Some((0i32, -1i32)),
        (Ordering::Greater, Ordering::Less) => Some((-1i32, 0i32)),
        (Ordering::Less, Ordering::Less) => Some((0i32, 0i32)),
    }
}

/// Shift of an entry's row and column when a row and a column are removed.
///
/// `ordering_row` compares the entry's row with the deleted row, and
/// `ordering_col` does the same for columns. Entries past the deleted line
/// move back by one; entries on it are dropped.
pub fn cmp_to_offset(ordering_row: Ordering, ordering_col: Ordering) -> (result: Option<(i32, i32)>)
    ensures
        result == offset_of(ordering_row, ordering_col),
        result.is_none() <==> (ordering_row == Ordering::Equal || ordering_col == Ordering::Equal),
        result matches Some((dr, dc)) ==> {
            &&& dr == (if ordering_row == Ordering::Greater { -1i32 } else { 0i32 })
            &&& dc == (if ordering_col == Ordering::Greater { -1i32 } else { 0i32 })
        },
{
    match (ordering_row, ordering_col) {
        (Ordering::Equal, _) => None,
        (_, Ordering::Equal) => None,
        (Ordering::Greater, Ordering::Greater) => Some((-1, -1)),
        (Ordering::Less, Ordering::Greater) => Some((0, -1)),
        (Ordering::Greater, Ordering::Less) => Some((-1, 0)),
        (Ordering::Less, Ordering::Less) => Some((0, 0)),
    }
}

} // verus!
