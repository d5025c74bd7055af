use crate::misc::cmp_to_offset;
use std::cmp::Ordering;
use vstd::prelude::*;

verus! {

/// How `a` compares with `b`.
pub open spec fn ordering_of(a: usize, b: usize) -> Ordering {
    if a < b {
        Ordering::Less
    } else if a == b {
        Ordering::Equal
    } else {
        Ordering::Greater
    }
}

fn compare(a: usize, b: usize) -> (ordering: Ordering)
    ensures
        ordering == ordering_of(a, b),
{
    if a < b {
        Ordering::Less
    } else if a == b {
        Ordering::Equal
    } else {
        Ordering::Greater
    }
}

/// Where the entry at (`row`, `col`) lands once row `row_to_delete` and column
/// `col_to_delete` are removed: entries before the removed line stay, entries
/// after it move back by one, entries on it have no place.
pub open spec fn submatrix_place(row: usize, col: usize, row_to_delete: usize, col_to_delete: usize) -> Option<(usize, usize)> {
    if row == row_to_delete || col == col_to_delete {
        None
    } else {
        Some((
            (if row > row_to_delete { row - 1 } else { row as int }) as usize,
            (if col > col_to_delete { col - 1 } else { col as int }) as usize,
        ))
    }
}

/// Computes the place of an entry in the matrix that is left when one row and
/// one column are removed.
pub fn submatrix_index(row: usize, col: usize, row_to_delete: usize, col_to_delete: usize) -> (place: Option<(usize, usize)>)
    ensures
        place == submatrix_place(row, col, row_to_delete, col_to_delete),
{
    match cmp_to_offset(compare(row, row_to_delete), compare(col, col_to_delete)) {
        Some((offset_row, offset_col)) => {
            let actual_row = if offset_row < 0 { row - 1 } else { row };
            let actual_col = if offset_col < 0 { col - 1 } else { col };
            Some((actual_row, actual_col))
        },
        None => None,
    }
}

/// The sign that turns the minor at (`row`, `col`) into the cofactor: plus
/// where `row + col` is even, minus where it is odd.
pub open spec fn sign_of(row: usize, col: usize) -> i32 {
    if (row + col) % 2 == 0 {
        1i32
    } else {
        -1i32
    }
}

/// Computes the sign of the cofactor at (`row`, `col`).
pub fn cofactor_sign(row: usize, col: usize) -> (sign: i32)
    ensures
        sign == sign_of(row, col),
        sign == 1 || sign == -1,
{
    let row_sign: i32 = if row % 2 == 0 { 1 } else { -1 };
    let col_sign: i32 = if col % 2 == 0 { 1 } else { -1 };
    row_sign * col_sign
}

} // verus!
