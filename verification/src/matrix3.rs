use crate::matrix::{submatrix_index, submatrix_place};
use crate::matrix2::Matrix2;
use vstd::prelude::*;

verus! {

/// A square table of three rows and three columns.
#[derive(Clone, Copy, Debug, PartialEq)]
pub struct Matrix3<T> {
    pub rows: [[T; 3]; 3],
}

impl<T: Copy> Matrix3<T> {
    /// The entry at (`row`, `col`).
    pub open spec fn at(self, row: int, col: int) -> T {
        self.rows[row][col]
    }

    /// Builds a matrix from its rows.
    pub fn from_rows(rows: [[T; 3]; 3]) -> (m: Self)
        ensures
            m.rows == rows,
    {
        Self { rows }
    }

    /// A matrix whose every entry is `zero`.
    pub fn zeroes(zero: T) -> (m: Self)
        ensures
            forall|r: int, c: int| 0 <= r < 3 && 0 <= c < 3 ==> m.at(r, c) == zero,
    {
        Self { rows: [[zero; 3]; 3] }
    }

    /// Reads the entry at (`row`, `col`).
    pub fn get(&self, row: usize, col: usize) -> (entry: T)
        requires
            row < 3,
            col < 3,
        ensures
            entry == self.at(row as int, col as int),
    {
        self.rows[row][col]
    }

    /// Writes the entry at (`row`, `col`) and leaves every other entry as it
    /// was.
    pub fn set(&mut self, row: usize, col: usize, entry: T)
        requires
            row < 3,
            col < 3,
        ensures
            final(self).at(row as int, col as int) == entry,
            forall|r: int, c: int|
                0 <= r < 3 && 0 <= c < 3 && (r != row || c != col) ==> final(self).at(r, c) == old(
                    self,
                ).at(r, c),
    {
        self.rows[row][col] = entry;
    }

    /// The matrix with `one` on the diagonal and `zero` elsewhere.
    pub fn identity(zero: T, one: T) -> (m: Self)
        ensures
            forall|r: int, c: int|
                0 <= r < 3 && 0 <= c < 3 ==> m.at(r, c) == (if r == c {
                    one
                } else {
                    zero
                }),
    {
        let mut result = Self::zeroes(zero);
        let mut index: usize = 0;
        while index < 3
            invariant
                0 <= index <= 3,
                forall|r: int, c: int|
                    0 <= r < 3 && 0 <= c < 3 ==> result.at(r, c) == (if r == c && r < index {
                        one
                    } else {
                        zero
                    }),
            decreases 3 - index,
        {
            result.set(index, index, one);
            index = index + 1;
        }
        result
    }

    /// Whether `self` is `other` mirrored at its diagonal.
    pub open spec fn is_transpose_of(self, other: Self) -> bool {
        forall|r: int, c: int| 0 <= r < 3 && 0 <= c < 3 ==> self.at(c, r) == other.at(r, c)
    }

    /// Whether the two matrices agree in every entry.
    pub open spec fn same_entries(self, other: Self) -> bool {
        forall|r: int, c: int| 0 <= r < 3 && 0 <= c < 3 ==> self.at(r, c) == other.at(r, c)
    }

    /// Mirroring a matrix twice gives back its entries.
    pub proof fn lemma_transpose_involution(self, once: Self, twice: Self)
        requires
            once.is_transpose_of(self),
            twice.is_transpose_of(once),
        ensures
            twice.same_entries(self),
    {
    }

    /// The matrix mirrored at its diagonal: rows become columns.
    pub fn transpose(&self) -> (m: Self)
        ensures
            m.is_transpose_of(*self),
    {
        let mut result = *self;
        let mut row: usize = 0;
        while row < 3
            invariant
                0 <= row <= 3,
                forall|r: int, c: int| 0 <= r < row && 0 <= c < 3 ==> result.at(c, r) == self.at(r, c),
            decreases 3 - row,
        {
            let mut col: usize = 0;
            while col < 3
                invariant
                    0 <= row < 3,
                    0 <= col <= 3,
                    forall|r: int, c: int|
                        0 <= r < row && 0 <= c < 3 ==> result.at(c, r) == self.at(r, c),
                    forall|c: int| 0 <= c < col ==> result.at(c, row as int) == self.at(row as int, c),
                decreases 3 - col,
            {
                result.set(col, row, self.get(row, col));
                col = col + 1;
            }
            row = row + 1;
        }
        result
    }

    /// The matrix that is left when row `row_to_delete` and column
    /// `col_to_delete` are removed; the entries keep their order.
    pub fn submatrix(&self, row_to_delete: usize, col_to_delete: usize) -> (m: Matrix2<T>)
        requires
            row_to_delete < 3,
            col_to_delete < 3,
        ensures
            forall|r: int, c: int|
                0 <= r < 2 && 0 <= c < 2 ==> m.at(r, c) == self.at(
                    if r < row_to_delete {
                        r
                    } else {
                        r + 1
                    },
                    if c < col_to_delete {
                        c
                    } else {
                        c + 1
                    },
                ),
    {
        let mut result = Matrix2::zeroes(self.get(0, 0));
        let mut row: usize = 0;
        while row < 3
            invariant
                0 <= row <= 3,
                row_to_delete < 3,
                col_to_delete < 3,
                forall|r: usize, c: usize|
                    r < row && c < 3 ==> (#[trigger] submatrix_place(r, c, row_to_delete, col_to_delete) matches Some(
                        (i, j),
                    ) ==> result.at(i as int, j as int) == self.at(r as int, c as int)),
            decreases 3 - row,
        {
            let mut col: usize = 0;
            while col < 3
                invariant
                    0 <= row < 3,
                    0 <= col <= 3,
                    row_to_delete < 3,
                    col_to_delete < 3,
                    forall|r: usize, c: usize|
                        (r < row && c < 3) || (r == row && c < col) ==> (#[trigger] submatrix_place(
                            r,
                            c,
                            row_to_delete,
                            col_to_delete,
                        ) matches Some((i, j)) ==> result.at(i as int, j as int) == self.at(
                            r as int,
                            c as int,
                        )),
                decreases 3 - col,
            {
                if let Some((actual_row, actual_col)) = submatrix_index(row, col, row_to_delete, col_to_delete) {
                    result.set(actual_row, actual_col, self.get(row, col));
                }
                col = col + 1;
            }
            row = row + 1;
        }
        proof {
            assert forall|r: int, c: int| 0 <= r < 2 && 0 <= c < 2 implies result.at(r, c) == self.at(
                if r < row_to_delete {
                    r
                } else {
                    r + 1
                },
                if c < col_to_delete {
                    c
                } else {
                    c + 1
                },
            ) by {
                let sr: usize = (if r < row_to_delete { r } else { r + 1 }) as usize;
                let sc: usize = (if c < col_to_delete { c } else { c + 1 }) as usize;
                assert(submatrix_place(sr, sc, row_to_delete, col_to_delete) == Some((r as usize, c as usize)));
            }
        }
        result
    }
}

} // verus!
