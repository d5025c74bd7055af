use crate::matrix::{submatrix_index, submatrix_place};
use crate::matrix3::Matrix3;
use crate::scalar::{ONE, ZERO};
use vstd::prelude::*;

verus! {

/// A square table of four rows and four columns.
#[derive(Clone, Copy, Debug, PartialEq)]
pub struct Matrix4<T> {
    pub rows: [[T; 4]; 4],
}

impl<T: Copy> Matrix4<T> {
    /// The entry at (`row`, `col`).
    pub open spec fn at(self, row: int, col: int) -> T {
        self.rows[row][col]
    }

    /// Builds a matrix from its rows.
    pub fn from_rows(rows: [[T; 4]; 4]) -> (m: Self)
        ensures
            m.rows == rows,
    {
        Self { rows }
    }

    /// A matrix whose every entry is `zero`.
    pub fn zeroes(zero: T) -> (m: Self)
        ensures
            forall|r: int, c: int| 0 <= r < 4 && 0 <= c < 4 ==> m.at(r, c) == zero,
    {
        Self { rows: [[zero; 4]; 4] }
    }

    /// Reads the entry at (`row`, `col`).
    pub fn get(&self, row: usize, col: usize) -> (entry: T)
        requires
            row < 4,
            col < 4,
        ensures
            entry == self.at(row as int, col as int),
    {
        self.rows[row][col]
    }

    /// Writes the entry at (`row`, `col`) and leaves every other entry as it
    /// was.
    pub fn set(&mut self, row: usize, col: usize, entry: T)
        requires
            row < 4,
            col < 4,
        ensures
            final(self).at(row as int, col as int) == entry,
            forall|r: int, c: int|
                0 <= r < 4 && 0 <= c < 4 && (r != row || c != col) ==> final(self).at(r, c) == old(
                    self,
                ).at(r, c),
    {
        self.rows[row][col] = entry;
    }

    /// The matrix with `one` on the diagonal and `zero` elsewhere.
    pub fn identity(zero: T, one: T) -> (m: Self)
        ensures
            forall|r: int, c: int|
                0 <= r < 4 && 0 <= c < 4 ==> m.at(r, c) == (if r == c {
                    one
                } else {
                    zero
                }),
    {
        let mut result = Self::zeroes(zero);
        let mut index: usize = 0;
        while index < 4
            invariant
                0 <= index <= 4,
                forall|r: int, c: int|
                    0 <= r < 4 && 0 <= c < 4 ==> result.at(r, c) == (if r == c && r < index {
                        one
                    } else {
                        zero
                    }),
            decreases 4 - index,
        {
            result.set(index, index, one);
            index = index + 1;
        }
        result
    }

    /// Whether `self` is `other` mirrored at its diagonal.
    pub open spec fn is_transpose_of(self, other: Self) -> bool {
        forall|r: int, c: int| 0 <= r < 4 && 0 <= c < 4 ==> self.at(c, r) == other.at(r, c)
    }

    /// Whether the two matrices agree in every entry.
    pub open spec fn same_entries(self, other: Self) -> bool {
        forall|r: int, c: int| 0 <= r < 4 && 0 <= c < 4 ==> self.at(r, c) == other.at(r, c)
    }

    /// Mirroring a matrix twice gives back its entries.
    pub proof fn lemma_transpose_involution(self, once: Self, twice: Self)
        requires
            once.is_transpose_of(self),
            twice.is_transpose_of(once),
        ensures
            twice.same_entries(self),
    {
    }

    /// The matrix mirrored at its diagonal: rows become columns.
    pub fn transpose(&self) -> (m: Self)
        ensures
            m.is_transpose_of(*self),
    {
        let mut result = *self;
        let mut row: usize = 0;
        while row < 4
            invariant
                0 <= row <= 4,
                forall|r: int, c: int| 0 <= r < row && 0 <= c < 4 ==> result.at(c, r) == self.at(r, c),
            decreases 4 - row,
        {
            let mut col: usize = 0;
            while col < 4
                invariant
                    0 <= row < 4,
                    0 <= col <= 4,
                    forall|r: int, c: int|
                        0 <= r < row && 0 <= c < 4 ==> result.at(c, r) == self.at(r, c),
                    forall|c: int| 0 <= c < col ==> result.at(c, row as int) == self.at(row as int, c),
                decreases 4 - col,
            {
                result.set(col, row, self.get(row, col));
                col = col + 1;
            }
            row = row + 1;
        }
        result
    }

    /// The matrix that is left when row `row_to_delete` and column
    /// `col_to_delete` are removed; the entries keep their order.
    pub fn submatrix(&self, row_to_delete: usize, col_to_delete: usize) -> (m: Matrix3<T>)
        requires
            row_to_delete < 4,
            col_to_delete < 4,
        ensures
            forall|r: int, c: int|
                0 <= r < 3 && 0 <= c < 3 ==> m.at(r, c) == self.at(
                    if r < row_to_delete {
                        r
                    } else {
                        r + 1
                    },
                    if c < col_to_delete {
                        c
                    } else {
                        c + 1
                    },
                ),
    {
        let mut result = Matrix3::zeroes(self.get(0, 0));
        let mut row: usize = 0;
        while row < 4
            invariant
                0 <= row <= 4,
                row_to_delete < 4,
                col_to_delete < 4,
                forall|r: usize, c: usize|
                    r < row && c < 4 ==> (#[trigger] submatrix_place(r, c, row_to_delete, col_to_delete) matches Some(
                        (i, j),
                    ) ==> result.at(i as int, j as int) == self.at(r as int, c as int)),
            decreases 4 - row,
        {
            let mut col: usize = 0;
            while col < 4
                invariant
                    0 <= row < 4,
                    0 <= col <= 4,
                    row_to_delete < 4,
                    col_to_delete < 4,
                    forall|r: usize, c: usize|
                        (r < row && c < 4) || (r == row && c < col) ==> (#[trigger] submatrix_place(
                            r,
                            c,
                            row_to_delete,
                            col_to_delete,
                        ) matches Some((i, j)) ==> result.at(i as int, j as int) == self.at(
                            r as int,
                            c as int,
                        )),
                decreases 4 - col,
            {
                if let Some((actual_row, actual_col)) = submatrix_index(row, col, row_to_delete, col_to_delete) {
                    result.set(actual_row, actual_col, self.get(row, col));
                }
                col = col + 1;
            }
            row = row + 1;
        }
        proof {
            assert forall|r: int, c: int| 0 <= r < 3 && 0 <= c < 3 implies result.at(r, c) == self.at(
                if r < row_to_delete {
                    r
                } else {
                    r + 1
                },
                if c < col_to_delete {
                    c
                } else {
                    c + 1
                },
            ) by {
                let sr: usize = (if r < row_to_delete { r } else { r + 1 }) as usize;
                let sc: usize = (if c < col_to_delete { c } else { c + 1 }) as usize;
                assert(submatrix_place(sr, sc, row_to_delete, col_to_delete) == Some((r as usize, c as usize)));
            }
        }
        result
    }
}

impl Matrix4<i64> {
    /// The transform that moves a point by `x`, `y` and `z` along the three
    /// axes, its entries being ordered keys.
    pub fn translation(x: i64, y: i64, z: i64) -> (m: Self)
        ensures
            m.rows@ == seq![
                [ONE, ZERO, ZERO, x],
                [ZERO, ONE, ZERO, y],
                [ZERO, ZERO, ONE, z],
                [ZERO, ZERO, ZERO, ONE],
            ],
    {
        let m = Self::from_rows(
            [[ONE, ZERO, ZERO, x], [ZERO, ONE, ZERO, y], [ZERO, ZERO, ONE, z], [ZERO, ZERO, ZERO, ONE]],
        );
        assert(m.rows@ =~= seq![
            [ONE, ZERO, ZERO, x],
            [ZERO, ONE, ZERO, y],
            [ZERO, ZERO, ONE, z],
            [ZERO, ZERO, ZERO, ONE],
        ]);
        m
    }

    /// The transform that stretches by `x`, `y` and `z` along the three axes.
    pub fn scaling(x: i64, y: i64, z: i64) -> (m: Self)
        ensures
            m.rows@ == seq![
                [x, ZERO, ZERO, ZERO],
                [ZERO, y, ZERO, ZERO],
                [ZERO, ZERO, z, ZERO],
                [ZERO, ZERO, ZERO, ONE],
            ],
    {
        let m = Self::from_rows(
            [[x, ZERO, ZERO, ZERO], [ZERO, y, ZERO, ZERO], [ZERO, ZERO, z, ZERO], [ZERO, ZERO, ZERO, ONE]],
        );
        assert(m.rows@ =~= seq![
            [x, ZERO, ZERO, ZERO],
            [ZERO, y, ZERO, ZERO],
            [ZERO, ZERO, z, ZERO],
            [ZERO, ZERO, ZERO, ONE],
        ]);
        m
    }

    /// The transform that moves each coordinate in proportion to the two
    /// others: the first by `xy` times the second and `xz` times the third,
    /// and so on.
    pub fn shearing(xy: i64, xz: i64, yx: i64, yz: i64, zx: i64, zy: i64) -> (m: Self)
        ensures
            m.rows@ == seq![
                [ONE, xy, xz, ZERO],
                [yx, ONE, yz, ZERO],
                [zx, zy, ONE, ZERO],
                [ZERO, ZERO, ZERO, ONE],
            ],
    {
        let m = Self::from_rows(
            [[ONE, xy, xz, ZERO], [yx, ONE, yz, ZERO], [zx, zy, ONE, ZERO], [ZERO, ZERO, ZERO, ONE]],
        );
        assert(m.rows@ =~= seq![
            [ONE, xy, xz, ZERO],
            [yx, ONE, yz, ZERO],
            [zx, zy, ONE, ZERO],
            [ZERO, ZERO, ZERO, ONE],
        ]);
        m
    }
}

} // verus!
