use vstd::prelude::*;

verus! {

/// A square table of two rows and two columns.
#[derive(Clone, Copy, Debug, PartialEq)]
pub struct Matrix2<T> {
    pub rows: [[T; 2]; 2],
}

impl<T: Copy> Matrix2<T> {
    /// The entry at (`row`, `col`).
    pub open spec fn at(self, row: int, col: int) -> T {
        self.rows[row][col]
    }

    /// Builds a matrix from its rows.
    pub fn from_rows(rows: [[T; 2]; 2]) -> (m: Self)
        ensures
            m.rows == rows,
    {
        Self { rows }
    }

    /// A matrix whose every entry is `zero`.
    pub fn zeroes(zero: T) -> (m: Self)
        ensures
            forall|r: int, c: int| 0 <= r < 2 && 0 <= c < 2 ==> m.at(r, c) == zero,
    {
        Self { rows: [[zero; 2]; 2] }
    }

    /// Reads the entry at (`row`, `col`).
    pub fn get(&self, row: usize, col: usize) -> (entry: T)
        requires
            row < 2,
            col < 2,
        ensures
            entry == self.at(row as int, col as int),
    {
        self.rows[row][col]
    }

    /// Writes the entry at (`row`, `col`) and leaves every other entry as it
    /// was.
    pub fn set(&mut self, row: usize, col: usize, entry: T)
        requires
            row < 2,
            col < 2,
        ensures
            final(self).at(row as int, col as int) == entry,
            forall|r: int, c: int|
                0 <= r < 2 && 0 <= c < 2 && (r != row || c != col) ==> final(self).at(r, c) == old(
                    self,
                ).at(r, c),
    {
        self.rows[row][col] = entry;
    }

    /// The matrix with `one` on the diagonal and `zero` elsewhere.
    pub fn identity(zero: T, one: T) -> (m: Self)
        ensures
            forall|r: int, c: int|
                0 <= r < 2 && 0 <= c < 2 ==> m.at(r, c) == (if r == c {
                    one
                } else {
                    zero
                }),
    {
        let mut result = Self::zeroes(zero);
        let mut index: usize = 0;
        while index < 2
            invariant
                0 <= index <= 2,
                forall|r: int, c: int|
                    0 <= r < 2 && 0 <= c < 2 ==> result.at(r, c) == (if r == c && r < index {
                        one
                    } else {
                        zero
                    }),
            decreases 2 - index,
        {
            result.set(index, index, one);
            index = index + 1;
        }
        result
    }

    /// Whether `self` is `other` mirrored at its diagonal.
    pub open spec fn is_transpose_of(self, other: Self) -> bool {
        forall|r: int, c: int| 0 <= r < 2 && 0 <= c < 2 ==> self.at(c, r) == other.at(r, c)
    }

    /// Whether the two matrices agree in every entry.
    pub open spec fn same_entries(self, other: Self) -> bool {
        forall|r: int, c: int| 0 <= r < 2 && 0 <= c < 2 ==> self.at(r, c) == other.at(r, c)
    }

    /// Mirroring a matrix twice gives back its entries.
    pub proof fn lemma_transpose_involution(self, once: Self, twice: Self)
        requires
            once.is_transpose_of(self),
            twice.is_transpose_of(once),
        ensures
            twice.same_entries(self),
    {
    }

    /// The matrix mirrored at its diagonal: rows become columns.
    pub fn transpose(&self) -> (m: Self)
        ensures
            m.is_transpose_of(*self),
    {
        let mut result = *self;
        let mut row: usize = 0;
        while row < 2
            invariant
                0 <= row <= 2,
                forall|r: int, c: int| 0 <= r < row && 0 <= c < 2 ==> result.at(c, r) == self.at(r, c),
            decreases 2 - row,
        {
            let mut col: usize = 0;
            while col < 2
                invariant
                    0 <= row < 2,
                    0 <= col <= 2,
                    forall|r: int, c: int|
                        0 <= r < row && 0 <= c < 2 ==> result.at(c, r) == self.at(r, c),
                    forall|c: int| 0 <= c < col ==> result.at(c, row as int) == self.at(row as int, c),
                decreases 2 - col,
            {
                result.set(col, row, self.get(row, col));
                col = col + 1;
            }
            row = row + 1;
        }
        result
    }
}

} // verus!
