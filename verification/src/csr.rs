//! Compressed-row storage of a sparse matrix.
//!
//! A matrix of `rows` by `cols` keeps only its stored entries. They lie in two
//! parallel arrays, column indices and values, grouped by row; a third array
//! of `rows + 1` offsets says where each row begins and ends. A matrix is
//! built once, checked while it is built, and never changed afterwards.

use vstd::prelude::*;

verus! {

/// A sequence of offsets that never steps down.
pub open spec fn nondecreasing(s: Seq<usize>) -> bool {
    forall|i: int, j: int| 0 <= i <= j < s.len() ==> s[i] <= s[j]
}

/// Why three arrays do not make a compressed-row matrix.
#[derive(Clone, Copy, Debug, PartialEq, Eq, Structural)]
pub enum CsrError {
    /// The offset array does not have `rows + 1` entries.
    RowPtrLength,
    /// There are not as many column indices as values.
    LengthMismatch,
    /// The first offset is not zero.
    RowPtrStart,
    /// Some offset is smaller than one before it.
    RowPtrOrder,
    /// The last offset is not the number of stored entries.
    RowPtrEnd,
    /// Some column index is not below the number of columns.
    ColumnOutOfRange,
}

/// The mathematical content of a compressed-row matrix: its dimensions and
/// its three arrays.
pub struct CsrModel<T> {
    /// Number of rows.
    pub rows: nat,
    /// Number of columns.
    pub cols: nat,
    /// Offsets into the entry arrays: row `i` is stored from `row_ptr[i]` up
    /// to, not including, `row_ptr[i + 1]`.
    pub row_ptr: Seq<usize>,
    /// Column index of each stored entry.
    pub col_idx: Seq<usize>,
    /// Value of each stored entry.
    pub values: Seq<T>,
}

impl<T> CsrModel<T> {
    /// The structural invariant of compressed-row storage.
    pub open spec fn valid(self) -> bool {
        &&& self.row_ptr.len() == self.rows + 1
        &&& self.col_idx.len() == self.values.len()
        &&& self.row_ptr[0] == 0
        &&& nondecreasing(self.row_ptr)
        &&& self.row_ptr[self.rows as int] == self.values.len()
        &&& forall|k: int| 0 <= k < self.col_idx.len() ==> #[trigger] self.col_idx[k] < self.cols
    }

    /// The first rule that the arrays break, in the order in which the rules
    /// are checked, or `None` where they break none.
    pub open spec fn defect(self) -> Option<CsrError> {
        if self.row_ptr.len() != self.rows + 1 {
            Some(CsrError::RowPtrLength)
        } else if self.col_idx.len() != self.values.len() {
            Some(CsrError::LengthMismatch)
        } else if self.row_ptr[0] != 0 {
            Some(CsrError::RowPtrStart)
        } else if !nondecreasing(self.row_ptr) {
            Some(CsrError::RowPtrOrder)
        } else if self.row_ptr[self.rows as int] != self.values.len() {
            Some(CsrError::RowPtrEnd)
        } else if exists|k: int| 0 <= k < self.col_idx.len() && #[trigger] self.col_idx[k] >= self.cols {
            Some(CsrError::ColumnOutOfRange)
        } else {
            None
        }
    }

    /// Number of stored entries.
    pub open spec fn nnz(self) -> nat {
        self.values.len()
    }

    /// Offset of the first stored entry of row `i`.
    pub open spec fn row_start(self, i: int) -> int {
        self.row_ptr[i] as int
    }

    /// Offset just past the last stored entry of row `i`.
    pub open spec fn row_end(self, i: int) -> int {
        self.row_ptr[i + 1] as int
    }

    /// Number of stored entries of row `i`.
    pub open spec fn row_len(self, i: int) -> nat {
        (self.row_end(i) - self.row_start(i)) as nat
    }

    /// The stored entries of row `i` as (column, value) pairs, in stored order.
    pub open spec fn row(self, i: int) -> Seq<(usize, T)> {
        Seq::new(
            self.row_len(i),
            |k: int| (self.col_idx[self.row_start(i) + k], self.values[self.row_start(i) + k]),
        )
    }

    /// The arrays are valid exactly when no rule is broken.
    pub proof fn lemma_valid_iff_no_defect(self)
        ensures
            self.valid() <==> self.defect() is None,
    {
    }

    /// In a valid matrix every row is a slice of the entry arrays:
    /// `0 <= row_start(i) <= row_end(i) <= nnz`.
    pub proof fn lemma_row_within(self, i: int)
        requires
            self.valid(),
            0 <= i < self.rows,
        ensures
            0 <= self.row_start(i) <= self.row_end(i) <= self.nnz(),
            self.row(i).len() == self.row_end(i) - self.row_start(i),
    {
        assert(self.row_ptr[i] <= self.row_ptr[i + 1]);
        assert(self.row_ptr[i + 1] <= self.row_ptr[self.rows as int]);
    }

    /// In a valid matrix every entry of every row names a column of the
    /// matrix.
    pub proof fn lemma_row_columns_in_range(self, i: int, k: int)
        requires
            self.valid(),
            0 <= i < self.rows,
            0 <= k < self.row(i).len(),
        ensures
            self.row(i)[k].0 < self.cols,
    {
        self.lemma_row_within(i);
        assert(self.col_idx[self.row_start(i) + k] < self.cols);
    }

    /// With no stored entries, every row of a valid matrix is empty.
    pub proof fn lemma_no_entries_rows_empty(self, i: int)
        requires
            self.valid(),
            self.nnz() == 0,
            0 <= i < self.rows,
        ensures
            self.row(i).len() == 0,
    {
        self.lemma_row_within(i);
    }
}

/// The model that dimensions and arrays describe.
pub open spec fn model_of<T>(
    rows: usize,
    cols: usize,
    row_ptr: Seq<usize>,
    col_idx: Seq<usize>,
    values: Seq<T>,
) -> CsrModel<T> {
    CsrModel { rows: rows as nat, cols: cols as nat, row_ptr, col_idx, values }
}

/// A sparse matrix in compressed-row form. Every value of this type is valid:
/// `new` is the only way to make one, and nothing changes it.
#[derive(Debug)]
pub struct CsrMatrix<T> {
    rows: usize,
    cols: usize,
    row_ptr: Vec<usize>,
    col_idx: Vec<usize>,
    values: Vec<T>,
}

impl<T> View for CsrMatrix<T> {
    type V = CsrModel<T>;

    closed spec fn view(&self) -> CsrModel<T> {
        model_of(self.rows, self.cols, self.row_ptr@, self.col_idx@, self.values@)
    }
}

impl<T> CsrMatrix<T> {
    /// What holds of every matrix: its arrays obey the rules of the storage.
    #[verifier::type_invariant]
    pub open spec fn well_formed(self) -> bool {
        self@.valid()
    }

    /// Builds a matrix from its dimensions and arrays, after checking every
    /// rule of the storage. The first broken rule is the error.
    pub fn new(
        rows: usize,
        cols: usize,
        row_ptr: Vec<usize>,
        col_idx: Vec<usize>,
        values: Vec<T>,
    ) -> (r: Result<CsrMatrix<T>, CsrError>)
        ensures
            r is Ok <==> model_of(rows, cols, row_ptr@, col_idx@, values@).valid(),
            match r {
                Ok(m) => m@ == model_of(rows, cols, row_ptr@, col_idx@, values@),
                Err(e) => model_of(rows, cols, row_ptr@, col_idx@, values@).defect() == Some(e),
            },
    {
        let ghost model = model_of(rows, cols, row_ptr@, col_idx@, values@);
        proof {
            model.lemma_valid_iff_no_defect();
        }
        if row_ptr.len() == 0 || row_ptr.len() - 1 != rows {
            return Err(CsrError::RowPtrLength);
        }
        if col_idx.len() != values.len() {
            return Err(CsrError::LengthMismatch);
        }
        if row_ptr[0] != 0 {
            return Err(CsrError::RowPtrStart);
        }
        let mut i: usize = 0;
        while i < rows
            invariant
                i <= rows,
                model == model_of(rows, cols, row_ptr@, col_idx@, values@),
                row_ptr@.len() == rows + 1,
                col_idx@.len() == values@.len(),
                row_ptr@[0] == 0,
                forall|p: int, q: int| 0 <= p <= q <= i ==> row_ptr@[p] <= row_ptr@[q],
            decreases rows - i,
        {
            if row_ptr[i] > row_ptr[i + 1] {
                assert(!nondecreasing(row_ptr@)) by {
                    assert(row_ptr@[i as int] > row_ptr@[i + 1]);
                }
                return Err(CsrError::RowPtrOrder);
            }
            i = i + 1;
        }
        assert(nondecreasing(row_ptr@));
        if row_ptr[rows] != values.len() {
            return Err(CsrError::RowPtrEnd);
        }
        let mut k: usize = 0;
        while k < col_idx.len()
            invariant
                k <= col_idx@.len(),
                model == model_of(rows, cols, row_ptr@, col_idx@, values@),
                row_ptr@.len() == rows + 1,
                col_idx@.len() == values@.len(),
                row_ptr@[0] == 0,
                nondecreasing(row_ptr@),
                row_ptr@[rows as int] == values@.len(),
                forall|j: int| 0 <= j < k ==> #[trigger] col_idx@[j] < cols,
            decreases col_idx@.len() - k,
        {
            if col_idx[k] >= cols {
                assert(model.col_idx[k as int] >= model.cols);
                return Err(CsrError::ColumnOutOfRange);
            }
            k = k + 1;
        }
        Ok(CsrMatrix { rows, cols, row_ptr, col_idx, values })
    }

    /// Number of rows.
    pub fn rows(&self) -> (n: usize)
        ensures
            n == self@.rows,
    {
        self.rows
    }

    /// Number of columns.
    pub fn cols(&self) -> (n: usize)
        ensures
            n == self@.cols,
    {
        self.cols
    }

    /// Number of stored entries.
    pub fn nnz(&self) -> (n: usize)
        ensures
            n == self@.nnz(),
    {
        self.values.len()
    }

    /// Where row `i` starts and ends in the entry arrays, read from the
    /// offsets directly.
    pub fn row_bounds(&self, i: usize) -> (b: (usize, usize))
        requires
            i < self@.rows,
        ensures
            b.0 == self@.row_start(i as int),
            b.1 == self@.row_end(i as int),
            b.0 <= b.1 <= self@.nnz(),
    {
        proof {
            use_type_invariant(self);
            self@.lemma_row_within(i as int);
        }
        (self.row_ptr[i], self.row_ptr[i + 1])
    }

    /// The stored entry at offset `k` of the entry arrays: its column and its
    /// value.
    pub fn entry(&self, k: usize) -> (e: (usize, T))
        where T: Copy
        requires
            k < self@.nnz(),
        ensures
            e.0 == self@.col_idx[k as int],
            e.1 == self@.values[k as int],
            e.0 < self@.cols,
    {
        proof {
            use_type_invariant(self);
        }
        (self.col_idx[k], self.values[k])
    }

    /// The stored entries of row `i` as (column, value) pairs, in stored
    /// order. A row without stored entries gives an empty vector.
    pub fn row(&self, i: usize) -> (entries: Vec<(usize, T)>)
        where T: Copy
        requires
            i < self@.rows,
        ensures
            entries@ == self@.row(i as int),
            forall|k: int| 0 <= k < entries@.len() ==> (#[trigger] entries@[k]).0 < self@.cols,
    {
        let (start, end) = self.row_bounds(i);
        let mut entries: Vec<(usize, T)> = Vec::new();
        let mut k: usize = start;
        while k < end
            invariant
                start <= k <= end <= self@.nnz(),
                start == self@.row_start(i as int),
                end == self@.row_end(i as int),
                entries@.len() == k - start,
                forall|j: int| 0 <= j < entries@.len() ==> entries@[j] == self@.row(i as int)[j],
            decreases end - k,
        {
            let e = self.entry(k);
            entries.push(e);
            k = k + 1;
        }
        proof {
            use_type_invariant(self);
            assert(entries@ =~= self@.row(i as int));
            assert forall|k: int| 0 <= k < entries@.len() implies (#[trigger] entries@[k]).0
                < self@.cols by {
                self@.lemma_row_columns_in_range(i as int, k);
            }
        }
        entries
    }
}

} // verus!
