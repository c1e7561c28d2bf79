use crate::grid::{
    cell, cell_mut, col_cells, col_cells_all, col_cells_all_mut, col_cells_mut, copy_cells, is_grid,
    row_slice, row_slice_mut, row_slices, row_slices_mut,
};
use crate::layout::{col_of, flat_index, row_of, rows_with_col};
use crate::render::{grid_text, render, texts_of};
use crate::slice::MatrixSlice;
use crate::slicemut::MatrixSliceMut;
use vstd::prelude::*;
use vstd::string::to_string_from_display_ensures;

verus! {

/// A dense matrix that owns one contiguous buffer, stored row-major:
/// the cell at (`row`, `col`) sits at `row * cols + col`.
/// Two matrices are equal when their dimensions and their buffers are.
#[derive(Debug, Clone, PartialEq, Eq, Hash)]
pub struct Matrix<T> {
    rows: usize,
    cols: usize,
    data: Vec<T>,
}

impl<T> Matrix<T> {
    /// Number of rows.
    pub closed spec fn nrows(&self) -> nat {
        self.rows as nat
    }

    /// Number of columns.
    pub closed spec fn ncols(&self) -> nat {
        self.cols as nat
    }

    /// The backing buffer, row-major.
    pub closed spec fn cells(&self) -> Seq<T> {
        self.data@
    }

    /// The buffer holds exactly one cell per (row, column) pair, and its length is addressable.
    pub open spec fn wf(&self) -> bool {
        is_grid(self.cells(), self.nrows(), self.ncols())
    }

    /// Whether (`row`, `col`) names a cell of the matrix.
    pub open spec fn in_bounds(&self, row: int, col: int) -> bool {
        0 <= row < self.nrows() && 0 <= col < self.ncols()
    }

    /// The cell at (`row`, `col`).
    pub open spec fn at(&self, row: int, col: int) -> T {
        self.cells()[flat_index(row, col, self.ncols() as int)]
    }

    /// A `rows` by `cols` matrix whose cells are all copies of `T::default()`.
    pub fn new(rows: usize, cols: usize) -> (m: Self) where T: Default + Clone
        requires
            rows * cols <= usize::MAX,
        ensures
            m.wf(),
            m.nrows() == rows,
            m.ncols() == cols,
            exists|d: T|
                call_ensures(T::default, (), d) && forall|i: int|
                    0 <= i < m.cells().len() ==> cloned(d, #[trigger] m.cells()[i]),
    {
        let d = T::default();
        let n: usize = rows * cols;
        let data = vec![d; n];
        proof {
            assert(call_ensures(T::default, (), d));
        }
        Matrix { rows, cols, data }
    }

    /// A `rows` by `cols` matrix whose cells are all clones of `default`.
    pub fn from_default(rows: usize, cols: usize, default: T) -> (m: Self) where T: Clone
        requires
            rows * cols <= usize::MAX,
        ensures
            m.wf(),
            m.nrows() == rows,
            m.ncols() == cols,
            forall|i: int| 0 <= i < m.cells().len() ==> cloned(default, #[trigger] m.cells()[i]),
    {
        let n: usize = rows * cols;
        let data = vec![default; n];
        Matrix { rows, cols, data }
    }

    /// Adopts `data` as the row-major buffer of a `rows` by `cols` matrix.
    /// The length must be exactly `rows * cols`.
    pub fn from_parts(rows: usize, cols: usize, data: Vec<T>) -> (m: Self)
        requires
            data@.len() == rows * cols,
        ensures
            m.wf(),
            m.nrows() == rows,
            m.ncols() == cols,
            m.cells() == data@,
    {
        let len: usize = data.len();
        assert(len == rows * cols);
        Matrix { rows, cols, data }
    }

    /// The cell at (`row`, `col`), which the caller guarantees to be in bounds. Unlike `get`,
    /// it tests nothing first: a caller that Verus does not check must test the bounds itself.
    pub fn get_unchecked(&self, row: usize, col: usize) -> (r: &T)
        requires
            self.wf(),
            self.in_bounds(row as int, col as int),
        ensures
            *r == self.at(row as int, col as int),
    {
        cell(self.data.as_slice(), self.rows, self.cols, row, col)
    }

    /// Exclusive access to the cell at (`row`, `col`), which the caller guarantees to be in bounds.
    pub fn get_unchecked_mut(&mut self, row: usize, col: usize) -> (r: &mut T)
        requires
            old(self).wf(),
            old(self).in_bounds(row as int, col as int),
        ensures
            *r == old(self).at(row as int, col as int),
            final(self).nrows() == old(self).nrows(),
            final(self).ncols() == old(self).ncols(),
            final(self).cells() == old(self).cells().update(
                flat_index(row as int, col as int, old(self).ncols() as int),
                *final(r),
            ),
    {
        cell_mut(self.data.as_mut_slice(), self.rows, self.cols, row, col)
    }

    /// The cell at (`row`, `col`), or `None` when the coordinates lie outside the matrix.
    pub fn get(&self, row: usize, col: usize) -> (r: Option<&T>)
        requires
            self.wf(),
        ensures
            r is Some <==> self.in_bounds(row as int, col as int),
            r is Some ==> *r.unwrap() == self.at(row as int, col as int),
    {
        if row < self.rows && col < self.cols {
            Some(self.get_unchecked(row, col))
        } else {
            None
        }
    }

    /// Exclusive access to the cell at (`row`, `col`), or `None` when the coordinates lie
    /// outside the matrix; then the matrix is left as it was.
    pub fn get_mut(&mut self, row: usize, col: usize) -> (r: Option<&mut T>)
        requires
            old(self).wf(),
        ensures
            r is Some <==> old(self).in_bounds(row as int, col as int),
            final(self).nrows() == old(self).nrows(),
            final(self).ncols() == old(self).ncols(),
            r is Some ==> *r.unwrap() == old(self).at(row as int, col as int),
            r is Some ==> final(self).cells() == old(self).cells().update(
                flat_index(row as int, col as int, old(self).ncols() as int),
                *final(r.unwrap()),
            ),
            r is None ==> final(self).cells() == old(self).cells(),
    {
        if row < self.rows && col < self.cols {
            Some(self.get_unchecked_mut(row, col))
        } else {
            None
        }
    }

    /// Number of rows.
    pub fn rows(&self) -> (r: usize)
        ensures
            r == self.nrows(),
    {
        self.rows
    }

    /// Number of columns.
    pub fn cols(&self) -> (r: usize)
        ensures
            r == self.ncols(),
    {
        self.cols
    }

    /// The rows, top to bottom, each as a slice of `cols` cells.
    pub fn iter_rows(&self) -> (r: Vec<&[T]>)
        requires
            self.wf(),
        ensures
            r@.len() == self.nrows(),
            forall|i: int|
                0 <= i < self.nrows() ==> (#[trigger] r@[i])@ == row_of(
                    self.cells(),
                    self.ncols(),
                    i,
                ),
    {
        row_slices(self.data.as_slice(), self.rows, self.cols)
    }

    /// The columns, left to right, each as its cells top to bottom.
    pub fn iter_cols(&self) -> (r: Vec<Vec<&T>>)
        requires
            self.wf(),
        ensures
            r@.len() == self.ncols(),
            forall|j: int|
                0 <= j < self.ncols() ==> (#[trigger] r@[j])@.unref() == col_of(
                    self.cells(),
                    self.nrows(),
                    self.ncols(),
                    j,
                ),
    {
        col_cells_all(self.data.as_slice(), self.rows, self.cols)
    }

    /// Exclusive access to every column at once, left to right, each as its cells top to
    /// bottom; afterwards each cell holds the final value of the reference handed out for it.
    pub fn iter_cols_mut(&mut self) -> (r: Vec<Vec<&mut T>>)
        requires
            old(self).wf(),
        ensures
            r@.len() == old(self).ncols(),
            forall|c: int| 0 <= c < old(self).ncols() ==> (#[trigger] r@[c])@.len() == old(self).nrows(),
            forall|c: int, k: int|
                0 <= c < old(self).ncols() && 0 <= k < old(self).nrows() ==> *(#[trigger] r@[c]@[k])
                    == old(self).at(k, c),
            final(self).nrows() == old(self).nrows(),
            final(self).ncols() == old(self).ncols(),
            final(self).cells() == Seq::new(
                old(self).nrows(),
                |k: int| Seq::new(old(self).ncols(), |c: int| *final(r@[c]@[k])),
            ).flatten(),
    {
        col_cells_all_mut(self.data.as_mut_slice(), self.rows, self.cols)
    }

    /// Every cell, in row-major order.
    pub fn iter(&self) -> (r: &[T])
        ensures
            r@ == self.cells(),
    {
        self.data.as_slice()
    }

    /// Exclusive access to every cell, in row-major order.
    pub fn iter_mut(&mut self) -> (r: &mut [T])
        ensures
            r@ == old(self).cells(),
            final(self).cells() == final(r)@,
            final(self).nrows() == old(self).nrows(),
            final(self).ncols() == old(self).ncols(),
    {
        self.data.as_mut_slice()
    }

    /// The cells of row `row`, left to right.
    pub fn iter_row(&self, row: usize) -> (r: &[T])
        requires
            self.wf(),
            row < self.nrows(),
        ensures
            r@ == row_of(self.cells(), self.ncols(), row as int),
    {
        row_slice(self.data.as_slice(), self.rows, self.cols, row)
    }

    /// Exclusive access to the cells of row `row`, left to right; the other rows are left as
    /// they were.
    pub fn iter_row_mut(&mut self, row: usize) -> (r: &mut [T])
        requires
            old(self).wf(),
            row < old(self).nrows(),
        ensures
            r@ == row_of(old(self).cells(), old(self).ncols(), row as int),
            final(self).nrows() == old(self).nrows(),
            final(self).ncols() == old(self).ncols(),
            final(self).cells() == old(self).cells().subrange(0, row * old(self).ncols())
                + final(r)@ + old(self).cells().subrange(
                row * old(self).ncols() + old(self).ncols(),
                old(self).cells().len() as int,
            ),
    {
        row_slice_mut(self.data.as_mut_slice(), self.rows, self.cols, row)
    }

    /// Exclusive access to every row at once, top to bottom; joined back together, their final
    /// contents are the final buffer.
    pub fn iter_rows_mut(&mut self) -> (r: Vec<&mut [T]>)
        requires
            old(self).wf(),
        ensures
            r@.len() == old(self).nrows(),
            forall|i: int|
                #![trigger (r@[i])@]
                0 <= i < old(self).nrows() ==> (r@[i])@ == row_of(
                    old(self).cells(),
                    old(self).ncols(),
                    i,
                ),
            final(self).nrows() == old(self).nrows(),
            final(self).ncols() == old(self).ncols(),
            final(self).cells() == Seq::new(old(self).nrows(), |i: int| final(r@[i])@).flatten(),
    {
        row_slices_mut(self.data.as_mut_slice(), self.rows, self.cols)
    }

    /// The cells of column `col`, top to bottom.
    pub fn iter_col(&self, col: usize) -> (r: Vec<&T>)
        requires
            self.wf(),
            col < self.ncols(),
        ensures
            r@.unref() == col_of(self.cells(), self.nrows(), self.ncols(), col as int),
    {
        col_cells(self.data.as_slice(), self.rows, self.cols, col)
    }

    /// Exclusive access to the cells of column `col`, top to bottom; in each row only that
    /// cell may change.
    pub fn iter_col_mut(&mut self, col: usize) -> (r: Vec<&mut T>)
        requires
            old(self).wf(),
            col < old(self).ncols(),
        ensures
            r@.len() == old(self).nrows(),
            forall|i: int|
                #![trigger r@[i]]
                0 <= i < old(self).nrows() ==> *r@[i] == old(self).at(i, col as int),
            final(self).nrows() == old(self).nrows(),
            final(self).ncols() == old(self).ncols(),
            final(self).cells() == rows_with_col(
                old(self).cells(),
                old(self).nrows(),
                old(self).ncols(),
                col as int,
                Seq::new(old(self).nrows(), |i: int| *final(r@[i])),
            ).flatten(),
    {
        col_cells_mut(self.data.as_mut_slice(), self.rows, self.cols, col)
    }

    /// An independent copy of the buffer, row-major: each cell is a clone of the one it copies.
    pub fn clone_buffer(&self) -> (r: Vec<T>) where T: Clone
        ensures
            r@.len() == self.cells().len(),
            forall|i: int| 0 <= i < r@.len() ==> cloned(self.cells()[i], #[trigger] r@[i]),
    {
        copy_cells(self.data.as_slice())
    }

    /// The backing buffer, row-major.
    pub fn data(&self) -> (r: &[T])
        ensures
            r@ == self.cells(),
    {
        self.data.as_slice()
    }

    /// Exclusive access to the backing buffer, row-major.
    pub fn data_mut(&mut self) -> (r: &mut [T])
        ensures
            r@ == old(self).cells(),
            final(self).cells() == final(r)@,
            final(self).nrows() == old(self).nrows(),
            final(self).ncols() == old(self).ncols(),
    {
        self.data.as_mut_slice()
    }

    /// The matrix as text, one bracketed row per line: `[[1, 0],\n [0, 2]]\n`, each cell
    /// written through `Display`.
    pub fn to_string(&self) -> (r: String) where T: std::fmt::Display
        requires
            self.wf(),
        ensures
            exists|texts: Seq<String>|
                {
                    &&& texts.len() == self.cells().len()
                    &&& forall|i: int|
                        0 <= i < texts.len() ==> to_string_from_display_ensures::<T>(
                            &self.cells()[i],
                            #[trigger] texts[i],
                        )
                    &&& r@ == grid_text(texts_of(texts), self.nrows(), self.ncols())
                },
    {
        let mut texts: Vec<String> = Vec::new();
        let mut i: usize = 0;
        while i < self.data.len()
            invariant
                i <= self.data@.len(),
                texts@.len() == i,
                forall|k: int|
                    0 <= k < i ==> to_string_from_display_ensures::<T>(
                        &self.data@[k],
                        #[trigger] texts@[k],
                    ),
            decreases self.data@.len() - i,
        {
            texts.push(self.data[i].to_string());
            i += 1;
        }
        render(self.rows, self.cols, texts.as_slice())
    }

    /// A read-only view of the whole matrix.
    pub fn as_slice(&self) -> (v: MatrixSlice<'_, T>)
        requires
            self.wf(),
        ensures
            v.wf(),
            v.nrows() == self.nrows(),
            v.ncols() == self.ncols(),
            v.cells() == self.cells(),
    {
        MatrixSlice::new(self)
    }

    /// An exclusive view of the whole matrix; what is written through it lands in the matrix.
    pub fn as_slice_mut(&mut self) -> (v: MatrixSliceMut<'_, T>)
        requires
            old(self).wf(),
        ensures
            v.wf(),
            v.nrows() == old(self).nrows(),
            v.ncols() == old(self).ncols(),
            v.cells() == old(self).cells(),
            final(self).nrows() == old(self).nrows(),
            final(self).ncols() == old(self).ncols(),
            final(self).cells() == final(v.borrowed())@,
    {
        MatrixSliceMut::new(self)
    }
}

} // verus!
