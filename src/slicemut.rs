use crate::grid::{
    cell, cell_mut, col_cells, col_cells_all, col_cells_all_mut, col_cells_mut, copy_cells, is_grid,
    row_slice, row_slice_mut, row_slices, row_slices_mut,
};
use crate::layout::{col_of, flat_index, row_of, rows_with_col};
use crate::matrix::Matrix;
use vstd::prelude::*;

verus! {

/// An exclusive view of a whole matrix: its dimensions and a mutable borrow of its buffer.
/// While the view lives, the matrix can be reached only through it.
pub struct MatrixSliceMut<'a, T> {
    rows: usize,
    cols: usize,
    data: &'a mut [T],
}

impl<'a, T> MatrixSliceMut<'a, T> {
    /// Number of rows.
    pub closed spec fn nrows(&self) -> nat {
        self.rows as nat
    }

    /// Number of columns.
    pub closed spec fn ncols(&self) -> nat {
        self.cols as nat
    }

    /// The borrowed buffer as it stands now, row-major.
    pub closed spec fn cells(&self) -> Seq<T> {
        self.data@
    }

    /// The borrow of the matrix's buffer; its final value is what the matrix holds
    /// once the view is gone.
    pub closed spec fn borrowed(&self) -> &'a mut [T] {
        self.data
    }

    /// The buffer holds exactly one cell per (row, column) pair.
    pub open spec fn wf(&self) -> bool {
        is_grid(self.cells(), self.nrows(), self.ncols())
    }

    /// Whether (`row`, `col`) names a cell of the view.
    pub open spec fn in_bounds(&self, row: int, col: int) -> bool {
        0 <= row < self.nrows() && 0 <= col < self.ncols()
    }

    /// The cell at (`row`, `col`).
    pub open spec fn at(&self, row: int, col: int) -> T {
        self.cells()[flat_index(row, col, self.ncols() as int)]
    }

    /// Once a view is done with, the borrowed buffer keeps what the view last held.
    pub broadcast proof fn lemma_resolved_view(v: MatrixSliceMut<'a, T>)
        ensures
            #[trigger] has_resolved(v) ==> final(v.borrowed())@ == v.cells(),
    {
    }

    /// An exclusive view of the whole of `matrix`.
    pub fn new(matrix: &'a mut Matrix<T>) -> (v: Self)
        requires
            old(matrix).wf(),
        ensures
            v.wf(),
            v.nrows() == old(matrix).nrows(),
            v.ncols() == old(matrix).ncols(),
            v.cells() == old(matrix).cells(),
            final(matrix).nrows() == old(matrix).nrows(),
            final(matrix).ncols() == old(matrix).ncols(),
            final(matrix).cells() == final(v.borrowed())@,
    {
        let rows = matrix.rows();
        let cols = matrix.cols();
        MatrixSliceMut { rows, cols, data: matrix.data_mut() }
    }

    /// The cell at (`row`, `col`), which the caller guarantees to be in bounds. Unlike `get`,
    /// it tests nothing first: a caller that Verus does not check must test the bounds itself.
    pub fn get_unchecked(&self, row: usize, col: usize) -> (r: &T)
        requires
            self.wf(),
            self.in_bounds(row as int, col as int),
        ensures
            *r == self.at(row as int, col as int),
    {
        cell(self.data, self.rows, self.cols, row, col)
    }

    /// Exclusive access to the cell at (`row`, `col`), which the caller guarantees to be in bounds.
    pub fn get_unchecked_mut(&mut self, row: usize, col: usize) -> (r: &mut T)
        requires
            old(self).wf(),
            old(self).in_bounds(row as int, col as int),
        ensures
            *r == old(self).at(row as int, col as int),
            final(self).nrows() == old(self).nrows(),
            final(self).ncols() == old(self).ncols(),
            final(self).cells() == old(self).cells().update(
                flat_index(row as int, col as int, old(self).ncols() as int),
                *final(r),
            ),
            final(final(self).borrowed())@ == final(old(self).borrowed())@,
    {
        cell_mut(self.data, self.rows, self.cols, row, col)
    }

    /// The cell at (`row`, `col`), or `None` when the coordinates lie outside the view.
    pub fn get(&self, row: usize, col: usize) -> (r: Option<&T>)
        requires
            self.wf(),
        ensures
            r is Some <==> self.in_bounds(row as int, col as int),
            r is Some ==> *r.unwrap() == self.at(row as int, col as int),
    {
        if row < self.rows && col < self.cols {
            Some(self.get_unchecked(row, col))
        } else {
            None
        }
    }

    /// Exclusive access to the cell at (`row`, `col`), or `None` when the coordinates lie
    /// outside the view; then the view is left as it was.
    pub fn get_mut(&mut self, row: usize, col: usize) -> (r: Option<&mut T>)
        requires
            old(self).wf(),
        ensures
            r is Some <==> old(self).in_bounds(row as int, col as int),
            final(self).nrows() == old(self).nrows(),
            final(self).ncols() == old(self).ncols(),
            r is Some ==> *r.unwrap() == old(self).at(row as int, col as int),
            r is Some ==> final(self).cells() == old(self).cells().update(
                flat_index(row as int, col as int, old(self).ncols() as int),
                *final(r.unwrap()),
            ),
            r is None ==> final(self).cells() == old(self).cells(),
            final(final(self).borrowed())@ == final(old(self).borrowed())@,
    {
        if row < self.rows && col < self.cols {
            Some(self.get_unchecked_mut(row, col))
        } else {
            None
        }
    }

    /// Number of rows.
    pub fn rows(&self) -> (r: usize)
        ensures
            r == self.nrows(),
    {
        self.rows
    }

    /// Number of columns.
    pub fn cols(&self) -> (r: usize)
        ensures
            r == self.ncols(),
    {
        self.cols
    }

    /// The rows, top to bottom, each as a slice of `cols` cells.
    pub fn iter_rows(&self) -> (r: Vec<&[T]>)
        requires
            self.wf(),
        ensures
            r@.len() == self.nrows(),
            forall|i: int|
                0 <= i < self.nrows() ==> (#[trigger] r@[i])@ == row_of(
                    self.cells(),
                    self.ncols(),
                    i,
                ),
    {
        row_slices(self.data, self.rows, self.cols)
    }

    /// The columns, left to right, each as its cells top to bottom.
    pub fn iter_cols(&self) -> (r: Vec<Vec<&T>>)
        requires
            self.wf(),
        ensures
            r@.len() == self.ncols(),
            forall|j: int|
                0 <= j < self.ncols() ==> (#[trigger] r@[j])@.unref() == col_of(
                    self.cells(),
                    self.nrows(),
                    self.ncols(),
                    j,
                ),
    {
        col_cells_all(self.data, self.rows, self.cols)
    }

    /// Exclusive access to every column at once, left to right, each as its cells top to
    /// bottom; afterwards each cell holds the final value of the reference handed out for it.
    pub fn iter_cols_mut(&mut self) -> (r: Vec<Vec<&mut T>>)
        requires
            old(self).wf(),
        ensures
            r@.len() == old(self).ncols(),
            forall|c: int| 0 <= c < old(self).ncols() ==> (#[trigger] r@[c])@.len() == old(self).nrows(),
            forall|c: int, k: int|
                0 <= c < old(self).ncols() && 0 <= k < old(self).nrows() ==> *(#[trigger] r@[c]@[k])
                    == old(self).at(k, c),
            final(self).nrows() == old(self).nrows(),
            final(self).ncols() == old(self).ncols(),
            final(self).cells() == Seq::new(
                old(self).nrows(),
                |k: int| Seq::new(old(self).ncols(), |c: int| *final(r@[c]@[k])),
            ).flatten(),
            final(final(self).borrowed())@ == final(old(self).borrowed())@,
    {
        col_cells_all_mut(self.data, self.rows, self.cols)
    }

    /// Every cell, in row-major order.
    pub fn iter(&self) -> (r: &[T])
        ensures
            r@ == self.cells(),
    {
        self.data
    }

    /// Exclusive access to every cell, in row-major order.
    pub fn iter_mut(&mut self) -> (r: &mut [T])
        ensures
            r@ == old(self).cells(),
            final(self).cells() == final(r)@,
            final(self).nrows() == old(self).nrows(),
            final(self).ncols() == old(self).ncols(),
            final(final(self).borrowed())@ == final(old(self).borrowed())@,
    {
        self.data
    }

    /// The cells of row `row`, left to right.
    pub fn iter_row(&self, row: usize) -> (r: &[T])
        requires
            self.wf(),
            row < self.nrows(),
        ensures
            r@ == row_of(self.cells(), self.ncols(), row as int),
    {
        row_slice(self.data, self.rows, self.cols, row)
    }

    /// Exclusive access to the cells of row `row`, left to right; the other rows are left as
    /// they were.
    pub fn iter_row_mut(&mut self, row: usize) -> (r: &mut [T])
        requires
            old(self).wf(),
            row < old(self).nrows(),
        ensures
            r@ == row_of(old(self).cells(), old(self).ncols(), row as int),
            final(self).nrows() == old(self).nrows(),
            final(self).ncols() == old(self).ncols(),
            final(self).cells() == old(self).cells().subrange(0, row * old(self).ncols())
                + final(r)@ + old(self).cells().subrange(
                row * old(self).ncols() + old(self).ncols(),
                old(self).cells().len() as int,
            ),
            final(final(self).borrowed())@ == final(old(self).borrowed())@,
    {
        row_slice_mut(self.data, self.rows, self.cols, row)
    }

    /// Exclusive access to every row at once, top to bottom; joined back together, their final
    /// contents are the final buffer.
    pub fn iter_rows_mut(&mut self) -> (r: Vec<&mut [T]>)
        requires
            old(self).wf(),
        ensures
            r@.len() == old(self).nrows(),
            forall|i: int|
                #![trigger (r@[i])@]
                0 <= i < old(self).nrows() ==> (r@[i])@ == row_of(
                    old(self).cells(),
                    old(self).ncols(),
                    i,
                ),
            final(self).nrows() == old(self).nrows(),
            final(self).ncols() == old(self).ncols(),
            final(self).cells() == Seq::new(old(self).nrows(), |i: int| final(r@[i])@).flatten(),
            final(final(self).borrowed())@ == final(old(self).borrowed())@,
    {
        row_slices_mut(self.data, self.rows, self.cols)
    }

    /// The cells of column `col`, top to bottom.
    pub fn iter_col(&self, col: usize) -> (r: Vec<&T>)
        requires
            self.wf(),
            col < self.ncols(),
        ensures
            r@.unref() == col_of(self.cells(), self.nrows(), self.ncols(), col as int),
    {
        col_cells(self.data, self.rows, self.cols, col)
    }

    /// Exclusive access to the cells of column `col`, top to bottom; in each row only that
    /// cell may change.
    pub fn iter_col_mut(&mut self, col: usize) -> (r: Vec<&mut T>)
        requires
            old(self).wf(),
            col < old(self).ncols(),
        ensures
            r@.len() == old(self).nrows(),
            forall|i: int|
                #![trigger r@[i]]
                0 <= i < old(self).nrows() ==> *r@[i] == old(self).at(i, col as int),
            final(self).nrows() == old(self).nrows(),
            final(self).ncols() == old(self).ncols(),
            final(self).cells() == rows_with_col(
                old(self).cells(),
                old(self).nrows(),
                old(self).ncols(),
                col as int,
                Seq::new(old(self).nrows(), |i: int| *final(r@[i])),
            ).flatten(),
            final(final(self).borrowed())@ == final(old(self).borrowed())@,
    {
        col_cells_mut(self.data, self.rows, self.cols, col)
    }

    /// An independent copy of the buffer, row-major: each cell is a clone of the one it copies.
    pub fn clone_buffer(&self) -> (r: Vec<T>) where T: Clone
        ensures
            r@.len() == self.cells().len(),
            forall|i: int| 0 <= i < r@.len() ==> cloned(self.cells()[i], #[trigger] r@[i]),
    {
        copy_cells(self.data)
    }

    /// The borrowed buffer, row-major.
    pub fn data(&self) -> (r: &[T])
        ensures
            r@ == self.cells(),
    {
        self.data
    }

    /// Exclusive access to the borrowed buffer, row-major.
    pub fn data_mut(&mut self) -> (r: &mut [T])
        ensures
            r@ == old(self).cells(),
            final(self).cells() == final(r)@,
            final(self).nrows() == old(self).nrows(),
            final(self).ncols() == old(self).ncols(),
            final(final(self).borrowed())@ == final(old(self).borrowed())@,
    {
        self.data
    }
}

} // verus!
