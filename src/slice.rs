use crate::grid::{cell, col_cells, col_cells_all, copy_cells, is_grid, row_slice, row_slices};
use crate::layout::{col_of, flat_index, row_of};
use crate::matrix::Matrix;
use vstd::prelude::*;

verus! {

/// A read-only view of a whole matrix: its dimensions and a shared borrow of its buffer.
pub struct MatrixSlice<'a, T> {
    rows: usize,
    cols: usize,
    data: &'a [T],
}

impl<'a, T> MatrixSlice<'a, T> {
    /// Number of rows.
    pub closed spec fn nrows(&self) -> nat {
        self.rows as nat
    }

    /// Number of columns.
    pub closed spec fn ncols(&self) -> nat {
        self.cols as nat
    }

    /// The borrowed buffer, row-major.
    pub closed spec fn cells(&self) -> Seq<T> {
        self.data@
    }

    /// The buffer holds exactly one cell per (row, column) pair.
    pub open spec fn wf(&self) -> bool {
        is_grid(self.cells(), self.nrows(), self.ncols())
    }

    /// Whether (`row`, `col`) names a cell of the view.
    pub open spec fn in_bounds(&self, row: int, col: int) -> bool {
        0 <= row < self.nrows() && 0 <= col < self.ncols()
    }

    /// The cell at (`row`, `col`).
    pub open spec fn at(&self, row: int, col: int) -> T {
        self.cells()[flat_index(row, col, self.ncols() as int)]
    }

    /// A view of the whole of `matrix`.
    pub fn new(matrix: &'a Matrix<T>) -> (v: Self)
        requires
            matrix.wf(),
        ensures
            v.wf(),
            v.nrows() == matrix.nrows(),
            v.ncols() == matrix.ncols(),
            v.cells() == matrix.cells(),
    {
        MatrixSlice { rows: matrix.rows(), cols: matrix.cols(), data: matrix.data() }
    }

    /// The cell at (`row`, `col`), which the caller guarantees to be in bounds. Unlike `get`,
    /// it tests nothing first: a caller that Verus does not check must test the bounds itself.
    pub fn get_unchecked(&self, row: usize, col: usize) -> (r: &'a T)
        requires
            self.wf(),
            self.in_bounds(row as int, col as int),
        ensures
            *r == self.at(row as int, col as int),
    {
        cell(self.data, self.rows, self.cols, row, col)
    }

    /// The cell at (`row`, `col`), or `None` when the coordinates lie outside the view.
    pub fn get(&self, row: usize, col: usize) -> (r: Option<&'a T>)
        requires
            self.wf(),
        ensures
            r is Some <==> self.in_bounds(row as int, col as int),
            r is Some ==> *r.unwrap() == self.at(row as int, col as int),
    {
        if row < self.rows && col < self.cols {
            Some(self.get_unchecked(row, col))
        } else {
            None
        }
    }

    /// Number of rows.
    pub fn rows(&self) -> (r: usize)
        ensures
            r == self.nrows(),
    {
        self.rows
    }

    /// Number of columns.
    pub fn cols(&self) -> (r: usize)
        ensures
            r == self.ncols(),
    {
        self.cols
    }

    /// The rows, top to bottom, each as a slice of `cols` cells.
    pub fn iter_rows(&self) -> (r: Vec<&'a [T]>)
        requires
            self.wf(),
        ensures
            r@.len() == self.nrows(),
            forall|i: int|
                0 <= i < self.nrows() ==> (#[trigger] r@[i])@ == row_of(
                    self.cells(),
                    self.ncols(),
                    i,
                ),
    {
        row_slices(self.data, self.rows, self.cols)
    }

    /// The columns, left to right, each as its cells top to bottom.
    pub fn iter_cols(&self) -> (r: Vec<Vec<&'a T>>)
        requires
            self.wf(),
        ensures
            r@.len() == self.ncols(),
            forall|j: int|
                0 <= j < self.ncols() ==> (#[trigger] r@[j])@.unref() == col_of(
                    self.cells(),
                    self.nrows(),
                    self.ncols(),
                    j,
                ),
    {
        col_cells_all(self.data, self.rows, self.cols)
    }

    /// Every cell, in row-major order.
    pub fn iter(&self) -> (r: &'a [T])
        ensures
            r@ == self.cells(),
    {
        self.data
    }

    /// The cells of row `row`, left to right.
    pub fn iter_row(&self, row: usize) -> (r: &'a [T])
        requires
            self.wf(),
            row < self.nrows(),
        ensures
            r@ == row_of(self.cells(), self.ncols(), row as int),
    {
        row_slice(self.data, self.rows, self.cols, row)
    }

    /// The cells of column `col`, top to bottom.
    pub fn iter_col(&self, col: usize) -> (r: Vec<&'a T>)
        requires
            self.wf(),
            col < self.ncols(),
        ensures
            r@.unref() == col_of(self.cells(), self.nrows(), self.ncols(), col as int),
    {
        col_cells(self.data, self.rows, self.cols, col)
    }

    /// An independent copy of the buffer, row-major: each cell is a clone of the one it copies.
    pub fn clone_buffer(&self) -> (r: Vec<T>) where T: Clone
        ensures
            r@.len() == self.cells().len(),
            forall|i: int| 0 <= i < r@.len() ==> cloned(self.cells()[i], #[trigger] r@[i]),
    {
        copy_cells(self.data)
    }

    /// The borrowed buffer, row-major.
    pub fn data(&self) -> (r: &'a [T])
        ensures
            r@ == self.cells(),
    {
        self.data
    }
}

} // verus!
