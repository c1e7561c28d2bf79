//! Properties that relate several operations of the matrix and its views.
use crate::layout::{flat_index, lemma_flat_index_bounds, lemma_rows_flatten, row_of, rows_of};
use crate::matrix::Matrix;
use crate::slice::MatrixSlice;
use crate::slicemut::MatrixSliceMut;
use vstd::prelude::*;

verus! {

/// Distinct cells of the grid sit at distinct positions of the buffer.
pub proof fn lemma_flat_index_injective(r1: int, c1: int, r2: int, c2: int, cols: int)
    requires
        0 <= r1,
        0 <= r2,
        0 <= c1 < cols,
        0 <= c2 < cols,
        flat_index(r1, c1, cols) == flat_index(r2, c2, cols),
    ensures
        r1 == r2,
        c1 == c2,
{
    if r1 < r2 {
        assert(r1 * cols + cols <= r2 * cols) by (nonlinear_arith)
            requires
                r1 < r2,
                0 < cols,
        ;
    } else if r2 < r1 {
        assert(r2 * cols + cols <= r1 * cols) by (nonlinear_arith)
            requires
                r2 < r1,
                0 < cols,
        ;
    }
}

/// Writing `v` into the cell at (`row`, `col`), as `get_mut` and `get_unchecked_mut` do,
/// makes that cell read `v` and leaves every other cell as it was.
pub proof fn law_write_then_read<T>(before: Matrix<T>, after: Matrix<T>, row: int, col: int, v: T)
    requires
        before.wf(),
        before.in_bounds(row, col),
        after.nrows() == before.nrows(),
        after.ncols() == before.ncols(),
        after.cells() == before.cells().update(flat_index(row, col, before.ncols() as int), v),
    ensures
        after.wf(),
        after.at(row, col) == v,
        forall|r: int, c: int|
            #![trigger after.at(r, c)]
            before.in_bounds(r, c) && (r != row || c != col) ==> after.at(r, c) == before.at(r, c),
{
    lemma_flat_index_bounds(row, col, before.nrows() as int, before.ncols() as int);
    assert forall|r: int, c: int|
        #![trigger after.at(r, c)]
        before.in_bounds(r, c) && (r != row || c != col) implies after.at(r, c) == before.at(
        r,
        c,
    ) by {
        lemma_flat_index_bounds(r, c, before.nrows() as int, before.ncols() as int);
        if flat_index(r, c, before.ncols() as int) == flat_index(row, col, before.ncols() as int) {
            lemma_flat_index_injective(r, c, row, col, before.ncols() as int);
        }
    }
}

/// The rows that `iter_rows` hands out are `rows` pieces of `cols` cells each, and joined in
/// order they give back the whole buffer: they cover it without overlap.
pub proof fn law_rows_partition<T>(m: Matrix<T>)
    requires
        m.wf(),
    ensures
        rows_of(m.cells(), m.nrows(), m.ncols()).len() == m.nrows(),
        forall|i: int|
            0 <= i < m.nrows() ==> (#[trigger] row_of(m.cells(), m.ncols(), i)).len() == m.ncols(),
        rows_of(m.cells(), m.nrows(), m.ncols()).flatten() == m.cells(),
{
    assert forall|i: int| 0 <= i < m.nrows() implies (#[trigger] row_of(
        m.cells(),
        m.ncols(),
        i,
    )).len() == m.ncols() by {
        crate::layout::lemma_row_bounds(i, m.nrows() as int, m.ncols() as int);
    }
    lemma_rows_flatten(m.cells(), m.nrows(), m.ncols());
}

/// A clone of the buffer of a matrix built from `d` is `d` again, cell for cell, whenever
/// cloning a `T` copies it exactly.
pub proof fn law_clone_round_trip<T: Clone>(d: Seq<T>, m: Matrix<T>, buf: Seq<T>)
    requires
        m.cells() == d,
        buf.len() == m.cells().len(),
        forall|i: int| 0 <= i < buf.len() ==> cloned(m.cells()[i], #[trigger] buf[i]),
        forall|a: T, b: T| #[trigger] cloned(a, b) ==> a == b,
    ensures
        buf == d,
{
    assert forall|i: int| 0 <= i < buf.len() implies buf[i] == d[i] by {
        assert(cloned(m.cells()[i], buf[i]));
    }
    assert(buf =~= d);
}

/// A read-only view reports the dimensions of its matrix and reads the same value at every
/// coordinate.
pub proof fn law_view_agrees<T>(m: Matrix<T>, v: MatrixSlice<'_, T>)
    requires
        m.wf(),
        v.nrows() == m.nrows(),
        v.ncols() == m.ncols(),
        v.cells() == m.cells(),
    ensures
        v.wf(),
        forall|r: int, c: int| v.in_bounds(r, c) <==> m.in_bounds(r, c),
        forall|r: int, c: int| #![trigger v.at(r, c)] m.in_bounds(r, c) ==> v.at(r, c) == m.at(r, c),
{
}

/// An exclusive view reports the dimensions of its matrix and reads the same value at every
/// coordinate, as the matrix stood when the view was made.
pub proof fn law_mut_view_agrees<T>(m: Matrix<T>, v: MatrixSliceMut<'_, T>)
    requires
        m.wf(),
        v.nrows() == m.nrows(),
        v.ncols() == m.ncols(),
        v.cells() == m.cells(),
    ensures
        v.wf(),
        forall|r: int, c: int| v.in_bounds(r, c) <==> m.in_bounds(r, c),
        forall|r: int, c: int| #![trigger v.at(r, c)] m.in_bounds(r, c) ==> v.at(r, c) == m.at(r, c),
{
}

} // verus!
