use vstd::prelude::*;

verus! {

/// Position in the flat buffer of the cell at (`row`, `col`) when each row holds `cols` cells.
pub open spec fn flat_index(row: int, col: int, cols: int) -> int {
    row * cols + col
}

/// Logical row `row` of a row-major buffer whose rows hold `cols` cells.
pub open spec fn row_of<T>(cells: Seq<T>, cols: nat, row: int) -> Seq<T> {
    cells.subrange(row * cols, row * cols + cols)
}

/// Logical column `col` of a row-major buffer with `rows` rows of `cols` cells, top to bottom.
pub open spec fn col_of<T>(cells: Seq<T>, rows: nat, cols: nat, col: int) -> Seq<T> {
    Seq::new(rows, |r: int| cells[flat_index(r, col, cols as int)])
}

/// All logical rows of a row-major buffer, in order.
pub open spec fn rows_of<T>(cells: Seq<T>, rows: nat, cols: nat) -> Seq<Seq<T>> {
    Seq::new(rows, |r: int| row_of(cells, cols, r))
}

/// The rows of a row-major buffer after the cell of column `col` in row `r` became `vals[r]`.
pub open spec fn rows_with_col<T>(cells: Seq<T>, rows: nat, cols: nat, col: int, vals: Seq<T>) -> Seq<
    Seq<T>,
> {
    Seq::new(rows, |r: int| row_of(cells, cols, r).update(col, vals[r]))
}

/// A cell inside the grid lands inside the buffer.
pub proof fn lemma_flat_index_bounds(row: int, col: int, rows: int, cols: int)
    requires
        0 <= row < rows,
        0 <= col < cols,
    ensures
        0 <= flat_index(row, col, cols) < rows * cols,
{
    assert(0 <= row * cols + col < rows * cols) by (nonlinear_arith)
        requires
            0 <= row < rows,
            0 <= col < cols,
    ;
}

/// A whole row inside the grid lies inside the buffer.
pub proof fn lemma_row_bounds(row: int, rows: int, cols: int)
    requires
        0 <= row < rows,
        0 <= cols,
    ensures
        0 <= row * cols,
        row * cols + cols <= rows * cols,
        (row + 1) * cols == row * cols + cols,
{
    assert(0 <= row * cols && row * cols + cols <= rows * cols) by (nonlinear_arith)
        requires
            0 <= row < rows,
            0 <= cols,
    ;
    assert((row + 1) * cols == row * cols + cols) by (nonlinear_arith);
}

/// Cutting a buffer of `rows * cols` cells into its rows and joining them back gives the buffer.
pub proof fn lemma_rows_flatten<T>(cells: Seq<T>, rows: nat, cols: nat)
    requires
        cells.len() == rows * cols,
    ensures
        rows_of(cells, rows, cols).flatten() == cells,
    decreases rows,
{
    if rows == 0 {
        assert(cells.len() == 0) by (nonlinear_arith)
            requires
                cells.len() == rows * cols,
                rows == 0,
        ;
        assert(cells =~= Seq::<T>::empty());
    } else {
        lemma_row_bounds(0, rows as int, cols as int);
        let rest = cells.subrange(cols as int, cells.len() as int);
        assert(rest.len() == (rows - 1) * cols) by (nonlinear_arith)
            requires
                cells.len() == rows * cols,
                rest.len() == cells.len() - cols,
        ;
        lemma_rows_flatten(rest, (rows - 1) as nat, cols);
        let all = rows_of(cells, rows, cols);
        assert forall|r: int| 0 <= r < rows - 1 implies #[trigger] all.drop_first()[r] == rows_of(
            rest,
            (rows - 1) as nat,
            cols,
        )[r] by {
            lemma_row_bounds(r, rows - 1, cols as int);
            lemma_row_bounds(r + 1, rows as int, cols as int);
            assert(row_of(cells, cols, r + 1) =~= row_of(rest, cols, r));
        }
        assert(all.drop_first() =~= rows_of(rest, (rows - 1) as nat, cols));
        assert(all.first() =~= cells.subrange(0, cols as int));
        assert(cells =~= all.first() + rest);
    }
}

} // verus!
