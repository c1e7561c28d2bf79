//! Row-major traversal of a flat buffer, shared by the matrix and its views.
use crate::layout::{
    col_of, flat_index, lemma_flat_index_bounds, lemma_row_bounds, row_of, rows_with_col,
};
use vstd::prelude::*;

verus! {

/// Whether `data` is a row-major buffer of exactly `rows * cols` cells, addressable by `usize`.
pub open spec fn is_grid<T>(data: Seq<T>, rows: nat, cols: nat) -> bool {
    &&& data.len() == rows * cols
    &&& rows * cols <= usize::MAX
}

/// The cell at (`row`, `col`).
pub fn cell<T>(data: &[T], rows: usize, cols: usize, row: usize, col: usize) -> (r: &T)
    requires
        is_grid(data@, rows as nat, cols as nat),
        row < rows,
        col < cols,
    ensures
        *r == data@[flat_index(row as int, col as int, cols as int)],
{
    proof {
        lemma_flat_index_bounds(row as int, col as int, rows as int, cols as int);
    }
    &data[row * cols + col]
}

/// Exclusive access to the cell at (`row`, `col`).
pub fn cell_mut<T>(data: &mut [T], rows: usize, cols: usize, row: usize, col: usize) -> (r: &mut T)
    requires
        is_grid(old(data)@, rows as nat, cols as nat),
        row < rows,
        col < cols,
    ensures
        *r == old(data)@[flat_index(row as int, col as int, cols as int)],
        final(data)@ == old(data)@.update(
            flat_index(row as int, col as int, cols as int),
            *final(r),
        ),
{
    proof {
        lemma_flat_index_bounds(row as int, col as int, rows as int, cols as int);
    }
    let i: usize = row * cols + col;
    &mut data[i]
}

/// The cells of row `row`, left to right.
pub fn row_slice<T>(data: &[T], rows: usize, cols: usize, row: usize) -> (r: &[T])
    requires
        is_grid(data@, rows as nat, cols as nat),
        row < rows,
    ensures
        r@ == row_of(data@, cols as nat, row as int),
{
    proof {
        lemma_row_bounds(row as int, rows as int, cols as int);
    }
    let start: usize = row * cols;
    &data[start..start + cols]
}

/// Exclusive access to the cells of row `row`; the rest of the buffer is left as it was.
pub fn row_slice_mut<T>(data: &mut [T], rows: usize, cols: usize, row: usize) -> (r: &mut [T])
    requires
        is_grid(old(data)@, rows as nat, cols as nat),
        row < rows,
    ensures
        r@ == row_of(old(data)@, cols as nat, row as int),
        final(data)@ == old(data)@.subrange(0, row * cols) + final(r)@ + old(data)@.subrange(
            row * cols + cols,
            old(data)@.len() as int,
        ),
{
    proof {
        lemma_row_bounds(row as int, rows as int, cols as int);
    }
    let start: usize = row * cols;
    let (_before, tail) = data.split_at_mut(start);
    let (mid, _after) = tail.split_at_mut(cols);
    mid
}

/// Exclusive access to every row at once, top to bottom; joined back together,
/// their final contents are the final buffer.
pub fn row_slices_mut<T>(data: &mut [T], rows: usize, cols: usize) -> (r: Vec<&mut [T]>)
    requires
        is_grid(old(data)@, rows as nat, cols as nat),
    ensures
        r@.len() == rows,
        forall|i: int| #![trigger (r@[i])@] 0 <= i < rows ==> (r@[i])@ == row_of(old(data)@, cols as nat, i),
        final(data)@ == Seq::new(rows as nat, |i: int| final(r@[i])@).flatten(),
{
    let ghost orig = data@;
    let ghost fin = final(data)@;
    let mut r: Vec<&mut [T]> = Vec::new();
    let mut rest: &mut [T] = data;
    let mut i: usize = 0;
    while i < rows
        invariant
            is_grid(orig, rows as nat, cols as nat),
            i <= rows,
            r@.len() == i,
            forall|k: int| #![trigger (r@[k])@] 0 <= k < i ==> (r@[k])@ == row_of(orig, cols as nat, k),
            rest@ == orig.subrange(i * cols, orig.len() as int),
            fin == Seq::new(i as nat, |k: int| final(r@[k])@).flatten() + final(rest)@,
        decreases rows - i,
    {
        proof {
            lemma_row_bounds(i as int, rows as int, cols as int);
        }
        let ghost done = Seq::new(i as nat, |k: int| final(r@[k])@);
        let ghost left = final(rest)@;
        let (head, tail) = rest.split_at_mut(cols);
        assert(left == final(head)@ + final(tail)@);
        r.push(head);
        rest = tail;
        proof {
            let more = Seq::new((i + 1) as nat, |k: int| final(r@[k])@);
            assert(more.drop_last() =~= done);
            more.lemma_flatten_and_flatten_alt_are_equivalent();
            done.lemma_flatten_and_flatten_alt_are_equivalent();
            assert(more.flatten() == done.flatten() + final(r@[i as int])@);
            assert(orig.subrange(i * cols + cols, orig.len() as int) =~= rest@);
        }
        i += 1;
    }
    r
}

/// Exclusive access to the cells of column `col`, top to bottom; in each row only that cell
/// may change.
pub fn col_cells_mut<T>(data: &mut [T], rows: usize, cols: usize, col: usize) -> (r: Vec<&mut T>)
    requires
        is_grid(old(data)@, rows as nat, cols as nat),
        col < cols,
    ensures
        r@.len() == rows,
        forall|i: int|
            #![trigger r@[i]]
            0 <= i < rows ==> *r@[i] == old(data)@[flat_index(i, col as int, cols as int)],
        final(data)@ == rows_with_col(
            old(data)@,
            rows as nat,
            cols as nat,
            col as int,
            Seq::new(rows as nat, |i: int| *final(r@[i])),
        ).flatten(),
{
    let ghost orig = data@;
    let ghost fin = final(data)@;
    let mut r: Vec<&mut T> = Vec::new();
    let mut rest: &mut [T] = data;
    let mut i: usize = 0;
    while i < rows
        invariant
            is_grid(orig, rows as nat, cols as nat),
            col < cols,
            i <= rows,
            r@.len() == i,
            forall|k: int|
                #![trigger r@[k]]
                0 <= k < i ==> *r@[k] == orig[flat_index(k, col as int, cols as int)],
            rest@ == orig.subrange(i * cols, orig.len() as int),
            fin == rows_with_col(
                orig,
                i as nat,
                cols as nat,
                col as int,
                Seq::new(i as nat, |k: int| *final(r@[k])),
            ).flatten() + final(rest)@,
        decreases rows - i,
    {
        proof {
            lemma_row_bounds(i as int, rows as int, cols as int);
            lemma_flat_index_bounds(i as int, col as int, rows as int, cols as int);
        }
        let ghost done = rows_with_col(
            orig,
            i as nat,
            cols as nat,
            col as int,
            Seq::new(i as nat, |k: int| *final(r@[k])),
        );
        let ghost left = final(rest)@;
        let (head, tail) = rest.split_at_mut(cols);
        let ghost row_now = head@;
        let (_skipped, from_col) = head.split_at_mut(col);
        match from_col.first_mut() {
            Some(c) => {
                r.push(c);
            },
            None => {},
        }
        rest = tail;
        proof {
            assert(row_now == row_of(orig, cols as nat, i as int));
            let more = rows_with_col(
                orig,
                (i + 1) as nat,
                cols as nat,
                col as int,
                Seq::new((i + 1) as nat, |k: int| *final(r@[k])),
            );
            assert(more.drop_last() =~= done);
            assert(more.last() =~= row_now.update(col as int, *final(r@[i as int])));
            more.lemma_flatten_and_flatten_alt_are_equivalent();
            done.lemma_flatten_and_flatten_alt_are_equivalent();
            assert(orig.subrange(i * cols + cols, orig.len() as int) =~= rest@);
        }
        i += 1;
    }
    r
}

/// Exclusive access to every column at once, left to right, each as its cells top to bottom;
/// the final buffer holds, at each cell, the final value of the reference handed out for it.
pub fn col_cells_all_mut<T>(data: &mut [T], rows: usize, cols: usize) -> (r: Vec<Vec<&mut T>>)
    requires
        is_grid(old(data)@, rows as nat, cols as nat),
    ensures
        r@.len() == cols,
        forall|c: int| 0 <= c < cols ==> (#[trigger] r@[c])@.len() == rows,
        forall|c: int, k: int|
            0 <= c < cols && 0 <= k < rows ==> *(#[trigger] r@[c]@[k]) == old(data)@[flat_index(
                k,
                c,
                cols as int,
            )],
        final(data)@ == Seq::new(
            rows as nat,
            |k: int| Seq::new(cols as nat, |c: int| *final(r@[c]@[k])),
        ).flatten(),
{
    let ghost orig = data@;
    let ghost fin = final(data)@;
    let mut r: Vec<Vec<&mut T>> = Vec::new();
    let mut j: usize = 0;
    while j < cols
        invariant
            j <= cols,
            r@.len() == j,
            forall|c: int| 0 <= c < j ==> (#[trigger] r@[c])@.len() == 0,
        decreases cols - j,
    {
        r.push(Vec::new());
        j += 1;
    }
    let mut rest: &mut [T] = data;
    let mut i: usize = 0;
    while i < rows
        invariant
            is_grid(orig, rows as nat, cols as nat),
            i <= rows,
            r@.len() == cols,
            forall|c: int| 0 <= c < cols ==> (#[trigger] r@[c])@.len() == i,
            forall|c: int, k: int|
                0 <= c < cols && 0 <= k < i ==> *(#[trigger] r@[c]@[k]) == orig[flat_index(
                    k,
                    c,
                    cols as int,
                )],
            rest@ == orig.subrange(i * cols, orig.len() as int),
            fin == Seq::new(
                i as nat,
                |k: int| Seq::new(cols as nat, |c: int| *final(r@[c]@[k])),
            ).flatten() + final(rest)@,
        decreases rows - i,
    {
        proof {
            lemma_row_bounds(i as int, rows as int, cols as int);
        }
        let ghost done = Seq::new(
            i as nat,
            |k: int| Seq::new(cols as nat, |c: int| *final(r@[c]@[k])),
        );
        let ghost left = final(rest)@;
        let (head, tail) = rest.split_at_mut(cols);
        let ghost row_fin = final(head)@;
        let ghost row_now = head@;
        let mut cur: &mut [T] = head;
        let mut j: usize = 0;
        while j < cols
            invariant
                is_grid(orig, rows as nat, cols as nat),
                i < rows,
                j <= cols,
                r@.len() == cols,
                0 <= i * cols,
                i * cols + cols <= orig.len(),
                row_now == orig.subrange(i * cols, i * cols + cols),
                done.len() == i,
                forall|k: int| 0 <= k < i ==> (#[trigger] done[k]).len() == cols,
                forall|c: int| 0 <= c < j ==> (#[trigger] r@[c])@.len() == i + 1,
                forall|c: int| j <= c < cols ==> (#[trigger] r@[c])@.len() == i,
                forall|c: int, k: int|
                    0 <= c < cols && 0 <= k < i ==> *final(#[trigger] r@[c]@[k]) == done[k][c],
                forall|c: int, k: int|
                    0 <= c < cols && 0 <= k < i ==> *(#[trigger] r@[c]@[k]) == orig[flat_index(
                        k,
                        c,
                        cols as int,
                    )],
                forall|c: int| 0 <= c < j ==> *(#[trigger] r@[c]@[i as int]) == row_now[c],
                cur@ == row_now.subrange(j as int, cols as int),
                row_fin == Seq::new(j as nat, |c: int| *final(r@[c]@[i as int])) + final(cur)@,
            decreases cols - j,
        {
            let ghost cur_fin = final(cur)@;
            let (one, after) = cur.split_at_mut(1);
            match one.first_mut() {
                Some(x) => {
                    assert(*x == row_now[j as int]);
                    let column: &mut Vec<&mut T> = &mut r[j];
                    column.push(x);
                },
                None => {},
            }
            cur = after;
            proof {
                assert(Seq::new((j + 1) as nat, |c: int| *final(r@[c]@[i as int])) =~= Seq::new(
                    j as nat,
                    |c: int| *final(r@[c]@[i as int]),
                ).push(*final(r@[j as int]@[i as int])));
            }
            j += 1;
        }
        rest = tail;
        proof {
            let more = Seq::new(
                (i + 1) as nat,
                |k: int| Seq::new(cols as nat, |c: int| *final(r@[c]@[k])),
            );
            assert forall|k: int| 0 <= k < i implies #[trigger] more.drop_last()[k] == done[k] by {
                assert(more.drop_last()[k] =~= done[k]);
            }
            assert(more.drop_last() =~= done);
            more.lemma_flatten_and_flatten_alt_are_equivalent();
            done.lemma_flatten_and_flatten_alt_are_equivalent();
            assert(orig.subrange(i * cols + cols, orig.len() as int) =~= rest@);
            assert forall|c: int, k: int|
                0 <= c < cols && 0 <= k < i + 1 implies *(#[trigger] r@[c]@[k]) == orig[flat_index(
                k,
                c,
                cols as int,
            )] by {
                if k == i {
                    lemma_flat_index_bounds(k, c, rows as int, cols as int);
                }
            }
        }
        i += 1;
    }
    r
}

/// The rows, top to bottom, each as a slice of `cols` cells.
pub fn row_slices<T>(data: &[T], rows: usize, cols: usize) -> (r: Vec<&[T]>)
    requires
        is_grid(data@, rows as nat, cols as nat),
    ensures
        r@.len() == rows,
        forall|i: int| 0 <= i < rows ==> (#[trigger] r@[i])@ == row_of(data@, cols as nat, i),
{
    let mut r: Vec<&[T]> = Vec::new();
    let mut i: usize = 0;
    while i < rows
        invariant
            is_grid(data@, rows as nat, cols as nat),
            i <= rows,
            r@.len() == i,
            forall|k: int| 0 <= k < i ==> (#[trigger] r@[k])@ == row_of(data@, cols as nat, k),
        decreases rows - i,
    {
        r.push(row_slice(data, rows, cols, i));
        i += 1;
    }
    r
}

/// The cells of column `col`, top to bottom.
pub fn col_cells<T>(data: &[T], rows: usize, cols: usize, col: usize) -> (r: Vec<&T>)
    requires
        is_grid(data@, rows as nat, cols as nat),
        col < cols,
    ensures
        r@.unref() == col_of(data@, rows as nat, cols as nat, col as int),
{
    let mut r: Vec<&T> = Vec::new();
    let mut i: usize = 0;
    while i < rows
        invariant
            is_grid(data@, rows as nat, cols as nat),
            col < cols,
            i <= rows,
            r@.len() == i,
            forall|k: int|
                0 <= k < i ==> *(#[trigger] r@[k]) == data@[flat_index(k, col as int, cols as int)],
        decreases rows - i,
    {
        r.push(cell(data, rows, cols, i, col));
        i += 1;
    }
    assert(r@.unref() =~= col_of(data@, rows as nat, cols as nat, col as int));
    r
}

/// The columns, left to right, each as its cells top to bottom.
pub fn col_cells_all<T>(data: &[T], rows: usize, cols: usize) -> (r: Vec<Vec<&T>>)
    requires
        is_grid(data@, rows as nat, cols as nat),
    ensures
        r@.len() == cols,
        forall|j: int|
            0 <= j < cols ==> (#[trigger] r@[j])@.unref() == col_of(
                data@,
                rows as nat,
                cols as nat,
                j,
            ),
{
    let mut r: Vec<Vec<&T>> = Vec::new();
    let mut j: usize = 0;
    while j < cols
        invariant
            is_grid(data@, rows as nat, cols as nat),
            j <= cols,
            r@.len() == j,
            forall|k: int|
                0 <= k < j ==> (#[trigger] r@[k])@.unref() == col_of(
                    data@,
                    rows as nat,
                    cols as nat,
                    k,
                ),
        decreases cols - j,
    {
        r.push(col_cells(data, rows, cols, j));
        j += 1;
    }
    r
}

/// An owned copy of `data`, each cell a clone of the one it copies.
pub fn copy_cells<T: Clone>(data: &[T]) -> (r: Vec<T>)
    ensures
        r@.len() == data@.len(),
        forall|i: int| 0 <= i < r@.len() ==> cloned(data@[i], #[trigger] r@[i]),
{
    let mut r: Vec<T> = Vec::new();
    let mut i: usize = 0;
    while i < data.len()
        invariant
            i <= data@.len(),
            r@.len() == i,
            forall|k: int| 0 <= k < i ==> cloned(data@[k], #[trigger] r@[k]),
        decreases data@.len() - i,
    {
        r.push(data[i].clone());
        i += 1;
    }
    r
}

} // verus!
