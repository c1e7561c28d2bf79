//! Text rendering of a matrix: rows in brackets, one per line, cells separated by `, `.
use crate::layout::row_of;
use vstd::prelude::*;
use vstd::string::StringExecFns;

verus! {

/// The texts of one row's cells, separated by `, `.
pub open spec fn join_cells(parts: Seq<Seq<char>>) -> Seq<char>
    decreases parts.len(),
{
    if parts.len() == 0 {
        Seq::empty()
    } else if parts.len() == 1 {
        parts[0]
    } else {
        join_cells(parts.drop_last()) + seq![',', ' '] + parts.last()
    }
}

/// The line of row `i` out of `rows`: the first opens the outer bracket, the last closes it.
pub open spec fn row_line(texts: Seq<Seq<char>>, rows: nat, cols: nat, i: int) -> Seq<char> {
    (if i == 0 {
        seq!['[', '[']
    } else {
        seq![' ', '[']
    }) + join_cells(row_of(texts, cols, i)) + (if i == rows - 1 {
        seq![']', ']', '\n']
    } else {
        seq![']', ',', '\n']
    })
}

/// The lines of the first `n` rows, one after another.
pub open spec fn grid_lines(texts: Seq<Seq<char>>, rows: nat, cols: nat, n: nat) -> Seq<char>
    decreases n,
{
    if n == 0 {
        Seq::empty()
    } else {
        grid_lines(texts, rows, cols, (n - 1) as nat) + row_line(texts, rows, cols, n - 1)
    }
}

/// The rendering of a `rows` by `cols` grid whose cells read `texts`, row-major.
pub open spec fn grid_text(texts: Seq<Seq<char>>, rows: nat, cols: nat) -> Seq<char> {
    grid_lines(texts, rows, cols, rows)
}

/// The views of a sequence of strings.
pub open spec fn texts_of(texts: Seq<String>) -> Seq<Seq<char>> {
    texts.map_values(|s: String| s@)
}

/// Renders a `rows` by `cols` grid whose cells read `texts`, row-major:
/// `[[a, b],\n [c, d]]\n`. An empty grid renders as the empty string.
pub fn render(rows: usize, cols: usize, texts: &[String]) -> (r: String)
    requires
        texts@.len() == rows * cols,
        rows * cols <= usize::MAX,
    ensures
        r@ == grid_text(texts_of(texts@), rows as nat, cols as nat),
{
    let ghost all = texts_of(texts@);
    let mut out = String::new();
    let mut i: usize = 0;
    while i < rows
        invariant
            texts@.len() == rows * cols,
            rows * cols <= usize::MAX,
            all == texts_of(texts@),
            i <= rows,
            out@ == grid_lines(all, rows as nat, cols as nat, i as nat),
        decreases rows - i,
    {
        proof {
            reveal_strlit("[[");
            reveal_strlit(" [");
            reveal_strlit(", ");
            reveal_strlit("]]\n");
            reveal_strlit("],\n");
            crate::layout::lemma_row_bounds(i as int, rows as int, cols as int);
        }
        let ghost before = out@;
        if i == 0 {
            out.append("[[");
        } else {
            out.append(" [");
        }
        let ghost opened = out@;
        let start: usize = i * cols;
        let mut j: usize = 0;
        while j < cols
            invariant
                texts@.len() == rows * cols,
                all == texts_of(texts@),
                i < rows,
                start == i * cols,
                start + cols <= rows * cols,
                rows * cols <= usize::MAX,
                j <= cols,
                out@ == opened + join_cells(row_of(all, cols as nat, i as int).subrange(0, j as int)),
            decreases cols - j,
        {
            proof {
                reveal_strlit(", ");
            }
            let ghost part = row_of(all, cols as nat, i as int).subrange(0, j as int + 1);
            assert(part.drop_last() =~= row_of(all, cols as nat, i as int).subrange(0, j as int));
            assert(part.last() == texts@[start + j]@);
            if j == 0 {
                out.append(texts[start].as_str());
                assert(part =~= seq![part.last()]);
            } else {
                out.append(", ");
                out.append(texts[start + j].as_str());
            }
            assert(out@ =~= opened + join_cells(part));
            j += 1;
        }
        assert(row_of(all, cols as nat, i as int).subrange(0, cols as int) =~= row_of(
            all,
            cols as nat,
            i as int,
        ));
        if i == rows - 1 {
            out.append("]]\n");
        } else {
            out.append("],\n");
        }
        assert(out@ =~= before + row_line(all, rows as nat, cols as nat, i as int));
        i += 1;
    }
    out
}

} // verus!
