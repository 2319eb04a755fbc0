//! Moving the values of row-major matrices: picking rows, picking values and
//! transposing.  The values are of any `Copy` type; the stages use them on
//! the points' coordinates, phases and estimates.

use vstd::prelude::*;
use crate::core_error::{CoreError, CoreErrorView};
use crate::text::{decimal, usize_text};

verus! {

/// The position of row `i`, column `j` in a row-major matrix with `cols`
/// columns.
pub open spec fn flat(i: int, j: int, cols: int) -> int {
    i * cols + j
}

proof fn lemma_flat_below(q: int, c: int, cols: int, p: int)
    requires
        0 <= q < p,
        0 <= c < cols,
    ensures
        0 <= flat(q, c, cols) < p * cols,
        0 <= q * cols <= flat(q, c, cols),
{
    assert(q * cols + c < (q + 1) * cols) by (nonlinear_arith)
        requires
            0 <= c < cols,
    ;
    assert((q + 1) * cols <= p * cols) by (nonlinear_arith)
        requires
            q + 1 <= p,
            0 <= cols,
    ;
    assert(0 <= q * cols) by (nonlinear_arith)
        requires
            0 <= q,
            0 <= cols,
    ;
}

proof fn lemma_next_row(p: int, cols: int)
    ensures
        p * cols + cols == (p + 1) * cols,
{
    assert(p * cols + cols == (p + 1) * cols) by (nonlinear_arith);
}

/// `out` is the transpose of the row-major matrix `values` with `rows` rows
/// and `cols` columns.
pub open spec fn is_transpose<T>(out: Seq<T>, values: Seq<T>, rows: int, cols: int) -> bool {
    &&& out.len() == rows * cols
    &&& forall|i: int, j: int|
        0 <= i < cols && 0 <= j < rows ==> #[trigger] out[flat(i, j, rows)] == values[flat(j, i, cols)]
}

/// Transposing twice gives the matrix back.
pub proof fn law_transpose_twice<T>(values: Seq<T>, once: Seq<T>, twice: Seq<T>, rows: int, cols: int)
    requires
        0 <= rows,
        0 <= cols,
        values.len() == rows * cols,
        is_transpose(once, values, rows, cols),
        is_transpose(twice, once, cols, rows),
    ensures
        twice == values,
{
    assert(cols * rows == rows * cols) by (nonlinear_arith);
    assert forall|k: int| 0 <= k < values.len() implies twice[k] == values[k] by {
        let j = k / cols;
        let i = k % cols;
        assert(cols > 0) by (nonlinear_arith)
            requires
                0 <= k < rows * cols,
                0 <= rows,
                0 <= cols,
        ;
        vstd::arithmetic::div_mod::lemma_fundamental_div_mod(k, cols);
        assert(0 <= j < rows) by (nonlinear_arith)
            requires
                0 <= k < rows * cols,
                cols > 0,
                j == k / cols,
        ;
        assert(0 <= i < cols);
        assert(flat(j, i, cols) == k);
        assert(twice[flat(j, i, cols)] == once[flat(i, j, rows)]);
    }
    assert(twice =~= values);
}

/// Picks whole rows of a row-major matrix with `cols` columns, in the given
/// order (a row may come more than once).
pub fn select_rows<T: Copy>(values: &Vec<T>, cols: usize, rows: &[usize]) -> (r: Vec<T>)
    requires
        forall|p: int| 0 <= p < rows@.len() ==> (#[trigger] rows@[p] + 1) * cols <= values@.len(),
    ensures
        r@.len() == rows@.len() * cols,
        forall|p: int, c: int|
            0 <= p < rows@.len() && 0 <= c < cols ==> #[trigger] r@[flat(p, c, cols as int)] == values@[flat(
                rows@[p] as int,
                c,
                cols as int,
            )],
{
    let n = values.len();
    let mut out: Vec<T> = Vec::new();
    let mut p: usize = 0;
    while p < rows.len()
        invariant
            n == values@.len(),
            p <= rows@.len(),
            forall|q: int| 0 <= q < rows@.len() ==> (#[trigger] rows@[q] + 1) * cols <= values@.len(),
            out@.len() == p * cols,
            forall|q: int, c: int|
                0 <= q < p && 0 <= c < cols ==> #[trigger] out@[flat(q, c, cols as int)] == values@[flat(
                    rows@[q] as int,
                    c,
                    cols as int,
                )],
        decreases rows@.len() - p,
    {
        let row = rows[p];
        proof {
            assert((rows@[p as int] + 1) * cols <= values@.len());
            lemma_next_row(row as int, cols as int);
            assert(0 <= row * cols) by (nonlinear_arith);
        }
        let base = row * cols;
        let ghost start = out@.len();
        let mut c: usize = 0;
        while c < cols
            invariant
                n == values@.len(),
                p < rows@.len(),
                row == rows@[p as int],
                base == row * cols,
                base + cols <= values@.len(),
                c <= cols,
                start == p * cols,
                out@.len() == start + c,
                forall|q: int, c2: int|
                    0 <= q < p && 0 <= c2 < cols ==> #[trigger] out@[flat(q, c2, cols as int)] == values@[flat(
                        rows@[q] as int,
                        c2,
                        cols as int,
                    )],
                forall|c2: int| 0 <= c2 < c ==> #[trigger] out@[start + c2] == values@[base + c2],
            decreases cols - c,
        {
            let ghost before = out@;
            out.push(values[base + c]);
            proof {
                assert forall|q: int, c2: int| 0 <= q < p && 0 <= c2 < cols implies #[trigger] out@[flat(
                    q,
                    c2,
                    cols as int,
                )] == values@[flat(rows@[q] as int, c2, cols as int)] by {
                    lemma_flat_below(q, c2, cols as int, p as int);
                    assert(out@[flat(q, c2, cols as int)] == before[flat(q, c2, cols as int)]);
                }
            }
            c = c + 1;
        }
        proof {
            lemma_next_row(p as int, cols as int);
            assert forall|q: int, c2: int| 0 <= q < p + 1 && 0 <= c2 < cols implies #[trigger] out@[flat(
                q,
                c2,
                cols as int,
            )] == values@[flat(rows@[q] as int, c2, cols as int)] by {
                if q == p {
                    assert(flat(q, c2, cols as int) == start + c2);
                }
            }
        }
        p = p + 1;
    }
    out
}

/// Picks values by position, in the given order.
pub fn select_values<T: Copy>(values: &[T], positions: &[usize]) -> (r: Vec<T>)
    requires
        forall|k: int| 0 <= k < positions@.len() ==> #[trigger] positions@[k] < values@.len(),
    ensures
        r@.len() == positions@.len(),
        forall|k: int| 0 <= k < positions@.len() ==> #[trigger] r@[k] == values@[positions@[k] as int],
{
    let mut out: Vec<T> = Vec::new();
    let mut k: usize = 0;
    while k < positions.len()
        invariant
            k <= positions@.len(),
            forall|j: int| 0 <= j < positions@.len() ==> #[trigger] positions@[j] < values@.len(),
            out@.len() == k,
            forall|j: int| 0 <= j < k ==> #[trigger] out@[j] == values@[positions@[j] as int],
        decreases positions@.len() - k,
    {
        out.push(values[positions[k]]);
        k = k + 1;
    }
    out
}

/// Transposes a row-major matrix with `rows` rows and `cols` columns into
/// one with `cols` rows and `rows` columns.
pub fn transpose<T: Copy>(values: &Vec<T>, rows: usize, cols: usize) -> (r: Vec<T>)
    requires
        values@.len() == rows * cols,
    ensures
        is_transpose(r@, values@, rows as int, cols as int),
{
    let n = values.len();
    let mut out: Vec<T> = Vec::new();
    let mut i: usize = 0;
    proof {
        assert(rows * cols == cols * rows) by (nonlinear_arith);
    }
    while i < cols
        invariant
            n == values@.len(),
            i <= cols,
            values@.len() == rows * cols,
            out@.len() == i * rows,
            forall|i2: int, j: int|
                0 <= i2 < i && 0 <= j < rows ==> #[trigger] out@[flat(i2, j, rows as int)] == values@[flat(
                    j,
                    i2,
                    cols as int,
                )],
        decreases cols - i,
    {
        let ghost start = out@.len();
        let mut j: usize = 0;
        while j < rows
            invariant
                n == values@.len(),
                i < cols,
                j <= rows,
                values@.len() == rows * cols,
                start == i * rows,
                out@.len() == start + j,
                forall|i2: int, j2: int|
                    0 <= i2 < i && 0 <= j2 < rows ==> #[trigger] out@[flat(i2, j2, rows as int)] == values@[flat(
                        j2,
                        i2,
                        cols as int,
                    )],
                forall|j2: int| 0 <= j2 < j ==> #[trigger] out@[start + j2] == values@[flat(j2, i as int, cols as int)],
            decreases rows - j,
        {
            proof {
                lemma_flat_below(j as int, i as int, cols as int, rows as int);
            }
            let ghost before = out@;
            out.push(values[j * cols + i]);
            proof {
                assert forall|i2: int, j2: int| 0 <= i2 < i && 0 <= j2 < rows implies #[trigger] out@[flat(
                    i2,
                    j2,
                    rows as int,
                )] == values@[flat(j2, i2, cols as int)] by {
                    lemma_flat_below(i2, j2, rows as int, i as int);
                    assert(out@[flat(i2, j2, rows as int)] == before[flat(i2, j2, rows as int)]);
                }
            }
            j = j + 1;
        }
        proof {
            lemma_next_row(i as int, rows as int);
            assert forall|i2: int, j2: int| 0 <= i2 < i + 1 && 0 <= j2 < rows implies #[trigger] out@[flat(
                i2,
                j2,
                rows as int,
            )] == values@[flat(j2, i2, cols as int)] by {
                if i2 == i {
                    assert(flat(i2, j2, rows as int) == start + j2);
                }
            }
        }
        i = i + 1;
    }
    proof {
        assert(cols * rows == rows * cols) by (nonlinear_arith);
    }
    out
}

/// The message for a matrix that has the points in neither of its
/// dimensions.
pub open spec fn shape_message(label: Seq<char>, rows: usize, cols: usize, n_ps: usize) -> Seq<char> {
    label + " has incompatible shape "@ + decimal(rows as nat) + "x"@ + decimal(cols as nat) + " for n_ps="@ + decimal(
        n_ps as nat,
    )
}

/// Puts the points of a row-major matrix in its rows: keeps it when it has a
/// row per point, transposes it when it has a column per point, and refuses
/// it, as an error of the given stage, otherwise.
pub fn orient_points<T: Copy>(values: Vec<T>, rows: usize, cols: usize, n_ps: usize, label: &str, stage: u8) -> (r: Result<
    (Vec<T>, usize, usize),
    CoreError,
>)
    requires
        values@.len() == rows * cols,
    ensures
        r is Ok <==> (rows == n_ps || cols == n_ps),
        match r {
            Ok(t) => if rows == n_ps {
                t.0@ == values@ && t.1 == rows && t.2 == cols
            } else {
                &&& t.1 == cols
                &&& t.2 == rows
                &&& t.0@.len() == rows * cols
                &&& forall|i: int, j: int|
                    0 <= i < cols && 0 <= j < rows ==> #[trigger] t.0@[flat(i, j, rows as int)] == values@[flat(
                        j,
                        i,
                        cols as int,
                    )]
            },
            Err(e) => e@ == (CoreErrorView::NativeStage { stage, message: shape_message(label@, rows, cols, n_ps) }),
        },
{
    if rows == n_ps {
        Ok((values, rows, cols))
    } else if cols == n_ps {
        let out = transpose(&values, rows, cols);
        Ok((out, cols, rows))
    } else {
        let mut m = String::from_str(label);
        m.append(" has incompatible shape ");
        m.append(usize_text(rows).as_str());
        m.append("x");
        m.append(usize_text(cols).as_str());
        m.append(" for n_ps=");
        m.append(usize_text(n_ps).as_str());
        Err(CoreError::NativeStage { stage, message: m })
    }
}

} // verus!
