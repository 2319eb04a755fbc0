//! The unwrap grid of stage 6: which cells of the grid hold points, which
//! of them are kept (those whose summed phase is not zero), where the kept
//! cells stand in the `nzix` mask and the `ij` table, and the grid node of
//! each point.

use vstd::prelude::*;

verus! {

/// The cell `(i, j)` (1-based) numbered column by column, from 0.
pub open spec fn column_major(cell: (usize, usize), n_i: usize) -> int {
    (cell.1 - 1) * n_i + (cell.0 - 1)
}

/// Some point lies in the cell numbered `c`.
pub open spec fn occupied(lin: Seq<usize>, c: int) -> bool {
    exists|p: int| 0 <= p < lin.len() && lin[p] == c
}

/// The cell numbered `c` is kept: a point lies in it and its phase is not
/// zero.
pub open spec fn kept_cell(lin: Seq<usize>, nonzero: Seq<bool>, c: int) -> bool {
    occupied(lin, c) && nonzero[c]
}

/// The entry of a row-major mask with `n_j` columns at `(row, col)`, from 0.
pub open spec fn mask_at(mask: Seq<bool>, n_j: usize, row: int, col: int) -> bool {
    mask[row * n_j + col]
}

/// Where the kept cells of the unwrap grid stand.
pub struct UwGridLayout {
    /// The cell of each point, numbered column by column from 0.
    pub lin: Vec<usize>,
    /// The kept cells, in increasing order of their numbers; the `k`-th
    /// grid point is the `k`-th of them.
    pub kept: Vec<usize>,
    /// The `n_i x n_j` mask of the kept cells, row by row.
    pub nzix: Vec<bool>,
    /// The 1-based cell `(i, j)` of each grid point.
    pub ij: Vec<(usize, usize)>,
}

proof fn lemma_index_below(a: int, b: int, n_a: int, n_b: int)
    requires
        0 <= a < n_a,
        0 <= b < n_b,
    ensures
        0 <= a * n_b,
        a * n_b + b < n_a * n_b,
        a * n_b + n_b <= n_a * n_b,
{
    assert(0 <= a * n_b) by (nonlinear_arith)
        requires
            0 <= a,
            0 <= b < n_b,
    ;
    assert(a * n_b + n_b <= n_a * n_b) by (nonlinear_arith)
        requires
            0 <= a < n_a,
            0 <= b < n_b,
    ;
}

proof fn lemma_earlier_row(r1: int, c1: int, r2: int, n_j: int)
    requires
        0 <= r1 < r2,
        0 <= c1 < n_j,
    ensures
        r1 * n_j + c1 < r2 * n_j,
{
    assert(r1 * n_j + n_j <= r2 * n_j) by (nonlinear_arith)
        requires
            0 <= r1 < r2,
            0 <= c1 < n_j,
    ;
}

/// Numbers each point's 1-based cell `(i, j)` of an `n_i x n_j` grid column
/// by column, from 0.
pub fn column_major_cells(cells: &Vec<(usize, usize)>, n_i: usize, n_j: usize) -> (r: Vec<usize>)
    requires
        forall|p: int| 0 <= p < cells@.len() ==> 1 <= (#[trigger] cells@[p]).0 <= n_i && 1 <= cells@[p].1 <= n_j,
        n_i * n_j <= usize::MAX,
    ensures
        r@.len() == cells@.len(),
        forall|p: int| 0 <= p < cells@.len() ==> #[trigger] r@[p] == column_major(cells@[p], n_i) && r@[p] < n_i * n_j,
{
    let mut lin: Vec<usize> = Vec::new();
    let mut p: usize = 0;
    while p < cells.len()
        invariant
            p <= cells@.len(),
            n_i * n_j <= usize::MAX,
            forall|q: int| 0 <= q < cells@.len() ==> 1 <= (#[trigger] cells@[q]).0 <= n_i && 1 <= cells@[q].1 <= n_j,
            lin@.len() == p,
            forall|q: int| 0 <= q < p ==> #[trigger] lin@[q] == column_major(cells@[q], n_i) && lin@[q] < n_i * n_j,
        decreases cells@.len() - p,
    {
        let (i, j) = cells[p];
        assert(1 <= cells@[p as int].0 <= n_i);
        proof {
            lemma_index_below(j - 1, i - 1, n_j as int, n_i as int);
            assert(n_j * n_i == n_i * n_j) by (nonlinear_arith);
        }
        lin.push((j - 1) * n_i + (i - 1));
        p = p + 1;
    }
    lin
}

/// Lays out the unwrap grid: `cells` are the points' 1-based cells of the
/// `n_i x n_j` grid and `cell_nonzero` says, for each cell numbered column by
/// column, whether the summed phase of its points is not zero.
pub fn uw_grid_layout(cells: &Vec<(usize, usize)>, n_i: usize, n_j: usize, cell_nonzero: &Vec<bool>) -> (r: UwGridLayout)
    requires
        forall|p: int| 0 <= p < cells@.len() ==> 1 <= (#[trigger] cells@[p]).0 <= n_i && 1 <= cells@[p].1 <= n_j,
        n_i * n_j <= usize::MAX,
        cell_nonzero@.len() == n_i * n_j,
    ensures
        r.lin@.len() == cells@.len(),
        forall|p: int| 0 <= p < cells@.len() ==> #[trigger] r.lin@[p] == column_major(cells@[p], n_i),
        forall|k: int|
            0 <= k < r.kept@.len() ==> #[trigger] r.kept@[k] < n_i * n_j && kept_cell(r.lin@, cell_nonzero@, r.kept@[k] as int),
        forall|a: int, b: int| 0 <= a < b < r.kept@.len() ==> #[trigger] r.kept@[a] < #[trigger] r.kept@[b],
        forall|c: int| 0 <= c < n_i * n_j && #[trigger] kept_cell(r.lin@, cell_nonzero@, c) ==> r.kept@.contains(c as usize),
        r.nzix@.len() == n_i * n_j,
        forall|row: int, col: int|
            0 <= row < n_i && 0 <= col < n_j ==> #[trigger] mask_at(r.nzix@, n_j, row, col) == kept_cell(
                r.lin@,
                cell_nonzero@,
                col * n_i + row,
            ),
        r.ij@.len() == r.kept@.len(),
        forall|k: int|
            0 <= k < r.kept@.len() ==> #[trigger] r.ij@[k] == ((r.kept@[k] % n_i + 1) as usize, (r.kept@[k] / n_i + 1) as usize),
{
    let n_cells = n_i * n_j;
    let lin = column_major_cells(cells, n_i, n_j);
    let mut occ: Vec<bool> = Vec::new();
    let mut c: usize = 0;
    while c < n_cells
        invariant
            c <= n_cells,
            occ@.len() == c,
            forall|k: int| 0 <= k < c ==> !#[trigger] occ@[k],
        decreases n_cells - c,
    {
        occ.push(false);
        c = c + 1;
    }
    let mut p: usize = 0;
    while p < lin.len()
        invariant
            p <= lin@.len(),
            occ@.len() == n_cells,
            forall|q: int| 0 <= q < lin@.len() ==> #[trigger] lin@[q] < n_cells,
            forall|k: int| 0 <= k < n_cells ==> (#[trigger] occ@[k] <==> exists|q: int| 0 <= q < p && lin@[q] == k),
        decreases lin@.len() - p,
    {
        let at = lin[p];
        occ.set(at, true);
        proof {
            assert forall|k: int| 0 <= k < n_cells implies (#[trigger] occ@[k] <==> exists|q: int| 0 <= q < p + 1 && lin@[q] == k) by {
                if k == at {
                    assert(lin@[p as int] == k);
                }
            }
        }
        p = p + 1;
    }
    assert forall|k: int| 0 <= k < n_cells implies (#[trigger] occ@[k] <==> occupied(lin@, k)) by {}
    let mut kept: Vec<usize> = Vec::new();
    let mut inkept: Vec<bool> = Vec::new();
    let mut c: usize = 0;
    while c < n_cells
        invariant
            c <= n_cells,
            occ@.len() == n_cells,
            cell_nonzero@.len() == n_cells,
            forall|k: int| 0 <= k < n_cells ==> (#[trigger] occ@[k] <==> occupied(lin@, k)),
            inkept@.len() == c,
            forall|k: int| 0 <= k < c ==> #[trigger] inkept@[k] == kept_cell(lin@, cell_nonzero@, k),
            forall|k: int| 0 <= k < kept@.len() ==> #[trigger] kept@[k] < c && kept_cell(lin@, cell_nonzero@, kept@[k] as int),
            forall|a: int, b: int| 0 <= a < b < kept@.len() ==> #[trigger] kept@[a] < #[trigger] kept@[b],
            forall|k: int| 0 <= k < c && #[trigger] kept_cell(lin@, cell_nonzero@, k) ==> kept@.contains(k as usize),
        decreases n_cells - c,
    {
        let keep = occ[c] && cell_nonzero[c];
        let ghost before = kept@;
        if keep {
            kept.push(c);
            proof {
                assert forall|k: int| 0 <= k < c && #[trigger] kept_cell(lin@, cell_nonzero@, k) implies kept@.contains(
                    k as usize,
                ) by {
                    let w = choose|w: int| 0 <= w < before.len() && before[w] == k as usize;
                    assert(kept@[w] == k as usize);
                }
                assert(kept@[before.len() as int] == c);
            }
        }
        inkept.push(keep);
        c = c + 1;
    }
    let mut nzix: Vec<bool> = Vec::new();
    let mut row: usize = 0;
    while row < n_i
        invariant
            row <= n_i,
            n_cells == n_i * n_j,
            inkept@.len() == n_cells,
            forall|k: int| 0 <= k < n_cells ==> #[trigger] inkept@[k] == kept_cell(lin@, cell_nonzero@, k),
            nzix@.len() == row * n_j,
            forall|r1: int, c1: int|
                0 <= r1 < row && 0 <= c1 < n_j ==> #[trigger] mask_at(nzix@, n_j, r1, c1) == kept_cell(
                    lin@,
                    cell_nonzero@,
                    c1 * n_i + r1,
                ),
        decreases n_i - row,
    {
        let mut col: usize = 0;
        while col < n_j
            invariant
                row < n_i,
                col <= n_j,
                n_cells == n_i * n_j,
                inkept@.len() == n_cells,
                forall|k: int| 0 <= k < n_cells ==> #[trigger] inkept@[k] == kept_cell(lin@, cell_nonzero@, k),
                nzix@.len() == row * n_j + col,
                forall|r1: int, c1: int|
                    0 <= r1 < row && 0 <= c1 < n_j ==> #[trigger] mask_at(nzix@, n_j, r1, c1) == kept_cell(
                        lin@,
                        cell_nonzero@,
                        c1 * n_i + r1,
                    ),
                forall|c1: int| 0 <= c1 < col ==> #[trigger] mask_at(nzix@, n_j, row as int, c1) == kept_cell(
                    lin@,
                    cell_nonzero@,
                    c1 * n_i + row,
                ),
            decreases n_j - col,
        {
            proof {
                lemma_index_below(col as int, row as int, n_j as int, n_i as int);
                lemma_index_below(row as int, col as int, n_i as int, n_j as int);
                assert(n_j * n_i == n_i * n_j) by (nonlinear_arith);
            }
            let ghost before = nzix@;
            nzix.push(inkept[col * n_i + row]);
            proof {
                assert forall|r1: int, c1: int| 0 <= r1 < row && 0 <= c1 < n_j implies #[trigger] mask_at(nzix@, n_j, r1, c1)
                    == kept_cell(lin@, cell_nonzero@, c1 * n_i + r1) by {
                    lemma_earlier_row(r1, c1, row as int, n_j as int);
                    assert(mask_at(before, n_j, r1, c1) == kept_cell(lin@, cell_nonzero@, c1 * n_i + r1));
                }
                assert forall|c1: int| 0 <= c1 < col + 1 implies #[trigger] mask_at(nzix@, n_j, row as int, c1) == kept_cell(
                    lin@,
                    cell_nonzero@,
                    c1 * n_i + row,
                ) by {
                    if c1 < col {
                        assert(mask_at(before, n_j, row as int, c1) == kept_cell(lin@, cell_nonzero@, c1 * n_i + row));
                    }
                }
            }
            col = col + 1;
        }
        proof {
            assert((row + 1) * n_j == row * n_j + n_j) by (nonlinear_arith);
        }
        row = row + 1;
    }
    proof {
        assert(row * n_j == n_i * n_j);
    }
    let mut ij: Vec<(usize, usize)> = Vec::new();
    let mut k: usize = 0;
    while k < kept.len()
        invariant
            k <= kept@.len(),
            n_cells == n_i * n_j,
            forall|q: int| 0 <= q < kept@.len() ==> #[trigger] kept@[q] < n_cells,
            ij@.len() == k,
            forall|q: int| 0 <= q < k ==> #[trigger] ij@[q] == ((kept@[q] % n_i + 1) as usize, (kept@[q] / n_i + 1) as usize),
        decreases kept@.len() - k,
    {
        let at = kept[k];
        assert(at < n_cells);
        assert(n_i > 0) by {
            if n_i == 0 {
                assert(n_i * n_j == 0);
            }
        }
        assert(at / n_i <= at) by (nonlinear_arith)
            requires
                n_i > 0,
        ;
        ij.push((at % n_i + 1, at / n_i + 1));
        k = k + 1;
    }
    UwGridLayout { lin, kept, nzix, ij }
}

/// The number of set flags.
pub open spec fn count_true(s: Seq<bool>) -> nat
    decreases s.len(),
{
    if s.len() == 0 {
        0
    } else {
        count_true(s.drop_last()) + if s.last() {
            1nat
        } else {
            0nat
        }
    }
}

/// The grid node (0-based) of a point in the 1-based cell `cell`: the
/// number of kept cells before it, row by row, when its cell lies in the
/// grid and is kept.
pub open spec fn grid_node(nzix: Seq<bool>, n_i: usize, n_j: usize, cell: (i64, i64)) -> Option<usize> {
    if 1 <= cell.0 <= n_i && 1 <= cell.1 <= n_j && mask_at(nzix, n_j, cell.0 - 1, cell.1 - 1) {
        Some(count_true(nzix.take((cell.0 - 1) * n_j + (cell.1 - 1))) as usize)
    } else {
        None
    }
}

proof fn lemma_count_true_step(s: Seq<bool>, k: int)
    requires
        0 <= k < s.len(),
    ensures
        count_true(s.take(k + 1)) == count_true(s.take(k)) + if s[k] {
            1nat
        } else {
            0nat
        },
        count_true(s.take(k)) <= k,
    decreases k,
{
    assert(s.take(k + 1).drop_last() =~= s.take(k));
    if k > 0 {
        lemma_count_true_step(s, k - 1);
    }
}

/// The grid node of each point, from the kept-cell mask of an `n_i x n_j`
/// grid and the points' 1-based cells.
pub fn grid_nodes(nzix: &Vec<bool>, n_i: usize, n_j: usize, cells: &Vec<(i64, i64)>) -> (r: Vec<Option<usize>>)
    requires
        nzix@.len() == n_i * n_j,
        n_i * n_j <= usize::MAX,
    ensures
        r@.len() == cells@.len(),
        forall|p: int| 0 <= p < cells@.len() ==> #[trigger] r@[p] == grid_node(nzix@, n_i, n_j, cells@[p]),
{
    let n_cells = nzix.len();
    let mut before: Vec<usize> = Vec::new();
    let mut count: usize = 0;
    let mut k: usize = 0;
    while k < n_cells
        invariant
            k <= n_cells,
            n_cells == nzix@.len(),
            before@.len() == k,
            count == count_true(nzix@.take(k as int)),
            count <= k,
            forall|q: int| 0 <= q < k ==> #[trigger] before@[q] == count_true(nzix@.take(q)),
        decreases n_cells - k,
    {
        proof {
            lemma_count_true_step(nzix@, k as int);
        }
        before.push(count);
        if nzix[k] {
            count = count + 1;
        }
        k = k + 1;
    }
    let mut out: Vec<Option<usize>> = Vec::new();
    let mut p: usize = 0;
    while p < cells.len()
        invariant
            p <= cells@.len(),
            n_cells == nzix@.len(),
            n_cells == n_i * n_j,
            n_i * n_j <= usize::MAX,
            before@.len() == n_cells,
            forall|q: int| 0 <= q < n_cells ==> #[trigger] before@[q] == count_true(nzix@.take(q)),
            out@.len() == p,
            forall|q: int| 0 <= q < p ==> #[trigger] out@[q] == grid_node(nzix@, n_i, n_j, cells@[q]),
        decreases cells@.len() - p,
    {
        let (i, j) = cells[p];
        let inside = i >= 1 && j >= 1 && (i as u64) <= (n_i as u64) && (j as u64) <= (n_j as u64);
        let node = if inside {
            let a = (i - 1) as usize;
            let b = (j - 1) as usize;
            proof {
                lemma_index_below(a as int, b as int, n_i as int, n_j as int);
            }
            let at = a * n_j + b;
            if nzix[at] {
                Some(before[at])
            } else {
                None
            }
        } else {
            None
        };
        out.push(node);
        p = p + 1;
    }
    out
}

} // verus!
