//! The cells of the filtering grid: each point's 1-based cell `(i, j)`, with
//! the outermost row and column of cells folded into their neighbours, the
//! extent of the grid, and each point's cell numbered row by row.

use vstd::prelude::*;

verus! {

/// The largest of the values, and at least 1.
pub open spec fn top(s: Seq<usize>) -> nat
    decreases s.len(),
{
    if s.len() == 0 {
        1
    } else {
        let rest = top(s.drop_last());
        if s.last() > rest {
            s.last() as nat
        } else {
            rest
        }
    }
}

/// The first coordinates of the cells.
pub open spec fn firsts(cells: Seq<(usize, usize)>) -> Seq<usize> {
    cells.map_values(|c: (usize, usize)| c.0)
}

/// The second coordinates of the cells.
pub open spec fn seconds(cells: Seq<(usize, usize)>) -> Seq<usize> {
    cells.map_values(|c: (usize, usize)| c.1)
}

/// A coordinate with the outermost value `t` folded into the one before,
/// when there is one before.
pub open spec fn fold_top(v: usize, t: nat) -> usize {
    if t > 1 && v == t {
        (v - 1) as usize
    } else {
        v
    }
}

/// The cells with their outermost row and column folded in.
pub open spec fn folded_cells(raw: Seq<(usize, usize)>) -> Seq<(usize, usize)> {
    let ti = top(firsts(raw));
    let tj = top(seconds(raw));
    raw.map_values(|c: (usize, usize)| (fold_top(c.0, ti), fold_top(c.1, tj)))
}

/// The cells of the points with the grid's extent.
pub struct GridCells {
    pub cells: Vec<(usize, usize)>,
    pub n_i: usize,
    pub n_j: usize,
}

proof fn lemma_top_step(s: Seq<usize>, k: int)
    requires
        0 < k <= s.len(),
    ensures
        top(s.take(k)) == if s[k - 1] > top(s.take(k - 1)) {
            s[k - 1] as nat
        } else {
            top(s.take(k - 1))
        },
{
    assert(s.take(k).drop_last() =~= s.take(k - 1));
}

/// The largest first and second coordinates of the cells, at least 1.
fn tops(cells: &Vec<(usize, usize)>) -> (r: (usize, usize))
    ensures
        r.0 == top(firsts(cells@)),
        r.1 == top(seconds(cells@)),
{
    let ghost fs = firsts(cells@);
    let ghost ss = seconds(cells@);
    let mut ti: usize = 1;
    let mut tj: usize = 1;
    let mut k: usize = 0;
    while k < cells.len()
        invariant
            k <= cells@.len(),
            fs == firsts(cells@),
            ss == seconds(cells@),
            ti == top(fs.take(k as int)),
            tj == top(seconds(cells@).take(k as int)),
        decreases cells@.len() - k,
    {
        proof {
            lemma_top_step(fs, k + 1);
            lemma_top_step(ss, k + 1);
        }
        let (a, b) = cells[k];
        if a > ti {
            ti = a;
        }
        if b > tj {
            tj = b;
        }
        k = k + 1;
    }
    proof {
        assert(fs.take(cells@.len() as int) =~= fs);
        assert(ss.take(cells@.len() as int) =~= ss);
    }
    (ti, tj)
}

/// Folds the outermost row and column of cells into their neighbours, and
/// gives the grid's extent: the largest folded coordinates, at least 1.
pub fn fold_grid_cells(raw: &Vec<(usize, usize)>) -> (r: GridCells)
    ensures
        r.cells@ == folded_cells(raw@),
        r.n_i == top(firsts(r.cells@)),
        r.n_j == top(seconds(r.cells@)),
{
    let (ti, tj) = tops(raw);
    let ghost want = folded_cells(raw@);
    let mut cells: Vec<(usize, usize)> = Vec::new();
    let mut k: usize = 0;
    while k < raw.len()
        invariant
            k <= raw@.len(),
            ti == top(firsts(raw@)),
            tj == top(seconds(raw@)),
            want == folded_cells(raw@),
            cells@.len() == k,
            forall|j: int| 0 <= j < k ==> #[trigger] cells@[j] == want[j],
        decreases raw@.len() - k,
    {
        let (a, b) = raw[k];
        let fa = if ti > 1 && a == ti {
            a - 1
        } else {
            a
        };
        let fb = if tj > 1 && b == tj {
            b - 1
        } else {
            b
        };
        cells.push((fa, fb));
        k = k + 1;
    }
    assert(cells@ =~= want);
    let (n_i, n_j) = tops(&cells);
    GridCells { cells, n_i, n_j }
}

proof fn lemma_cell_below(i: int, j: int, n_i: int, n_j: int)
    requires
        1 <= i <= n_i,
        1 <= j <= n_j,
    ensures
        0 <= (i - 1) * n_j + (j - 1) < n_i * n_j,
        0 <= (i - 1) * n_j,
{
    assert((i - 1) * n_j + (j - 1) < n_i * n_j) by (nonlinear_arith)
        requires
            1 <= i <= n_i,
            1 <= j <= n_j,
    ;
    assert(0 <= (i - 1) * n_j) by (nonlinear_arith)
        requires
            1 <= i,
            1 <= j <= n_j,
    ;
}

/// Numbers each point's cell row by row, from 0: cell `(i, j)` of a grid
/// with `n_j` columns is `(i - 1) * n_j + (j - 1)`.
pub fn row_major_cells(cells: &Vec<(usize, usize)>, n_i: usize, n_j: usize) -> (r: Vec<usize>)
    requires
        forall|k: int| 0 <= k < cells@.len() ==> 1 <= (#[trigger] cells@[k]).0 <= n_i && 1 <= cells@[k].1 <= n_j,
        n_i * n_j <= usize::MAX,
    ensures
        r@.len() == cells@.len(),
        forall|k: int|
            0 <= k < cells@.len() ==> #[trigger] r@[k] == (cells@[k].0 - 1) * n_j + (cells@[k].1 - 1),
{
    let mut out: Vec<usize> = Vec::new();
    let mut k: usize = 0;
    while k < cells.len()
        invariant
            k <= cells@.len(),
            forall|q: int| 0 <= q < cells@.len() ==> 1 <= (#[trigger] cells@[q]).0 <= n_i && 1 <= cells@[q].1 <= n_j,
            n_i * n_j <= usize::MAX,
            out@.len() == k,
            forall|q: int| 0 <= q < k ==> #[trigger] out@[q] == (cells@[q].0 - 1) * n_j + (cells@[q].1 - 1),
        decreases cells@.len() - k,
    {
        let (i, j) = cells[k];
        proof {
            assert(1 <= cells@[k as int].0 <= n_i);
            lemma_cell_below(i as int, j as int, n_i as int, n_j as int);
        }
        out.push((i - 1) * n_j + (j - 1));
        k = k + 1;
    }
    out
}

} // verus!
