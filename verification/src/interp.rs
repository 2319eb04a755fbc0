//! The edge numbering of the unwrap interpolation graph (stage 6): every
//! edge between grid cells gets an identifier in the order in which it is
//! first seen, and each grid step is recorded as a signed edge identifier.

use vstd::prelude::*;
use std::collections::BTreeMap;
use crate::graph::{edge_id_signed, ids_after, ids_fit, ordered_edge, signed_edge_id};
use vstd::arithmetic::div_mod::lemma_fundamental_div_mod_converse;

verus! {

/// The numbering after the pairs have been seen in order.
pub open spec fn fold_ids(m: Map<(usize, usize), usize>, pairs: Seq<(usize, usize)>) -> Map<(usize, usize), usize>
    decreases pairs.len(),
{
    if pairs.len() == 0 {
        m
    } else {
        ids_after(fold_ids(m, pairs.drop_last()), pairs.last().0, pairs.last().1)
    }
}

/// The signed identifier each pair gets when it is seen.
pub open spec fn signed_ids(m: Map<(usize, usize), usize>, pairs: Seq<(usize, usize)>) -> Seq<int>
    decreases pairs.len(),
{
    if pairs.len() == 0 {
        Seq::empty()
    } else {
        signed_ids(m, pairs.drop_last()).push(
            signed_edge_id(fold_ids(m, pairs.drop_last()), pairs.last().0, pairs.last().1),
        )
    }
}

/// The edges numbered anew while the pairs are seen, in order of their numbers.
pub open spec fn new_edges(m: Map<(usize, usize), usize>, pairs: Seq<(usize, usize)>) -> Seq<(usize, usize)>
    decreases pairs.len(),
{
    if pairs.len() == 0 {
        Seq::empty()
    } else {
        let prev = fold_ids(m, pairs.drop_last());
        let p = pairs.last();
        if p.0 != p.1 && !prev.contains_key(ordered_edge(p.0, p.1)) {
            new_edges(m, pairs.drop_last()).push(ordered_edge(p.0, p.1))
        } else {
            new_edges(m, pairs.drop_last())
        }
    }
}

/// The triangulation edges with 1-based ends.
pub open spec fn one_based(g: Seq<(usize, usize)>) -> Seq<(usize, usize)> {
    g.map_values(|e: (usize, usize)| ((e.0 + 1) as usize, (e.1 + 1) as usize))
}

/// The steps from each grid cell to the cell below it, row by row: the
/// nearest points of the two cells.
pub open spec fn vertical_pairs(z: Seq<usize>, n_i: nat, n_j: nat) -> Seq<(usize, usize)> {
    Seq::new(if n_i == 0 { 0 } else { ((n_i - 1) * n_j) as nat }, |k: int| (z[k], z[k + n_j]))
}

/// The steps from each grid cell to the cell on its right, row by row.
pub open spec fn horizontal_pairs(z: Seq<usize>, n_i: nat, n_j: nat) -> Seq<(usize, usize)> {
    if n_j == 0 {
        Seq::empty()
    } else {
        Seq::new(
            n_i * (n_j - 1) as nat,
            |k: int| (z[(k / (n_j - 1)) * n_j + k % (n_j - 1)], z[(k / (n_j - 1)) * n_j + k % (n_j - 1) + 1]),
        )
    }
}

/// Every pair seen by the numbering, in order: the triangulation edges, then
/// the vertical steps, then the horizontal steps.
pub open spec fn interp_pairs(g: Seq<(usize, usize)>, z: Seq<usize>, n_i: nat, n_j: nat) -> Seq<(usize, usize)> {
    one_based(g) + vertical_pairs(z, n_i, n_j) + horizontal_pairs(z, n_i, n_j)
}

/// The numbered edge table and the signed edge identifiers of the grid steps.
pub struct InterpEdges {
    /// The edges, smaller end first; the edge in position `k` has identifier `k + 1`.
    pub edgs: Vec<(usize, usize)>,
    /// The signed identifier of each vertical step, row by row.
    pub rowix: Vec<isize>,
    /// The signed identifier of each horizontal step, row by row.
    pub colix: Vec<isize>,
}

/// Identifiers stay below the number of edges, which stays below the number
/// of pairs seen.
spec fn numbering_ok(ids: Map<(usize, usize), usize>, seen: nat) -> bool {
    &&& ids.dom().finite()
    &&& ids.len() <= seen
    &&& forall|e: (usize, usize)| #[trigger] ids.contains_key(e) ==> ids[e] <= ids.len()
}

fn see(
    ids: &mut BTreeMap<(usize, usize), usize>,
    order: &mut Vec<(usize, usize)>,
    a: usize,
    b: usize,
    Ghost(seen): Ghost<Seq<(usize, usize)>>,
) -> (r: isize)
    requires
        old(ids)@ == fold_ids(Map::empty(), seen),
        old(order)@ == new_edges(Map::empty(), seen),
        numbering_ok(old(ids)@, seen.len()),
        seen.len() + 1 < isize::MAX,
    ensures
        final(ids)@ == fold_ids(Map::empty(), seen.push((a, b))),
        final(order)@ == new_edges(Map::empty(), seen.push((a, b))),
        numbering_ok(final(ids)@, seen.len() + 1),
        r == signed_ids(Map::empty(), seen.push((a, b))).last(),
        signed_ids(Map::empty(), seen.push((a, b))) == signed_ids(Map::empty(), seen).push(r as int),
{
    let ghost next = seen.push((a, b));
    assert(next.drop_last() =~= seen);
    let before = ids.len();
    let r = edge_id_signed(ids, a, b);
    if ids.len() != before {
        let lo = if a <= b { a } else { b };
        let hi = if a <= b { b } else { a };
        order.push((lo, hi));
    }
    proof {
        let m = fold_ids(Map::<(usize, usize), usize>::empty(), seen);
        if a != b && !m.contains_key(ordered_edge(a, b)) {
            assert(ids@.len() == m.len() + 1);
        } else {
            assert(ids@ == m);
        }
    }
    r
}

proof fn lemma_signed_ids_len(m: Map<(usize, usize), usize>, pairs: Seq<(usize, usize)>)
    ensures
        signed_ids(m, pairs).len() == pairs.len(),
    decreases pairs.len(),
{
    if pairs.len() > 0 {
        lemma_signed_ids_len(m, pairs.drop_last());
    }
}

proof fn lemma_signed_ids_prefix(m: Map<(usize, usize), usize>, pairs: Seq<(usize, usize)>, k: int)
    requires
        0 <= k <= pairs.len(),
    ensures
        signed_ids(m, pairs).take(k) == signed_ids(m, pairs.take(k)),
    decreases pairs.len(),
{
    lemma_signed_ids_len(m, pairs);
    lemma_signed_ids_len(m, pairs.take(k));
    if k < pairs.len() {
        let rest = pairs.drop_last();
        assert(rest.take(k) =~= pairs.take(k));
        lemma_signed_ids_prefix(m, rest, k);
        lemma_signed_ids_len(m, rest);
        assert(signed_ids(m, pairs).take(k) =~= signed_ids(m, rest).take(k));
    } else {
        assert(pairs.take(k) =~= pairs);
        assert(signed_ids(m, pairs).take(k) =~= signed_ids(m, pairs));
    }
}

proof fn lemma_vertical_index(z: Seq<usize>, n_i: nat, n_j: nat, k: int)
    requires
        n_i >= 1,
        0 <= k < (n_i - 1) * n_j,
    ensures
        vertical_pairs(z, n_i, n_j)[k] == (z[k], z[k + n_j]),
        vertical_pairs(z, n_i, n_j).len() == (n_i - 1) * n_j,
{
}

/// Numbers the edges of the unwrap interpolation graph: first the
/// triangulation edges (0-based ends), then the step from each grid cell to
/// the cell below it, then the step to the cell on its right, where `z` gives
/// the nearest point (1-based) of each cell of the `n_i x n_j` grid, row by
/// row.
pub fn interp_edges(z: &Vec<usize>, n_i: usize, n_j: usize, graph_edges: &Vec<(usize, usize)>) -> (r: InterpEdges)
    requires
        z@.len() == n_i * n_j,
        forall|k: int| 0 <= k < graph_edges@.len() ==> (#[trigger] graph_edges@[k]).0 < usize::MAX && graph_edges@[k].1
            < usize::MAX,
        graph_edges@.len() + 2 * z@.len() + 2 < isize::MAX,
    ensures
        ({
            let pairs = interp_pairs(graph_edges@, z@, n_i as nat, n_j as nat);
            let ids = signed_ids(Map::empty(), pairs);
            let g = graph_edges@.len() as int;
            let v = vertical_pairs(z@, n_i as nat, n_j as nat).len() as int;
            &&& r.edgs@ == new_edges(Map::empty(), pairs)
            &&& r.rowix@.map_values(|x: isize| x as int) == ids.subrange(g, g + v)
            &&& r.colix@.map_values(|x: isize| x as int) == ids.subrange(g + v, pairs.len() as int)
        }),
{
    let ghost gv = one_based(graph_edges@);
    let ghost vv = vertical_pairs(z@, n_i as nat, n_j as nat);
    let ghost hv = horizontal_pairs(z@, n_i as nat, n_j as nat);
    let ghost mut seen: Seq<(usize, usize)> = Seq::empty();
    let mut ids: BTreeMap<(usize, usize), usize> = BTreeMap::new();
    let mut order: Vec<(usize, usize)> = Vec::new();
    proof {
        assert(ids@ =~= fold_ids(Map::empty(), seen));
    }
    let mut e: usize = 0;
    while e < graph_edges.len()
        invariant
            e <= graph_edges@.len(),
            gv == one_based(graph_edges@),
            forall|k: int| 0 <= k < graph_edges@.len() ==> (#[trigger] graph_edges@[k]).0 < usize::MAX && graph_edges@[k].1
                < usize::MAX,
            graph_edges@.len() + 2 * z@.len() + 2 < isize::MAX,
            seen == gv.take(e as int),
            ids@ == fold_ids(Map::empty(), seen),
            order@ == new_edges(Map::empty(), seen),
            numbering_ok(ids@, seen.len()),
        decreases graph_edges@.len() - e,
    {
        let (a, b) = graph_edges[e];
        let _ = see(&mut ids, &mut order, a + 1, b + 1, Ghost(seen));
        proof {
            assert(gv.take(e + 1) =~= gv.take(e as int).push(((a + 1) as usize, (b + 1) as usize)));
            seen = seen.push(((a + 1) as usize, (b + 1) as usize));
        }
        e = e + 1;
    }
    proof {
        assert(gv.take(graph_edges@.len() as int) =~= gv);
    }
    let ghost g_len = seen.len();
    proof {
        if n_i > 0 {
            assert(n_i * n_j >= n_j) by (nonlinear_arith)
                requires n_i >= 1;
        }
        lemma_signed_ids_len(Map::empty(), seen);
        assert(signed_ids(Map::empty(), seen).subrange(g_len as int, seen.len() as int) =~= Seq::<int>::empty());
    }
    let n_vertical: usize = if n_i == 0 { 0 } else { z.len() - n_j };
    proof {
        if n_i > 0 {
            assert((n_i - 1) * n_j == n_i * n_j - n_j) by (nonlinear_arith);
        }
        assert(vv.len() == n_vertical);
    }
    let mut rowix: Vec<isize> = Vec::new();
    proof {
        assert(rowix@.map_values(|x: isize| x as int) =~= Seq::<int>::empty());
    }
    let mut k: usize = 0;
    while k < n_vertical
        invariant
            k <= n_vertical,
            n_vertical == vv.len(),
            n_vertical + n_j <= z@.len() || n_vertical == 0,
            z@.len() == n_i * n_j,
            vv == vertical_pairs(z@, n_i as nat, n_j as nat),
            graph_edges@.len() + 2 * z@.len() + 2 < isize::MAX,
            g_len == graph_edges@.len(),
            gv.len() == g_len,
            seen == gv + vv.take(k as int),
            ids@ == fold_ids(Map::empty(), seen),
            order@ == new_edges(Map::empty(), seen),
            numbering_ok(ids@, seen.len()),
            rowix@.map_values(|x: isize| x as int) == signed_ids(Map::empty(), seen).subrange(g_len as int, seen.len() as int),
        decreases n_vertical - k,
    {
        proof {
            lemma_vertical_index(z@, n_i as nat, n_j as nat, k as int);
        }
        let a = z[k];
        let b = z[k + n_j];
        let ghost before = signed_ids(Map::empty(), seen);
        proof {
            assert(seen.len() == g_len + k);
            lemma_signed_ids_len(Map::empty(), seen);
        }
        let ghost old_rows = rowix@.map_values(|x: isize| x as int);
        let value = see(&mut ids, &mut order, a, b, Ghost(seen));
        rowix.push(value);
        proof {
            assert(vv[k as int] == (a, b));
            assert(vv.take(k + 1) =~= vv.take(k as int).push((a, b)));
            let old_len = seen.len() as int;
            seen = seen.push((a, b));
            lemma_signed_ids_len(Map::empty(), seen);
            assert(signed_ids(Map::empty(), seen) == before.push(value as int));
            assert(rowix@.map_values(|x: isize| x as int) =~= old_rows.push(value as int));
            assert(signed_ids(Map::empty(), seen).subrange(g_len as int, seen.len() as int) =~= before.subrange(
                g_len as int,
                old_len,
            ).push(value as int));
            assert(rowix@.map_values(|x: isize| x as int) =~= signed_ids(Map::empty(), seen).subrange(g_len as int, seen.len() as int));
        }
        k = k + 1;
    }
    proof {
        assert(vv.take(n_vertical as int) =~= vv);
    }
    let ghost v_end = seen.len();
    let ghost seen_v = seen;
    let mut colix: Vec<isize> = Vec::new();
    proof {
        lemma_signed_ids_len(Map::empty(), seen);
        assert(signed_ids(Map::empty(), seen).subrange(v_end as int, seen.len() as int) =~= Seq::<int>::empty());
        assert(colix@.map_values(|x: isize| x as int) =~= Seq::<int>::empty());
    }
    if n_j > 0 {
        let w = n_j - 1;
        let mut row: usize = 0;
        proof {
            assert(hv.len() == n_i * w) by {
                assert(hv.len() == n_i * (n_j - 1) as nat);
            }
        }
        while row < n_i
            invariant
                row <= n_i,
                n_j > 0,
                w == n_j - 1,
                z@.len() == n_i * n_j,
                hv == horizontal_pairs(z@, n_i as nat, n_j as nat),
                hv.len() == n_i * w,
                graph_edges@.len() + 2 * z@.len() + 2 < isize::MAX,
                vv.len() <= z@.len(),
                g_len == graph_edges@.len(),
                gv.len() == g_len,
                v_end == g_len + vv.len(),
                seen == gv + vv + hv.take(row * w),
                row * w <= n_i * w,
                ids@ == fold_ids(Map::empty(), seen),
                order@ == new_edges(Map::empty(), seen),
                numbering_ok(ids@, seen.len()),
                colix@.map_values(|x: isize| x as int) == signed_ids(Map::empty(), seen).subrange(v_end as int, seen.len() as int),
            decreases n_i - row,
        {
            proof {
                assert(row * n_j + n_j <= n_i * n_j) by (nonlinear_arith)
                    requires row < n_i;
                assert((row + 1) * w <= n_i * w) by (nonlinear_arith)
                    requires row < n_i;
                assert(row * n_j + n_j == (row + 1) * n_j) by (nonlinear_arith);
            }
            let base = row * n_j;
            let mut col: usize = 0;
            while col < w
                invariant
                    row < n_i,
                    col <= w,
                    w == n_j - 1,
                    n_j > 0,
                    base == row * n_j,
                    base + n_j <= z@.len(),
                    z@.len() == n_i * n_j,
                    hv == horizontal_pairs(z@, n_i as nat, n_j as nat),
                    hv.len() == n_i * w,
                    (row + 1) * w <= n_i * w,
                    graph_edges@.len() + 2 * z@.len() + 2 < isize::MAX,
                    vv.len() <= z@.len(),
                    g_len == graph_edges@.len(),
                    gv.len() == g_len,
                    v_end == g_len + vv.len(),
                    seen == gv + vv + hv.take(row * w + col),
                    ids@ == fold_ids(Map::empty(), seen),
                    order@ == new_edges(Map::empty(), seen),
                    numbering_ok(ids@, seen.len()),
                    colix@.map_values(|x: isize| x as int) == signed_ids(Map::empty(), seen).subrange(v_end as int, seen.len() as int),
                decreases w - col,
            {
                let a = z[base + col];
                let b = z[base + col + 1];
                let ghost kk: int = row * w + col;
                proof {
                    assert(kk < n_i * w) by (nonlinear_arith)
                        requires kk == row * w + col, col < w, (row + 1) * w <= n_i * w;
                    lemma_fundamental_div_mod_converse(kk, w as int, row as int, col as int);
                    assert(hv[kk] == (a, b));
                    assert(hv.take(kk + 1) =~= hv.take(kk).push((a, b)));
                    assert(kk < z@.len()) by (nonlinear_arith)
                        requires kk < n_i * w, w == n_j - 1, z@.len() == n_i * n_j, n_j > 0;
                    assert(hv.take(kk).len() == kk);
                    assert(seen.len() == g_len + vv.len() + kk);
                    assert(seen.len() + 1 < isize::MAX);
                    lemma_signed_ids_len(Map::empty(), seen);
                }
                let ghost before = signed_ids(Map::empty(), seen);
                let ghost old_cols = colix@.map_values(|x: isize| x as int);
                let ghost old_len = seen.len() as int;
                let value = see(&mut ids, &mut order, a, b, Ghost(seen));
                colix.push(value);
                proof {
                    seen = seen.push((a, b));
                    lemma_signed_ids_len(Map::empty(), seen);
                    assert(signed_ids(Map::empty(), seen) == before.push(value as int));
                    assert(colix@.map_values(|x: isize| x as int) =~= old_cols.push(value as int));
                    assert(signed_ids(Map::empty(), seen).subrange(v_end as int, seen.len() as int) =~= before.subrange(
                        v_end as int,
                        old_len,
                    ).push(value as int));
                    assert(seen == gv + vv + hv.take(row * w + col + 1));
                    assert(colix@.map_values(|x: isize| x as int) =~= signed_ids(Map::empty(), seen).subrange(v_end as int, seen.len() as int));
                }
                col = col + 1;
            }
            proof {
                assert(row * w + w == (row + 1) * w) by (nonlinear_arith);
            }
            row = row + 1;
        }
        proof {
            assert(hv.take(n_i * w) =~= hv);
        }
    } else {
        proof {
            assert(hv =~= Seq::<(usize, usize)>::empty());
            assert(seen =~= gv + vv + hv);
            assert(colix@.map_values(|x: isize| x as int) =~= signed_ids(Map::empty(), seen).subrange(v_end as int, seen.len() as int));
        }
    }
    proof {
        let pairs = interp_pairs(graph_edges@, z@, n_i as nat, n_j as nat);
        assert(seen =~= pairs);
        assert(seen_v =~= pairs.take(v_end as int));
        lemma_signed_ids_prefix(Map::empty(), pairs, v_end as int);
        lemma_signed_ids_len(Map::empty(), pairs);
        lemma_signed_ids_len(Map::empty(), seen_v);
        assert(signed_ids(Map::empty(), seen_v).subrange(g_len as int, v_end as int) =~= signed_ids(Map::empty(), pairs).subrange(
            g_len as int,
            v_end as int,
        ));
    }
    InterpEdges { edgs: order, rowix, colix }
}

/// The edge table lists exactly the numbered edges, each in the row of its
/// number: the edge in position `k` has identifier `k + 1`.
pub proof fn law_edge_table_rows_match_numbers(pairs: Seq<(usize, usize)>)
    requires
        pairs.len() < isize::MAX,
    ensures
        fold_ids(Map::empty(), pairs).len() == new_edges(Map::empty(), pairs).len(),
        new_edges(Map::empty(), pairs).len() <= pairs.len(),
        fold_ids(Map::empty(), pairs).dom().finite(),
        forall|k: int|
            0 <= k < new_edges(Map::empty(), pairs).len() ==> fold_ids(Map::empty(), pairs).contains_key(
                #[trigger] new_edges(Map::empty(), pairs)[k],
            ) && fold_ids(Map::empty(), pairs)[new_edges(Map::empty(), pairs)[k]] == k + 1,
        forall|e: (usize, usize)|
            #[trigger] fold_ids(Map::empty(), pairs).contains_key(e) ==> new_edges(Map::empty(), pairs).contains(e),
    decreases pairs.len(),
{
    if pairs.len() > 0 {
        let rest = pairs.drop_last();
        law_edge_table_rows_match_numbers(rest);
        let m = fold_ids(Map::<(usize, usize), usize>::empty(), rest);
        let es = new_edges(Map::<(usize, usize), usize>::empty(), rest);
        let p = pairs.last();
        if p.0 != p.1 && !m.contains_key(ordered_edge(p.0, p.1)) {
            let e = ordered_edge(p.0, p.1);
            let m2 = m.insert(e, (m.len() + 1) as usize);
            let es2 = es.push(e);
            assert(m2.len() == m.len() + 1);
            assert forall|k: int| 0 <= k < es2.len() implies m2.contains_key(#[trigger] es2[k]) && m2[es2[k]] == k + 1 by {
                if k < es.len() {
                    assert(es2[k] == es[k]);
                    assert(m.contains_key(es[k]));
                    assert(es[k] != e);
                }
            }
            assert forall|x: (usize, usize)| #[trigger] m2.contains_key(x) implies es2.contains(x) by {
                if x != e {
                    assert(es.contains(x));
                    let w = choose|w: int| 0 <= w < es.len() && es[w] == x;
                    assert(es2[w] == x);
                } else {
                    assert(es2[es.len() as int] == e);
                }
            }
        }
    }
}

} // verus!
