//! Edge sets, edge numbering and connectivity checks of the point graphs that
//! the weeding, unwrapping and noise-estimation stages build.

use vstd::prelude::*;
use std::collections::{BTreeMap, BTreeSet};
use crate::core_error::{CoreError, CoreErrorView};
use crate::text::{decimal, signed_decimal, i64_text, usize_text};
use vstd::set_lib::{lemma_int_range, lemma_len_subset, set_int_range};

verus! {

/// The undirected edge between `a` and `b`, smaller end first.
pub open spec fn ordered_edge(a: usize, b: usize) -> (usize, usize) {
    if a <= b {
        (a, b)
    } else {
        (b, a)
    }
}

/// Adds the undirected edge between `a` and `b`, smaller end first; an edge
/// from a point to itself is ignored.
pub fn insert_edge(edges: &mut BTreeSet<(usize, usize)>, a: usize, b: usize)
    ensures
        final(edges)@ == (if a != b {
            old(edges)@.insert(ordered_edge(a, b))
        } else {
            old(edges)@
        }),
{
    if a != b {
        let lo = if a <= b { a } else { b };
        let hi = if a <= b { b } else { a };
        edges.insert((lo, hi));
    }
}

/// The identifier that an edge has, or gets when it is new: edges are
/// numbered 1, 2, ... in the order in which they are first seen.
pub open spec fn edge_id(ids: Map<(usize, usize), usize>, e: (usize, usize)) -> int {
    if ids.contains_key(e) {
        ids[e] as int
    } else {
        (ids.len() + 1) as int
    }
}

/// The signed identifier of the directed edge from `a` to `b`: positive when
/// `a <= b`, negative otherwise, and 0 for a point and itself.
pub open spec fn signed_edge_id(ids: Map<(usize, usize), usize>, a: usize, b: usize) -> int {
    if a == b {
        0
    } else if a <= b {
        edge_id(ids, ordered_edge(a, b))
    } else {
        -edge_id(ids, ordered_edge(a, b))
    }
}

/// The numbering after the edge between `a` and `b` has been seen.
pub open spec fn ids_after(ids: Map<(usize, usize), usize>, a: usize, b: usize) -> Map<(usize, usize), usize> {
    if a == b || ids.contains_key(ordered_edge(a, b)) {
        ids
    } else {
        ids.insert(ordered_edge(a, b), (ids.len() + 1) as usize)
    }
}

/// Every identifier fits a signed machine integer, and so does the next one.
pub open spec fn ids_fit(ids: Map<(usize, usize), usize>) -> bool {
    &&& ids.len() < isize::MAX
    &&& forall|e: (usize, usize)| #[trigger] ids.contains_key(e) ==> ids[e] <= isize::MAX
}

/// The identifiers are exactly 1, 2, ..., n for n edges, each used once.
pub open spec fn dense_ids(ids: Map<(usize, usize), usize>) -> bool {
    &&& forall|e: (usize, usize)| #[trigger] ids.contains_key(e) ==> 1 <= ids[e] <= ids.len()
    &&& forall|e: (usize, usize), f: (usize, usize)|
        #![trigger ids[e], ids[f]]
        ids.contains_key(e) && ids.contains_key(f) && ids[e] == ids[f] ==> e == f
}

/// Returns the signed identifier of the edge from `a` to `b`, numbering the
/// edge first if it is new.
pub fn edge_id_signed(edge_ids: &mut BTreeMap<(usize, usize), usize>, a: usize, b: usize) -> (r: isize)
    requires
        ids_fit(old(edge_ids)@),
    ensures
        final(edge_ids)@ == ids_after(old(edge_ids)@, a, b),
        r == signed_edge_id(old(edge_ids)@, a, b),
{
    if a == b {
        return 0;
    }
    let lo = if a <= b { a } else { b };
    let hi = if a <= b { b } else { a };
    let edge = (lo, hi);
    assert(edge == ordered_edge(a, b));
    let next_id = edge_ids.len() + 1;
    let id = match edge_ids.get(&edge) {
        Some(id) => *id,
        None => {
            edge_ids.insert(edge, next_id);
            next_id
        },
    };
    if a <= b {
        id as isize
    } else {
        -(id as isize)
    }
}

/// Numbering a new edge keeps the identifiers dense, and seeing a known edge
/// changes nothing.
pub proof fn law_ids_stay_dense(ids: Map<(usize, usize), usize>, a: usize, b: usize)
    requires
        ids.dom().finite(),
        ids_fit(ids),
        dense_ids(ids),
    ensures
        dense_ids(ids_after(ids, a, b)),
        ids_after(ids, a, b).dom().finite(),
{
    let e = ordered_edge(a, b);
    if a != b && !ids.contains_key(e) {
        let m = ids.insert(e, (ids.len() + 1) as usize);
        assert(m.len() == ids.len() + 1);
        assert forall|x: (usize, usize), y: (usize, usize)|
            #![trigger m[x], m[y]]
            m.contains_key(x) && m.contains_key(y) && m[x] == m[y] implies x == y by {
            if x != e && y != e {
                assert(ids[x] == ids[y]);
            }
        }
    }
}

/// An edge walked the other way has the opposite identifier.
pub proof fn law_reverse_edge_opposite_id(ids: Map<(usize, usize), usize>, a: usize, b: usize)
    requires
        ids.dom().finite(),
        ids_fit(ids),
        a != b,
    ensures
        signed_edge_id(ids_after(ids, a, b), b, a) == -signed_edge_id(ids, a, b),
        ids_after(ids_after(ids, a, b), b, a) == ids_after(ids, a, b),
{
    assert(ordered_edge(a, b) == ordered_edge(b, a));
}

/// Whether an edge of a graph on `n` nodes is invalid: an end out of range,
/// or both ends the same.
pub open spec fn bad_topology_edge(e: (usize, usize), n: usize) -> bool {
    e.0 >= n || e.1 >= n || e.0 == e.1
}

/// Position `i` holds the first invalid edge of `edges`.
pub open spec fn first_bad_topology_edge(edges: Seq<(usize, usize)>, n: usize, i: int) -> bool {
    &&& 0 <= i < edges.len()
    &&& bad_topology_edge(edges[i], n)
    &&& forall|j: int| 0 <= j < i ==> !bad_topology_edge(#[trigger] edges[j], n)
}

/// The message for an invalid weeding edge at position `i`.
pub open spec fn topology_message(i: int, e: (usize, usize), n: usize) -> Seq<char> {
    "invalid Stage 4 edge topology at edge "@ + decimal((i + 1) as nat) + ": ("@ + decimal(e.0 as nat) + ", "@
        + decimal(e.1 as nat) + ") for n_nodes="@ + decimal(n as nat)
}

/// Checks that every edge of the weeding graph joins two distinct nodes
/// below `n_nodes`; reports the first edge that does not.
pub fn validate_stage4_edge_topology(edges: &[(usize, usize)], n_nodes: usize) -> (r: Result<(), CoreError>)
    ensures
        match r {
            Ok(_) => forall|i: int| 0 <= i < edges@.len() ==> !bad_topology_edge(#[trigger] edges@[i], n_nodes),
            Err(x) => exists|i: int|
                first_bad_topology_edge(edges@, n_nodes, i) && x@ == (CoreErrorView::NativeStage {
                    stage: 4,
                    message: topology_message(i, edges@[i], n_nodes),
                }),
        },
{
    let mut pos: usize = 0;
    while pos < edges.len()
        invariant
            pos <= edges@.len(),
            forall|j: int| 0 <= j < pos ==> !bad_topology_edge(#[trigger] edges@[j], n_nodes),
        decreases edges@.len() - pos,
    {
        let (a, b) = edges[pos];
        if a >= n_nodes || b >= n_nodes || a == b {
            let mut m = String::from_str("invalid Stage 4 edge topology at edge ");
            m.append(usize_text(pos + 1).as_str());
            m.append(": (");
            m.append(usize_text(a).as_str());
            m.append(", ");
            m.append(usize_text(b).as_str());
            m.append(") for n_nodes=");
            m.append(usize_text(n_nodes).as_str());
            let err = CoreError::NativeStage { stage: 4, message: m };
            assert(first_bad_topology_edge(edges@, n_nodes, pos as int));
            return Err(err);
        }
        pos = pos + 1;
    }
    Ok(())
}

/// Whether a 1-based index falls outside `1..=n`.
pub open spec fn bad_one_based(value: i64, n: usize) -> bool {
    value < 1 || value > n
}

/// Position `i` holds the first index of `values` outside `1..=n`.
pub open spec fn first_bad_one_based(values: Seq<i64>, n: usize, i: int) -> bool {
    &&& 0 <= i < values.len()
    &&& bad_one_based(values[i], n)
    &&& forall|j: int| 0 <= j < i ==> !bad_one_based(#[trigger] values[j], n)
}

/// The message for an out-of-range index at position `i`.
pub open spec fn one_based_message(label: Seq<char>, value: i64, i: int, n: usize) -> Seq<char> {
    label + " contains out-of-bounds 1-based index "@ + signed_decimal(value as int) + " at position "@
        + decimal((i + 1) as nat) + " for n_ps="@ + decimal(n as nat)
}

/// Checks that every value is a 1-based index into `n_ps` points; reports the
/// first one that is not, as an error of the given stage.
pub fn validate_one_based_indices(values: &[i64], n_ps: usize, label: &str, stage: u8) -> (r: Result<(), CoreError>)
    ensures
        match r {
            Ok(_) => forall|i: int| 0 <= i < values@.len() ==> !bad_one_based(#[trigger] values@[i], n_ps),
            Err(x) => exists|i: int|
                first_bad_one_based(values@, n_ps, i) && x@ == (CoreErrorView::NativeStage {
                    stage: stage,
                    message: one_based_message(label@, values@[i], i, n_ps),
                }),
        },
{
    let mut pos: usize = 0;
    while pos < values.len()
        invariant
            pos <= values@.len(),
            forall|j: int| 0 <= j < pos ==> !bad_one_based(#[trigger] values@[j], n_ps),
        decreases values@.len() - pos,
    {
        let value = values[pos];
        if value < 1 || value as u64 > n_ps as u64 {
            let mut m = String::from_str(label);
            m.append(" contains out-of-bounds 1-based index ");
            m.append(i64_text(value).as_str());
            m.append(" at position ");
            m.append(usize_text(pos + 1).as_str());
            m.append(" for n_ps=");
            m.append(usize_text(n_ps).as_str());
            let err = CoreError::NativeStage { stage: stage, message: m };
            assert(first_bad_one_based(values@, n_ps, pos as int));
            return Err(err);
        }
        pos = pos + 1;
    }
    Ok(())
}

/// An edge table read from a matrix: its shape, and for each row the
/// rounded values of its 1-based node columns (the second and third).  When
/// the table has fewer than three columns no node values are read.
pub struct NodeColumns {
    pub rows: usize,
    pub cols: usize,
    pub ends: Vec<(i64, i64)>,
}

impl NodeColumns {
    /// One pair of node values per row, when there are node columns.
    pub open spec fn wf(&self) -> bool {
        self.ends@.len() == (if self.cols >= 3 { self.rows as int } else { 0 })
    }
}

/// Whether a pair of 1-based node numbers of a graph on `n` nodes is invalid.
pub open spec fn bad_node_pair(p: (i64, i64), n: usize) -> bool {
    p.0 < 1 || p.1 < 1 || p.0 > n || p.1 > n || p.0 == p.1
}

/// Row `i` holds the first invalid pair of node numbers.
pub open spec fn first_bad_node_pair(ends: Seq<(i64, i64)>, n: usize, i: int) -> bool {
    &&& 0 <= i < ends.len()
    &&& bad_node_pair(ends[i], n)
    &&& forall|j: int| 0 <= j < i ==> !bad_node_pair(#[trigger] ends[j], n)
}

/// Every pair of node numbers is valid.
pub open spec fn all_node_pairs_valid(ends: Seq<(i64, i64)>, n: usize) -> bool {
    forall|j: int| 0 <= j < ends.len() ==> !bad_node_pair(#[trigger] ends[j], n)
}

/// The neighbour lists of a graph on `n` nodes with the given 1-based edges:
/// each edge adds each end to the other's list, in the order of the edges.
pub open spec fn adjacency(ends: Seq<(i64, i64)>, n: nat) -> Seq<Seq<usize>>
    decreases ends.len(),
{
    if ends.len() == 0 {
        Seq::new(n, |i: int| Seq::<usize>::empty())
    } else {
        let prev = adjacency(ends.drop_last(), n);
        let a = ends.last().0 - 1;
        let b = ends.last().1 - 1;
        let mid = prev.update(a, prev[a].push(b as usize));
        mid.update(b, mid[b].push(a as usize))
    }
}

/// The neighbour lists of a list of vectors.
pub open spec fn lists_view(x: Seq<Vec<usize>>) -> Seq<Seq<usize>> {
    x.map_values(|v: Vec<usize>| v@)
}

/// The message for an unwrap-graph table with too few columns.
pub open spec fn edgs_columns_message(cols: usize) -> Seq<char> {
    "uw_interp.edgs must have at least 3 columns, got "@ + decimal(cols as nat)
}

/// The message for an invalid unwrap-graph edge in row `i`.
pub open spec fn unwrap_edge_message(i: int, p: (i64, i64), n: usize) -> Seq<char> {
    "invalid Stage 6 unwrap graph edge "@ + decimal((i + 1) as nat) + ": ("@ + signed_decimal(p.0 as int) + ", "@
        + signed_decimal(p.1 as int) + ") for n_nodes="@ + decimal(n as nat)
}

proof fn lemma_adjacency_shape(ends: Seq<(i64, i64)>, n: usize)
    requires
        all_node_pairs_valid(ends, n),
    ensures
        adjacency(ends, n as nat).len() == n,
        forall|v: int, k: int|
            0 <= v < n && 0 <= k < adjacency(ends, n as nat)[v].len() ==> #[trigger] adjacency(ends, n as nat)[v][k] < n,
    decreases ends.len(),
{
    if ends.len() > 0 {
        let rest = ends.drop_last();
        assert forall|j: int| 0 <= j < rest.len() implies !bad_node_pair(#[trigger] rest[j], n) by {
            assert(rest[j] == ends[j]);
        }
        lemma_adjacency_shape(rest, n);
        assert(!bad_node_pair(ends[ends.len() - 1], n));
    }
}

/// Builds the neighbour lists of the unwrap graph from its edge table, after
/// checking that every edge joins two distinct nodes below `n_nodes`.
pub fn graph_adjacency(edgs: &NodeColumns, n_nodes: usize) -> (r: Result<Vec<Vec<usize>>, CoreError>)
    requires
        edgs.wf(),
    ensures
        edgs.cols < 3 && edgs.rows > 0 ==> (r matches Err(x) && x@ == (CoreErrorView::NativeStage {
            stage: 6,
            message: edgs_columns_message(edgs.cols),
        })),
        !(edgs.cols < 3 && edgs.rows > 0) ==> match r {
            Ok(x) => all_node_pairs_valid(edgs.ends@, n_nodes) && lists_view(x@) == adjacency(edgs.ends@, n_nodes as nat),
            Err(x) => exists|i: int|
                first_bad_node_pair(edgs.ends@, n_nodes, i) && x@ == (CoreErrorView::NativeStage {
                    stage: 6,
                    message: unwrap_edge_message(i, edgs.ends@[i], n_nodes),
                }),
        },
{
    if edgs.cols < 3 && edgs.rows > 0 {
        let mut m = String::from_str("uw_interp.edgs must have at least 3 columns, got ");
        m.append(usize_text(edgs.cols).as_str());
        return Err(CoreError::NativeStage { stage: 6, message: m });
    }
    let ghost ends = edgs.ends@;
    let mut adj: Vec<Vec<usize>> = Vec::new();
    let mut v: usize = 0;
    while v < n_nodes
        invariant
            v <= n_nodes,
            adj@.len() == v,
            forall|i: int| 0 <= i < v ==> (#[trigger] adj@[i])@ == Seq::<usize>::empty(),
        decreases n_nodes - v,
    {
        adj.push(Vec::new());
        v = v + 1;
    }
    assert(lists_view(adj@) =~= adjacency(ends.take(0), n_nodes as nat));
    let mut row: usize = 0;
    while row < edgs.ends.len()
        invariant
            ends == edgs.ends@,
            !(edgs.cols < 3 && edgs.rows > 0),
            row <= ends.len(),
            all_node_pairs_valid(ends.take(row as int), n_nodes),
            lists_view(adj@) == adjacency(ends.take(row as int), n_nodes as nat),
        decreases ends.len() - row,
    {
        let (ra, rb) = edgs.ends[row];
        if ra < 1 || rb < 1 || ra as u64 > n_nodes as u64 || rb as u64 > n_nodes as u64 || ra == rb {
            let mut m = String::from_str("invalid Stage 6 unwrap graph edge ");
            m.append(usize_text(row + 1).as_str());
            m.append(": (");
            m.append(i64_text(ra).as_str());
            m.append(", ");
            m.append(i64_text(rb).as_str());
            m.append(") for n_nodes=");
            m.append(usize_text(n_nodes).as_str());
            proof {
                assert forall|j: int| 0 <= j < row implies !bad_node_pair(#[trigger] ends[j], n_nodes) by {
                    assert(ends.take(row as int)[j] == ends[j]);
                }
                assert(first_bad_node_pair(ends, n_nodes, row as int));
            }
            return Err(CoreError::NativeStage { stage: 6, message: m });
        }
        let a = (ra - 1) as usize;
        let b = (rb - 1) as usize;
        proof {
            let next = ends.take(row + 1);
            assert(next.drop_last() =~= ends.take(row as int));
            assert(next.last() == (ra, rb));
            lemma_adjacency_shape(ends.take(row as int), n_nodes);
        }
        let ghost before = lists_view(adj@);
        adj[a].push(b);
        let ghost mid = lists_view(adj@);
        assert(mid =~= before.update(a as int, before[a as int].push(b)));
        adj[b].push(a);
        proof {
            let next = ends.take(row + 1);
            assert(lists_view(adj@) =~= mid.update(b as int, mid[b as int].push(a)));
            assert forall|j: int| 0 <= j < row + 1 implies !bad_node_pair(#[trigger] next[j], n_nodes) by {
                if j < row {
                    assert(ends.take(row as int)[j] == next[j]);
                }
            }
        }
        row = row + 1;
    }
    proof {
        assert(ends.take(ends.len() as int) =~= ends);
    }
    Ok(adj)
}

/// A set of nodes that contains every neighbour of each of its nodes.
pub open spec fn closed_under(adj: Seq<Seq<usize>>, s: Set<int>) -> bool {
    forall|v: int, k: int|
        s.contains(v) && 0 <= v < adj.len() && 0 <= k < adj[v].len() ==> s.contains(#[trigger] adj[v][k] as int)
}

/// Every node is reachable from node 0: each set that holds node 0 and is
/// closed under the neighbour relation holds every node.
pub open spec fn connected(adj: Seq<Seq<usize>>) -> bool {
    forall|s: Set<int>|
        #[trigger] closed_under(adj, s) && s.contains(0) ==> forall|v: int| 0 <= v < adj.len() ==> s.contains(v)
}

/// Neighbour lists whose entries are all nodes of the graph.
pub open spec fn lists_in_range(adj: Seq<Seq<usize>>) -> bool {
    forall|v: int, k: int| 0 <= v < adj.len() && 0 <= k < adj[v].len() ==> #[trigger] adj[v][k] < adj.len()
}

proof fn lemma_distinct_below(s: Seq<usize>, n: usize)
    requires
        s.no_duplicates(),
        forall|i: int| 0 <= i < s.len() ==> #[trigger] s[i] < n,
    ensures
        s.len() <= n,
{
    let t = s.map_values(|x: usize| x as int);
    assert forall|i: int, j: int| 0 <= i < t.len() && 0 <= j < t.len() && i != j implies t[i] != t[j] by {
        assert(s[i] != s[j]);
    }
    assert(t.no_duplicates());
    t.unique_seq_to_set();
    lemma_int_range(0, n as int);
    assert forall|x: int| t.to_set().contains(x) implies set_int_range(0, n as int).contains(x) by {
        let i = choose|i: int| 0 <= i < t.len() && t[i] == x;
        assert(s[i] < n);
    }
    lemma_len_subset(t.to_set(), set_int_range(0, n as int));
}

/// Whether every node is reachable from node 0, by a breadth-first walk.
fn all_reachable(adj: &Vec<Vec<usize>>) -> (r: bool)
    requires
        adj@.len() >= 1,
        lists_in_range(lists_view(adj@)),
    ensures
        r == connected(lists_view(adj@)),
{
    let n = adj.len();
    let ghost g = lists_view(adj@);
    let mut visited: Vec<bool> = Vec::new();
    let mut i: usize = 0;
    while i < n
        invariant
            i <= n,
            visited@.len() == i,
            forall|j: int| 0 <= j < i ==> !(#[trigger] visited@[j]),
        decreases n - i,
    {
        visited.push(false);
        i = i + 1;
    }
    visited.set(0, true);
    let mut queue: Vec<usize> = Vec::new();
    queue.push(0);
    let mut head: usize = 0;
    proof {
        assert forall|v: int| 0 <= v < n implies (#[trigger] visited@[v] <==> queue@.contains(v as usize)) by {
            assert(queue@[0] == 0);
            if queue@.contains(v as usize) {
                let i = choose|i: int| 0 <= i < queue@.len() && queue@[i] == v as usize;
                assert(i == 0);
            }
        }
    }
    while head < queue.len()
        invariant
            n == adj@.len(),
            n >= 1,
            g == lists_view(adj@),
            lists_in_range(g),
            visited@.len() == n,
            visited@[0],
            head <= queue@.len(),
            queue@.len() <= n,
            queue@.no_duplicates(),
            forall|i: int| 0 <= i < queue@.len() ==> #[trigger] queue@[i] < n,
            forall|v: int| 0 <= v < n ==> (#[trigger] visited@[v] <==> queue@.contains(v as usize)),
            forall|i: int, k: int|
                0 <= i < head && 0 <= k < g[queue@[i] as int].len() ==> #[trigger] visited@[g[queue@[i] as int][k] as int],
            forall|s: Set<int>|
                #[trigger] closed_under(g, s) && s.contains(0) ==> forall|v: int| 0 <= v < n && visited@[v] ==> s.contains(v),
        decreases 2 * n - queue@.len() - head,
    {
        let node = queue[head];
        let neighbours = &adj[node];
        assert(neighbours@ == g[node as int]);
        let mut k: usize = 0;
        let ghost q0 = queue@.len();
        while k < neighbours.len()
            invariant
                q0 <= queue@.len(),
                visited@[0],
                n == adj@.len(),
                g == lists_view(adj@),
                lists_in_range(g),
                neighbours@ == g[node as int],
                node < n,
                node == queue@[head as int],
                visited@.len() == n,
                head < queue@.len(),
                queue@.len() <= n,
                queue@.no_duplicates(),
                forall|i: int| 0 <= i < queue@.len() ==> #[trigger] queue@[i] < n,
                forall|v: int| 0 <= v < n ==> (#[trigger] visited@[v] <==> queue@.contains(v as usize)),
                forall|i: int, j: int|
                    0 <= i < head && 0 <= j < g[queue@[i] as int].len() ==> #[trigger] visited@[g[queue@[i] as int][j] as int],
                forall|j: int| 0 <= j < k ==> #[trigger] visited@[g[node as int][j] as int],
                visited@[node as int],
                k <= neighbours@.len(),
                forall|s: Set<int>|
                    #[trigger] closed_under(g, s) && s.contains(0) ==> forall|v: int| 0 <= v < n && visited@[v] ==> s.contains(v),
            decreases neighbours@.len() - k,
        {
            let next = neighbours[k];
            assert(next < n);
            if !visited[next] {
                let ghost old_visited = visited@;
                let ghost old_queue = queue@;
                proof {
                    assert(!old_queue.contains(next));
                    assert forall|i: int, j: int| 0 <= i < old_queue.len() + 1 && 0 <= j < old_queue.len() + 1 && i != j
                        implies old_queue.push(next)[i] != old_queue.push(next)[j] by {
                        if i < old_queue.len() && j < old_queue.len() {
                        } else if i == old_queue.len() {
                            assert(old_queue[j] != next);
                        } else {
                            assert(old_queue[i] != next);
                        }
                    }
                    assert forall|i: int| 0 <= i < old_queue.len() + 1 implies #[trigger] old_queue.push(next)[i] < n by {
                        if i < old_queue.len() {
                            assert(old_queue[i] < n);
                        }
                    }
                    lemma_distinct_below(old_queue.push(next), n);
                }
                visited.set(next, true);
                queue.push(next);
                proof {
                    assert forall|v: int| 0 <= v < n implies (#[trigger] visited@[v] <==> queue@.contains(v as usize)) by {
                        if v == next as int {
                            assert(queue@[old_queue.len() as int] == next);
                        } else {
                            assert(old_visited[v] == visited@[v]);
                            if old_queue.contains(v as usize) {
                                let i = choose|i: int| 0 <= i < old_queue.len() && old_queue[i] == v as usize;
                                assert(queue@[i] == v as usize);
                            }
                            if queue@.contains(v as usize) {
                                let i = choose|i: int| 0 <= i < queue@.len() && queue@[i] == v as usize;
                                assert(i < old_queue.len());
                                assert(old_queue[i] == v as usize);
                            }
                        }
                    }
                    assert forall|i: int, j: int|
                        0 <= i < head && 0 <= j < g[queue@[i] as int].len() implies #[trigger] visited@[g[queue@[i] as int][j] as int] by {
                        assert(queue@[i] == old_queue[i]);
                        assert(old_visited[g[old_queue[i] as int][j] as int]);
                    }
                    assert forall|j: int| 0 <= j < k + 1 implies #[trigger] visited@[g[node as int][j] as int] by {
                        if j < k {
                            assert(old_visited[g[node as int][j] as int]);
                        }
                    }
                    assert forall|s: Set<int>| #[trigger] closed_under(g, s) && s.contains(0) implies forall|v: int|
                        0 <= v < n && visited@[v] ==> s.contains(v) by {
                        assert(s.contains(node as int));
                        assert(s.contains(g[node as int][k as int] as int));
                        assert forall|v: int| 0 <= v < n && visited@[v] implies s.contains(v) by {
                            if v != next as int {
                                assert(old_visited[v]);
                            }
                        }
                    }
                }
            }
            k = k + 1;
        }
        head = head + 1;
    }
    let mut all = true;
    let mut v: usize = 0;
    while v < n
        invariant
            n == visited@.len(),
            v <= n,
            all == (forall|j: int| 0 <= j < v ==> #[trigger] visited@[j]),
        decreases n - v,
    {
        if !visited[v] {
            all = false;
        }
        v = v + 1;
    }
    proof {
        let reached = Set::new(|v: int| 0 <= v < n && visited@[v]);
        assert(visited@[0]);
        assert(closed_under(g, reached)) by {
            assert forall|v: int, k: int|
                reached.contains(v) && 0 <= v < g.len() && 0 <= k < g[v].len() implies reached.contains(#[trigger] g[v][k] as int) by {
                let i = choose|i: int| 0 <= i < queue@.len() && queue@[i] == v as usize;
                assert(visited@[g[queue@[i] as int][k] as int]);
            }
        }
        if !all {
            let u = choose|j: int| 0 <= j < n && !visited@[j];
            assert(!reached.contains(u));
            assert(reached.contains(0));
        }
    }
    all
}

/// The message for an unwrap graph that is not connected.
pub open spec fn disconnected_message() -> Seq<char> {
    "disconnected unwrap graph: not all grid points are reachable"@
}

/// Checks that the unwrap graph on `n_nodes` grid points is connected; a
/// graph of at most one point is connected whatever its table says.
pub fn validate_connected_graph(edgs: &NodeColumns, n_nodes: usize) -> (r: Result<(), CoreError>)
    requires
        edgs.wf(),
    ensures
        n_nodes <= 1 ==> r is Ok,
        n_nodes > 1 && edgs.cols < 3 && edgs.rows > 0 ==> (r matches Err(x) && x@ == (CoreErrorView::NativeStage {
            stage: 6,
            message: edgs_columns_message(edgs.cols),
        })),
        n_nodes > 1 && !(edgs.cols < 3 && edgs.rows > 0) ==> match r {
            Ok(_) => all_node_pairs_valid(edgs.ends@, n_nodes) && connected(adjacency(edgs.ends@, n_nodes as nat)),
            Err(x) => (exists|i: int|
                first_bad_node_pair(edgs.ends@, n_nodes, i) && x@ == (CoreErrorView::NativeStage {
                    stage: 6,
                    message: unwrap_edge_message(i, edgs.ends@[i], n_nodes),
                })) || (all_node_pairs_valid(edgs.ends@, n_nodes) && !connected(adjacency(edgs.ends@, n_nodes as nat))
                && x@ == (CoreErrorView::NativeStage { stage: 6, message: disconnected_message() })),
        },
{
    if n_nodes <= 1 {
        return Ok(());
    }
    let adj = graph_adjacency(edgs, n_nodes)?;
    proof {
        lemma_adjacency_shape(edgs.ends@, n_nodes);
        assert(lists_view(adj@).len() == adj@.len());
    }
    if all_reachable(&adj) {
        Ok(())
    } else {
        proof {
            assert(!(exists|i: int| first_bad_node_pair(edgs.ends@, n_nodes, i)));
        }
        Err(CoreError::NativeStage {
            stage: 6,
            message: String::from_str("disconnected unwrap graph: not all grid points are reachable"),
        })
    }
}

/// The message for an edge table that cannot be read.
pub open spec fn invalid_table_message(name: Seq<char>, err: Seq<char>) -> Seq<char> {
    "uw_interp."@ + name + " is invalid: "@ + err
}

/// The message for an edge table that is not `N x 3`.
pub open spec fn table_shape_message(name: Seq<char>, rows: usize, cols: usize) -> Seq<char> {
    "uw_interp."@ + name + " must be an Nx3 edge table with 1-based node columns 2 and 3; got "@
        + decimal(rows as nat) + "x"@ + decimal(cols as nat)
}

/// The message for a malformed edge in row `i`.
pub open spec fn table_edge_message(name: Seq<char>, i: int, p: (i64, i64), n: usize) -> Seq<char> {
    "uw_interp."@ + name + " row "@ + decimal((i + 1) as nat) + " has malformed 1-based edge nodes ("@
        + signed_decimal(p.0 as int) + ", "@ + signed_decimal(p.1 as int) + ") for n_ps="@ + decimal(n as nat)
}

/// A 1-based pair of node numbers as a 0-based edge.
pub open spec fn zero_based(p: (i64, i64)) -> (usize, usize) {
    ((p.0 - 1) as usize, (p.1 - 1) as usize)
}

/// Reads the 0-based edges of the `N x 3` edge table `name` of the unwrap
/// interpolation, given what reading the table gave: the table itself, or
/// the reason it could not be read.
pub fn edge_table(name: &str, source: Result<NodeColumns, String>, n_nodes: usize) -> (r: Result<Vec<(usize, usize)>, CoreError>)
    requires
        source matches Ok(t) ==> t.wf(),
    ensures
        match source {
            Err(err) => r matches Err(x) && x@ == (CoreErrorView::NativeStage {
                stage: 8,
                message: invalid_table_message(name@, err@),
            }),
            Ok(t) => if t.cols != 3 {
                r matches Err(x) && x@ == (CoreErrorView::NativeStage {
                    stage: 8,
                    message: table_shape_message(name@, t.rows, t.cols),
                })
            } else {
                match r {
                    Ok(edges) => all_node_pairs_valid(t.ends@, n_nodes) && edges@ == t.ends@.map_values(
                        |p: (i64, i64)| zero_based(p),
                    ),
                    Err(x) => exists|i: int|
                        first_bad_node_pair(t.ends@, n_nodes, i) && x@ == (CoreErrorView::NativeStage {
                            stage: 8,
                            message: table_edge_message(name@, i, t.ends@[i], n_nodes),
                        }),
                }
            },
        },
{
    let table = match source {
        Err(err) => {
            let mut m = String::from_str("uw_interp.");
            m.append(name);
            m.append(" is invalid: ");
            m.append(err.as_str());
            return Err(CoreError::NativeStage { stage: 8, message: m });
        },
        Ok(t) => t,
    };
    if table.cols != 3 {
        let mut m = String::from_str("uw_interp.");
        m.append(name);
        m.append(" must be an Nx3 edge table with 1-based node columns 2 and 3; got ");
        m.append(usize_text(table.rows).as_str());
        m.append("x");
        m.append(usize_text(table.cols).as_str());
        return Err(CoreError::NativeStage { stage: 8, message: m });
    }
    let ghost ends = table.ends@;
    let mut edges: Vec<(usize, usize)> = Vec::new();
    let mut row: usize = 0;
    while row < table.ends.len()
        invariant
            ends == table.ends@,
            source matches Ok(t) && t == table,
            table.cols == 3,
            row <= ends.len(),
            edges@ == ends.take(row as int).map_values(|p: (i64, i64)| zero_based(p)),
            forall|j: int| 0 <= j < row ==> !bad_node_pair(#[trigger] ends[j], n_nodes),
        decreases ends.len() - row,
    {
        let (a, b) = table.ends[row];
        if a <= 0 || b <= 0 || a as u64 > n_nodes as u64 || b as u64 > n_nodes as u64 || a == b {
            let mut m = String::from_str("uw_interp.");
            m.append(name);
            m.append(" row ");
            m.append(usize_text(row + 1).as_str());
            m.append(" has malformed 1-based edge nodes (");
            m.append(i64_text(a).as_str());
            m.append(", ");
            m.append(i64_text(b).as_str());
            m.append(") for n_ps=");
            m.append(usize_text(n_nodes).as_str());
            assert(first_bad_node_pair(ends, n_nodes, row as int));
            return Err(CoreError::NativeStage { stage: 8, message: m });
        }
        edges.push(((a - 1) as usize, (b - 1) as usize));
        proof {
            assert(ends.take(row + 1) =~= ends.take(row as int).push(ends[row as int]));
            assert(edges@ =~= ends.take(row + 1).map_values(|p: (i64, i64)| zero_based(p)));
        }
        row = row + 1;
    }
    proof {
        assert(ends.take(ends.len() as int) =~= ends);
    }
    Ok(edges)
}

} // verus!
