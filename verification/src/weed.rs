//! Weeding of adjacent pixels (stage 4): among persistent scatterers that
//! touch each other on the image grid, only the most coherent one of each
//! group is kept.

use vstd::prelude::*;
use std::collections::BTreeMap;

verus! {

/// Whether point `p` lies in one of the eight cells around cell `q` (not in
/// `q` itself).
pub open spec fn near(p: (i64, i64), q: (int, int)) -> bool {
    let dr = p.0 - q.0;
    let dc = p.1 - q.1;
    -1 <= dr <= 1 && -1 <= dc <= 1 && !(dr == 0 && dc == 0)
}

/// The cell of a point.
pub open spec fn cell(p: (i64, i64)) -> (int, int) {
    (p.0 as int, p.1 as int)
}

/// The owner of cell `q`: one more than the position of the first point that
/// lies next to it, or 0 when no point does.
pub open spec fn owner(points: Seq<(i64, i64)>, q: (int, int)) -> int
    decreases points.len(),
{
    if points.len() == 0 {
        0
    } else {
        let prev = owner(points.drop_last(), q);
        if prev != 0 {
            prev
        } else if near(points.last(), q) {
            points.len() as int
        } else {
            0
        }
    }
}

/// The 1-based parent of point `j` (0-based): the owner of the point's own
/// cell, 0 for none.
pub open spec fn parent(points: Seq<(i64, i64)>, j: int) -> int {
    owner(points, cell(points[j]))
}

/// The 1-based points among the first `m` whose parent is `k`, in order.
pub open spec fn kids(points: Seq<(i64, i64)>, m: int, k: int) -> Seq<usize>
    decreases m,
{
    if m <= 0 {
        Seq::empty()
    } else {
        kids(points, m - 1, k) + (if parent(points, m - 1) == k {
            seq![m as usize]
        } else {
            Seq::empty()
        })
    }
}

/// The 1-based points whose parent is `k`, in order.
pub open spec fn children(points: Seq<(i64, i64)>, k: int) -> Seq<usize> {
    kids(points, points.len() as int, k)
}

proof fn lemma_owner_range(points: Seq<(i64, i64)>, q: (int, int))
    ensures
        0 <= owner(points, q) <= points.len(),
        owner(points, q) != 0 ==> near(points[owner(points, q) - 1], q),
    decreases points.len(),
{
    if points.len() > 0 {
        lemma_owner_range(points.drop_last(), q);
    }
}

proof fn lemma_kids_range(points: Seq<(i64, i64)>, m: int, k: int)
    requires
        m <= points.len() <= usize::MAX,
    ensures
        forall|t: int| 0 <= t < kids(points, m, k).len() ==> 1 <= #[trigger] kids(points, m, k)[t] <= m,
        kids(points, m, k).len() <= if m < 0 { 0 } else { m },
    decreases m,
{
    if m > 0 {
        lemma_kids_range(points, m - 1, k);
        let prev = kids(points, m - 1, k);
        let all = kids(points, m, k);
        assert forall|t: int| 0 <= t < all.len() implies 1 <= #[trigger] all[t] <= m by {
            if t < prev.len() {
                assert(all[t] == prev[t]);
            } else {
                assert(all[t] == m as usize);
            }
        }
    }
}

/// The cell key of a point shifted by `dr` rows and `dc` columns.
fn claim(owners: &mut BTreeMap<(i128, i128), usize>, a: i128, b: i128, v: usize)
    ensures
        final(owners)@ == (if old(owners)@.contains_key((a, b)) {
            old(owners)@
        } else {
            old(owners)@.insert((a, b), v)
        }),
{
    if !owners.contains_key(&(a, b)) {
        owners.insert((a, b), v);
    }
}

/// The map holds, for every cell, its owner among the first `i` points.
pub open spec fn owners_of(m: Map<(i128, i128), usize>, points: Seq<(i64, i64)>, i: int) -> bool {
    forall|a: i128, b: i128|
        #![trigger m.contains_key((a, b))]
        #![trigger owner(points.take(i), (a as int, b as int))]
        (m.contains_key((a, b)) <==> owner(points.take(i), (a as int, b as int)) != 0) && (m.contains_key((a, b))
            ==> m[(a, b)] == owner(points.take(i), (a as int, b as int)))
}

/// The owner of every cell around the points, as a map from cells.
fn build_owners(points: &Vec<(i64, i64)>) -> (r: BTreeMap<(i128, i128), usize>)
    ensures
        owners_of(r@, points@, points@.len() as int),
{
    let mut owners: BTreeMap<(i128, i128), usize> = BTreeMap::new();
    let mut i: usize = 0;
    while i < points.len()
        invariant
            i <= points@.len(),
            owners_of(owners@, points@, i as int),
        decreases points@.len() - i,
    {
        let (r, c) = points[i];
        let r = r as i128;
        let c = c as i128;
        let ghost before = owners@;
        let v = i + 1;
        claim(&mut owners, r - 1, c - 1, v);
        claim(&mut owners, r - 1, c, v);
        claim(&mut owners, r - 1, c + 1, v);
        claim(&mut owners, r, c - 1, v);
        claim(&mut owners, r, c + 1, v);
        claim(&mut owners, r + 1, c - 1, v);
        claim(&mut owners, r + 1, c, v);
        claim(&mut owners, r + 1, c + 1, v);
        proof {
            let prev = points@.take(i as int);
            let next = points@.take(i + 1);
            assert(next.drop_last() =~= prev);
            assert(next.last() == points@[i as int]);
            assert forall|a: i128, b: i128|
                #![trigger owners@.contains_key((a, b))]
                #![trigger owner(points@.take(i + 1), (a as int, b as int))]
                (owners@.contains_key((a, b)) <==> owner(points@.take(i + 1), (a as int, b as int)) != 0) && (
                owners@.contains_key((a, b)) ==> owners@[(a, b)] == owner(points@.take(i + 1), (a as int, b as int))) by {
                assert(owner(next, (a as int, b as int)) == (if owner(prev, (a as int, b as int)) != 0 {
                    owner(prev, (a as int, b as int))
                } else if near(points@[i as int], (a as int, b as int)) {
                    (i + 1) as int
                } else {
                    0
                }));
                assert(before.contains_key((a, b)) <==> owner(prev, (a as int, b as int)) != 0);
            }
        }
        i = i + 1;
    }
    owners
}

/// The children lists of all points, indexed by 1-based parent (entry 0 is
/// empty).
fn build_children(points: &Vec<(i64, i64)>, owners: &BTreeMap<(i128, i128), usize>) -> (r: Vec<Vec<usize>>)
    requires
        owners_of(owners@, points@, points@.len() as int),
    ensures
        r@.len() == points@.len() + 1,
        r@[0]@.len() == 0,
        forall|k: int| 1 <= k <= points@.len() ==> (#[trigger] r@[k])@ == children(points@, k),
{
    let n = points.len();
    let ghost pts = points@;
    proof {
        assert(pts.take(n as int) =~= pts);
    }
    let mut lists: Vec<Vec<usize>> = Vec::new();
    lists.push(Vec::new());
    let mut k: usize = 0;
    while k < n
        invariant
            k <= n,
            n == pts.len(),
            lists@.len() == k + 1,
            forall|t: int| 0 <= t < k + 1 ==> (#[trigger] lists@[t])@.len() == 0,
        decreases n - k,
    {
        lists.push(Vec::new());
        k = k + 1;
    }
    let mut j: usize = 0;
    while j < n
        invariant
            j <= n,
            n == pts.len(),
            pts == points@,
            owners_of(owners@, pts, n as int),
            pts.take(n as int) == pts,
            lists@.len() == n + 1,
            lists@[0]@.len() == 0,
            forall|t: int| 1 <= t <= n ==> (#[trigger] lists@[t])@ == kids(pts, j as int, t),
        decreases n - j,
    {
        let (r, c) = points[j];
        let key = (r as i128, c as i128);
        let parent_ix: usize = match owners.get(&key) {
            Some(v) => *v,
            None => 0,
        };
        proof {
            assert(owners@.contains_key((r as i128, c as i128)) <==> owner(pts.take(n as int), ((r as i128) as int, (c as i128) as int)) != 0);
            assert(parent_ix == parent(pts, j as int));
            lemma_owner_range(pts, cell(pts[j as int]));
        }
        let ghost before = lists@;
        if parent_ix != 0 {
            lists[parent_ix].push(j + 1);
        }
        proof {
            assert forall|t: int| 1 <= t <= n implies (#[trigger] lists@[t])@ == kids(pts, j + 1, t) by {
                if t == parent_ix {
                    assert(lists@[t]@ =~= before[t]@.push((j + 1) as usize));
                    assert(kids(pts, j + 1, t) =~= kids(pts, j as int, t) + seq![(j + 1) as usize]);
                } else {
                    assert(lists@[t] == before[t]);
                    assert(kids(pts, j + 1, t) =~= kids(pts, j as int, t));
                }
            }
        }
        j = j + 1;
    }
    lists
}

/// A set of points that, with each of its points not yet `taken`, holds all
/// of that point's children.
pub open spec fn closed_group(points: Seq<(i64, i64)>, taken: Set<int>, s: Set<int>) -> bool {
    forall|x: int, t: int|
        s.contains(x) && !taken.contains(x) && 0 <= t < children(points, x).len() ==> s.contains(
            #[trigger] children(points, x)[t] as int,
        )
}

/// The group that grows from `root`: the points in every set that holds
/// `root` and is closed as above.
pub open spec fn group(points: Seq<(i64, i64)>, taken: Set<int>, root: int) -> Set<int> {
    Set::new(|x: int| forall|s: Set<int>| #[trigger] closed_group(points, taken, s) && s.contains(root) ==> s.contains(x))
}

/// The points marked in a flag vector indexed from 1.
pub open spec fn flagged(t: Seq<bool>) -> Set<int> {
    Set::new(|x: int| 1 <= x < t.len() && t[x])
}

/// The values of a sequence, as a set of integers.
pub open spec fn members(s: Seq<usize>) -> Set<int> {
    Set::new(|x: int| exists|k: int| 0 <= k < s.len() && s[k] as int == x)
}

/// The points among `1..m` that have children but are not yet taken.
pub open spec fn pending(points: Seq<(i64, i64)>, t: Seq<bool>, m: int) -> nat
    decreases m,
{
    if m <= 1 {
        0
    } else {
        pending(points, t, m - 1) + (if !t[m - 1] && children(points, m - 1).len() > 0 {
            1nat
        } else {
            0nat
        })
    }
}

proof fn lemma_pending_take(points: Seq<(i64, i64)>, t: Seq<bool>, x: int, m: int)
    requires
        1 <= x < t.len(),
        m <= t.len(),
        !t[x],
        children(points, x).len() > 0,
    ensures
        x < m ==> pending(points, t.update(x, true), m) + 1 == pending(points, t, m),
        x >= m ==> pending(points, t.update(x, true), m) == pending(points, t, m),
    decreases m,
{
    if m > 1 {
        lemma_pending_take(points, t, x, m - 1);
    }
}

/// The children lists as built: entry `k` (1 to n) lists the children of `k`.
pub open spec fn lists_match(points: Seq<(i64, i64)>, lists: Seq<Vec<usize>>) -> bool {
    &&& lists.len() == points.len() + 1
    &&& forall|k: int| 1 <= k <= points.len() ==> (#[trigger] lists[k])@ == children(points, k)
}

fn collect_group(points: &Vec<(i64, i64)>, lists: &Vec<Vec<usize>>, taken: &mut Vec<bool>, root: usize) -> (r: Vec<usize>)
    requires
        points@.len() < usize::MAX,
        lists_match(points@, lists@),
        old(taken)@.len() == points@.len() + 1,
        1 <= root <= points@.len(),
        !old(taken)@[root as int],
        children(points@, root as int).len() > 0,
    ensures
        final(taken)@.len() == points@.len() + 1,
        members(r@) == group(points@, flagged(old(taken)@), root as int),
        flagged(final(taken)@) == flagged(old(taken)@).union(
            Set::new(|x: int| group(points@, flagged(old(taken)@), root as int).contains(x) && children(points@, x).len() > 0),
        ),
        r@.len() > 0,
        forall|k: int| 0 <= k < r@.len() ==> 1 <= #[trigger] r@[k] <= points@.len(),
{
    let n = points.len();
    let ghost pts = points@;
    let ghost t0 = flagged(old(taken)@);
    let ghost old_taken = old(taken)@;
    let mut same: Vec<usize> = Vec::new();
    same.push(root);
    let mut i2: usize = 0;
    proof {
        assert forall|s: Set<int>| #[trigger] closed_group(pts, t0, s) && s.contains(root as int) implies forall|k: int|
            0 <= k < same@.len() ==> s.contains(same@[k] as int) by {
            assert forall|k: int| 0 <= k < same@.len() implies s.contains(same@[k] as int) by {
                assert(k == 0);
            }
        }
        assert forall|x: int| 1 <= x <= n implies (#[trigger] taken@[x] <==> (t0.contains(x) || (children(pts, x).len()
            > 0 && exists|k: int| 0 <= k < i2 && same@[k] as int == x))) by {
            assert(t0.contains(x) == old_taken[x]);
        }
    }
    while i2 < same.len()
        invariant
            n == pts.len(),
            n < usize::MAX,
            pts == points@,
            lists_match(pts, lists@),
            taken@.len() == n + 1,
            t0 == flagged(old_taken),
            old_taken.len() == n + 1,
            1 <= root <= n,
            i2 <= same@.len(),
            same@.len() > 0,
            same@[0] == root,
            forall|k: int| 0 <= k < same@.len() ==> 1 <= #[trigger] same@[k] <= n,
            forall|s: Set<int>| #[trigger] closed_group(pts, t0, s) && s.contains(root as int) ==> forall|k: int|
                0 <= k < same@.len() ==> s.contains(same@[k] as int),
            forall|k: int, t: int|
                0 <= k < i2 && !t0.contains(same@[k] as int) && 0 <= t < children(pts, same@[k] as int).len()
                    ==> members(same@).contains(#[trigger] children(pts, same@[k] as int)[t] as int),
            forall|x: int| 1 <= x <= n ==> (#[trigger] taken@[x] <==> (t0.contains(x) || (children(pts, x).len() > 0
                && exists|k: int| 0 <= k < i2 && same@[k] as int == x))),
        decreases pending(pts, taken@, n + 1), same@.len() - i2,
    {
        let x = same[i2];
        let kids_of_x = &lists[x];
        assert(kids_of_x@ == children(pts, x as int));
        if !taken[x] && kids_of_x.len() > 0 {
            let ghost before_taken = taken@;
            let ghost before_same = same@;
            taken.set(x, true);
            proof {
                lemma_pending_take(pts, before_taken, x as int, n + 1);
                lemma_kids_range(pts, pts.len() as int, x as int);
            }
            let mut t: usize = 0;
            while t < kids_of_x.len()
                invariant
                    t <= kids_of_x@.len(),
                    kids_of_x@ == children(pts, x as int),
                    same@.len() == before_same.len() + t,
                    forall|k: int| 0 <= k < before_same.len() ==> same@[k] == before_same[k],
                    forall|k: int| 0 <= k < t ==> same@[before_same.len() + k] == kids_of_x@[k],
                    forall|k: int| 0 <= k < kids_of_x@.len() ==> 1 <= #[trigger] kids_of_x@[k] <= n,
                decreases kids_of_x@.len() - t,
            {
                same.push(kids_of_x[t]);
                t = t + 1;
            }
            proof {
                assert forall|k: int| 0 <= k < same@.len() implies 1 <= #[trigger] same@[k] <= n by {
                    if k >= before_same.len() {
                        assert(same@[k] == kids_of_x@[k - before_same.len()]);
                    } else {
                        assert(same@[k] == before_same[k]);
                        assert(1 <= before_same[k] <= n);
                    }
                }
                assert forall|s: Set<int>| #[trigger] closed_group(pts, t0, s) && s.contains(root as int) implies forall|k: int|
                    0 <= k < same@.len() ==> s.contains(same@[k] as int) by {
                    assert(s.contains(before_same[i2 as int] as int));
                    assert(!t0.contains(x as int));
                    assert forall|k: int| 0 <= k < same@.len() implies s.contains(same@[k] as int) by {
                        if k >= before_same.len() {
                            let t = k - before_same.len();
                            assert(same@[k] == children(pts, x as int)[t]);
                            assert(s.contains(children(pts, x as int)[t] as int));
                        } else {
                            assert(same@[k] == before_same[k]);
                        }
                    }
                }
                assert forall|k: int, t: int|
                    0 <= k < i2 + 1 && !t0.contains(same@[k] as int) && 0 <= t < children(pts, same@[k] as int).len()
                        implies members(same@).contains(#[trigger] children(pts, same@[k] as int)[t] as int) by {
                    if k == i2 {
                        assert(same@[before_same.len() + t] == kids_of_x@[t]);
                    } else {
                        assert(same@[k] == before_same[k]);
                        assert(members(before_same).contains(children(pts, same@[k] as int)[t] as int));
                        let w = choose|w: int| 0 <= w < before_same.len() && before_same[w] as int == children(pts, same@[k] as int)[t] as int;
                        assert(same@[w] == before_same[w]);
                    }
                }
                assert forall|y: int| 1 <= y <= n implies (#[trigger] taken@[y] <==> (t0.contains(y) || (children(pts, y).len() > 0
                    && exists|k: int| 0 <= k < i2 + 1 && same@[k] as int == y))) by {
                    if y == x as int {
                        assert(same@[i2 as int] == x);
                    } else {
                        assert(taken@[y] == before_taken[y]);
                        if exists|k: int| 0 <= k < i2 + 1 && same@[k] as int == y {
                            let k = choose|k: int| 0 <= k < i2 + 1 && same@[k] as int == y;
                            assert(k != i2);
                            assert(before_same[k] == same@[k]);
                        }
                        if exists|k: int| 0 <= k < i2 && before_same[k] as int == y {
                            let k = choose|k: int| 0 <= k < i2 && before_same[k] as int == y;
                            assert(before_same[k] == same@[k]);
                        }
                    }
                }
            }
        } else {
            proof {
                assert forall|k: int, t: int|
                    0 <= k < i2 + 1 && !t0.contains(same@[k] as int) && 0 <= t < children(pts, same@[k] as int).len()
                        implies members(same@).contains(#[trigger] children(pts, same@[k] as int)[t] as int) by {
                    if k == i2 && !t0.contains(x as int) && kids_of_x@.len() > 0 {
                        assert(taken@[x as int]);
                        let w = choose|w: int| 0 <= w < i2 && same@[w] as int == x as int;
                        assert(members(same@).contains(children(pts, same@[w] as int)[t] as int));
                    }
                }
                assert forall|y: int| 1 <= y <= n implies (#[trigger] taken@[y] <==> (t0.contains(y) || (children(pts, y).len() > 0
                    && exists|k: int| 0 <= k < i2 + 1 && same@[k] as int == y))) by {
                    if y == x as int && children(pts, y).len() > 0 && !t0.contains(y) {
                        assert(same@[i2 as int] == x);
                        assert(taken@[y]);
                    }
                    if exists|k: int| 0 <= k < i2 + 1 && same@[k] as int == y {
                        let k = choose|k: int| 0 <= k < i2 + 1 && same@[k] as int == y;
                        if k == i2 && children(pts, y).len() > 0 && !t0.contains(y) {
                            assert(taken@[y]);
                        }
                    }
                }
            }
        }
        i2 = i2 + 1;
    }
    proof {
        let g = group(pts, t0, root as int);
        let m = members(same@);
        assert(closed_group(pts, t0, m)) by {
            assert forall|x: int, t: int|
                m.contains(x) && !t0.contains(x) && 0 <= t < children(pts, x).len() implies m.contains(
                #[trigger] children(pts, x)[t] as int,
            ) by {
                let k = choose|k: int| 0 <= k < same@.len() && same@[k] as int == x;
                assert(members(same@).contains(children(pts, same@[k] as int)[t] as int));
            }
        }
        assert(m.contains(root as int)) by {
            assert(same@[0] as int == root as int);
        }
        assert(m =~= g) by {
            assert forall|x: int| m.contains(x) implies g.contains(x) by {
                let k = choose|k: int| 0 <= k < same@.len() && same@[k] as int == x;
                assert forall|s: Set<int>| #[trigger] closed_group(pts, t0, s) && s.contains(root as int) implies s.contains(x) by {
                    assert(s.contains(same@[k] as int));
                }
            }
            assert forall|x: int| g.contains(x) implies m.contains(x) by {
                assert(closed_group(pts, t0, m) && m.contains(root as int) ==> m.contains(x));
            }
        }
        let extra = Set::new(|x: int| g.contains(x) && children(pts, x).len() > 0);
        assert(flagged(taken@) =~= t0.union(extra)) by {
            assert forall|x: int| flagged(taken@).contains(x) implies t0.union(extra).contains(x) by {
                if !t0.contains(x) {
                    let k = choose|k: int| 0 <= k < i2 && same@[k] as int == x;
                    assert(m.contains(x));
                }
            }
            assert forall|x: int| t0.union(extra).contains(x) implies flagged(taken@).contains(x) by {
                if t0.contains(x) {
                    assert(1 <= x <= n);
                } else {
                    assert(m.contains(x));
                    let k = choose|k: int| 0 <= k < same@.len() && same@[k] as int == x;
                    assert(1 <= x <= n);
                }
            }
        }
    }
    same
}

/// Point `a` ranks above point `b` (both 1-based): it is more coherent, or
/// as coherent and later.
pub open spec fn beats(keys: Seq<i64>, a: int, b: int) -> bool {
    keys[a - 1] > keys[b - 1] || (keys[a - 1] == keys[b - 1] && a > b)
}

/// Point `b` of group `g` ranks above every other point of the group.
pub open spec fn is_best(g: Set<int>, keys: Seq<i64>, b: int) -> bool {
    g.contains(b) && forall|y: int| g.contains(y) && y != b ==> #[trigger] beats(keys, b, y)
}

/// The point that a group keeps.
pub open spec fn best_of(g: Set<int>, keys: Seq<i64>) -> int {
    choose|b: int| is_best(g, keys, b)
}

/// One root of the weeding: a point with children that no earlier group took
/// starts a group; the group keeps its best point and drops the others.  The
/// state is the set of points whose children were taken and the keep flags.
pub open spec fn weed_step(points: Seq<(i64, i64)>, keys: Seq<i64>, st: (Set<int>, Seq<bool>), i: int) -> (
    Set<int>,
    Seq<bool>,
) {
    if st.0.contains(i) || children(points, i).len() == 0 {
        st
    } else {
        let g = group(points, st.0, i);
        let b = best_of(g, keys);
        (
            st.0.union(Set::new(|x: int| g.contains(x) && children(points, x).len() > 0)),
            Seq::new(st.1.len(), |k: int| st.1[k] && !(g.contains(k + 1) && k + 1 != b)),
        )
    }
}

/// The weeding state after the roots `1..=i`.
pub open spec fn weed_upto(points: Seq<(i64, i64)>, keys: Seq<i64>, i: int) -> (Set<int>, Seq<bool>)
    decreases i,
{
    if i <= 0 {
        (Set::empty(), Seq::new(points.len(), |k: int| true))
    } else {
        weed_step(points, keys, weed_upto(points, keys, i - 1), i)
    }
}

/// Which points the weeding keeps.
pub open spec fn spec_keep_mask(points: Seq<(i64, i64)>, keys: Seq<i64>) -> Seq<bool> {
    weed_upto(points, keys, points.len() as int).1
}

proof fn lemma_best_unique(g: Set<int>, keys: Seq<i64>, b: int)
    requires
        is_best(g, keys, b),
    ensures
        best_of(g, keys) == b,
{
    let c = best_of(g, keys);
    assert(is_best(g, keys, c));
    if c != b {
        assert(beats(keys, b, c));
        assert(beats(keys, c, b));
    }
}

fn pick_best(same: &Vec<usize>, keys: &Vec<i64>) -> (r: usize)
    requires
        same@.len() > 0,
        forall|k: int| 0 <= k < same@.len() ==> 1 <= #[trigger] same@[k] <= keys@.len(),
    ensures
        is_best(members(same@), keys@, r as int),
{
    let mut best = same[0];
    let mut k: usize = 1;
    proof {
        let s1 = same@.take(1);
        assert(s1[0] == same@[0]);
        assert(members(s1).contains(best as int));
        assert forall|y: int| members(s1).contains(y) && y != best implies #[trigger] beats(keys@, best as int, y) by {
            let w = choose|w: int| 0 <= w < s1.len() && s1[w] as int == y;
            assert(w == 0);
        }
    }
    while k < same.len()
        invariant
            1 <= k <= same@.len(),
            forall|j: int| 0 <= j < same@.len() ==> 1 <= #[trigger] same@[j] <= keys@.len(),
            1 <= best <= keys@.len(),
            is_best(members(same@.take(k as int)), keys@, best as int),
        decreases same@.len() - k,
    {
        let x = same[k];
        let ghost ps = same@.take(k as int);
        let ghost ns = same@.take(k + 1);
        let ghost prev = members(ps);
        let ghost next = members(ns);
        let kx = keys[x - 1];
        let kb = keys[best - 1];
        if kx > kb || (kx == kb && x > best) {
            proof {
                assert forall|y: int| next.contains(y) && y != x implies #[trigger] beats(keys@, x as int, y) by {
                    let w = choose|w: int| 0 <= w < ns.len() && ns[w] as int == y;
                    if w < k {
                        assert(ps[w] == ns[w]);
                        assert(prev.contains(y));
                        if y != best {
                            assert(beats(keys@, best as int, y));
                        }
                    }
                }
                assert(next.contains(x as int)) by {
                    assert(ns[k as int] == x);
                }
            }
            best = x;
        } else {
            proof {
                assert forall|y: int| next.contains(y) && y != best implies #[trigger] beats(keys@, best as int, y) by {
                    let w = choose|w: int| 0 <= w < ns.len() && ns[w] as int == y;
                    if w < k {
                        assert(ps[w] == ns[w]);
                        assert(prev.contains(y));
                    } else {
                        assert(y == x);
                    }
                }
                assert(next.contains(best as int)) by {
                    let w = choose|w: int| 0 <= w < ps.len() && ps[w] as int == best as int;
                    assert(ns[w] == ps[w]);
                }
            }
        }
        k = k + 1;
    }
    proof {
        assert(same@.take(same@.len() as int) =~= same@);
    }
    best
}

/// Which of the points (their image rows and columns) survive the weeding of
/// adjacent pixels, given a key for each point's coherence that orders as the
/// coherences do: each point hangs under the first point next to its cell;
/// a group grows from a point through the points hanging under it, and keeps
/// only its most coherent point (the later one on a tie).
pub fn adjacent_component_keep_mask(ij_cols23: &Vec<(i64, i64)>, coh_keys: &Vec<i64>) -> (r: Vec<bool>)
    requires
        ij_cols23@.len() == coh_keys@.len(),
        ij_cols23@.len() < usize::MAX,
    ensures
        r@ == spec_keep_mask(ij_cols23@, coh_keys@),
{
    let n = ij_cols23.len();
    let ghost pts = ij_cols23@;
    let ghost keys = coh_keys@;
    let owners = build_owners(ij_cols23);
    let lists = build_children(ij_cols23, &owners);
    let mut taken: Vec<bool> = Vec::new();
    let mut keep: Vec<bool> = Vec::new();
    taken.push(false);
    let mut k: usize = 0;
    while k < n
        invariant
            k <= n,
            taken@.len() == k + 1,
            keep@.len() == k,
            forall|j: int| 0 <= j < k + 1 ==> !(#[trigger] taken@[j]),
            forall|j: int| 0 <= j < k ==> #[trigger] keep@[j],
        decreases n - k,
    {
        taken.push(false);
        keep.push(true);
        k = k + 1;
    }
    proof {
        assert(flagged(taken@) =~= Set::<int>::empty());
        assert(keep@ =~= Seq::new(pts.len(), |k: int| true));
    }
    let mut i: usize = 1;
    while i <= n
        invariant
            1 <= i <= n + 1,
            n == pts.len(),
            n < usize::MAX,
            pts == ij_cols23@,
            keys == coh_keys@,
            keys.len() == n,
            lists_match(pts, lists@),
            taken@.len() == n + 1,
            keep@.len() == n,
            flagged(taken@) == weed_upto(pts, keys, i - 1).0,
            keep@ == weed_upto(pts, keys, i - 1).1,
        decreases n + 1 - i,
    {
        let ghost st = weed_upto(pts, keys, i - 1);
        assert(flagged(taken@).contains(i as int) == taken@[i as int]);
        assert(lists@[i as int]@ == children(pts, i as int));
        if !taken[i] && lists[i].len() > 0 {
            let ghost t_before = taken@;
            let same = collect_group(ij_cols23, &lists, &mut taken, i);
            let ghost g = group(pts, st.0, i as int);
            assert(members(same@) == g);
            let best = pick_best(&same, coh_keys);
            proof {
                lemma_best_unique(g, keys, best as int);
            }
            let ghost keep_before = keep@;
            let mut t: usize = 0;
            while t < same.len()
                invariant
                    t <= same@.len(),
                    keep@.len() == n,
                    keep_before.len() == n,
                    forall|j: int| 0 <= j < same@.len() ==> 1 <= #[trigger] same@[j] <= n,
                    forall|m: int| 0 <= m < n ==> #[trigger] keep@[m] == (keep_before[m] && !(members(same@.take(t as int)).contains(m + 1)
                        && m + 1 != best)),
                decreases same@.len() - t,
            {
                let x = same[t];
                let ghost before = keep@;
                if x != best {
                    keep.set(x - 1, false);
                }
                proof {
                    assert forall|m: int| 0 <= m < n implies #[trigger] keep@[m] == (keep_before[m] && !(members(
                        same@.take(t + 1),
                    ).contains(m + 1) && m + 1 != best)) by {
                        let ns = same@.take(t + 1);
                        let ps = same@.take(t as int);
                        let now = members(ns);
                        let was = members(ps);
                        if now.contains(m + 1) && !was.contains(m + 1) {
                            let w = choose|w: int| 0 <= w < ns.len() && ns[w] as int == m + 1;
                            if w < t {
                                assert(ps[w] == ns[w]);
                            }
                        }
                        if was.contains(m + 1) {
                            let w = choose|w: int| 0 <= w < ps.len() && ps[w] as int == m + 1;
                            assert(ns[w] == ps[w]);
                        }
                        if m + 1 == x as int {
                            assert(ns[t as int] == x);
                        }
                    }
                }
                t = t + 1;
            }
            proof {
                assert(same@.take(same@.len() as int) =~= same@);
                assert(keep@ =~= weed_step(pts, keys, st, i as int).1);
                assert(flagged(taken@) == weed_step(pts, keys, st, i as int).0);
            }
        }
        i = i + 1;
    }
    keep
}

/// The key of a coherence value given by its IEEE 754 bits: the bits read as
/// a signed integer, with the magnitude bits flipped for negative values.
/// Keys compare as `f64::total_cmp` compares the values.
pub open spec fn spec_coherence_key(bits: u64) -> i64 {
    let x = bits as i64;
    x ^ ((((x >> 63u64) as u64) >> 1u64) as i64)
}

/// The key of a coherence value given by its IEEE 754 bits.
pub fn coherence_key(bits: u64) -> (r: i64)
    ensures
        r == spec_coherence_key(bits),
{
    let x = bits as i64;
    x ^ ((((x >> 63u64) as u64) >> 1u64) as i64)
}

proof fn lemma_owner_found(points: Seq<(i64, i64)>, q: (int, int), k: int)
    requires
        0 <= k < points.len(),
        near(points[k], q),
    ensures
        owner(points, q) != 0,
    decreases points.len(),
{
    if k < points.len() - 1 {
        assert(points.drop_last()[k] == points[k]);
        lemma_owner_found(points.drop_last(), q, k);
    }
}

proof fn lemma_kids_parents(points: Seq<(i64, i64)>, m: int, k: int)
    requires
        m <= points.len() <= usize::MAX,
    ensures
        forall|t: int| 0 <= t < kids(points, m, k).len() ==> parent(points, #[trigger] kids(points, m, k)[t] - 1) == k,
    decreases m,
{
    if m > 0 {
        lemma_kids_parents(points, m - 1, k);
        let prev = kids(points, m - 1, k);
        let all = kids(points, m, k);
        assert forall|t: int| 0 <= t < all.len() implies parent(points, #[trigger] all[t] - 1) == k by {
            if t < prev.len() {
                assert(all[t] == prev[t]);
            } else {
                assert(all[t] == m as usize);
            }
        }
    }
}

proof fn lemma_no_kids(points: Seq<(i64, i64)>, m: int, k: int)
    requires
        m <= points.len(),
        forall|y: int| 0 <= y < points.len() ==> parent(points, y) != k,
    ensures
        kids(points, m, k).len() == 0,
    decreases m,
{
    if m > 0 {
        lemma_no_kids(points, m - 1, k);
    }
}

proof fn lemma_lonely_not_grouped(points: Seq<(i64, i64)>, taken: Set<int>, root: int, j: int)
    requires
        0 <= j < points.len() <= usize::MAX,
        parent(points, j) == 0,
        1 <= root,
        children(points, root).len() > 0,
    ensures
        !group(points, taken, root).contains(j + 1),
        children(points, j + 1).len() == 0,
{
    let n = points.len() as int;
    assert forall|y: int| 0 <= y < n implies parent(points, y) != j + 1 by {
        if parent(points, y) == j + 1 {
            lemma_owner_range(points, cell(points[y]));
            assert(near(points[j], cell(points[y])));
            lemma_owner_found(points, cell(points[j]), y);
        }
    }
    lemma_no_kids(points, n, j + 1);
    let s = Set::new(|x: int| x == root || exists|y: int| 0 <= y < n && x == y + 1 && parent(points, y) != 0);
    assert(closed_group(points, taken, s)) by {
        assert forall|x: int, t: int|
            s.contains(x) && !taken.contains(x) && 0 <= t < children(points, x).len() implies s.contains(
            #[trigger] children(points, x)[t] as int,
        ) by {
            lemma_kids_parents(points, n, x);
            lemma_kids_range(points, n, x);
            let c = children(points, x)[t] as int;
            assert(parent(points, c - 1) == x);
            if x == 0 {
                assert(false) by {
                    if x == root {
                    } else {
                        let y = choose|y: int| 0 <= y < n && x == y + 1 && parent(points, y) != 0;
                    }
                }
            }
            assert(0 <= c - 1 < n && c == (c - 1) + 1 && parent(points, c - 1) != 0);
        }
    }
    assert(s.contains(root));
    if group(points, taken, root).contains(j + 1) {
        assert(s.contains(j + 1));
    }
}

proof fn lemma_lonely_kept_upto(points: Seq<(i64, i64)>, keys: Seq<i64>, j: int, i: int)
    requires
        0 <= j < points.len() <= usize::MAX,
        parent(points, j) == 0,
    ensures
        weed_upto(points, keys, i).1.len() == points.len(),
        weed_upto(points, keys, i).1[j],
    decreases i,
{
    if i > 0 {
        lemma_lonely_kept_upto(points, keys, j, i - 1);
        let st = weed_upto(points, keys, i - 1);
        if !(st.0.contains(i) || children(points, i).len() == 0) {
            lemma_lonely_not_grouped(points, st.0, i, j);
        }
    }
}

proof fn lemma_weed_upto_len(points: Seq<(i64, i64)>, keys: Seq<i64>, i: int)
    ensures
        weed_upto(points, keys, i).1.len() == points.len(),
    decreases i,
{
    if i > 0 {
        lemma_weed_upto_len(points, keys, i - 1);
    }
}

/// The weeding gives one flag per point.
pub(crate) proof fn lemma_keep_mask_len(points: Seq<(i64, i64)>, keys: Seq<i64>)
    ensures
        spec_keep_mask(points, keys).len() == points.len(),
{
    lemma_weed_upto_len(points, keys, points.len() as int);
}

/// A pixel with no other pixel in the eight cells around it is never weeded
/// out.
pub proof fn law_lonely_pixels_survive(points: Seq<(i64, i64)>, keys: Seq<i64>, j: int)
    requires
        0 <= j < points.len() <= usize::MAX,
        forall|y: int| 0 <= y < points.len() ==> !near(#[trigger] points[y], cell(points[j])),
    ensures
        spec_keep_mask(points, keys)[j],
{
    lemma_owner_range(points, cell(points[j]));
    lemma_lonely_kept_upto(points, keys, j, points.len() as int);
}

/// Row `a` ranks above row `b` (both 0-based): it is more coherent, or as
/// coherent and later.
pub open spec fn row_beats(keys: Seq<i64>, a: int, b: int) -> bool {
    keys[a] > keys[b] || (keys[a] == keys[b] && a > b)
}

/// Whether row `r` stays after duplicates are removed: it was kept, and it
/// ranks above every other kept row at the same position.
pub open spec fn survives_duplicates(xy: Seq<(u64, u64)>, keys: Seq<i64>, keep: Seq<bool>, r: int) -> bool {
    keep[r] && forall|s: int| 0 <= s < xy.len() && s != r && keep[s] && xy[s] == xy[r] ==> #[trigger] row_beats(keys, r, s)
}

/// Among kept rows at exactly the same position (the bits of their x and y
/// coordinates), keeps only the most coherent one (the later one on a tie).
pub fn remove_duplicate_xy(xy: &Vec<(u64, u64)>, coh_keys: &Vec<i64>, ix_weed: &mut Vec<bool>)
    requires
        xy@.len() == coh_keys@.len(),
        xy@.len() == old(ix_weed)@.len(),
    ensures
        final(ix_weed)@.len() == old(ix_weed)@.len(),
        forall|r: int| 0 <= r < xy@.len() ==> #[trigger] final(ix_weed)@[r] == survives_duplicates(
            xy@,
            coh_keys@,
            old(ix_weed)@,
            r,
        ),
{
    let n = xy.len();
    let ghost keep = ix_weed@;
    let mut best: BTreeMap<(u64, u64), usize> = BTreeMap::new();
    let mut row: usize = 0;
    while row < n
        invariant
            row <= n,
            n == xy@.len(),
            n == coh_keys@.len(),
            keep == ix_weed@,
            keep.len() == n,
            forall|p: (u64, u64)| #[trigger] best@.contains_key(p) ==> {
                let b = best@[p] as int;
                &&& 0 <= b < row
                &&& keep[b]
                &&& xy@[b] == p
                &&& forall|s: int| 0 <= s < row && s != b && keep[s] && xy@[s] == p ==> #[trigger] row_beats(coh_keys@, b, s)
            },
            forall|s: int| 0 <= s < row && keep[s] ==> #[trigger] best@.contains_key(xy@[s]),
        decreases n - row,
    {
        if ix_weed[row] {
            let p = xy[row];
            let replace = match best.get(&p) {
                Some(b) => {
                    let b = *b;
                    let kr = coh_keys[row];
                    let kb = coh_keys[b];
                    kr > kb || (kr == kb && row > b)
                },
                None => true,
            };
            if replace {
                let ghost before = best@;
                best.insert(p, row);
                proof {
                    assert forall|q: (u64, u64)| #[trigger] best@.contains_key(q) implies {
                        let b = best@[q] as int;
                        &&& 0 <= b < row + 1
                        &&& keep[b]
                        &&& xy@[b] == q
                        &&& forall|s: int| 0 <= s < row + 1 && s != b && keep[s] && xy@[s] == q ==> #[trigger] row_beats(coh_keys@, b, s)
                    } by {
                        if q == p {
                            assert forall|s: int| 0 <= s < row + 1 && s != row && keep[s] && xy@[s] == q implies #[trigger] row_beats(
                                coh_keys@,
                                row as int,
                                s,
                            ) by {
                                assert(before.contains_key(xy@[s]));
                                let b = before[p] as int;
                                if s != b {
                                    assert(row_beats(coh_keys@, b, s));
                                }
                            }
                        }
                    }
                }
            }
        }
        row = row + 1;
    }
    let mut r: usize = 0;
    while r < n
        invariant
            r <= n,
            n == xy@.len(),
            n == coh_keys@.len(),
            keep.len() == n,
            ix_weed@.len() == n,
            forall|p: (u64, u64)| #[trigger] best@.contains_key(p) ==> {
                let b = best@[p] as int;
                &&& 0 <= b < n
                &&& keep[b]
                &&& xy@[b] == p
                &&& forall|s: int| 0 <= s < n && s != b && keep[s] && xy@[s] == p ==> #[trigger] row_beats(coh_keys@, b, s)
            },
            forall|s: int| 0 <= s < n && keep[s] ==> #[trigger] best@.contains_key(xy@[s]),
            forall|t: int| 0 <= t < r ==> #[trigger] ix_weed@[t] == survives_duplicates(xy@, coh_keys@, keep, t),
            forall|t: int| r <= t < n ==> #[trigger] ix_weed@[t] == keep[t],
        decreases n - r,
    {
        if ix_weed[r] {
            let p = xy[r];
            let stays = match best.get(&p) {
                Some(b) => *b == r,
                None => false,
            };
            proof {
                assert(best@.contains_key(xy@[r as int]));
                let b = best@[p] as int;
                if b != r {
                    assert(row_beats(coh_keys@, b, r as int));
                    if survives_duplicates(xy@, coh_keys@, keep, r as int) {
                        assert(row_beats(coh_keys@, r as int, b));
                    }
                }
            }
            if !stays {
                ix_weed.set(r, false);
            }
        }
        r = r + 1;
    }
}

} // verus!
