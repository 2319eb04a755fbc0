//! The decisions of the stage 1 runner (the initial load of a patch): the
//! checks of its inputs, the order of the acquisitions with their day
//! numbers, and the step function that the runner's loop drives.

use vstd::prelude::*;
use vstd::relations::injective_on;
use vstd::set_lib::{lemma_int_range, lemma_len_subset, lemma_map_size, set_int_range};
use crate::calendar::{
    acquired_before, count_before, day_numbers, order_acquisitions, spec_yyyymmdd_ordinal, yyyymmdd_to_ordinal,
    AcquisitionOrder,
};
use crate::core_error::{CoreError, CoreErrorView};
use crate::stage_checks::candidates_view;
use crate::text::{decimal, usize_text};

verus! {

/// The first of the paths that does not exist.
pub open spec fn first_missing(paths: Seq<(Seq<char>, bool)>) -> Option<Seq<char>>
    decreases paths.len(),
{
    if paths.len() == 0 {
        None
    } else if !paths[0].1 {
        Some(paths[0].0)
    } else {
        first_missing(paths.drop_first())
    }
}

/// Finds the first path that does not exist.
fn find_missing(paths: &Vec<(String, bool)>) -> (r: Option<String>)
    ensures
        match first_missing(candidates_view(paths@)) {
            Some(p) => r matches Some(x) && x@ == p,
            None => r is None,
        },
{
    let ghost c = candidates_view(paths@);
    assert(c.subrange(0, c.len() as int) =~= c);
    let mut k: usize = 0;
    while k < paths.len()
        invariant
            c == candidates_view(paths@),
            k <= paths@.len(),
            first_missing(c) == first_missing(c.subrange(k as int, c.len() as int)),
        decreases paths@.len() - k,
    {
        let ghost rest = c.subrange(k as int, c.len() as int);
        assert(rest.drop_first() =~= c.subrange(k + 1, c.len() as int));
        assert(rest[0] == (paths@[k as int].0@, paths@[k as int].1));
        if !paths[k].1 {
            return Some(paths[k].0.clone());
        }
        k = k + 1;
    }
    None
}

/// The day numbers of all acquisitions in date order: those of the
/// secondary acquisitions (dates written as `YYYYMMDD`) taken in the given
/// order, with the master's day at the 1-based position `master_ix`.
pub open spec fn ordered_days(dates: Seq<i64>, order: Seq<usize>, master_ix: int, master_date: i64) -> Seq<int> {
    let days = day_numbers(dates);
    Seq::new(
        (order.len() + 1) as nat,
        |k: int|
            if k < master_ix - 1 {
                days[order[k] as int]
            } else if k == master_ix - 1 {
                spec_yyyymmdd_ordinal(master_date as int)
            } else {
                days[order[k - 1] as int]
            },
    )
}

/// What stage 1 makes of the acquisition dates: the secondary acquisitions
/// in date order (equal dates in their original order), the place of the
/// master among all acquisitions, and the day numbers of all of them.
pub open spec fn acquisition_schedule(dates: Seq<i64>, master_date: i64, order: Seq<usize>, master_ix: int, days: Seq<i64>) -> bool {
    &&& order.len() == dates.len()
    &&& forall|s: int| 0 <= s < dates.len() ==> #[trigger] order[s] < dates.len()
    &&& forall|s: int, t: int|
        0 <= s < t < dates.len() ==> acquired_before(day_numbers(dates), #[trigger] order[s] as int, #[trigger] order[t] as int)
    &&& master_ix == count_before(day_numbers(dates), dates.len() as int, spec_yyyymmdd_ordinal(master_date as int)) + 1
    &&& days.len() == dates.len() + 1
    &&& forall|k: int| 0 <= k < days.len() ==> #[trigger] days[k] as int == ordered_days(dates, order, master_ix, master_date)[k]
}

proof fn lemma_count_before_bound(days: Seq<int>, k: int, day: int)
    requires
        0 <= k,
    ensures
        count_before(days, k, day) <= k,
    decreases k,
{
    if k > 0 {
        lemma_count_before_bound(days, k - 1, day);
    }
}

/// The day numbers of all acquisitions, the master's included, in date order.
fn acquisition_days(dates: &Vec<i64>, acq: &AcquisitionOrder, master_date: i64) -> (r: Vec<i64>)
    requires
        dates@.len() < usize::MAX,
        acq.order@.len() == dates@.len(),
        forall|s: int| 0 <= s < dates@.len() ==> #[trigger] acq.order@[s] < dates@.len(),
        1 <= acq.master_ix <= dates@.len() + 1,
    ensures
        r@.len() == dates@.len() + 1,
        forall|k: int|
            0 <= k < r@.len() ==> #[trigger] r@[k] as int == ordered_days(dates@, acq.order@, acq.master_ix as int, master_date)[k],
{
    let n = dates.len();
    let master = yyyymmdd_to_ordinal(master_date);
    let ghost want = ordered_days(dates@, acq.order@, acq.master_ix as int, master_date);
    let mut r: Vec<i64> = Vec::new();
    let mut k: usize = 0;
    while k <= n
        invariant
            n == dates@.len(),
            n < usize::MAX,
            k <= n + 1,
            acq.order@.len() == n,
            forall|s: int| 0 <= s < n ==> #[trigger] acq.order@[s] < n,
            1 <= acq.master_ix <= n + 1,
            master == spec_yyyymmdd_ordinal(master_date as int),
            want == ordered_days(dates@, acq.order@, acq.master_ix as int, master_date),
            r@.len() == k,
            forall|j: int| 0 <= j < k ==> #[trigger] r@[j] as int == want[j],
        decreases n + 1 - k,
    {
        let v = if k + 1 < acq.master_ix {
            yyyymmdd_to_ordinal(dates[acq.order[k]])
        } else if k + 1 == acq.master_ix {
            master
        } else {
            yyyymmdd_to_ordinal(dates[acq.order[k - 1]])
        };
        r.push(v);
        k = k + 1;
    }
    r
}

/// Puts the acquisitions in date order and numbers their days.
fn schedule(dates: &Vec<i64>, master_date: i64) -> (r: (AcquisitionOrder, Vec<i64>))
    requires
        dates@.len() < usize::MAX,
    ensures
        acquisition_schedule(dates@, master_date, r.0.order@, r.0.master_ix as int, r.1@),
{
    let acq = order_acquisitions(dates, master_date);
    proof {
        lemma_count_before_bound(day_numbers(dates@), dates@.len() as int, spec_yyyymmdd_ordinal(master_date as int));
    }
    let days = acquisition_days(dates, &acq, master_date);
    (acq, days)
}

/// The positions among the first `k` whose day falls before `day`.
spec fn before_set(days: Seq<int>, k: int, day: int) -> Set<int> {
    Set::new(|j: int| 0 <= j < k && days[j] < day)
}

/// The positions among the first `k` whose day does not fall before `day`.
spec fn from_set(days: Seq<int>, k: int, day: int) -> Set<int> {
    Set::new(|j: int| 0 <= j < k && days[j] >= day)
}

proof fn lemma_split_counts(days: Seq<int>, k: int, day: int)
    requires
        0 <= k <= days.len(),
    ensures
        before_set(days, k, day).finite(),
        from_set(days, k, day).finite(),
        before_set(days, k, day).len() == count_before(days, k, day),
        before_set(days, k, day).len() + from_set(days, k, day).len() == k,
    decreases k,
{
    if k == 0 {
        assert(before_set(days, 0, day) =~= Set::empty());
        assert(from_set(days, 0, day) =~= Set::empty());
    } else {
        lemma_split_counts(days, k - 1, day);
        if days[k - 1] < day {
            assert(before_set(days, k, day) =~= before_set(days, k - 1, day).insert(k - 1));
            assert(from_set(days, k, day) =~= from_set(days, k - 1, day));
        } else {
            assert(before_set(days, k, day) =~= before_set(days, k - 1, day));
            assert(from_set(days, k, day) =~= from_set(days, k - 1, day).insert(k - 1));
        }
    }
}

/// The day numbers of the secondary acquisitions in the given order.
spec fn sorted_days(dates: Seq<i64>, order: Seq<usize>) -> Seq<int> {
    Seq::new(order.len(), |s: int| day_numbers(dates)[order[s] as int])
}

/// As many secondary acquisitions fall before the master in date order as
/// in their original order.
proof fn lemma_same_count_before(dates: Seq<i64>, master_date: i64, order: Seq<usize>, master_ix: int, days: Seq<i64>)
    requires
        acquisition_schedule(dates, master_date, order, master_ix, days),
    ensures
        count_before(sorted_days(dates, order), dates.len() as int, spec_yyyymmdd_ordinal(master_date as int))
            == master_ix - 1,
{
    let n = dates.len() as int;
    let d = day_numbers(dates);
    let sd = sorted_days(dates, order);
    let m = spec_yyyymmdd_ordinal(master_date as int);
    let f = |s: int| order[s] as int;
    lemma_split_counts(d, n, m);
    lemma_split_counts(sd, n, m);
    assert forall|s1: int, s2: int| 0 <= s1 < n && 0 <= s2 < n && #[trigger] f(s1) == #[trigger] f(s2) implies s1 == s2 by {
        if s1 < s2 {
            assert(acquired_before(d, order[s1] as int, order[s2] as int));
        } else if s2 < s1 {
            assert(acquired_before(d, order[s2] as int, order[s1] as int));
        }
    }
    let b = before_set(sd, n, m);
    let b2 = from_set(sd, n, m);
    assert(injective_on(f, b));
    assert(injective_on(f, b2));
    lemma_map_size(b, b.map(f), f);
    lemma_map_size(b2, b2.map(f), f);
    assert forall|x: int| b.map(f).contains(x) implies before_set(d, n, m).contains(x) by {
        let s = choose|s: int| b.contains(s) && f(s) == x;
        assert(order[s] < n);
    }
    assert forall|x: int| b2.map(f).contains(x) implies from_set(d, n, m).contains(x) by {
        let s = choose|s: int| b2.contains(s) && f(s) == x;
        assert(order[s] < n);
    }
    lemma_len_subset(b.map(f), before_set(d, n, m));
    lemma_len_subset(b2.map(f), from_set(d, n, m));
}

/// Stage 1 puts all acquisitions, the master's included, in date order: the
/// day numbers it gives never decrease along the acquisitions, and the
/// master's day stands at the master's position.
pub proof fn law_days_in_date_order(
    dates: Seq<i64>,
    master_date: i64,
    order: Seq<usize>,
    master_ix: int,
    days: Seq<i64>,
    k: int,
    l: int,
)
    requires
        acquisition_schedule(dates, master_date, order, master_ix, days),
        0 <= k < l < days.len(),
    ensures
        days[k] <= days[l],
        days[master_ix - 1] == spec_yyyymmdd_ordinal(master_date as int),
{
    let n = dates.len() as int;
    let d = day_numbers(dates);
    let sd = sorted_days(dates, order);
    let m = spec_yyyymmdd_ordinal(master_date as int);
    let c = master_ix - 1;
    lemma_count_before_bound(d, n, m);
    lemma_same_count_before(dates, master_date, order, master_ix, days);
    lemma_split_counts(sd, n, m);
    assert forall|s: int, t: int| 0 <= s < t < n implies #[trigger] sd[s] <= #[trigger] sd[t] by {
        assert(acquired_before(d, order[s] as int, order[t] as int));
    }
    let b = before_set(sd, n, m);
    assert forall|s: int| 0 <= s < c implies #[trigger] sd[s] < m by {
        if sd[s] >= m {
            assert forall|t: int| b.contains(t) implies set_int_range(0, s).contains(t) by {
                if t > s {
                    assert(sd[s] <= sd[t]);
                }
            }
            lemma_int_range(0, s);
            lemma_len_subset(b, set_int_range(0, s));
        }
    }
    assert forall|s: int| c <= s < n implies #[trigger] sd[s] >= m by {
        if sd[s] < m {
            assert forall|t: int| set_int_range(0, s + 1).contains(t) implies b.contains(t) by {
                if t < s {
                    assert(sd[t] <= sd[s]);
                }
            }
            lemma_int_range(0, s + 1);
            lemma_len_subset(set_int_range(0, s + 1), b);
        }
    }
    let want = ordered_days(dates, order, master_ix, master_date);
    assert(days[k] as int == want[k]);
    assert(days[l] as int == want[l]);
    assert(days[c] as int == want[c]);
    if k < c {
        assert(want[k] == sd[k]);
    }
    if l > c {
        assert(want[l] == sd[l - 1]);
    }
    if k > c {
        assert(want[k] == sd[k - 1]);
    }
    if l < c {
        assert(want[l] == sd[l]);
    }
}

/// Candidate `a` comes before candidate `b` in the order of the artifacts:
/// south to north, then west to east (by the order keys of their local y
/// and x), equal positions in input order.
pub open spec fn point_before(keys: Seq<(i64, i64)>, a: int, b: int) -> bool {
    keys[a].0 < keys[b].0 || (keys[a].0 == keys[b].0 && (keys[a].1 < keys[b].1 || (keys[a].1 == keys[b].1 && a < b)))
}

/// `rows` lists every candidate once, in the order of the artifacts.
pub open spec fn is_point_order(keys: Seq<(i64, i64)>, rows: Seq<usize>) -> bool {
    &&& rows.len() == keys.len()
    &&& forall|s: int| 0 <= s < rows.len() ==> #[trigger] rows[s] < keys.len()
    &&& forall|s: int, t: int| 0 <= s < t < rows.len() ==> point_before(keys, #[trigger] rows[s] as int, #[trigger] rows[t] as int)
}

/// The column of the stage 1 artifacts that holds output column `j`: the
/// master's (`None`) at `master_ix - 1`, else the input column of the
/// secondary acquisition in date order.
pub open spec fn column_source(order: Seq<usize>, master_ix: int, j: int) -> Option<usize> {
    if j < master_ix - 1 {
        Some(order[j])
    } else if j == master_ix - 1 {
        None
    } else {
        Some(order[j - 1])
    }
}

/// Where each part of the stage 1 artifacts comes from.
pub struct Stage1Layout {
    /// For each output row, the input candidate it holds (0-based); this is
    /// the row order of `ps1.ij`, `ps1.lonlat`, `ps1.xy`, `ph1.ph`, and of
    /// `da1.D_A` and `hgt1.hgt` when they are written.
    pub rows: Vec<usize>,
    /// `ps1.sort_ix`: the input candidate of each output row, from 1.
    pub sort_ix: Vec<usize>,
    /// The number of each output row, from 1: the first column of `ps1.ij`
    /// and of `ps1.xy`.
    pub ids: Vec<usize>,
    /// For each column of `ph1.ph`, `ps1.day` and `ps1.bperp`: the input
    /// column of its secondary acquisition, or `None` for the master, whose
    /// phase is (1, 0), whose baseline is 0 and whose day is the master day.
    pub columns: Vec<Option<usize>>,
    /// For each column of `bp1.bperp_mat` (the same in every row): the
    /// input baseline it holds, in date order without the master.
    pub bp_columns: Vec<usize>,
    /// The master's 0-based column.
    pub master_column: usize,
    /// `ps1.n_ifg` and `ps1.n_image`: all acquisitions, the master's included.
    pub n_ifg: usize,
    /// The value of `psver.mat`.
    pub psver: u8,
    /// `ps1.mean_range`, in metres.
    pub mean_range: u32,
}

/// The layout that the acquisition order and the candidate order give.
pub open spec fn spec_stage1_layout(order: Seq<usize>, master_ix: int, keys: Seq<(i64, i64)>, l: Stage1Layout) -> bool {
    &&& l.rows@.len() == keys.len()
    &&& is_point_order(keys, l.rows@)
    &&& l.sort_ix@.len() == keys.len()
    &&& l.ids@.len() == keys.len()
    &&& forall|k: int| 0 <= k < keys.len() ==> #[trigger] l.sort_ix@[k] == l.rows@[k] + 1 && l.ids@[k] == k + 1
    &&& l.columns@.len() == order.len() + 1
    &&& forall|j: int| 0 <= j < l.columns@.len() ==> #[trigger] l.columns@[j] == column_source(order, master_ix, j)
    &&& l.bp_columns@ == order
    &&& l.master_column == master_ix - 1
    &&& l.n_ifg == order.len() + 1
    &&& l.psver == 1
    &&& l.mean_range == 830_000
}

proof fn lemma_point_before_trans(keys: Seq<(i64, i64)>, a: int, b: int, c: int)
    requires
        point_before(keys, a, b),
        point_before(keys, b, c),
    ensures
        point_before(keys, a, c),
{
}

/// `rows` holds candidates from `lo` up to `hi`, each before the next.
pub open spec fn sorted_run(keys: Seq<(i64, i64)>, rows: Seq<usize>, lo: int, hi: int) -> bool {
    &&& forall|s: int| 0 <= s < rows.len() ==> lo <= #[trigger] rows[s] < hi
    &&& forall|s: int, t: int| 0 <= s < t < rows.len() ==> point_before(keys, #[trigger] rows[s] as int, #[trigger] rows[t] as int)
}

fn before(keys: &Vec<(i64, i64)>, a: usize, b: usize) -> (r: bool)
    requires
        a < keys@.len(),
        b < keys@.len(),
    ensures
        r == point_before(keys@, a as int, b as int),
{
    let (ay, ax) = keys[a];
    let (by, bx) = keys[b];
    ay < by || (ay == by && (ax < bx || (ax == bx && a < b)))
}

/// Merges two runs whose candidates lie in `lo..mid` and `mid..hi`.
fn merge_runs(keys: &Vec<(i64, i64)>, a: &Vec<usize>, b: &Vec<usize>, lo: usize, mid: usize, hi: usize) -> (r: Vec<usize>)
    requires
        lo <= mid <= hi <= keys@.len(),
        sorted_run(keys@, a@, lo as int, mid as int),
        sorted_run(keys@, b@, mid as int, hi as int),
        a@.len() + b@.len() <= usize::MAX,
    ensures
        r@.len() == a@.len() + b@.len(),
        sorted_run(keys@, r@, lo as int, hi as int),
{
    let mut out: Vec<usize> = Vec::new();
    let mut i: usize = 0;
    let mut j: usize = 0;
    while i < a.len() || j < b.len()
        invariant
            lo <= mid <= hi <= keys@.len(),
            sorted_run(keys@, a@, lo as int, mid as int),
            sorted_run(keys@, b@, mid as int, hi as int),
            a@.len() + b@.len() <= usize::MAX,
            i <= a@.len(),
            j <= b@.len(),
            out@.len() == i + j,
            sorted_run(keys@, out@, lo as int, hi as int),
            forall|s: int, k: int|
                0 <= s < out@.len() && i <= k < a@.len() ==> point_before(keys@, #[trigger] out@[s] as int, #[trigger] a@[k] as int),
            forall|s: int, k: int|
                0 <= s < out@.len() && j <= k < b@.len() ==> point_before(keys@, #[trigger] out@[s] as int, #[trigger] b@[k] as int),
        decreases a@.len() + b@.len() - i - j,
    {
        let take_a = if i == a.len() {
            false
        } else if j == b.len() {
            true
        } else {
            before(keys, a[i], b[j])
        };
        let ghost old_out = out@;
        if take_a {
            let x = a[i];
            proof {
                assert forall|k: int| j <= k < b@.len() implies point_before(keys@, x as int, #[trigger] b@[k] as int) by {
                    if k > j {
                        lemma_point_before_trans(keys@, x as int, b@[j as int] as int, b@[k] as int);
                    }
                }
            }
            out.push(x);
            i = i + 1;
        } else {
            let y = b[j];
            proof {
                assert forall|k: int| i <= k < a@.len() implies point_before(keys@, y as int, #[trigger] a@[k] as int) by {
                    assert(point_before(keys@, y as int, a@[i as int] as int));
                    if k > i {
                        lemma_point_before_trans(keys@, y as int, a@[i as int] as int, a@[k] as int);
                    }
                }
            }
            out.push(y);
            j = j + 1;
        }
        proof {
            assert forall|s: int, t: int| 0 <= s < t < out@.len() implies point_before(
                keys@,
                #[trigger] out@[s] as int,
                #[trigger] out@[t] as int,
            ) by {
                if t < old_out.len() {
                    assert(out@[s] == old_out[s] && out@[t] == old_out[t]);
                } else {
                    assert(out@[s] == old_out[s]);
                }
            }
        }
    }
    out
}

/// The candidates `lo..hi` in the order of the artifacts (a merge sort).
fn sort_run(keys: &Vec<(i64, i64)>, lo: usize, hi: usize) -> (r: Vec<usize>)
    requires
        lo <= hi <= keys@.len(),
    ensures
        r@.len() == hi - lo,
        sorted_run(keys@, r@, lo as int, hi as int),
    decreases hi - lo,
{
    if hi - lo <= 1 {
        let mut r: Vec<usize> = Vec::new();
        if hi > lo {
            r.push(lo);
        }
        r
    } else {
        let mid = lo + (hi - lo) / 2;
        let a = sort_run(keys, lo, mid);
        let b = sort_run(keys, mid, hi);
        merge_runs(keys, &a, &b, lo, mid, hi)
    }
}

/// Puts the candidates in the order of the artifacts: south to north, then
/// west to east by the order keys (`keys`) of their local y and x, equal
/// positions in input order.
pub fn point_order(keys: &Vec<(i64, i64)>) -> (r: Vec<usize>)
    ensures
        is_point_order(keys@, r@),
{
    sort_run(keys, 0, keys.len())
}

/// The layout of the stage 1 artifacts, from the acquisitions in date order
/// and the order keys (`keys`) of each candidate's local y and x.
pub fn stage1_layout(acquisitions: &AcquisitionOrder, keys: &Vec<(i64, i64)>) -> (r: Stage1Layout)
    requires
        acquisitions.order@.len() < usize::MAX,
        1 <= acquisitions.master_ix <= acquisitions.order@.len() + 1,
    ensures
        spec_stage1_layout(acquisitions.order@, acquisitions.master_ix as int, keys@, r),
{
    let n = keys.len();
    let rows = point_order(keys);
    let mut sort_ix: Vec<usize> = Vec::new();
    let mut ids: Vec<usize> = Vec::new();
    let mut k: usize = 0;
    while k < n
        invariant
            n == keys@.len(),
            rows@.len() == n,
            forall|s: int| 0 <= s < n ==> #[trigger] rows@[s] < n,
            k <= n,
            sort_ix@.len() == k,
            ids@.len() == k,
            forall|s: int| 0 <= s < k ==> #[trigger] sort_ix@[s] == rows@[s] + 1 && ids@[s] == s + 1,
        decreases n - k,
    {
        sort_ix.push(rows[k] + 1);
        ids.push(k + 1);
        k = k + 1;
    }
    let order = &acquisitions.order;
    let m = acquisitions.master_ix;
    let n_dates = order.len();
    let mut columns: Vec<Option<usize>> = Vec::new();
    let mut j: usize = 0;
    while j <= n_dates
        invariant
            n_dates == order@.len(),
            n_dates < usize::MAX,
            1 <= m <= n_dates + 1,
            j <= n_dates + 1,
            columns@.len() == j,
            forall|i: int| 0 <= i < j ==> #[trigger] columns@[i] == column_source(order@, m as int, i),
        decreases n_dates + 1 - j,
    {
        let c = if j + 1 < m {
            Some(order[j])
        } else if j + 1 == m {
            None
        } else {
            Some(order[j - 1])
        };
        columns.push(c);
        j = j + 1;
    }
    let mut bp_columns: Vec<usize> = Vec::new();
    let mut t: usize = 0;
    while t < n_dates
        invariant
            n_dates == order@.len(),
            t <= n_dates,
            bp_columns@ == order@.take(t as int),
        decreases n_dates - t,
    {
        bp_columns.push(order[t]);
        proof {
            assert(order@.take(t + 1) =~= order@.take(t as int).push(order@[t as int]));
        }
        t = t + 1;
    }
    proof {
        assert(order@.take(n_dates as int) =~= order@);
    }
    Stage1Layout {
        rows,
        sort_ix,
        ids,
        columns,
        bp_columns,
        master_column: m - 1,
        n_ifg: n_dates + 1,
        psver: 1,
        mean_range: 830_000,
    }
}

/// The rows that an optional per-candidate file (`pscands.1.da`,
/// `pscands.1.hgt`) contributes: the layout's rows when it has one value per
/// candidate, else nothing (its artifact is not written).
pub fn optional_point_rows(layout: &Stage1Layout, len: usize) -> (r: Option<&Vec<usize>>)
    ensures
        len == layout.rows@.len() ==> r == Some(&layout.rows),
        len != layout.rows@.len() ==> r is None,
{
    if len == layout.rows.len() {
        Some(&layout.rows)
    } else {
        None
    }
}

/// Where the stage 1 runner stands.
pub enum Stage1State {
    Start,
    CheckingInputs,
    ReadingCandidates,
    ReadingDates { n_ps: usize },
    ReadingMasterDay { n_ps: usize, dates: Vec<i64> },
    ReadingPhase { n_ps: usize, n_dates: usize },
    ReadingLonLat { n_ps: usize },
    Writing { n_ps: usize },
    Done,
}

/// What a piece of outside work gave.
pub enum Stage1Event {
    Begin,
    /// Each required input (`pscands.1.ij`, `.ph`, `.ll`) with whether it
    /// exists, and the outcome of looking up the metadata files near the
    /// patch (`width.txt`, `len.txt`, `day.1.in`, `master_day.1.in`,
    /// `bperp.1.in`, the first failure of these in that order).
    InputsChecked { required: Vec<(String, bool)>, metadata: Result<(), CoreError> },
    /// The number of candidate rows in `pscands.1.ij`, or the read error.
    CandidatesRead(Result<usize, CoreError>),
    /// The dates of `day.1.in` (as `YYYYMMDD` numbers) and the number of rows
    /// of `bperp.1.in`, or the first read error.
    DatesRead(Result<(Vec<i64>, usize), CoreError>),
    /// The first value of `master_day.1.in` (as a `YYYYMMDD` number), if it
    /// has one, or the read error.
    MasterDayRead(Result<Option<i64>, CoreError>),
    /// The number of phase columns in `pscands.1.ph`, or the read error.
    PhaseRead(Result<usize, CoreError>),
    /// The number of float32 values in `pscands.1.ll`, or the read error.
    LonLatRead(Result<usize, CoreError>),
    /// The artifacts were written, or that failed.
    Written(Result<(), CoreError>),
}

/// The next piece of outside work, or the end of the run.
pub enum Stage1Action {
    CheckInputs,
    ReadCandidates,
    ReadDates,
    ReadMasterDay,
    /// Read the phases of the candidates; the acquisitions go in the given
    /// order, with the master at `acquisitions.master_ix` and the day numbers
    /// `days` (the master's included).
    ReadPhase { n_ps: usize, acquisitions: AcquisitionOrder, days: Vec<i64> },
    ReadLonLat,
    Write,
    Finish(Result<String, CoreError>),
}

/// Whether an event answers the work that the state asked for.
pub open spec fn stage1_event_fits(state: Stage1State, event: Stage1Event) -> bool {
    match state {
        Stage1State::Start => event is Begin,
        Stage1State::CheckingInputs => event is InputsChecked,
        Stage1State::ReadingCandidates => event is CandidatesRead,
        Stage1State::ReadingDates { .. } => match event {
            Stage1Event::DatesRead(Ok(t)) => t.0@.len() < usize::MAX,
            Stage1Event::DatesRead(Err(_)) => true,
            _ => false,
        },
        Stage1State::ReadingMasterDay { dates, .. } => event is MasterDayRead && dates@.len() < usize::MAX,
        Stage1State::ReadingPhase { .. } => event is PhaseRead,
        Stage1State::ReadingLonLat { .. } => event is LonLatRead,
        Stage1State::Writing { .. } => event is Written,
        Stage1State::Done => false,
    }
}

/// An error of stage 1 with the given message.
pub open spec fn stage1_error(message: Seq<char>) -> CoreErrorView {
    CoreErrorView::NativeStage { stage: 1, message }
}

/// The run ended with the given error.
pub open spec fn stage1_failed(r: (Stage1State, Stage1Action), e: CoreErrorView) -> bool {
    r.0 is Done && (r.1 matches Stage1Action::Finish(Err(x)) && x@ == e)
}

fn fail1(message: String) -> (r: (Stage1State, Stage1Action))
    ensures
        stage1_failed(r, stage1_error(message@)),
{
    (Stage1State::Done, Stage1Action::Finish(Err(CoreError::NativeStage { stage: 1, message })))
}

fn pass_on(e: CoreError) -> (r: (Stage1State, Stage1Action))
    ensures
        stage1_failed(r, e@),
{
    (Stage1State::Done, Stage1Action::Finish(Err(e)))
}

/// Takes one step of the stage 1 runner on a patch: from where it stands and
/// what the last piece of outside work gave, to where it stands next and what
/// to do next.  The checks come in the order of the runner: the required
/// inputs and the metadata files, the candidates, the dates and baselines,
/// the master date, the phase columns and the coordinates.
pub fn run_stage1_native(state: Stage1State, event: Stage1Event) -> (r: (Stage1State, Stage1Action))
    requires
        stage1_event_fits(state, event),
    ensures
        match state {
            Stage1State::Start => r.0 is CheckingInputs && r.1 is CheckInputs,
            Stage1State::CheckingInputs => match event {
                Stage1Event::InputsChecked { required, metadata } => match first_missing(candidates_view(required@)) {
                    Some(p) => stage1_failed(r, stage1_error("missing required input "@ + p)),
                    None => match metadata {
                        Err(e) => stage1_failed(r, e@),
                        Ok(_) => r.0 is ReadingCandidates && r.1 is ReadCandidates,
                    },
                },
                _ => false,
            },
            Stage1State::ReadingCandidates => match event {
                Stage1Event::CandidatesRead(Err(e)) => stage1_failed(r, e@),
                Stage1Event::CandidatesRead(Ok(n)) => if n == 0 {
                    stage1_failed(r, stage1_error("pscands.1.ij is empty"@))
                } else {
                    (r.0 == Stage1State::ReadingDates { n_ps: n }) && r.1 is ReadDates
                },
                _ => false,
            },
            Stage1State::ReadingDates { n_ps } => match event {
                Stage1Event::DatesRead(Err(e)) => stage1_failed(r, e@),
                Stage1Event::DatesRead(Ok(t)) => if t.0@.len() != t.1 {
                    stage1_failed(
                        r,
                        stage1_error(
                            "day.1.in has "@ + decimal(t.0@.len()) + " rows but bperp.1.in has "@ + decimal(t.1 as nat)
                                + " rows"@,
                        ),
                    )
                } else {
                    (r.0 matches Stage1State::ReadingMasterDay { n_ps: m, dates } && m == n_ps && dates@ == t.0@)
                        && r.1 is ReadMasterDay
                },
                _ => false,
            },
            Stage1State::ReadingMasterDay { n_ps, dates } => match event {
                Stage1Event::MasterDayRead(Err(e)) => stage1_failed(r, e@),
                Stage1Event::MasterDayRead(Ok(None)) => stage1_failed(r, stage1_error("master_day.1.in is empty"@)),
                Stage1Event::MasterDayRead(Ok(Some(master_date))) => (r.0 == Stage1State::ReadingPhase {
                    n_ps,
                    n_dates: dates@.len() as usize,
                }) && (r.1 matches Stage1Action::ReadPhase { n_ps: m, acquisitions, days } && m == n_ps
                    && acquisition_schedule(dates@, master_date, acquisitions.order@, acquisitions.master_ix as int, days@)),
                _ => false,
            },
            Stage1State::ReadingPhase { n_ps, n_dates } => match event {
                Stage1Event::PhaseRead(Err(e)) => stage1_failed(r, e@),
                Stage1Event::PhaseRead(Ok(cols)) => if cols != n_dates {
                    stage1_failed(
                        r,
                        stage1_error(
                            "phase file has "@ + decimal(cols as nat) + " columns but metadata has "@ + decimal(
                                n_dates as nat,
                            ) + " entries"@,
                        ),
                    )
                } else {
                    (r.0 == Stage1State::ReadingLonLat { n_ps }) && r.1 is ReadLonLat
                },
                _ => false,
            },
            Stage1State::ReadingLonLat { n_ps } => match event {
                Stage1Event::LonLatRead(Err(e)) => stage1_failed(r, e@),
                Stage1Event::LonLatRead(Ok(count)) => if count != 2 * n_ps {
                    stage1_failed(
                        r,
                        stage1_error(
                            "pscands.1.ll has "@ + decimal(count as nat) + " float32 values for "@ + decimal(n_ps as nat)
                                + " candidates"@,
                        ),
                    )
                } else {
                    (r.0 == Stage1State::Writing { n_ps }) && r.1 is Write
                },
                _ => false,
            },
            Stage1State::Writing { n_ps } => match event {
                Stage1Event::Written(Err(e)) => stage1_failed(r, e@),
                Stage1Event::Written(Ok(())) => r.0 is Done && (r.1 matches Stage1Action::Finish(Ok(m)) && m@
                    == "Stage 1 created ps1/ph1 for "@ + decimal(n_ps as nat) + " candidates"@),
                _ => false,
            },
            Stage1State::Done => false,
        },
{
    match state {
        Stage1State::Start => (Stage1State::CheckingInputs, Stage1Action::CheckInputs),
        Stage1State::CheckingInputs => match event {
            Stage1Event::InputsChecked { required, metadata } => {
                if let Some(p) = find_missing(&required) {
                    let mut m = String::from_str("missing required input ");
                    m.append(p.as_str());
                    return fail1(m);
                }
                match metadata {
                    Err(e) => pass_on(e),
                    Ok(()) => (Stage1State::ReadingCandidates, Stage1Action::ReadCandidates),
                }
            },
            _ => (Stage1State::Done, Stage1Action::CheckInputs),
        },
        Stage1State::ReadingCandidates => match event {
            Stage1Event::CandidatesRead(Err(e)) => pass_on(e),
            Stage1Event::CandidatesRead(Ok(n)) => {
                if n == 0 {
                    fail1(String::from_str("pscands.1.ij is empty"))
                } else {
                    (Stage1State::ReadingDates { n_ps: n }, Stage1Action::ReadDates)
                }
            },
            _ => (Stage1State::Done, Stage1Action::CheckInputs),
        },
        Stage1State::ReadingDates { n_ps } => match event {
            Stage1Event::DatesRead(Err(e)) => pass_on(e),
            Stage1Event::DatesRead(Ok((dates, n_bperp))) => {
                if dates.len() != n_bperp {
                    let mut m = String::from_str("day.1.in has ");
                    m.append(usize_text(dates.len()).as_str());
                    m.append(" rows but bperp.1.in has ");
                    m.append(usize_text(n_bperp).as_str());
                    m.append(" rows");
                    fail1(m)
                } else {
                    (Stage1State::ReadingMasterDay { n_ps, dates }, Stage1Action::ReadMasterDay)
                }
            },
            _ => (Stage1State::Done, Stage1Action::CheckInputs),
        },
        Stage1State::ReadingMasterDay { n_ps, dates } => match event {
            Stage1Event::MasterDayRead(Err(e)) => pass_on(e),
            Stage1Event::MasterDayRead(Ok(None)) => fail1(String::from_str("master_day.1.in is empty")),
            Stage1Event::MasterDayRead(Ok(Some(master_date))) => {
                let (acquisitions, days) = schedule(&dates, master_date);
                (
                    Stage1State::ReadingPhase { n_ps, n_dates: dates.len() },
                    Stage1Action::ReadPhase { n_ps, acquisitions, days },
                )
            },
            _ => (Stage1State::Done, Stage1Action::CheckInputs),
        },
        Stage1State::ReadingPhase { n_ps, n_dates } => match event {
            Stage1Event::PhaseRead(Err(e)) => pass_on(e),
            Stage1Event::PhaseRead(Ok(cols)) => {
                if cols != n_dates {
                    let mut m = String::from_str("phase file has ");
                    m.append(usize_text(cols).as_str());
                    m.append(" columns but metadata has ");
                    m.append(usize_text(n_dates).as_str());
                    m.append(" entries");
                    fail1(m)
                } else {
                    (Stage1State::ReadingLonLat { n_ps }, Stage1Action::ReadLonLat)
                }
            },
            _ => (Stage1State::Done, Stage1Action::CheckInputs),
        },
        Stage1State::ReadingLonLat { n_ps } => match event {
            Stage1Event::LonLatRead(Err(e)) => pass_on(e),
            Stage1Event::LonLatRead(Ok(count)) => {
                if count % 2 != 0 || count / 2 != n_ps {
                    let mut m = String::from_str("pscands.1.ll has ");
                    m.append(usize_text(count).as_str());
                    m.append(" float32 values for ");
                    m.append(usize_text(n_ps).as_str());
                    m.append(" candidates");
                    fail1(m)
                } else {
                    (Stage1State::Writing { n_ps }, Stage1Action::Write)
                }
            },
            _ => (Stage1State::Done, Stage1Action::CheckInputs),
        },
        Stage1State::Writing { n_ps } => match event {
            Stage1Event::Written(Err(e)) => pass_on(e),
            Stage1Event::Written(Ok(())) => {
                let mut m = String::from_str("Stage 1 created ps1/ph1 for ");
                m.append(usize_text(n_ps).as_str());
                m.append(" candidates");
                (Stage1State::Done, Stage1Action::Finish(Ok(m)))
            },
            _ => (Stage1State::Done, Stage1Action::CheckInputs),
        },
        Stage1State::Done => (Stage1State::Done, Stage1Action::CheckInputs),
    }
}

} // verus!
