//! The decisions of the stage 4 runner (weeding of the selected points): the
//! checks of the selection, the weeding of neighbours, of points at zero
//! elevation and of duplicates, the checks around the noise estimate, and
//! the step function that the runner's loop drives.  The noise estimate
//! itself is floating point and is the caller's.

use vstd::prelude::*;
use crate::core_error::{CoreError, CoreErrorView};
use crate::graph::{
    bad_one_based, bad_topology_edge, first_bad_one_based, first_bad_topology_edge, one_based_message, topology_message,
    validate_one_based_indices, validate_stage4_edge_topology,
};
use crate::stage5::{
    first_bad_index, flags_of, flags_or_default, lemma_first_bad_index, lemma_first_bad_unique, rows, rows_of,
    select_kept, selected,
};
use crate::stage_checks::{eq_ignore_ascii_case, ifg_index_for_weed, kept_ifgs, text_eq_ignore_ascii_case};
use crate::text::{decimal, usize_text};
use crate::weed::{
    adjacent_component_keep_mask, coherence_key, lemma_keep_mask_len, remove_duplicate_xy, spec_coherence_key,
    spec_keep_mask, survives_duplicates,
};

verus! {

/// The number of kept rows among the first `r`.
pub open spec fn count_kept(keep: Seq<bool>, r: int) -> nat
    decreases r,
{
    if r <= 0 {
        0
    } else {
        count_kept(keep, r - 1) + if keep[r - 1] {
            1nat
        } else {
            0nat
        }
    }
}

/// The positions of the kept rows among the first `r`, in order.
pub open spec fn kept_positions(keep: Seq<bool>, r: int) -> Seq<usize>
    decreases r,
{
    if r <= 0 {
        Seq::empty()
    } else if keep[r - 1] {
        kept_positions(keep, r - 1).push((r - 1) as usize)
    } else {
        kept_positions(keep, r - 1)
    }
}

/// The weeding flags once the noise verdicts of the kept rows (one per kept
/// row, in order) replace the flags of those rows.
pub open spec fn merge_noise(keep: Seq<bool>, verdicts: Seq<bool>) -> Seq<bool> {
    Seq::new(keep.len(), |r: int| keep[r] && verdicts[count_kept(keep, r) as int])
}

/// The 0-based interferogram columns that the first `m` 1-based indices name
/// within `cols` columns, in order.
pub open spec fn usable_columns(ifg_index: Seq<i64>, cols: usize, m: int) -> Seq<usize>
    decreases m,
{
    if m <= 0 {
        Seq::empty()
    } else {
        let prev = usable_columns(ifg_index, cols, m - 1);
        let v = ifg_index[m - 1] as int - 1;
        if 0 <= v < cols {
            prev.push(v as usize)
        } else {
            prev
        }
    }
}

/// The weeding flags with the points at low elevation dropped: `low` has a
/// flag per point of `ps1.mat`, and `rows` gives the row of each selected point.
pub open spec fn drop_low(keep: Seq<bool>, rows: Seq<usize>, low: Seq<bool>) -> Seq<bool> {
    Seq::new(keep.len(), |p: int| keep[p] && !low[rows[p] as int])
}

/// The number of flags that are set.
pub open spec fn count_set(keep: Seq<bool>) -> nat {
    count_kept(keep, keep.len() as int)
}

proof fn lemma_count_kept_bound(keep: Seq<bool>, r: int)
    requires
        0 <= r <= keep.len(),
    ensures
        count_kept(keep, r) <= r,
        kept_positions(keep, r).len() == count_kept(keep, r),
        forall|t: int| 0 <= t < kept_positions(keep, r).len() ==> #[trigger] kept_positions(keep, r)[t] < r,
    decreases r,
{
    if r > 0 {
        lemma_count_kept_bound(keep, r - 1);
    }
}

proof fn lemma_count_kept_step(keep: Seq<bool>, r: int, s: int)
    requires
        0 <= r < s <= keep.len(),
        keep[r],
    ensures
        count_kept(keep, r) < count_kept(keep, s),
    decreases s - r,
{
    if s > r + 1 {
        lemma_count_kept_step(keep, r, s - 1);
    }
}

proof fn lemma_positions_rank(keep: Seq<bool>, r: int)
    requires
        0 <= r <= keep.len() <= usize::MAX,
    ensures
        forall|t: int|
            0 <= t < kept_positions(keep, r).len() ==> count_kept(keep, #[trigger] kept_positions(keep, r)[t] as int) == t
                && keep[kept_positions(keep, r)[t] as int],
    decreases r,
{
    if r > 0 {
        lemma_positions_rank(keep, r - 1);
        lemma_count_kept_bound(keep, r - 1);
        let prev = kept_positions(keep, r - 1);
        let cur = kept_positions(keep, r);
        assert forall|t: int| 0 <= t < cur.len() implies count_kept(keep, #[trigger] cur[t] as int) == t && keep[cur[t] as int] by {
            if t < prev.len() {
                assert(cur[t] == prev[t]);
            } else {
                assert(cur[t] == (r - 1) as usize);
            }
        }
    }
}

/// Each weeding of stage 4 only drops points: after the weeding of duplicated
/// positions, of points at zero elevation or of noisy points, a point is kept
/// only if it was kept before, and the flags keep their length.
pub proof fn law_weeding_only_drops(
    xy: Seq<(u64, u64)>,
    keys: Seq<i64>,
    keep: Seq<bool>,
    rows: Seq<usize>,
    low: Seq<bool>,
    verdicts: Seq<bool>,
    r: int,
)
    requires
        0 <= r < keep.len(),
    ensures
        dedup_flags(xy, keys, keep).len() == keep.len(),
        drop_low(keep, rows, low).len() == keep.len(),
        merge_noise(keep, verdicts).len() == keep.len(),
        dedup_flags(xy, keys, keep)[r] ==> keep[r],
        drop_low(keep, rows, low)[r] ==> keep[r],
        merge_noise(keep, verdicts)[r] ==> keep[r],
{
}

/// The noise verdicts go to the kept points in order: the `t`-th kept point
/// is kept after the noise weeding exactly when its verdict is.
pub proof fn law_each_kept_point_gets_its_verdict(keep: Seq<bool>, verdicts: Seq<bool>, t: int)
    requires
        keep.len() <= usize::MAX,
        verdicts.len() == count_set(keep),
        0 <= t < count_set(keep),
    ensures
        kept_positions(keep, keep.len() as int).len() == count_set(keep),
        merge_noise(keep, verdicts)[kept_positions(keep, keep.len() as int)[t] as int] == verdicts[t],
{
    lemma_count_kept_bound(keep, keep.len() as int);
    lemma_positions_rank(keep, keep.len() as int);
}

/// Counts the flags that are set.
fn count_true(keep: &Vec<bool>) -> (r: usize)
    ensures
        r == count_set(keep@),
{
    let mut c: usize = 0;
    let mut k: usize = 0;
    while k < keep.len()
        invariant
            k <= keep@.len(),
            c == count_kept(keep@, k as int),
            c <= k,
        decreases keep@.len() - k,
    {
        if keep[k] {
            c = c + 1;
        }
        k = k + 1;
    }
    c
}

/// The positions of the flags that are set.
fn positions(keep: &Vec<bool>) -> (r: Vec<usize>)
    ensures
        r@ == kept_positions(keep@, keep@.len() as int),
{
    let mut out: Vec<usize> = Vec::new();
    let mut k: usize = 0;
    while k < keep.len()
        invariant
            k <= keep@.len(),
            out@ == kept_positions(keep@, k as int),
        decreases keep@.len() - k,
    {
        if keep[k] {
            out.push(k);
        }
        k = k + 1;
    }
    out
}

/// Replaces the flags of the kept rows by their noise verdicts.
fn merge(keep: &Vec<bool>, verdicts: &Vec<bool>) -> (r: Vec<bool>)
    requires
        verdicts@.len() == count_set(keep@),
    ensures
        r@ == merge_noise(keep@, verdicts@),
{
    let n = keep.len();
    let mut out: Vec<bool> = Vec::new();
    let mut pos: usize = 0;
    let mut k: usize = 0;
    while k < n
        invariant
            n == keep@.len(),
            k <= n,
            verdicts@.len() == count_kept(keep@, n as int),
            pos == count_kept(keep@, k as int),
            pos <= k,
            out@.len() == k,
            forall|j: int| 0 <= j < k ==> #[trigger] out@[j] == merge_noise(keep@, verdicts@)[j],
        decreases n - k,
    {
        if keep[k] {
            proof {
                lemma_count_kept_step(keep@, k as int, n as int);
            }
            out.push(verdicts[pos]);
            pos = pos + 1;
        } else {
            out.push(false);
        }
        k = k + 1;
    }
    assert(out@ =~= merge_noise(keep@, verdicts@));
    out
}

/// The 0-based interferogram columns that the indices name within `cols`
/// columns.
fn columns_within(ifg_index: &Vec<i64>, cols: usize) -> (r: Vec<usize>)
    ensures
        r@ == usable_columns(ifg_index@, cols, ifg_index@.len() as int),
{
    let mut out: Vec<usize> = Vec::new();
    let mut k: usize = 0;
    while k < ifg_index.len()
        invariant
            k <= ifg_index@.len(),
            out@ == usable_columns(ifg_index@, cols, k as int),
        decreases ifg_index@.len() - k,
    {
        let v = ifg_index[k];
        if v >= 1 && ((v - 1) as u64) < (cols as u64) {
            out.push((v - 1) as usize);
        }
        k = k + 1;
    }
    out
}

/// Drops the points at low elevation from the weeding flags.
fn without_low(keep: &Vec<bool>, rows: &Vec<usize>, low: &Vec<bool>) -> (r: Vec<bool>)
    requires
        rows@.len() == keep@.len(),
        forall|p: int| 0 <= p < rows@.len() ==> #[trigger] rows@[p] < low@.len(),
    ensures
        r@ == drop_low(keep@, rows@, low@),
{
    let mut out: Vec<bool> = Vec::new();
    let mut k: usize = 0;
    while k < keep.len()
        invariant
            k <= keep@.len(),
            rows@.len() == keep@.len(),
            forall|p: int| 0 <= p < rows@.len() ==> #[trigger] rows@[p] < low@.len(),
            out@.len() == k,
            forall|j: int| 0 <= j < k ==> #[trigger] out@[j] == drop_low(keep@, rows@, low@)[j],
        decreases keep@.len() - k,
    {
        out.push(keep[k] && !low[rows[k]]);
        k = k + 1;
    }
    assert(out@ =~= drop_low(keep@, rows@, low@));
    out
}

/// Flags that are all set.
fn all_set(n: usize) -> (r: Vec<bool>)
    ensures
        r@ == Seq::new(n as nat, |i: int| true),
{
    let mut out: Vec<bool> = Vec::new();
    let mut k: usize = 0;
    while k < n
        invariant
            k <= n,
            out@.len() == k,
            forall|j: int| 0 <= j < k ==> #[trigger] out@[j],
        decreases n - k,
    {
        out.push(true);
        k = k + 1;
    }
    assert(out@ =~= Seq::new(n as nat, |i: int| true));
    out
}

/// The coherence keys of coherences given by their IEEE 754 bits.
pub open spec fn coherence_keys(bits: Seq<u64>) -> Seq<i64> {
    bits.map_values(|b: u64| spec_coherence_key(b))
}

fn keys_of(bits: &Vec<u64>) -> (r: Vec<i64>)
    ensures
        r@ == coherence_keys(bits@),
{
    let mut out: Vec<i64> = Vec::new();
    let mut k: usize = 0;
    while k < bits.len()
        invariant
            k <= bits@.len(),
            out@.len() == k,
            forall|j: int| 0 <= j < k ==> #[trigger] out@[j] == spec_coherence_key(bits@[j]),
        decreases bits@.len() - k,
    {
        out.push(coherence_key(bits[k]));
        k = k + 1;
    }
    assert(out@ =~= coherence_keys(bits@));
    out
}

/// The weeding flags once duplicated positions keep only their best point.
pub open spec fn dedup_flags(xy: Seq<(u64, u64)>, keys: Seq<i64>, keep: Seq<bool>) -> Seq<bool> {
    Seq::new(keep.len(), |r: int| survives_duplicates(xy, keys, keep, r))
}

/// What stage 4 reads first: the point count, the interferogram count and the
/// master index of `ps1.mat` (rounded), and the weeding parameters of
/// `parms.mat` (or their defaults).
pub struct Stage4Inputs {
    pub n_ps: usize,
    pub n_ifg: i64,
    pub master_ix: usize,
    pub drop_ifg_index: Vec<i64>,
    pub small_baseline_flag: String,
    pub weed_zero_elevation: String,
    pub weed_neighbours: String,
    /// Whether either noise threshold (`weed_standard_dev`,
    /// `weed_max_noise`) is below π, so that noisy points are weeded.
    pub noise_weeding: bool,
}

/// The candidates of `select1.mat`: their 1-based indices and the raw
/// selection flags.
pub struct Stage4Selection {
    pub ix: Vec<i64>,
    pub keep_ix: Option<Vec<bool>>,
}

/// What the weeding compares of each selected point: its grid cell (the
/// rounded second and third `ij` columns), its position (the bits of the
/// second and third `xy` columns) and its coherence (its bits).
pub struct Stage4Points {
    pub ij_cols23: Vec<(i64, i64)>,
    pub xy_bits: Vec<(u64, u64)>,
    pub coh_bits: Vec<u64>,
}

/// The settings of a run, fixed once the inputs are read.
pub struct Stage4Run {
    pub n_ps: usize,
    pub master_ix: usize,
    pub small_baseline: bool,
    pub weed_neighbours: bool,
    pub weed_zero_elevation: bool,
    pub noise_weeding: bool,
    /// The interferograms that the weeding uses (1-based).
    pub ifg_index: Vec<i64>,
}

/// The settings that the inputs give.
pub open spec fn run_of(inputs: Stage4Inputs, run: Stage4Run) -> bool {
    &&& run.n_ps == inputs.n_ps
    &&& run.master_ix == inputs.master_ix
    &&& run.small_baseline == eq_ignore_ascii_case(inputs.small_baseline_flag@, "y"@)
    &&& run.weed_neighbours == eq_ignore_ascii_case(inputs.weed_neighbours@, "y"@)
    &&& run.weed_zero_elevation == eq_ignore_ascii_case(inputs.weed_zero_elevation@, "y"@)
    &&& run.noise_weeding == inputs.noise_weeding
    &&& run.ifg_index@ == kept_ifgs(inputs.n_ifg as int, inputs.drop_ifg_index@)
}

/// Where the stage 4 runner stands.
pub enum Stage4State {
    Start,
    ReadingInputs,
    ReadingSelection { run: Stage4Run },
    ReadingPoints { run: Stage4Run, ix2_rows: Vec<usize> },
    ReadingElevation {
        run: Stage4Run,
        ix2_rows: Vec<usize>,
        ix_weed: Vec<bool>,
        xy_bits: Vec<(u64, u64)>,
        coh_keys: Vec<i64>,
    },
    ReadingNoiseInputs { run: Stage4Run, ix_weed: Vec<bool> },
    BuildingGraph { run: Stage4Run, ix_weed: Vec<bool>, ifg_cols: Vec<usize>, ph_cols: usize },
    ReadingDays { run: Stage4Run, ix_weed: Vec<bool>, ifg_cols: Vec<usize>, ph_cols: usize, edges: Vec<(usize, usize)> },
    EstimatingNoise { run: Stage4Run, ix_weed: Vec<bool> },
    Writing { kept: usize, total: usize },
    Done,
}

/// What a piece of outside work gave.
pub enum Stage4Event {
    Begin,
    /// The inputs were read (`select1`, `ps1`, `ph1`, `pm1` and the
    /// parameters), or the named file could not be read.
    InputsRead(Result<Stage4Inputs, (String, String)>),
    SelectionRead(Result<Stage4Selection, CoreError>),
    /// The coherences and coordinates of the selected points, or the first
    /// read error.
    PointsRead(Result<Stage4Points, CoreError>),
    /// Whether each point of `ps1.mat` is at zero elevation (height below
    /// 1e-6), when `hgt1.mat` exists, or the read error.
    ElevationRead(Result<Option<Vec<bool>>, CoreError>),
    /// The number of interferograms of `ph1.ph` and the length of
    /// `ps1.bperp`, or the first read error.
    NoiseInputsRead(Result<(usize, usize), CoreError>),
    /// The edges of the triangulation of the kept points (0-based positions
    /// among them).
    GraphBuilt(Vec<(usize, usize)>),
    /// The length of `ps1.day`, or the read error.
    DaysRead(Result<usize, CoreError>),
    /// The noise verdict of each kept point (its noise below both
    /// thresholds), or the error of the estimate.
    NoiseEstimated(Result<Vec<bool>, CoreError>),
    Written(Result<(), CoreError>),
}

/// The next piece of outside work, or the end of the run.
pub enum Stage4Action {
    ReadInputs,
    ReadSelection,
    /// Read the points that the selection keeps: `keep` flags the kept
    /// candidates of `select1.mat`, `rows` gives their rows in `ps1.mat`.
    ReadPoints { keep: Vec<bool>, rows: Vec<usize> },
    ReadElevation,
    ReadNoiseInputs,
    /// Triangulate the kept points (`kept`: their positions among the
    /// selected points).
    BuildGraph { kept: Vec<usize> },
    ReadDays,
    /// Estimate the noise of the kept points over the given interferogram
    /// columns and edges; with no columns, every estimate is infinite.
    EstimateNoise {
        kept: Vec<usize>,
        columns: Option<Vec<usize>>,
        edges: Vec<(usize, usize)>,
        small_baseline: bool,
        master_ix: usize,
    },
    /// Write `weed1.mat`.
    Write { ifg_index: Vec<i64>, ix_weed: Vec<bool>, ix_weed2: Vec<bool> },
    Finish(Result<String, CoreError>),
}

/// What the states hold together.
pub open spec fn stage4_state_wf(state: Stage4State) -> bool {
    match state {
        Stage4State::ReadingPoints { run, ix2_rows } => forall|p: int|
            0 <= p < ix2_rows@.len() ==> #[trigger] ix2_rows@[p] < run.n_ps,
        Stage4State::ReadingElevation { run, ix2_rows, ix_weed, xy_bits, coh_keys } => {
            &&& forall|p: int| 0 <= p < ix2_rows@.len() ==> #[trigger] ix2_rows@[p] < run.n_ps
            &&& ix_weed@.len() == ix2_rows@.len()
            &&& xy_bits@.len() == ix_weed@.len()
            &&& coh_keys@.len() == ix_weed@.len()
        },
        _ => true,
    }
}

/// Whether an event answers the work that the state asked for.
pub open spec fn stage4_event_fits(state: Stage4State, event: Stage4Event) -> bool {
    match state {
        Stage4State::Start => event is Begin,
        Stage4State::ReadingInputs => match event {
            Stage4Event::InputsRead(Ok(i)) => i.n_ifg < i64::MAX,
            Stage4Event::InputsRead(Err(_)) => true,
            _ => false,
        },
        Stage4State::ReadingSelection { .. } => event is SelectionRead,
        Stage4State::ReadingPoints { ix2_rows, .. } => match event {
            Stage4Event::PointsRead(Ok(p)) => {
                &&& p.ij_cols23@.len() == ix2_rows@.len()
                &&& p.xy_bits@.len() == ix2_rows@.len()
                &&& p.coh_bits@.len() == ix2_rows@.len()
                &&& ix2_rows@.len() < usize::MAX
            },
            Stage4Event::PointsRead(Err(_)) => true,
            _ => false,
        },
        Stage4State::ReadingElevation { run, .. } => match event {
            Stage4Event::ElevationRead(Ok(Some(low))) => low@.len() == run.n_ps,
            Stage4Event::ElevationRead(_) => true,
            _ => false,
        },
        Stage4State::ReadingNoiseInputs { .. } => event is NoiseInputsRead,
        Stage4State::BuildingGraph { .. } => event is GraphBuilt,
        Stage4State::ReadingDays { .. } => event is DaysRead,
        Stage4State::EstimatingNoise { ix_weed, .. } => match event {
            Stage4Event::NoiseEstimated(Ok(v)) => v@.len() == count_set(ix_weed@),
            Stage4Event::NoiseEstimated(Err(_)) => true,
            _ => false,
        },
        Stage4State::Writing { .. } => event is Written,
        Stage4State::Done => false,
    }
}

/// An error of stage 4 with the given message.
pub open spec fn stage4_error(message: Seq<char>) -> CoreErrorView {
    CoreErrorView::NativeStage { stage: 4, message }
}

/// The run ended with the given error.
pub open spec fn stage4_failed(r: (Stage4State, Stage4Action), e: CoreErrorView) -> bool {
    r.0 is Done && (r.1 matches Stage4Action::Finish(Err(x)) && x@ == e)
}

/// The run goes on to write `weed1.mat` with the given flags.
pub open spec fn stage4_writing(r: (Stage4State, Stage4Action), ifg: Seq<i64>, flags: Seq<bool>, second: Seq<bool>) -> bool {
    &&& r.0 == Stage4State::Writing { kept: count_set(flags) as usize, total: flags.len() as usize }
    &&& r.1 matches Stage4Action::Write { ifg_index, ix_weed, ix_weed2 } && ifg_index@ == ifg && ix_weed@ == flags
        && ix_weed2@ == second
}

/// What follows the weeding of neighbours, elevation and duplicates, which
/// left the given flags: the noise estimate when noisy points are weeded and
/// some point is left, else the writing of the flags.
pub open spec fn stage4_after_weeding(r: (Stage4State, Stage4Action), run: Stage4Run, flags: Seq<bool>) -> bool {
    if run.noise_weeding && count_set(flags) > 0 {
        (r.0 matches Stage4State::ReadingNoiseInputs { run: r2, ix_weed } && r2 == run && ix_weed@ == flags)
            && r.1 is ReadNoiseInputs
    } else {
        stage4_writing(r, run.ifg_index@, flags, Seq::new(count_set(flags), |i: int| true))
    }
}

/// The run goes on to the noise estimate of the points that the flags keep.
pub open spec fn stage4_estimating(
    r: (Stage4State, Stage4Action),
    run: Stage4Run,
    flags: Seq<bool>,
    cols: Option<Seq<usize>>,
    edges: Seq<(usize, usize)>,
) -> bool {
    &&& r.0 matches Stage4State::EstimatingNoise { run: r2, ix_weed } && r2 == run && ix_weed@ == flags
    &&& r.1 matches Stage4Action::EstimateNoise { kept, columns, edges: e, small_baseline, master_ix } && kept@
        == kept_positions(flags, flags.len() as int) && e@ == edges && small_baseline == run.small_baseline
        && master_ix == run.master_ix && match columns {
        Some(c) => cols == Some(c@),
        None => cols is None,
    }
}

/// The outcome of reading the selection.
pub open spec fn stage4_selection_outcome(r: (Stage4State, Stage4Action), run: Stage4Run, sel: Stage4Selection) -> bool {
    let keep = flags_or_default(
        match sel.keep_ix {
            Some(v) => Some(v@),
            None => None,
        },
        sel.ix@.len(),
        true,
    );
    let ix2 = selected(sel.ix@, keep, sel.ix@.len() as int);
    let bad = first_bad_index(ix2, run.n_ps);
    if sel.ix@.len() == 0 {
        stage4_failed(r, stage4_error("select1.mat has empty ix"@))
    } else if bad >= 0 {
        stage4_failed(r, stage4_error(one_based_message("select1.ix after keep_ix"@, ix2[bad], bad, run.n_ps)))
    } else if ix2.len() == 0 {
        stage4_writing(r, run.ifg_index@, Seq::empty(), Seq::empty())
    } else {
        &&& r.0 matches Stage4State::ReadingPoints { run: r2, ix2_rows } && r2 == run && ix2_rows@ == rows_of(ix2)
        &&& r.1 matches Stage4Action::ReadPoints { keep: k, rows } && k@ == keep && rows@ == rows_of(ix2)
    }
}

/// The flags after the weeding of neighbours.
pub open spec fn neighbour_flags(run: Stage4Run, p: Stage4Points) -> Seq<bool> {
    if run.weed_neighbours {
        spec_keep_mask(p.ij_cols23@, coherence_keys(p.coh_bits@))
    } else {
        Seq::new(p.ij_cols23@.len(), |i: int| true)
    }
}

/// The outcome of reading the points.
pub open spec fn stage4_points_outcome(r: (Stage4State, Stage4Action), run: Stage4Run, rows: Seq<usize>, p: Stage4Points) -> bool {
    let flags = neighbour_flags(run, p);
    if run.weed_zero_elevation {
        &&& r.0 matches Stage4State::ReadingElevation { run: r2, ix2_rows, ix_weed, xy_bits, coh_keys } && r2 == run
            && ix2_rows@ == rows && ix_weed@ == flags && xy_bits@ == p.xy_bits@ && coh_keys@ == coherence_keys(
            p.coh_bits@,
        )
        &&& r.1 is ReadElevation
    } else {
        stage4_after_weeding(r, run, dedup_flags(p.xy_bits@, coherence_keys(p.coh_bits@), flags))
    }
}

/// The outcome of the triangulation.
pub open spec fn stage4_graph_outcome(
    r: (Stage4State, Stage4Action),
    run: Stage4Run,
    flags: Seq<bool>,
    cols: Seq<usize>,
    ph_cols: usize,
    edges: Seq<(usize, usize)>,
) -> bool {
    let n = count_set(flags) as usize;
    if exists|i: int| 0 <= i < edges.len() && bad_topology_edge(#[trigger] edges[i], n) {
        exists|i: int| first_bad_topology_edge(edges, n, i) && stage4_failed(r, stage4_error(topology_message(i, edges[i], n)))
    } else if edges.len() > 0 && cols.len() > 0 {
        if !run.small_baseline && (run.master_ix == 0 || run.master_ix > ph_cols) {
            stage4_failed(
                r,
                stage4_error(
                    "ps1.master_ix must be 1-based within ph1 width "@ + decimal(ph_cols as nat) + "; got "@ + decimal(
                        run.master_ix as nat,
                    ),
                ),
            )
        } else if !run.small_baseline {
            &&& r.0 matches Stage4State::ReadingDays { run: r2, ix_weed, ifg_cols, ph_cols: pc, edges: e } && r2 == run
                && ix_weed@ == flags && ifg_cols@ == cols && pc == ph_cols && e@ == edges
            &&& r.1 is ReadDays
        } else {
            stage4_estimating(r, run, flags, Some(cols), edges)
        }
    } else {
        stage4_estimating(r, run, flags, None, edges)
    }
}

/// The message for a vector whose length does not match the interferograms.
pub open spec fn length_message(name: Seq<char>, len: usize, ph_cols: usize) -> Seq<char> {
    name + " has length "@ + decimal(len as nat) + " but ph1.ph has "@ + decimal(ph_cols as nat) + " interferograms"@
}

fn fail4(message: String) -> (r: (Stage4State, Stage4Action))
    ensures
        stage4_failed(r, stage4_error(message@)),
{
    (Stage4State::Done, Stage4Action::Finish(Err(CoreError::NativeStage { stage: 4, message })))
}

fn pass_on(e: CoreError) -> (r: (Stage4State, Stage4Action))
    ensures
        stage4_failed(r, e@),
{
    (Stage4State::Done, Stage4Action::Finish(Err(e)))
}

fn length_error(name: &str, len: usize, ph_cols: usize) -> (r: (Stage4State, Stage4Action))
    ensures
        stage4_failed(r, stage4_error(length_message(name@, len, ph_cols))),
{
    let mut m = String::from_str(name);
    m.append(" has length ");
    m.append(usize_text(len).as_str());
    m.append(" but ph1.ph has ");
    m.append(usize_text(ph_cols).as_str());
    m.append(" interferograms");
    fail4(m)
}

fn write_flags(ifg_index: Vec<i64>, flags: Vec<bool>, second: Vec<bool>) -> (r: (Stage4State, Stage4Action))
    ensures
        stage4_writing(r, ifg_index@, flags@, second@),
{
    let kept = count_true(&flags);
    let total = flags.len();
    (Stage4State::Writing { kept, total }, Stage4Action::Write { ifg_index, ix_weed: flags, ix_weed2: second })
}

/// Removes duplicated positions and decides whether the noise is estimated.
fn finish_weeding(run: Stage4Run, flags: Vec<bool>, xy_bits: &Vec<(u64, u64)>, coh_keys: &Vec<i64>) -> (r: (
    Stage4State,
    Stage4Action,
))
    requires
        xy_bits@.len() == flags@.len(),
        coh_keys@.len() == flags@.len(),
    ensures
        stage4_after_weeding(r, run, dedup_flags(xy_bits@, coh_keys@, flags@)),
{
    let ghost before = flags@;
    let mut w = flags;
    remove_duplicate_xy(xy_bits, coh_keys, &mut w);
    assert(w@ =~= dedup_flags(xy_bits@, coh_keys@, before));
    let n_pre = count_true(&w);
    if run.noise_weeding && n_pre > 0 {
        (Stage4State::ReadingNoiseInputs { run, ix_weed: w }, Stage4Action::ReadNoiseInputs)
    } else {
        let second = all_set(n_pre);
        write_flags(run.ifg_index, w, second)
    }
}

/// Goes on to the noise estimate.
fn estimate(run: Stage4Run, flags: Vec<bool>, columns: Option<Vec<usize>>, edges: Vec<(usize, usize)>) -> (r: (
    Stage4State,
    Stage4Action,
))
    ensures
        stage4_estimating(
            r,
            run,
            flags@,
            match columns {
                Some(c) => Some(c@),
                None => None,
            },
            edges@,
        ),
{
    let kept = positions(&flags);
    let small_baseline = run.small_baseline;
    let master_ix = run.master_ix;
    (
        Stage4State::EstimatingNoise { run, ix_weed: flags },
        Stage4Action::EstimateNoise { kept, columns, edges, small_baseline, master_ix },
    )
}

/// Takes one step of the stage 4 runner on a patch: from where it stands and
/// what the last piece of outside work gave, to where it stands next and what
/// to do next.  The checks and the weeding come in the order of the runner:
/// the inputs and the point count, the selection and its indices, the
/// weeding of neighbours, of points at zero elevation and of duplicated
/// positions, then, for noisy points, the interferogram count, the
/// triangulation, the master index and the dates, and last the noise verdicts.
pub fn run_stage4_native(state: Stage4State, event: Stage4Event) -> (r: (Stage4State, Stage4Action))
    requires
        stage4_state_wf(state),
        stage4_event_fits(state, event),
    ensures
        stage4_state_wf(r.0),
        match state {
            Stage4State::Start => r.0 is ReadingInputs && r.1 is ReadInputs,
            Stage4State::ReadingInputs => match event {
                Stage4Event::InputsRead(Err(e)) => stage4_failed(
                    r,
                    stage4_error("unable to read "@ + e.0@ + ": "@ + e.1@),
                ),
                Stage4Event::InputsRead(Ok(i)) => if i.n_ps == 0 {
                    stage4_failed(r, stage4_error("ps1.mat missing valid n_ps"@))
                } else {
                    (r.0 matches Stage4State::ReadingSelection { run } && run_of(i, run)) && r.1 is ReadSelection
                },
                _ => false,
            },
            Stage4State::ReadingSelection { run } => match event {
                Stage4Event::SelectionRead(Err(e)) => stage4_failed(r, e@),
                Stage4Event::SelectionRead(Ok(sel)) => stage4_selection_outcome(r, run, sel),
                _ => false,
            },
            Stage4State::ReadingPoints { run, ix2_rows } => match event {
                Stage4Event::PointsRead(Err(e)) => stage4_failed(r, e@),
                Stage4Event::PointsRead(Ok(p)) => stage4_points_outcome(r, run, ix2_rows@, p),
                _ => false,
            },
            Stage4State::ReadingElevation { run, ix2_rows, ix_weed, xy_bits, coh_keys } => match event {
                Stage4Event::ElevationRead(Err(e)) => stage4_failed(r, e@),
                Stage4Event::ElevationRead(Ok(low)) => stage4_after_weeding(
                    r,
                    run,
                    dedup_flags(
                        xy_bits@,
                        coh_keys@,
                        match low {
                            Some(l) => drop_low(ix_weed@, ix2_rows@, l@),
                            None => ix_weed@,
                        },
                    ),
                ),
                _ => false,
            },
            Stage4State::ReadingNoiseInputs { run, ix_weed } => match event {
                Stage4Event::NoiseInputsRead(Err(e)) => stage4_failed(r, e@),
                Stage4Event::NoiseInputsRead(Ok(counts)) => if counts.1 != counts.0 {
                    stage4_failed(r, stage4_error(length_message("ps1.bperp"@, counts.1, counts.0)))
                } else {
                    &&& r.0 matches Stage4State::BuildingGraph { run: r2, ix_weed: w, ifg_cols, ph_cols } && r2 == run
                        && w@ == ix_weed@ && ph_cols == counts.0 && ifg_cols@ == usable_columns(
                        run.ifg_index@,
                        counts.0,
                        run.ifg_index@.len() as int,
                    )
                    &&& r.1 matches Stage4Action::BuildGraph { kept } && kept@ == kept_positions(
                        ix_weed@,
                        ix_weed@.len() as int,
                    )
                },
                _ => false,
            },
            Stage4State::BuildingGraph { run, ix_weed, ifg_cols, ph_cols } => match event {
                Stage4Event::GraphBuilt(edges) => stage4_graph_outcome(r, run, ix_weed@, ifg_cols@, ph_cols, edges@),
                _ => false,
            },
            Stage4State::ReadingDays { run, ix_weed, ifg_cols, ph_cols, edges } => match event {
                Stage4Event::DaysRead(Err(e)) => stage4_failed(r, e@),
                Stage4Event::DaysRead(Ok(n)) => if n != ph_cols {
                    stage4_failed(r, stage4_error(length_message("ps1.day"@, n, ph_cols)))
                } else {
                    stage4_estimating(r, run, ix_weed@, Some(ifg_cols@), edges@)
                },
                _ => false,
            },
            Stage4State::EstimatingNoise { run, ix_weed } => match event {
                Stage4Event::NoiseEstimated(Err(e)) => stage4_failed(r, e@),
                Stage4Event::NoiseEstimated(Ok(v)) => stage4_writing(
                    r,
                    run.ifg_index@,
                    merge_noise(ix_weed@, v@),
                    v@,
                ),
                _ => false,
            },
            Stage4State::Writing { kept, total } => match event {
                Stage4Event::Written(Err(e)) => stage4_failed(r, e@),
                Stage4Event::Written(Ok(())) => r.0 is Done && (r.1 matches Stage4Action::Finish(Ok(m)) && m@
                    == "Stage 4 retained "@ + decimal(kept as nat) + "/"@ + decimal(total as nat) + " selected PS"@),
                _ => false,
            },
            Stage4State::Done => false,
        },
{
    match state {
        Stage4State::Start => (Stage4State::ReadingInputs, Stage4Action::ReadInputs),
        Stage4State::ReadingInputs => match event {
            Stage4Event::InputsRead(Err((file, err))) => {
                let mut m = String::from_str("unable to read ");
                m.append(file.as_str());
                m.append(": ");
                m.append(err.as_str());
                fail4(m)
            },
            Stage4Event::InputsRead(Ok(i)) => {
                if i.n_ps == 0 {
                    return fail4(String::from_str("ps1.mat missing valid n_ps"));
                }
                let run = Stage4Run {
                    n_ps: i.n_ps,
                    master_ix: i.master_ix,
                    small_baseline: text_eq_ignore_ascii_case(i.small_baseline_flag.as_str(), "y"),
                    weed_neighbours: text_eq_ignore_ascii_case(i.weed_neighbours.as_str(), "y"),
                    weed_zero_elevation: text_eq_ignore_ascii_case(i.weed_zero_elevation.as_str(), "y"),
                    noise_weeding: i.noise_weeding,
                    ifg_index: ifg_index_for_weed(i.n_ifg, i.drop_ifg_index.as_slice()),
                };
                (Stage4State::ReadingSelection { run }, Stage4Action::ReadSelection)
            },
            _ => (Stage4State::Done, Stage4Action::ReadInputs),
        },
        Stage4State::ReadingSelection { run } => match event {
            Stage4Event::SelectionRead(Err(e)) => pass_on(e),
            Stage4Event::SelectionRead(Ok(sel)) => {
                if sel.ix.len() == 0 {
                    return fail4(String::from_str("select1.mat has empty ix"));
                }
                let keep = flags_of(&sel.keep_ix, sel.ix.len(), true);
                let ix2 = select_kept(&sel.ix, &keep);
                let n_ps = run.n_ps;
                proof {
                    reveal_strlit("select1.ix after keep_ix");
                    lemma_first_bad_index(ix2@, n_ps);
                }
                match validate_one_based_indices(ix2.as_slice(), n_ps, "select1.ix after keep_ix", 4) {
                    Err(e) => {
                        proof {
                            let i = choose|i: int| first_bad_one_based(ix2@, n_ps, i) && e@ == (CoreErrorView::NativeStage {
                                stage: 4,
                                message: one_based_message("select1.ix after keep_ix"@, ix2@[i], i, n_ps),
                            });
                            if first_bad_index(ix2@, n_ps) < 0 {
                                assert(!bad_one_based(ix2@[i], n_ps));
                            }
                            lemma_first_bad_unique(ix2@, n_ps, i, first_bad_index(ix2@, n_ps));
                        }
                        return pass_on(e);
                    },
                    Ok(()) => {},
                }
                proof {
                    if first_bad_index(ix2@, n_ps) >= 0 {
                        let k = first_bad_index(ix2@, n_ps);
                        assert(bad_one_based(ix2@[k], n_ps));
                    }
                }
                if ix2.len() == 0 {
                    return write_flags(run.ifg_index, Vec::new(), Vec::new());
                }
                let rows_for_points = rows(&ix2);
                let ix2_rows = rows(&ix2);
                proof {
                    assert forall|p: int| 0 <= p < ix2_rows@.len() implies #[trigger] ix2_rows@[p] < n_ps by {
                        assert(!bad_one_based(ix2@[p], n_ps));
                    }
                }
                (Stage4State::ReadingPoints { run, ix2_rows }, Stage4Action::ReadPoints { keep, rows: rows_for_points })
            },
            _ => (Stage4State::Done, Stage4Action::ReadInputs),
        },
        Stage4State::ReadingPoints { run, ix2_rows } => match event {
            Stage4Event::PointsRead(Err(e)) => pass_on(e),
            Stage4Event::PointsRead(Ok(p)) => {
                let coh_keys = keys_of(&p.coh_bits);
                let flags = if run.weed_neighbours {
                    proof {
                        lemma_keep_mask_len(p.ij_cols23@, coh_keys@);
                    }
                    adjacent_component_keep_mask(&p.ij_cols23, &coh_keys)
                } else {
                    all_set(p.ij_cols23.len())
                };
                if run.weed_zero_elevation {
                    (
                        Stage4State::ReadingElevation { run, ix2_rows, ix_weed: flags, xy_bits: p.xy_bits, coh_keys },
                        Stage4Action::ReadElevation,
                    )
                } else {
                    finish_weeding(run, flags, &p.xy_bits, &coh_keys)
                }
            },
            _ => (Stage4State::Done, Stage4Action::ReadInputs),
        },
        Stage4State::ReadingElevation { run, ix2_rows, ix_weed, xy_bits, coh_keys } => match event {
            Stage4Event::ElevationRead(Err(e)) => pass_on(e),
            Stage4Event::ElevationRead(Ok(low)) => {
                let flags = match low {
                    Some(l) => without_low(&ix_weed, &ix2_rows, &l),
                    None => ix_weed,
                };
                finish_weeding(run, flags, &xy_bits, &coh_keys)
            },
            _ => (Stage4State::Done, Stage4Action::ReadInputs),
        },
        Stage4State::ReadingNoiseInputs { run, ix_weed } => match event {
            Stage4Event::NoiseInputsRead(Err(e)) => pass_on(e),
            Stage4Event::NoiseInputsRead(Ok((ph_cols, n_bperp))) => {
                if n_bperp != ph_cols {
                    return length_error("ps1.bperp", n_bperp, ph_cols);
                }
                let ifg_cols = columns_within(&run.ifg_index, ph_cols);
                let kept = positions(&ix_weed);
                (Stage4State::BuildingGraph { run, ix_weed, ifg_cols, ph_cols }, Stage4Action::BuildGraph { kept })
            },
            _ => (Stage4State::Done, Stage4Action::ReadInputs),
        },
        Stage4State::BuildingGraph { run, ix_weed, ifg_cols, ph_cols } => match event {
            Stage4Event::GraphBuilt(edges) => {
                let n_pre = count_true(&ix_weed);
                match validate_stage4_edge_topology(edges.as_slice(), n_pre) {
                    Err(e) => {
                        return pass_on(e);
                    },
                    Ok(()) => {},
                }
                if edges.len() > 0 && ifg_cols.len() > 0 {
                    if !run.small_baseline && (run.master_ix == 0 || run.master_ix > ph_cols) {
                        let mut m = String::from_str("ps1.master_ix must be 1-based within ph1 width ");
                        m.append(usize_text(ph_cols).as_str());
                        m.append("; got ");
                        m.append(usize_text(run.master_ix).as_str());
                        fail4(m)
                    } else if !run.small_baseline {
                        (Stage4State::ReadingDays { run, ix_weed, ifg_cols, ph_cols, edges }, Stage4Action::ReadDays)
                    } else {
                        estimate(run, ix_weed, Some(ifg_cols), edges)
                    }
                } else {
                    estimate(run, ix_weed, None, edges)
                }
            },
            _ => (Stage4State::Done, Stage4Action::ReadInputs),
        },
        Stage4State::ReadingDays { run, ix_weed, ifg_cols, ph_cols, edges } => match event {
            Stage4Event::DaysRead(Err(e)) => pass_on(e),
            Stage4Event::DaysRead(Ok(n)) => {
                if n != ph_cols {
                    length_error("ps1.day", n, ph_cols)
                } else {
                    estimate(run, ix_weed, Some(ifg_cols), edges)
                }
            },
            _ => (Stage4State::Done, Stage4Action::ReadInputs),
        },
        Stage4State::EstimatingNoise { run, ix_weed } => match event {
            Stage4Event::NoiseEstimated(Err(e)) => pass_on(e),
            Stage4Event::NoiseEstimated(Ok(verdicts)) => {
                let merged = merge(&ix_weed, &verdicts);
                write_flags(run.ifg_index, merged, verdicts)
            },
            _ => (Stage4State::Done, Stage4Action::ReadInputs),
        },
        Stage4State::Writing { kept, total } => match event {
            Stage4Event::Written(Err(e)) => pass_on(e),
            Stage4Event::Written(Ok(())) => {
                let mut m = String::from_str("Stage 4 retained ");
                m.append(usize_text(kept).as_str());
                m.append("/");
                m.append(usize_text(total).as_str());
                m.append(" selected PS");
                (Stage4State::Done, Stage4Action::Finish(Ok(m)))
            },
            _ => (Stage4State::Done, Stage4Action::ReadInputs),
        },
        Stage4State::Done => (Stage4State::Done, Stage4Action::ReadInputs),
    }
}

} // verus!
