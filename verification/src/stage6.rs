//! The decisions of the stage 6 runner (phase unwrapping): which
//! interferograms are unwrapped, the checks of its inputs, and the step
//! function that the runner's loop drives.

use vstd::prelude::*;
use crate::core_error::{CoreError, CoreErrorView};
use crate::graph::{validate_connected_graph, NodeColumns, all_node_pairs_valid, connected, adjacency,
    first_bad_node_pair, edgs_columns_message, unwrap_edge_message, disconnected_message};
use crate::stage_checks::{eq_ignore_ascii_case, text_eq_ignore_ascii_case};
use crate::text::{decimal, usize_text};

verus! {

/// The interferogram columns `0..n` that are unwrapped: not dropped (the drop
/// list holds 1-based numbers) and not the master's column.
pub open spec fn unwrap_columns(n: int, master_ix: usize, drop: Seq<i64>) -> Seq<usize>
    decreases n,
{
    if n <= 0 {
        Seq::empty()
    } else if drop.contains(n as i64) || n - 1 == master_ix - 1 {
        unwrap_columns(n - 1, master_ix, drop)
    } else {
        unwrap_columns(n - 1, master_ix, drop).push((n - 1) as usize)
    }
}

/// The interferograms that stage 6 unwraps are, in increasing order, the
/// columns below `n` other than the master's (`master_ix - 1`) whose 1-based
/// number is not in the drop list.
pub proof fn law_stage6_unwrap_columns(n: int, master_ix: usize, drop: Seq<i64>)
    requires
        n <= i64::MAX,
        n <= usize::MAX,
    ensures
        forall|k: int| 0 <= k < unwrap_columns(n, master_ix, drop).len() ==> #[trigger] unwrap_columns(n, master_ix, drop)[k] < n,
        forall|a: int, b: int|
            0 <= a < b < unwrap_columns(n, master_ix, drop).len() ==> #[trigger] unwrap_columns(n, master_ix, drop)[a]
                < #[trigger] unwrap_columns(n, master_ix, drop)[b],
        forall|c: usize|
            (c as int) < n ==> (#[trigger] unwrap_columns(n, master_ix, drop).contains(c) <==> (c + 1 != master_ix
                && !drop.contains((c + 1) as i64))),
    decreases n,
{
    if n > 0 {
        law_stage6_unwrap_columns(n - 1, master_ix, drop);
        let prev = unwrap_columns(n - 1, master_ix, drop);
        let cur = unwrap_columns(n, master_ix, drop);
        if drop.contains(n as i64) || n - 1 == master_ix - 1 {
            assert(cur == prev);
            assert forall|c: usize| (c as int) < n implies (#[trigger] cur.contains(c) <==> (c + 1 != master_ix
                && !drop.contains((c + 1) as i64))) by {
                if c as int == n - 1 {
                    assert(!prev.contains(c)) by {
                        if prev.contains(c) {
                            let k = choose|k: int| 0 <= k < prev.len() && prev[k] == c;
                            assert(prev[k] < n - 1);
                        }
                    }
                    assert((c + 1) as i64 == n as i64);
                }
            }
        } else {
            let x = (n - 1) as usize;
            assert(x as int == n - 1);
            assert(cur == prev.push(x));
            assert forall|a: int, b: int| 0 <= a < b < cur.len() implies #[trigger] cur[a] < #[trigger] cur[b] by {
                if b == cur.len() - 1 {
                    assert(cur[a] == prev[a]);
                } else {
                    assert(cur[a] == prev[a] && cur[b] == prev[b]);
                }
            }
            assert forall|k: int| 0 <= k < cur.len() implies #[trigger] cur[k] < n by {
                if k < prev.len() {
                    assert(cur[k] == prev[k]);
                }
            }
            assert forall|c: usize| (c as int) < n implies (#[trigger] cur.contains(c) <==> (c + 1 != master_ix
                && !drop.contains((c + 1) as i64))) by {
                if c as int == n - 1 {
                    assert(cur[cur.len() - 1] == c);
                    assert((c + 1) as i64 == n as i64);
                } else {
                    if cur.contains(c) {
                        let k = choose|k: int| 0 <= k < cur.len() && cur[k] == c;
                        assert(k < prev.len());
                        assert(prev[k] == c);
                    }
                    if prev.contains(c) {
                        let k = choose|k: int| 0 <= k < prev.len() && prev[k] == c;
                        assert(cur[k] == c);
                    }
                }
            }
        }
    }
}

/// The columns of the `n_ifg` interferograms that stage 6 unwraps.
pub fn select_unwrap_columns(n_ifg: usize, master_ix: usize, drop_ifg_index: &Vec<i64>) -> (r: Vec<usize>)
    ensures
        r@ == unwrap_columns(n_ifg as int, master_ix, drop_ifg_index@),
{
    let mut r: Vec<usize> = Vec::new();
    let mut col: usize = 0;
    while col < n_ifg
        invariant
            col <= n_ifg,
            r@ == unwrap_columns(col as int, master_ix, drop_ifg_index@),
        decreases n_ifg - col,
    {
        let number = (col + 1) as i64;
        let mut dropped = false;
        let mut k: usize = 0;
        while k < drop_ifg_index.len()
            invariant
                k <= drop_ifg_index@.len(),
                number == (col + 1) as i64,
                dropped == (exists|j: int| 0 <= j < k && drop_ifg_index@[j] == number),
            decreases drop_ifg_index@.len() - k,
        {
            if drop_ifg_index[k] == number {
                dropped = true;
            }
            k = k + 1;
        }
        assert(dropped == drop_ifg_index@.contains(number));
        if !dropped && !(master_ix >= 1 && col == master_ix - 1) {
            r.push(col);
        }
        col = col + 1;
    }
    r
}

/// What stage 6 reads from `ps2.mat` and `parms.mat`: the rounded counts
/// (`n_ps` 0 and `master_ix` 1 when absent) and the flags it needs.
#[derive(Clone, Debug)]
pub struct Stage6Scalars {
    pub n_ps: usize,
    pub master_ix: usize,
    pub small_baseline_flag: String,
    pub drop_ifg_index: Vec<i64>,
}

/// The unwrap grid and graph, as built or read back: the number of grid
/// points and the edge table of the interpolation graph.
pub struct Stage6Grid {
    pub n_grid_ps: usize,
    pub edgs: NodeColumns,
}

/// Where the stage 6 runner stands.
pub enum Stage6State {
    Start,
    ReadingInputs,
    ReadingPhase { scalars: Stage6Scalars },
    PreparingGrid { n_ps: usize, n_ifg: usize },
    Unwrapping { n_ps: usize, n_ifg: usize },
    Done,
}

/// What a piece of outside work gave.
pub enum Stage6Event {
    Begin,
    /// The input files were read (`ps2`, `ph2`, `pm2`, `bp2` and `ifgstd2`,
    /// then `parms.mat` with defaults), or the named file could not be read.
    InputsRead(Result<Stage6Scalars, (String, String)>),
    /// The shape of the complex matrix `ph2.ph`, or why it could not be had.
    PhaseRead(Result<(usize, usize), String>),
    /// The wrapped phase, the unwrap grid and its graph are ready, or
    /// preparing them failed.
    GridReady(Result<Stage6Grid, CoreError>),
    /// The unwrapped phase was computed and written, or that failed.
    Written(Result<(), CoreError>),
}

/// The next piece of outside work, or the end of the run.
pub enum Stage6Action {
    ReadInputs,
    ReadPhase { n_ps: usize },
    PrepareGrid { n_ps: usize, n_ifg: usize, master_ix: usize, transpose_phase: bool, unwrap_cols: Vec<usize> },
    Unwrap,
    Finish(Result<String, CoreError>),
}

/// Whether an event answers the work that the state asked for.
pub open spec fn stage6_event_fits(state: Stage6State, event: Stage6Event) -> bool {
    match state {
        Stage6State::Start => event is Begin,
        Stage6State::ReadingInputs => event is InputsRead,
        Stage6State::ReadingPhase { .. } => event is PhaseRead,
        Stage6State::PreparingGrid { .. } => match event {
            Stage6Event::GridReady(Ok(g)) => g.edgs.wf(),
            Stage6Event::GridReady(_) => true,
            _ => false,
        },
        Stage6State::Unwrapping { .. } => event is Written,
        Stage6State::Done => false,
    }
}

/// An error of stage 6 with the given message.
pub open spec fn stage6_error(message: Seq<char>) -> CoreErrorView {
    CoreErrorView::NativeStage { stage: 6, message }
}

/// The number of interferograms once `ph2.ph` has its points as rows.
pub open spec fn phase_columns(shape: (usize, usize), n_ps: usize) -> usize {
    if shape.0 == n_ps {
        shape.1
    } else {
        shape.0
    }
}

/// The first problem found once the phase matrix has been read, if any.
pub open spec fn phase_problem(s: Stage6Scalars, shape: (usize, usize)) -> Option<Seq<char>> {
    let n_ifg = phase_columns(shape, s.n_ps);
    if shape.0 != s.n_ps && shape.1 != s.n_ps {
        Some("ph2.ph has incompatible shape "@ + decimal(shape.0 as nat) + "x"@ + decimal(shape.1 as nat)
            + " for n_ps="@ + decimal(s.n_ps as nat))
    } else if n_ifg == 0 {
        Some("ph2.ph must contain at least one interferogram"@)
    } else if s.master_ix == 0 || s.master_ix > n_ifg {
        Some("ps2.master_ix must be 1-based within ph2.ph columns; got "@ + decimal(s.master_ix as nat))
    } else if eq_ignore_ascii_case(s.small_baseline_flag@, "y"@) {
        Some("Stage 6 native unwrap currently supports single-master merged artifacts"@)
    } else if unwrap_columns(n_ifg as int, s.master_ix, s.drop_ifg_index@).len() == 0 {
        Some("No interferograms available for stage-6 unwrapping"@)
    } else {
        None
    }
}

/// The closing report of a run.
pub open spec fn stage6_finished_message(n_ps: usize, n_ifg: usize) -> Seq<char> {
    "Stage 6 natively unwrapped "@ + decimal(n_ps as nat) + " PS across "@ + decimal(n_ifg as nat)
        + " interferograms using Rust graph unwrap"@
}

fn fail6(message: String) -> (r: (Stage6State, Stage6Action))
    ensures
        r.0 is Done,
        r.1 matches Stage6Action::Finish(Err(x)) && x@ == stage6_error(message@),
{
    (Stage6State::Done, Stage6Action::Finish(Err(CoreError::NativeStage { stage: 6, message })))
}

/// Takes one step of the stage 6 runner: from where it stands and what the
/// last piece of outside work gave, to where it stands next and what to do
/// next.  The checks come in the order of the runner: the input files, the
/// point count, the phase matrix, the master interferogram, the processing
/// mode, the interferograms left to unwrap, and the connectivity of the
/// unwrap graph.
pub fn run_stage6_native(state: Stage6State, event: Stage6Event) -> (r: (Stage6State, Stage6Action))
    requires
        stage6_event_fits(state, event),
    ensures
        match state {
            Stage6State::Start => r.0 is ReadingInputs && r.1 is ReadInputs,
            Stage6State::ReadingInputs => match event {
                Stage6Event::InputsRead(Err(e)) => r.0 is Done && (r.1 matches Stage6Action::Finish(Err(x)) && x@
                    == stage6_error("unable to read "@ + e.0@ + ": "@ + e.1@)),
                Stage6Event::InputsRead(Ok(s)) => if s.n_ps == 0 {
                    r.0 is Done && (r.1 matches Stage6Action::Finish(Err(x)) && x@ == stage6_error(
                        "ps2.mat missing valid n_ps"@,
                    ))
                } else {
                    (r.0 matches Stage6State::ReadingPhase { scalars } && scalars.n_ps == s.n_ps && scalars.master_ix
                        == s.master_ix && scalars.small_baseline_flag@ == s.small_baseline_flag@
                        && scalars.drop_ifg_index@ == s.drop_ifg_index@) && (r.1 matches Stage6Action::ReadPhase { n_ps }
                        && n_ps == s.n_ps)
                },
                _ => false,
            },
            Stage6State::ReadingPhase { scalars } => match event {
                Stage6Event::PhaseRead(Err(e)) => r.0 is Done && (r.1 matches Stage6Action::Finish(Err(x)) && x@
                    == stage6_error("ph2.ph is invalid: "@ + e@)),
                Stage6Event::PhaseRead(Ok(shape)) => match phase_problem(scalars, shape) {
                    Some(m) => r.0 is Done && (r.1 matches Stage6Action::Finish(Err(x)) && x@ == stage6_error(m)),
                    None => {
                        let n_ifg = phase_columns(shape, scalars.n_ps);
                        (r.0 == Stage6State::PreparingGrid { n_ps: scalars.n_ps, n_ifg }) && (r.1 matches Stage6Action::PrepareGrid {
                            n_ps,
                            n_ifg: k,
                            master_ix,
                            transpose_phase,
                            unwrap_cols,
                        } && n_ps == scalars.n_ps && k == n_ifg && master_ix == scalars.master_ix && transpose_phase
                            == (shape.0 != scalars.n_ps) && unwrap_cols@ == unwrap_columns(
                            n_ifg as int,
                            scalars.master_ix,
                            scalars.drop_ifg_index@,
                        ))
                    },
                },
                _ => false,
            },
            Stage6State::PreparingGrid { n_ps, n_ifg } => match event {
                Stage6Event::GridReady(Err(e)) => r.0 is Done && (r.1 matches Stage6Action::Finish(Err(x)) && x@
                    == e@),
                Stage6Event::GridReady(Ok(g)) => {
                    let ends = g.edgs.ends@;
                    let n = g.n_grid_ps;
                    if n <= 1 || (!(g.edgs.cols < 3 && g.edgs.rows > 0) && all_node_pairs_valid(ends, n) && connected(
                        adjacency(ends, n as nat),
                    )) {
                        (r.0 == Stage6State::Unwrapping { n_ps, n_ifg }) && r.1 is Unwrap
                    } else {
                        r.0 is Done && (r.1 matches Stage6Action::Finish(Err(x)) && (if g.edgs.cols < 3 && g.edgs.rows
                            > 0 {
                            x@ == stage6_error(edgs_columns_message(g.edgs.cols))
                        } else {
                            (exists|i: int|
                                first_bad_node_pair(ends, n, i) && x@ == stage6_error(
                                    unwrap_edge_message(i, ends[i], n),
                                )) || (all_node_pairs_valid(ends, n) && x@ == stage6_error(disconnected_message()))
                        }))
                    }
                },
                _ => false,
            },
            Stage6State::Unwrapping { n_ps, n_ifg } => match event {
                Stage6Event::Written(Err(e)) => r.0 is Done && (r.1 matches Stage6Action::Finish(Err(x)) && x@ == e@),
                Stage6Event::Written(Ok(())) => r.0 is Done && (r.1 matches Stage6Action::Finish(Ok(m)) && m@
                    == stage6_finished_message(n_ps, n_ifg)),
                _ => false,
            },
            Stage6State::Done => false,
        },
{
    match state {
        Stage6State::Start => (Stage6State::ReadingInputs, Stage6Action::ReadInputs),
        Stage6State::ReadingInputs => match event {
            Stage6Event::InputsRead(Err((file, err))) => {
                let mut m = String::from_str("unable to read ");
                m.append(file.as_str());
                m.append(": ");
                m.append(err.as_str());
                fail6(m)
            },
            Stage6Event::InputsRead(Ok(s)) => {
                if s.n_ps == 0 {
                    fail6(String::from_str("ps2.mat missing valid n_ps"))
                } else {
                    let n_ps = s.n_ps;
                    (Stage6State::ReadingPhase { scalars: s }, Stage6Action::ReadPhase { n_ps })
                }
            },
            _ => (Stage6State::Done, Stage6Action::Unwrap),
        },
        Stage6State::ReadingPhase { scalars } => match event {
            Stage6Event::PhaseRead(Err(e)) => {
                let mut m = String::from_str("ph2.ph is invalid: ");
                m.append(e.as_str());
                fail6(m)
            },
            Stage6Event::PhaseRead(Ok((rows, cols))) => {
                let n_ps = scalars.n_ps;
                if rows != n_ps && cols != n_ps {
                    let mut m = String::from_str("ph2.ph has incompatible shape ");
                    m.append(usize_text(rows).as_str());
                    m.append("x");
                    m.append(usize_text(cols).as_str());
                    m.append(" for n_ps=");
                    m.append(usize_text(n_ps).as_str());
                    return fail6(m);
                }
                let n_ifg = if rows == n_ps { cols } else { rows };
                if n_ifg == 0 {
                    return fail6(String::from_str("ph2.ph must contain at least one interferogram"));
                }
                let master_ix = scalars.master_ix;
                if master_ix == 0 || master_ix > n_ifg {
                    let mut m = String::from_str("ps2.master_ix must be 1-based within ph2.ph columns; got ");
                    m.append(usize_text(master_ix).as_str());
                    return fail6(m);
                }
                if text_eq_ignore_ascii_case(scalars.small_baseline_flag.as_str(), "y") {
                    return fail6(String::from_str("Stage 6 native unwrap currently supports single-master merged artifacts"));
                }
                let unwrap_cols = select_unwrap_columns(n_ifg, master_ix, &scalars.drop_ifg_index);
                if unwrap_cols.len() == 0 {
                    return fail6(String::from_str("No interferograms available for stage-6 unwrapping"));
                }
                (
                    Stage6State::PreparingGrid { n_ps, n_ifg },
                    Stage6Action::PrepareGrid { n_ps, n_ifg, master_ix, transpose_phase: rows != n_ps, unwrap_cols },
                )
            },
            _ => (Stage6State::Done, Stage6Action::Unwrap),
        },
        Stage6State::PreparingGrid { n_ps, n_ifg } => match event {
            Stage6Event::GridReady(Err(e)) => (Stage6State::Done, Stage6Action::Finish(Err(e))),
            Stage6Event::GridReady(Ok(g)) => match validate_connected_graph(&g.edgs, g.n_grid_ps) {
                Ok(()) => (Stage6State::Unwrapping { n_ps, n_ifg }, Stage6Action::Unwrap),
                Err(e) => (Stage6State::Done, Stage6Action::Finish(Err(e))),
            },
            _ => (Stage6State::Done, Stage6Action::Unwrap),
        },
        Stage6State::Unwrapping { n_ps, n_ifg } => match event {
            Stage6Event::Written(Err(e)) => (Stage6State::Done, Stage6Action::Finish(Err(e))),
            Stage6Event::Written(Ok(())) => {
                let mut m = String::from_str("Stage 6 natively unwrapped ");
                m.append(usize_text(n_ps).as_str());
                m.append(" PS across ");
                m.append(usize_text(n_ifg).as_str());
                m.append(" interferograms using Rust graph unwrap");
                (Stage6State::Done, Stage6Action::Finish(Ok(m)))
            },
            _ => (Stage6State::Done, Stage6Action::Unwrap),
        },
        Stage6State::Done => (Stage6State::Done, Stage6Action::Unwrap),
    }
}

} // verus!
