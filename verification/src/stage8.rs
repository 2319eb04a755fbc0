//! The decisions of the stage 8 runner (mean velocity and space-time noise):
//! a step function from the runner's state and what the last piece of
//! outside work gave, to the next state and the next piece of work.

use vstd::prelude::*;
use crate::core_error::{CoreError, CoreErrorView};
use crate::graph::{edge_table, NodeColumns, invalid_table_message, table_shape_message, table_edge_message,
    first_bad_node_pair, all_node_pairs_valid, zero_based};
use crate::stage_checks::{ensure_exists, validate_supported_stage8_mode, spec_stage8_mode_supported, uppercase,
    missing_artifact_message, unsupported_stage8_message};
use crate::text::{decimal, usize_text};

verus! {

/// The counts read from `ps2.mat`, rounded to whole numbers (0 when absent;
/// `master_ix` is 1 when absent).
#[derive(Clone, Copy, Debug)]
pub struct Ps2Counts {
    pub n_ps: usize,
    pub n_ifg: usize,
    pub master_ix: usize,
}

/// The processing flags of `parms.mat`, with their defaults filled in.
#[derive(Clone, Debug)]
pub struct Stage8Flags {
    pub small_baseline_flag: String,
    pub unwrap_method: String,
    pub unwrap_la_error_flag: String,
    pub unwrap_spatial_cost_func_flag: String,
}

/// Where the stage 8 runner stands.
#[derive(Clone, Copy, Debug)]
pub enum Stage8State {
    Start,
    ReadingPs2,
    CheckingInputs { counts: Ps2Counts },
    ReadingGrid { counts: Ps2Counts },
    ReadingGridPhase { counts: Ps2Counts, n_grid_ps: usize },
    ReadingEdges { counts: Ps2Counts, n_grid_ps: usize, transpose_phase: bool },
    Writing { n_edges: usize },
    Done,
}

/// What a piece of outside work gave.
pub enum Stage8Event {
    /// The run starts.
    Begin,
    /// `ps2.mat` was read, giving its counts, or could not be read.
    Ps2Read(Result<Ps2Counts, String>),
    /// Which of the earlier stages' outputs exist, and the processing flags.
    InputsChecked { phuw2: bool, scla2: bool, uw_grid: bool, uw_interp: bool, flags: Stage8Flags },
    /// `uw_grid.mat` was read, giving its rounded `n_ps`, or could not be read.
    GridRead(Result<usize, String>),
    /// The shape `rows x cols` of the complex matrix `uw_grid.ph`, or why it
    /// could not be had.
    GridPhaseRead(Result<(usize, usize), String>),
    /// `uw_interp.mat` was read, giving its edge table `edgs` (or why that
    /// table could not be had), or the file could not be read.
    EdgesRead(Result<Result<NodeColumns, String>, String>),
    /// The mean velocity and the space-time noise model were computed and
    /// written, or that failed.
    Written(Result<(), CoreError>),
}

/// The next piece of outside work, or the end of the run.
pub enum Stage8Action {
    ReadPs2,
    CheckInputs,
    ReadGrid,
    ReadGridPhase { n_grid_ps: usize },
    ReadEdges,
    ComputeAndWrite {
        n_ps: usize,
        n_ifg: usize,
        master_ix: usize,
        n_grid_ps: usize,
        transpose_phase: bool,
        edges: Vec<(usize, usize)>,
    },
    Finish(Result<String, CoreError>),
}

/// Whether an event answers the work that the state asked for.
pub open spec fn event_fits(state: Stage8State, event: Stage8Event) -> bool {
    match state {
        Stage8State::Start => event is Begin,
        Stage8State::ReadingPs2 => event is Ps2Read,
        Stage8State::CheckingInputs { .. } => event is InputsChecked,
        Stage8State::ReadingGrid { .. } => event is GridRead,
        Stage8State::ReadingGridPhase { .. } => event is GridPhaseRead,
        Stage8State::ReadingEdges { .. } => match event {
            Stage8Event::EdgesRead(Ok(Ok(t))) => t.wf(),
            Stage8Event::EdgesRead(_) => true,
            _ => false,
        },
        Stage8State::Writing { .. } => event is Written,
        Stage8State::Done => false,
    }
}

/// An error of stage 8 with the given message.
pub open spec fn stage8_error(message: Seq<char>) -> CoreErrorView {
    CoreErrorView::NativeStage { stage: 8, message }
}

/// The message for a file that could not be read.
pub open spec fn unreadable_message(filename: Seq<char>, err: Seq<char>) -> Seq<char> {
    "unable to read "@ + filename + ": "@ + err
}

/// The first problem with the counts of `ps2.mat`, if any.
pub open spec fn counts_problem(c: Ps2Counts) -> Option<Seq<char>> {
    if c.n_ps == 0 {
        Some("ps2.mat missing valid n_ps"@)
    } else if c.n_ifg == 0 {
        Some("ps2.mat missing valid n_ifg"@)
    } else if c.master_ix == 0 || c.master_ix > c.n_ifg {
        Some("ps2.master_ix must be 1-based within n_ifg="@ + decimal(c.n_ifg as nat) + "; got "@ + decimal(
            c.master_ix as nat,
        ))
    } else {
        None
    }
}

/// The first problem with the inputs: a missing output of an earlier stage,
/// unsupported flags, or bad counts, in that order.
pub open spec fn inputs_problem(
    c: Ps2Counts,
    phuw2: bool,
    scla2: bool,
    uw_grid: bool,
    uw_interp: bool,
    flags: Stage8Flags,
) -> Option<Seq<char>> {
    if !phuw2 {
        Some(missing_artifact_message("phuw2.mat"@, "stage-6 unwrap output"@))
    } else if !scla2 {
        Some(missing_artifact_message("scla2.mat"@, "stage-7 SCLA output"@))
    } else if !uw_grid {
        Some(missing_artifact_message("uw_grid.mat"@, "stage-6 grid output"@))
    } else if !uw_interp {
        Some(missing_artifact_message("uw_interp.mat"@, "stage-6 interpolation output"@))
    } else if !spec_stage8_mode_supported(
        flags.small_baseline_flag@,
        uppercase(flags.unwrap_method@),
        flags.unwrap_la_error_flag@,
        flags.unwrap_spatial_cost_func_flag@,
    ) {
        Some(unsupported_stage8_message())
    } else {
        counts_problem(c)
    }
}

/// The message for a grid phase matrix of the wrong shape.
pub open spec fn phase_shape_message(rows: usize, cols: usize, n: usize) -> Seq<char> {
    "uw_grid.ph has incompatible shape "@ + decimal(rows as nat) + "x"@ + decimal(cols as nat) + " for n_ps="@
        + decimal(n as nat)
}

/// The closing report of a run.
pub open spec fn finished_message(n_edges: usize) -> Seq<char> {
    "Stage 8 produced mean velocity and space-time noise model for "@ + decimal(n_edges as nat) + " arcs"@
}

fn fail(message: String) -> (r: (Stage8State, Stage8Action))
    ensures
        r.0 == Stage8State::Done,
        r.1 matches Stage8Action::Finish(Err(x)) && x@ == stage8_error(message@),
{
    (Stage8State::Done, Stage8Action::Finish(Err(CoreError::NativeStage { stage: 8, message })))
}

fn stop(err: CoreError) -> (r: (Stage8State, Stage8Action))
    ensures
        r.0 == Stage8State::Done,
        r.1 matches Stage8Action::Finish(Err(x)) && x@ == err@,
{
    (Stage8State::Done, Stage8Action::Finish(Err(err)))
}

fn unreadable(filename: &str, err: &String) -> (r: String)
    ensures
        r@ == unreadable_message(filename@, err@),
{
    let mut m = String::from_str("unable to read ");
    m.append(filename);
    m.append(": ");
    m.append(err.as_str());
    m
}

fn check_counts(c: Ps2Counts) -> (r: Option<String>)
    ensures
        match counts_problem(c) {
            Some(m) => r matches Some(x) && x@ == m,
            None => r is None,
        },
{
    if c.n_ps == 0 {
        Some(String::from_str("ps2.mat missing valid n_ps"))
    } else if c.n_ifg == 0 {
        Some(String::from_str("ps2.mat missing valid n_ifg"))
    } else if c.master_ix == 0 || c.master_ix > c.n_ifg {
        let mut m = String::from_str("ps2.master_ix must be 1-based within n_ifg=");
        m.append(usize_text(c.n_ifg).as_str());
        m.append("; got ");
        m.append(usize_text(c.master_ix).as_str());
        Some(m)
    } else {
        None
    }
}

/// Takes one step of the stage 8 runner: from where it stands and what the
/// last piece of outside work gave, to where it stands next and what to do
/// next.  The checks come in the order of the runner: `ps2.mat`, the outputs
/// of stages 6 and 7, the processing flags, the counts, `uw_grid.mat`, its
/// phase matrix, and the edge table of `uw_interp.mat`.
pub fn run_stage8_native(state: Stage8State, event: Stage8Event) -> (r: (Stage8State, Stage8Action))
    requires
        event_fits(state, event),
    ensures
        match state {
            Stage8State::Start => r.0 == Stage8State::ReadingPs2 && r.1 is ReadPs2,
            Stage8State::ReadingPs2 => match event {
                Stage8Event::Ps2Read(Err(e)) => r.0 == Stage8State::Done && (r.1 matches Stage8Action::Finish(Err(x))
                    && x@ == stage8_error(unreadable_message("ps2.mat"@, e@))),
                Stage8Event::Ps2Read(Ok(c)) => r.0 == (Stage8State::CheckingInputs { counts: c }) && r.1 is CheckInputs,
                _ => false,
            },
            Stage8State::CheckingInputs { counts } => match event {
                Stage8Event::InputsChecked { phuw2, scla2, uw_grid, uw_interp, flags } => match inputs_problem(
                    counts,
                    phuw2,
                    scla2,
                    uw_grid,
                    uw_interp,
                    flags,
                ) {
                    Some(m) => r.0 == Stage8State::Done && (r.1 matches Stage8Action::Finish(Err(x)) && x@
                        == stage8_error(m)),
                    None => r.0 == (Stage8State::ReadingGrid { counts }) && r.1 is ReadGrid,
                },
                _ => false,
            },
            Stage8State::ReadingGrid { counts } => match event {
                Stage8Event::GridRead(Err(e)) => r.0 == Stage8State::Done && (r.1 matches Stage8Action::Finish(Err(x))
                    && x@ == stage8_error(unreadable_message("uw_grid.mat"@, e@))),
                Stage8Event::GridRead(Ok(n)) => if n == 0 {
                    r.0 == Stage8State::Done && (r.1 matches Stage8Action::Finish(Err(x)) && x@ == stage8_error(
                        "uw_grid.mat missing valid n_ps"@,
                    ))
                } else {
                    r.0 == (Stage8State::ReadingGridPhase { counts, n_grid_ps: n }) && (r.1 matches Stage8Action::ReadGridPhase { n_grid_ps }
                        && n_grid_ps == n)
                },
                _ => false,
            },
            Stage8State::ReadingGridPhase { counts, n_grid_ps } => match event {
                Stage8Event::GridPhaseRead(Err(e)) => r.0 == Stage8State::Done && (r.1 matches Stage8Action::Finish(
                    Err(x),
                ) && x@ == stage8_error("uw_grid.ph is invalid: "@ + e@)),
                Stage8Event::GridPhaseRead(Ok(shape)) => if shape.0 == n_grid_ps || shape.1 == n_grid_ps {
                    r.0 == (Stage8State::ReadingEdges { counts, n_grid_ps, transpose_phase: shape.0 != n_grid_ps })
                        && r.1 is ReadEdges
                } else {
                    r.0 == Stage8State::Done && (r.1 matches Stage8Action::Finish(Err(x)) && x@ == stage8_error(
                        phase_shape_message(shape.0, shape.1, n_grid_ps),
                    ))
                },
                _ => false,
            },
            Stage8State::ReadingEdges { counts, n_grid_ps, transpose_phase } => match event {
                Stage8Event::EdgesRead(Err(e)) => r.0 == Stage8State::Done && (r.1 matches Stage8Action::Finish(Err(x))
                    && x@ == stage8_error(unreadable_message("uw_interp.mat"@, e@))),
                Stage8Event::EdgesRead(Ok(Err(e))) => r.0 == Stage8State::Done && (r.1 matches Stage8Action::Finish(
                    Err(x),
                ) && x@ == stage8_error(invalid_table_message("edgs"@, e@))),
                Stage8Event::EdgesRead(Ok(Ok(t))) => if t.cols != 3 {
                    r.0 == Stage8State::Done && (r.1 matches Stage8Action::Finish(Err(x)) && x@ == stage8_error(
                        table_shape_message("edgs"@, t.rows, t.cols),
                    ))
                } else if all_node_pairs_valid(t.ends@, n_grid_ps) {
                    r.0 == (Stage8State::Writing { n_edges: t.ends@.len() as usize }) && (r.1 matches Stage8Action::ComputeAndWrite {
                        n_ps: a,
                        n_ifg: b,
                        master_ix: c,
                        n_grid_ps: g,
                        transpose_phase: tp,
                        edges,
                    } && a == counts.n_ps && b == counts.n_ifg && c == counts.master_ix && g == n_grid_ps && tp
                        == transpose_phase && edges@ == t.ends@.map_values(|p: (i64, i64)| zero_based(p)))
                } else {
                    r.0 == Stage8State::Done && (r.1 matches Stage8Action::Finish(Err(x)) && exists|i: int|
                        first_bad_node_pair(t.ends@, n_grid_ps, i) && x@ == stage8_error(
                            table_edge_message("edgs"@, i, t.ends@[i], n_grid_ps),
                        ))
                },
                _ => false,
            },
            Stage8State::Writing { n_edges } => match event {
                Stage8Event::Written(Err(e)) => r.0 == Stage8State::Done && (r.1 matches Stage8Action::Finish(Err(x))
                    && x@ == e@),
                Stage8Event::Written(Ok(())) => r.0 == Stage8State::Done && (r.1 matches Stage8Action::Finish(Ok(m))
                    && m@ == finished_message(n_edges)),
                _ => false,
            },
            Stage8State::Done => false,
        },
{
    match state {
        Stage8State::Start => (Stage8State::ReadingPs2, Stage8Action::ReadPs2),
        Stage8State::ReadingPs2 => match event {
            Stage8Event::Ps2Read(Err(e)) => fail(unreadable("ps2.mat", &e)),
            Stage8Event::Ps2Read(Ok(c)) => (Stage8State::CheckingInputs { counts: c }, Stage8Action::CheckInputs),
            _ => (Stage8State::Done, Stage8Action::ReadPs2),
        },
        Stage8State::CheckingInputs { counts } => match event {
            Stage8Event::InputsChecked { phuw2, scla2, uw_grid, uw_interp, flags } => {
                proof {
                    reveal_strlit("phuw2.mat");
                    reveal_strlit("scla2.mat");
                    reveal_strlit("uw_grid.mat");
                    reveal_strlit("uw_interp.mat");
                }
                if let Err(e) = ensure_exists("phuw2.mat", "stage-6 unwrap output", phuw2) {
                    return stop(e);
                }
                if let Err(e) = ensure_exists("scla2.mat", "stage-7 SCLA output", scla2) {
                    return stop(e);
                }
                if let Err(e) = ensure_exists("uw_grid.mat", "stage-6 grid output", uw_grid) {
                    return stop(e);
                }
                if let Err(e) = ensure_exists("uw_interp.mat", "stage-6 interpolation output", uw_interp) {
                    return stop(e);
                }
                if let Err(e) = validate_supported_stage8_mode(
                    flags.small_baseline_flag.as_str(),
                    flags.unwrap_method.as_str(),
                    flags.unwrap_la_error_flag.as_str(),
                    flags.unwrap_spatial_cost_func_flag.as_str(),
                ) {
                    return stop(e);
                }
                match check_counts(counts) {
                    Some(m) => fail(m),
                    None => (Stage8State::ReadingGrid { counts }, Stage8Action::ReadGrid),
                }
            },
            _ => (Stage8State::Done, Stage8Action::ReadPs2),
        },
        Stage8State::ReadingGrid { counts } => match event {
            Stage8Event::GridRead(Err(e)) => fail(unreadable("uw_grid.mat", &e)),
            Stage8Event::GridRead(Ok(n)) => {
                if n == 0 {
                    fail(String::from_str("uw_grid.mat missing valid n_ps"))
                } else {
                    (Stage8State::ReadingGridPhase { counts, n_grid_ps: n }, Stage8Action::ReadGridPhase { n_grid_ps: n })
                }
            },
            _ => (Stage8State::Done, Stage8Action::ReadPs2),
        },
        Stage8State::ReadingGridPhase { counts, n_grid_ps } => match event {
            Stage8Event::GridPhaseRead(Err(e)) => {
                let mut m = String::from_str("uw_grid.ph is invalid: ");
                m.append(e.as_str());
                fail(m)
            },
            Stage8Event::GridPhaseRead(Ok((rows, cols))) => {
                if rows == n_grid_ps || cols == n_grid_ps {
                    (
                        Stage8State::ReadingEdges { counts, n_grid_ps, transpose_phase: rows != n_grid_ps },
                        Stage8Action::ReadEdges,
                    )
                } else {
                    let mut m = String::from_str("uw_grid.ph has incompatible shape ");
                    m.append(usize_text(rows).as_str());
                    m.append("x");
                    m.append(usize_text(cols).as_str());
                    m.append(" for n_ps=");
                    m.append(usize_text(n_grid_ps).as_str());
                    fail(m)
                }
            },
            _ => (Stage8State::Done, Stage8Action::ReadPs2),
        },
        Stage8State::ReadingEdges { counts, n_grid_ps, transpose_phase } => match event {
            Stage8Event::EdgesRead(Err(e)) => fail(unreadable("uw_interp.mat", &e)),
            Stage8Event::EdgesRead(Ok(source)) => {
                proof {
                    reveal_strlit("edgs");
                }
                match edge_table("edgs", source, n_grid_ps) {
                    Err(e) => stop(e),
                    Ok(edges) => {
                        let n_edges = edges.len();
                        (
                            Stage8State::Writing { n_edges },
                            Stage8Action::ComputeAndWrite {
                                n_ps: counts.n_ps,
                                n_ifg: counts.n_ifg,
                                master_ix: counts.master_ix,
                                n_grid_ps,
                                transpose_phase,
                                edges,
                            },
                        )
                    },
                }
            },
            _ => (Stage8State::Done, Stage8Action::ReadPs2),
        },
        Stage8State::Writing { n_edges } => match event {
            Stage8Event::Written(Err(e)) => stop(e),
            Stage8Event::Written(Ok(())) => {
                let mut m = String::from_str("Stage 8 produced mean velocity and space-time noise model for ");
                m.append(usize_text(n_edges).as_str());
                m.append(" arcs");
                (Stage8State::Done, Stage8Action::Finish(Ok(m)))
            },
            _ => (Stage8State::Done, Stage8Action::ReadPs2),
        },
        Stage8State::Done => (Stage8State::Done, Stage8Action::ReadPs2),
    }
}

} // verus!
