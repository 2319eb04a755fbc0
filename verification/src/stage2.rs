//! The decisions of the stage 2 runner (phase-noise estimation): the checks
//! of its inputs, the interferograms it works on, and the control of its
//! iterations, in a step function that the runner's loop drives.  The
//! filtering and the topographic fit are floating point and are the caller's.

use vstd::prelude::*;
use crate::core_error::{CoreError, CoreErrorView};
use crate::stage_checks::{eq_ignore_ascii_case, text_eq_ignore_ascii_case};
use crate::text::{decimal, usize_text};

verus! {

/// The interferograms (0-based columns of `ph1.ph`) that stage 2 works on:
/// all of them with small baselines, else all but the master's.
pub open spec fn working_columns(n_ifg: usize, master_ix: usize, small_baseline: bool) -> Seq<usize> {
    Seq::new(n_ifg as nat, |k: int| k as usize).filter(|c: usize| small_baseline || c + 1 != master_ix)
}

/// The interferogram columns that stage 2 works on.
fn columns_without_master(n_ifg: usize, master_ix: usize, small_baseline: bool) -> (r: Vec<usize>)
    ensures
        r@ == working_columns(n_ifg, master_ix, small_baseline),
{
    let ghost all = Seq::new(n_ifg as nat, |k: int| k as usize);
    let ghost keep = |c: usize| small_baseline || c + 1 != master_ix;
    let mut out: Vec<usize> = Vec::new();
    let mut k: usize = 0;
    while k < n_ifg
        invariant
            k <= n_ifg,
            all == Seq::new(n_ifg as nat, |j: int| j as usize),
            keep == (|c: usize| small_baseline || c + 1 != master_ix),
            out@ == all.take(k as int).filter(keep),
        decreases n_ifg - k,
    {
        proof {
            assert(all.take(k + 1) =~= all.take(k as int).push(k));
            all.take(k as int).lemma_filter_push(k, keep);
        }
        if small_baseline || k + 1 != master_ix {
            out.push(k);
        }
        k = k + 1;
    }
    proof {
        assert(all.take(n_ifg as int) =~= all);
    }
    out
}

/// What stage 2 reads first: from `parms.mat` (or its defaults) the baseline
/// mode and the iteration limit, and from `ps1.mat` the point count and the
/// master index (rounded).
pub struct Stage2Inputs {
    pub n_ps: usize,
    pub master_ix: usize,
    pub small_baseline_flag: String,
    pub gamma_max_iterations: usize,
}

/// Where the stage 2 runner stands.
pub enum Stage2State {
    Start,
    ReadingInputs,
    ReadingPhase { n_ps: usize, master_ix: usize, small_baseline: bool, max_iterations: usize },
    ReadingBaselines { n_ps: usize, master_ix: usize, small_baseline: bool, max_iterations: usize, n_ifg: usize },
    Preparing { n_ps: usize, max_iterations: usize },
    Iterating { n_ps: usize, max_iterations: usize, i_loop: usize },
    Writing { n_ps: usize, i_loop: usize },
    Done,
}

/// What a piece of outside work gave.
pub enum Stage2Event {
    Begin,
    /// The inputs (`ps1.mat`, `ph1.mat` and the parameters) were read, or
    /// the named file could not be read.
    InputsRead(Result<Stage2Inputs, (String, String)>),
    /// The number of interferograms of `ph1.ph`, or the read error.
    PhaseRead(Result<usize, CoreError>),
    /// The length of `ps1.bperp`, or the read error.
    BaselinesRead(Result<usize, CoreError>),
    /// The rest of the preparation (baselines per point, amplitude
    /// dispersion, grid) was done, or failed.
    Prepared(Result<(), CoreError>),
    /// An iteration was done: whether the change of the coherence
    /// converged, or the error of the iteration.
    Iterated(Result<bool, CoreError>),
    Written(Result<(), CoreError>),
}

/// The next piece of outside work, or the end of the run.
pub enum Stage2Action {
    ReadInputs,
    ReadPhase { n_ps: usize },
    ReadBaselines,
    /// Prepare the estimate over the given interferogram columns, with or
    /// without small baselines.
    Prepare { columns: Vec<usize>, small_baseline: bool },
    /// Run iteration `i_loop`, after reweighting from the last one when
    /// `reweight` is set.
    Iterate { i_loop: usize, reweight: bool },
    /// Write `pm1.mat` after `i_loop` iterations.
    Write { i_loop: usize },
    Finish(Result<String, CoreError>),
}

/// The number of iterations that stage 2 runs at most.
pub open spec fn iteration_cap(max_iterations: usize) -> nat {
    if max_iterations < 1 {
        1
    } else {
        max_iterations as nat
    }
}

/// What the states hold together: the iteration count stays within the cap.
pub open spec fn stage2_state_wf(state: Stage2State) -> bool {
    match state {
        Stage2State::Iterating { max_iterations, i_loop, .. } => 1 <= i_loop <= iteration_cap(max_iterations),
        _ => true,
    }
}

/// Whether an event answers the work that the state asked for.
pub open spec fn stage2_event_fits(state: Stage2State, event: Stage2Event) -> bool {
    match state {
        Stage2State::Start => event is Begin,
        Stage2State::ReadingInputs => event is InputsRead,
        Stage2State::ReadingPhase { .. } => event is PhaseRead,
        Stage2State::ReadingBaselines { .. } => event is BaselinesRead,
        Stage2State::Preparing { .. } => event is Prepared,
        Stage2State::Iterating { .. } => event is Iterated,
        Stage2State::Writing { .. } => event is Written,
        Stage2State::Done => false,
    }
}

/// An error of stage 2 with the given message.
pub open spec fn stage2_error(message: Seq<char>) -> CoreErrorView {
    CoreErrorView::NativeStage { stage: 2, message }
}

/// The run ended with the given error.
pub open spec fn stage2_failed(r: (Stage2State, Stage2Action), e: CoreErrorView) -> bool {
    r.0 is Done && (r.1 matches Stage2Action::Finish(Err(x)) && x@ == e)
}

fn fail2(message: String) -> (r: (Stage2State, Stage2Action))
    ensures
        stage2_failed(r, stage2_error(message@)),
{
    (Stage2State::Done, Stage2Action::Finish(Err(CoreError::NativeStage { stage: 2, message })))
}

fn pass_on(e: CoreError) -> (r: (Stage2State, Stage2Action))
    ensures
        stage2_failed(r, e@),
{
    (Stage2State::Done, Stage2Action::Finish(Err(e)))
}

/// Takes one step of the stage 2 runner on a patch: from where it stands and
/// what the last piece of outside work gave, to where it stands next and what
/// to do next.  The checks come in the order of the runner: the inputs and
/// the point count, the master index against the interferograms, the
/// baselines; then the iterations run until the coherence change converges
/// or the iteration limit (at least one) is reached.
pub fn run_stage2_native(state: Stage2State, event: Stage2Event) -> (r: (Stage2State, Stage2Action))
    requires
        stage2_state_wf(state),
        stage2_event_fits(state, event),
    ensures
        stage2_state_wf(r.0),
        match state {
            Stage2State::Start => r.0 is ReadingInputs && r.1 is ReadInputs,
            Stage2State::ReadingInputs => match event {
                Stage2Event::InputsRead(Err(e)) => stage2_failed(
                    r,
                    stage2_error("unable to read "@ + e.0@ + ": "@ + e.1@),
                ),
                Stage2Event::InputsRead(Ok(i)) => if i.n_ps == 0 {
                    stage2_failed(r, stage2_error("ps1.mat missing valid n_ps"@))
                } else {
                    (r.0 == Stage2State::ReadingPhase {
                        n_ps: i.n_ps,
                        master_ix: i.master_ix,
                        small_baseline: eq_ignore_ascii_case(i.small_baseline_flag@, "y"@),
                        max_iterations: i.gamma_max_iterations,
                    }) && (r.1 == Stage2Action::ReadPhase { n_ps: i.n_ps })
                },
                _ => false,
            },
            Stage2State::ReadingPhase { n_ps, master_ix, small_baseline, max_iterations } => match event {
                Stage2Event::PhaseRead(Err(e)) => stage2_failed(r, e@),
                Stage2Event::PhaseRead(Ok(n_ifg)) => if master_ix == 0 || master_ix > n_ifg {
                    stage2_failed(
                        r,
                        stage2_error(
                            "ps1.master_ix must be 1-based within ph1 width "@ + decimal(n_ifg as nat) + "; got "@
                                + decimal(master_ix as nat),
                        ),
                    )
                } else {
                    (r.0 == Stage2State::ReadingBaselines { n_ps, master_ix, small_baseline, max_iterations, n_ifg })
                        && r.1 is ReadBaselines
                },
                _ => false,
            },
            Stage2State::ReadingBaselines { n_ps, master_ix, small_baseline, max_iterations, n_ifg } => match event {
                Stage2Event::BaselinesRead(Err(e)) => stage2_failed(r, e@),
                Stage2Event::BaselinesRead(Ok(n_bperp)) => if n_bperp != n_ifg {
                    stage2_failed(
                        r,
                        stage2_error(
                            "ps1.bperp has length "@ + decimal(n_bperp as nat) + " but ph1.ph has "@ + decimal(
                                n_ifg as nat,
                            ) + " interferograms"@,
                        ),
                    )
                } else {
                    (r.0 == Stage2State::Preparing { n_ps, max_iterations }) && (r.1 matches Stage2Action::Prepare {
                        columns,
                        small_baseline: sb,
                    } && columns@ == working_columns(n_ifg, master_ix, small_baseline) && sb == small_baseline)
                },
                _ => false,
            },
            Stage2State::Preparing { n_ps, max_iterations } => match event {
                Stage2Event::Prepared(Err(e)) => stage2_failed(r, e@),
                Stage2Event::Prepared(Ok(())) => (r.0 == Stage2State::Iterating { n_ps, max_iterations, i_loop: 1 })
                    && (r.1 == Stage2Action::Iterate { i_loop: 1, reweight: false }),
                _ => false,
            },
            Stage2State::Iterating { n_ps, max_iterations, i_loop } => match event {
                Stage2Event::Iterated(Err(e)) => stage2_failed(r, e@),
                Stage2Event::Iterated(Ok(converged)) => if converged || i_loop >= iteration_cap(max_iterations) {
                    (r.0 == Stage2State::Writing { n_ps, i_loop }) && (r.1 == Stage2Action::Write { i_loop })
                } else {
                    (r.0 == Stage2State::Iterating { n_ps, max_iterations, i_loop: (i_loop + 1) as usize }) && (r.1
                        == Stage2Action::Iterate { i_loop: (i_loop + 1) as usize, reweight: true })
                },
                _ => false,
            },
            Stage2State::Writing { n_ps, i_loop } => match event {
                Stage2Event::Written(Err(e)) => stage2_failed(r, e@),
                Stage2Event::Written(Ok(())) => r.0 is Done && (r.1 matches Stage2Action::Finish(Ok(m)) && m@
                    == "Stage 2 computed coherence for "@ + decimal(n_ps as nat) + " candidates in "@ + decimal(
                    i_loop as nat,
                ) + " iterations"@),
                _ => false,
            },
            Stage2State::Done => false,
        },
{
    match state {
        Stage2State::Start => (Stage2State::ReadingInputs, Stage2Action::ReadInputs),
        Stage2State::ReadingInputs => match event {
            Stage2Event::InputsRead(Err((file, err))) => {
                let mut m = String::from_str("unable to read ");
                m.append(file.as_str());
                m.append(": ");
                m.append(err.as_str());
                fail2(m)
            },
            Stage2Event::InputsRead(Ok(i)) => {
                if i.n_ps == 0 {
                    return fail2(String::from_str("ps1.mat missing valid n_ps"));
                }
                let small_baseline = text_eq_ignore_ascii_case(i.small_baseline_flag.as_str(), "y");
                (
                    Stage2State::ReadingPhase {
                        n_ps: i.n_ps,
                        master_ix: i.master_ix,
                        small_baseline,
                        max_iterations: i.gamma_max_iterations,
                    },
                    Stage2Action::ReadPhase { n_ps: i.n_ps },
                )
            },
            _ => (Stage2State::Done, Stage2Action::ReadInputs),
        },
        Stage2State::ReadingPhase { n_ps, master_ix, small_baseline, max_iterations } => match event {
            Stage2Event::PhaseRead(Err(e)) => pass_on(e),
            Stage2Event::PhaseRead(Ok(n_ifg)) => {
                if master_ix == 0 || master_ix > n_ifg {
                    let mut m = String::from_str("ps1.master_ix must be 1-based within ph1 width ");
                    m.append(usize_text(n_ifg).as_str());
                    m.append("; got ");
                    m.append(usize_text(master_ix).as_str());
                    fail2(m)
                } else {
                    (
                        Stage2State::ReadingBaselines { n_ps, master_ix, small_baseline, max_iterations, n_ifg },
                        Stage2Action::ReadBaselines,
                    )
                }
            },
            _ => (Stage2State::Done, Stage2Action::ReadInputs),
        },
        Stage2State::ReadingBaselines { n_ps, master_ix, small_baseline, max_iterations, n_ifg } => match event {
            Stage2Event::BaselinesRead(Err(e)) => pass_on(e),
            Stage2Event::BaselinesRead(Ok(n_bperp)) => {
                if n_bperp != n_ifg {
                    let mut m = String::from_str("ps1.bperp has length ");
                    m.append(usize_text(n_bperp).as_str());
                    m.append(" but ph1.ph has ");
                    m.append(usize_text(n_ifg).as_str());
                    m.append(" interferograms");
                    fail2(m)
                } else {
                    let columns = columns_without_master(n_ifg, master_ix, small_baseline);
                    (Stage2State::Preparing { n_ps, max_iterations }, Stage2Action::Prepare { columns, small_baseline })
                }
            },
            _ => (Stage2State::Done, Stage2Action::ReadInputs),
        },
        Stage2State::Preparing { n_ps, max_iterations } => match event {
            Stage2Event::Prepared(Err(e)) => pass_on(e),
            Stage2Event::Prepared(Ok(())) => (
                Stage2State::Iterating { n_ps, max_iterations, i_loop: 1 },
                Stage2Action::Iterate { i_loop: 1, reweight: false },
            ),
            _ => (Stage2State::Done, Stage2Action::ReadInputs),
        },
        Stage2State::Iterating { n_ps, max_iterations, i_loop } => match event {
            Stage2Event::Iterated(Err(e)) => pass_on(e),
            Stage2Event::Iterated(Ok(converged)) => {
                let cap = if max_iterations < 1 {
                    1
                } else {
                    max_iterations
                };
                if converged || i_loop >= cap {
                    (Stage2State::Writing { n_ps, i_loop }, Stage2Action::Write { i_loop })
                } else {
                    let next = i_loop + 1;
                    (
                        Stage2State::Iterating { n_ps, max_iterations, i_loop: next },
                        Stage2Action::Iterate { i_loop: next, reweight: true },
                    )
                }
            },
            _ => (Stage2State::Done, Stage2Action::ReadInputs),
        },
        Stage2State::Writing { n_ps, i_loop } => match event {
            Stage2Event::Written(Err(e)) => pass_on(e),
            Stage2Event::Written(Ok(())) => {
                let mut m = String::from_str("Stage 2 computed coherence for ");
                m.append(usize_text(n_ps).as_str());
                m.append(" candidates in ");
                m.append(usize_text(i_loop).as_str());
                m.append(" iterations");
                (Stage2State::Done, Stage2Action::Finish(Ok(m)))
            },
            _ => (Stage2State::Done, Stage2Action::ReadInputs),
        },
        Stage2State::Done => (Stage2State::Done, Stage2Action::ReadInputs),
    }
}

/// How the points' baselines in `bp1.bperp_mat` reach stage 2.
#[derive(Clone, Copy, Debug, PartialEq, Eq, Structural)]
pub enum BperpSource {
    /// As stored: one column per working interferogram.
    AsStored,
    /// Stored with one column per interferogram, the master's included: only
    /// the working columns are kept.
    WorkingColumns,
}

/// Which columns of `bp1.bperp_mat` stage 2 takes, or the message of a shape
/// that fits neither: it holds `rows` x `cols` values, the phase has `n_ps`
/// points, `n_ifg_full` interferograms and `n_ifg` working ones.
pub open spec fn spec_bperp_source(
    rows: usize,
    cols: usize,
    n_ps: usize,
    n_ifg_full: usize,
    n_ifg: usize,
    small_baseline: bool,
) -> Result<BperpSource, Seq<char>> {
    if cols == n_ifg {
        Ok(BperpSource::AsStored)
    } else if !small_baseline && cols == n_ifg_full {
        Ok(BperpSource::WorkingColumns)
    } else {
        Err(
            "bp1.bperp_mat has incompatible shape "@ + decimal(rows as nat) + "x"@ + decimal(cols as nat)
                + " for stage-2 ph shape "@ + decimal(n_ps as nat) + "x"@ + decimal(n_ifg as nat),
        )
    }
}

/// Decides which columns of `bp1.bperp_mat` stage 2 takes, as an error of
/// stage 2 when its shape fits neither the working interferograms nor, in
/// single-master mode, all of them.
pub fn bperp_source(
    rows: usize,
    cols: usize,
    n_ps: usize,
    n_ifg_full: usize,
    n_ifg: usize,
    small_baseline: bool,
) -> (r: Result<BperpSource, CoreError>)
    ensures
        match spec_bperp_source(rows, cols, n_ps, n_ifg_full, n_ifg, small_baseline) {
            Ok(b) => r == Ok::<BperpSource, CoreError>(b),
            Err(m) => r matches Err(e) && e@ == stage2_error(m),
        },
{
    if cols == n_ifg {
        Ok(BperpSource::AsStored)
    } else if !small_baseline && cols == n_ifg_full {
        Ok(BperpSource::WorkingColumns)
    } else {
        let mut m = String::from_str("bp1.bperp_mat has incompatible shape ");
        m.append(usize_text(rows).as_str());
        m.append("x");
        m.append(usize_text(cols).as_str());
        m.append(" for stage-2 ph shape ");
        m.append(usize_text(n_ps).as_str());
        m.append("x");
        m.append(usize_text(n_ifg).as_str());
        Err(CoreError::NativeStage { stage: 2, message: m })
    }
}

} // verus!
