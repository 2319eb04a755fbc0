//! The decisions of the stage 7 runner (spatially correlated look-angle
//! error): the checks of its inputs, which interferograms enter the
//! estimate, and the step function that the runner's loop drives.

use vstd::prelude::*;
use crate::core_error::{CoreError, CoreErrorView};
use crate::stage_checks::{eq_ignore_ascii_case, text_eq_ignore_ascii_case};
use crate::text::{decimal, usize_text};

verus! {

/// The columns `c` of `0..n` whose 1-based number is in neither drop list,
/// leaving out column `skip` (no column when `skip` is negative).
pub open spec fn chosen_columns(n: int, skip: int, first: Seq<i64>, second: Seq<i64>) -> Seq<usize>
    decreases n,
{
    if n <= 0 {
        Seq::empty()
    } else if first.contains(n as i64) || second.contains(n as i64) || n - 1 == skip {
        chosen_columns(n - 1, skip, first, second)
    } else {
        chosen_columns(n - 1, skip, first, second).push((n - 1) as usize)
    }
}

fn listed(values: &Vec<i64>, v: i64) -> (r: bool)
    ensures
        r == values@.contains(v),
{
    let mut k: usize = 0;
    while k < values.len()
        invariant
            k <= values@.len(),
            forall|j: int| 0 <= j < k ==> values@[j] != v,
        decreases values@.len() - k,
    {
        if values[k] == v {
            return true;
        }
        k = k + 1;
    }
    false
}

/// The columns of `n` interferograms that are in neither drop list, leaving
/// out the column `skip` when there is one.
pub fn choose_columns(n: usize, skip: Option<usize>, first: &Vec<i64>, second: &Vec<i64>) -> (r: Vec<usize>)
    ensures
        r@ == chosen_columns(
            n as int,
            match skip {
                Some(s) => s as int,
                None => -1,
            },
            first@,
            second@,
        ),
{
    let ghost skip_ix: int = match skip {
        Some(s) => s as int,
        None => -1,
    };
    let mut r: Vec<usize> = Vec::new();
    let mut col: usize = 0;
    while col < n
        invariant
            col <= n,
            skip_ix == (match skip {
                Some(s) => s as int,
                None => -1,
            }),
            r@ == chosen_columns(col as int, skip_ix, first@, second@),
        decreases n - col,
    {
        let number = (col + 1) as i64;
        let skipped = match skip {
            Some(s) => col == s,
            None => false,
        };
        if !listed(first, number) && !listed(second, number) && !skipped {
            r.push(col);
        }
        col = col + 1;
    }
    r
}

/// What stage 7 reads from `ps2.mat` and `parms.mat`: the rounded counts
/// (`n_ps` 0 and `master_ix` 1 when absent) and the flags and drop lists.
#[derive(Clone, Debug)]
pub struct Stage7Scalars {
    pub n_ps: usize,
    pub master_ix: usize,
    pub small_baseline_flag: String,
    pub scla_deramp: String,
    pub drop_ifg_index: Vec<i64>,
    pub scla_drop_index: Vec<i64>,
}

/// Where the stage 7 runner stands.
pub enum Stage7State {
    Start,
    ReadingPs2,
    CheckingUnwrapOutput,
    ReadingInputs,
    ReadingPhase { scalars: Stage7Scalars },
    Preparing { scalars: Stage7Scalars, n_ifg: usize },
    Estimating { n_ps: usize },
    Done,
}

/// What a piece of outside work gave.
pub enum Stage7Event {
    Begin,
    /// `ps2.mat` was read, or could not be read.
    Ps2Read(Result<(), String>),
    /// Whether the unwrapped phase of stage 6 exists.
    UnwrapOutputExists(bool),
    /// `phuw2.mat` and `ifgstd2.mat` were read and `parms.mat` loaded, or the
    /// named file could not be read.
    InputsRead(Result<Stage7Scalars, (String, String)>),
    /// The shape of `phuw2.ph_uw`, or why it could not be had.
    PhaseRead(Result<(usize, usize), String>),
    /// The dates, the interferogram noise, the baselines, the deramped phase
    /// and the reference points are ready, or preparing them failed.
    Prepared(Result<(), CoreError>),
    /// The estimate was computed and written, or that failed.
    Written(Result<(), CoreError>),
}

/// The next piece of outside work, or the end of the run.
pub enum Stage7Action {
    ReadPs2,
    CheckUnwrapOutput,
    ReadInputs,
    ReadPhase { n_ps: usize },
    Prepare { n_ps: usize, n_ifg: usize, master_ix: usize, transpose_phase: bool, small_baseline: bool, deramp: bool },
    Estimate { unwrap_ifg: Vec<usize>, solve_ifg: Vec<usize> },
    Finish(Result<String, CoreError>),
}

/// Whether an event answers the work that the state asked for.
pub open spec fn stage7_event_fits(state: Stage7State, event: Stage7Event) -> bool {
    match state {
        Stage7State::Start => event is Begin,
        Stage7State::ReadingPs2 => event is Ps2Read,
        Stage7State::CheckingUnwrapOutput => event is UnwrapOutputExists,
        Stage7State::ReadingInputs => event is InputsRead,
        Stage7State::ReadingPhase { .. } => event is PhaseRead,
        Stage7State::Preparing { .. } => event is Prepared,
        Stage7State::Estimating { .. } => event is Written,
        Stage7State::Done => false,
    }
}

/// An error of stage 7 with the given message.
pub open spec fn stage7_error(message: Seq<char>) -> CoreErrorView {
    CoreErrorView::NativeStage { stage: 7, message }
}

/// The number of interferograms once `phuw2.ph_uw` has its points as rows.
pub open spec fn unwrapped_columns(shape: (usize, usize), n_ps: usize) -> usize {
    if shape.0 == n_ps {
        shape.1
    } else {
        shape.0
    }
}

/// The first problem found once the unwrapped phase has been read, if any.
pub open spec fn stage7_phase_problem(s: Stage7Scalars, shape: (usize, usize)) -> Option<Seq<char>> {
    let n_ifg = unwrapped_columns(shape, s.n_ps);
    if shape.0 != s.n_ps && shape.1 != s.n_ps {
        Some("phuw2.ph_uw has incompatible shape "@ + decimal(shape.0 as nat) + "x"@ + decimal(shape.1 as nat)
            + " for n_ps="@ + decimal(s.n_ps as nat))
    } else if n_ifg == 0 {
        Some("phuw2.ph_uw must contain at least one interferogram"@)
    } else if s.master_ix == 0 || s.master_ix > n_ifg {
        Some("ps2.master_ix must be 1-based within phuw2.ph_uw columns; got "@ + decimal(s.master_ix as nat))
    } else {
        None
    }
}

/// The interferograms that are unwrapped: those in neither drop list.
pub open spec fn stage7_unwrap_ifg(s: Stage7Scalars, n_ifg: usize) -> Seq<usize> {
    chosen_columns(n_ifg as int, -1, s.drop_ifg_index@, s.scla_drop_index@)
}

/// The interferograms the estimate solves for: the unwrapped ones, without
/// the master for a single-master dataset.
pub open spec fn stage7_solve_ifg(s: Stage7Scalars, n_ifg: usize) -> Seq<usize> {
    if eq_ignore_ascii_case(s.small_baseline_flag@, "y"@) {
        stage7_unwrap_ifg(s, n_ifg)
    } else {
        chosen_columns(n_ifg as int, s.master_ix - 1, s.drop_ifg_index@, s.scla_drop_index@)
    }
}

/// The columns `chosen_columns` keeps: in increasing order, below `n`, and
/// exactly those that are not `skip` and whose 1-based number is in neither
/// list.
proof fn lemma_chosen_columns(n: int, skip: int, first: Seq<i64>, second: Seq<i64>)
    requires
        n <= i64::MAX,
        n <= usize::MAX,
    ensures
        forall|k: int| 0 <= k < chosen_columns(n, skip, first, second).len() ==> #[trigger] chosen_columns(n, skip, first, second)[k] < n,
        forall|a: int, b: int|
            0 <= a < b < chosen_columns(n, skip, first, second).len() ==> #[trigger] chosen_columns(n, skip, first, second)[a]
                < #[trigger] chosen_columns(n, skip, first, second)[b],
        forall|c: usize|
            (c as int) < n ==> (#[trigger] chosen_columns(n, skip, first, second).contains(c) <==> (c != skip && !first.contains(
                (c + 1) as i64,
            ) && !second.contains((c + 1) as i64))),
    decreases n,
{
    if n > 0 {
        lemma_chosen_columns(n - 1, skip, first, second);
        let prev = chosen_columns(n - 1, skip, first, second);
        let cur = chosen_columns(n, skip, first, second);
        if first.contains(n as i64) || second.contains(n as i64) || n - 1 == skip {
            assert(cur == prev);
            assert forall|c: usize| (c as int) < n implies (#[trigger] cur.contains(c) <==> (c != skip && !first.contains(
                (c + 1) as i64,
            ) && !second.contains((c + 1) as i64))) by {
                if c as int == n - 1 {
                    assert(!prev.contains(c)) by {
                        if prev.contains(c) {
                            let k = choose|k: int| 0 <= k < prev.len() && prev[k] == c;
                            assert(prev[k] < n - 1);
                        }
                    }
                    assert((c + 1) as i64 == n as i64);
                }
            }
        } else {
            let x = (n - 1) as usize;
            assert(x as int == n - 1);
            assert(cur == prev.push(x));
            assert forall|a: int, b: int| 0 <= a < b < cur.len() implies #[trigger] cur[a] < #[trigger] cur[b] by {
                if b == cur.len() - 1 {
                    assert(cur[a] == prev[a]);
                } else {
                    assert(cur[a] == prev[a] && cur[b] == prev[b]);
                }
            }
            assert forall|k: int| 0 <= k < cur.len() implies #[trigger] cur[k] < n by {
                if k < prev.len() {
                    assert(cur[k] == prev[k]);
                }
            }
            assert forall|c: usize| (c as int) < n implies (#[trigger] cur.contains(c) <==> (c != skip && !first.contains(
                (c + 1) as i64,
            ) && !second.contains((c + 1) as i64))) by {
                if c as int == n - 1 {
                    assert(cur[cur.len() - 1] == c);
                    assert((c + 1) as i64 == n as i64);
                } else {
                    if cur.contains(c) {
                        let k = choose|k: int| 0 <= k < cur.len() && cur[k] == c;
                        assert(k < prev.len());
                        assert(prev[k] == c);
                    }
                    if prev.contains(c) {
                        let k = choose|k: int| 0 <= k < prev.len() && prev[k] == c;
                        assert(cur[k] == c);
                    }
                }
            }
        }
    }
}

/// The interferograms that stage 7 unwraps are, in increasing order, the
/// columns `0..n_ifg` whose 1-based number is in neither drop list.
pub proof fn law_stage7_unwraps_undropped(s: Stage7Scalars, n_ifg: usize)
    requires
        n_ifg <= i64::MAX,
    ensures
        forall|k: int| 0 <= k < stage7_unwrap_ifg(s, n_ifg).len() ==> #[trigger] stage7_unwrap_ifg(s, n_ifg)[k] < n_ifg,
        forall|a: int, b: int|
            0 <= a < b < stage7_unwrap_ifg(s, n_ifg).len() ==> #[trigger] stage7_unwrap_ifg(s, n_ifg)[a]
                < #[trigger] stage7_unwrap_ifg(s, n_ifg)[b],
        forall|c: usize|
            c < n_ifg ==> (#[trigger] stage7_unwrap_ifg(s, n_ifg).contains(c) <==> (!s.drop_ifg_index@.contains((c + 1) as i64)
                && !s.scla_drop_index@.contains((c + 1) as i64))),
{
    lemma_chosen_columns(n_ifg as int, -1, s.drop_ifg_index@, s.scla_drop_index@);
}

/// In small-baseline mode (`small_baseline_flag` "y" in any case) stage 7
/// solves for exactly the interferograms it unwraps, whatever the master.
pub proof fn law_stage7_small_baseline_solves_all_unwrapped(s: Stage7Scalars, n_ifg: usize)
    requires
        eq_ignore_ascii_case(s.small_baseline_flag@, "y"@),
    ensures
        stage7_solve_ifg(s, n_ifg) == stage7_unwrap_ifg(s, n_ifg),
{
}

/// In single-master mode stage 7 solves, in increasing order, for the
/// unwrapped interferograms other than the master's (column
/// `master_ix - 1`).
pub proof fn law_stage7_single_master_solves_without_master(s: Stage7Scalars, n_ifg: usize)
    requires
        !eq_ignore_ascii_case(s.small_baseline_flag@, "y"@),
        n_ifg <= i64::MAX,
    ensures
        forall|a: int, b: int|
            0 <= a < b < stage7_solve_ifg(s, n_ifg).len() ==> #[trigger] stage7_solve_ifg(s, n_ifg)[a]
                < #[trigger] stage7_solve_ifg(s, n_ifg)[b],
        forall|k: int| 0 <= k < stage7_solve_ifg(s, n_ifg).len() ==> #[trigger] stage7_solve_ifg(s, n_ifg)[k] < n_ifg,
        forall|c: usize|
            c < n_ifg ==> (#[trigger] stage7_solve_ifg(s, n_ifg).contains(c) <==> (stage7_unwrap_ifg(s, n_ifg).contains(c) && c
                + 1 != s.master_ix)),
{
    lemma_chosen_columns(n_ifg as int, -1, s.drop_ifg_index@, s.scla_drop_index@);
    lemma_chosen_columns(n_ifg as int, s.master_ix - 1, s.drop_ifg_index@, s.scla_drop_index@);
}

/// The message when too few interferograms are left to estimate from.
pub open spec fn too_few_message(small_baseline: bool) -> Seq<char> {
    if small_baseline {
        "stage7 native SCLA requires at least two interferograms after drops"@
    } else {
        "stage7 native SCLA requires at least two non-master interferograms"@
    }
}

fn fail7(message: String) -> (r: (Stage7State, Stage7Action))
    ensures
        r.0 is Done,
        r.1 matches Stage7Action::Finish(Err(x)) && x@ == stage7_error(message@),
{
    (Stage7State::Done, Stage7Action::Finish(Err(CoreError::NativeStage { stage: 7, message })))
}

/// Takes one step of the stage 7 runner: from where it stands and what the
/// last piece of outside work gave, to where it stands next and what to do
/// next.  The checks come in the order of the runner: `ps2.mat`, the output of
/// stage 6, the other inputs, the point count, the unwrapped phase, the master
/// interferogram, the prepared inputs, and the interferograms left to solve.
pub fn run_stage7_native(state: Stage7State, event: Stage7Event) -> (r: (Stage7State, Stage7Action))
    requires
        stage7_event_fits(state, event),
    ensures
        match state {
            Stage7State::Start => r.0 is ReadingPs2 && r.1 is ReadPs2,
            Stage7State::ReadingPs2 => match event {
                Stage7Event::Ps2Read(Err(e)) => r.0 is Done && (r.1 matches Stage7Action::Finish(Err(x)) && x@
                    == stage7_error("unable to read ps2.mat: "@ + e@)),
                Stage7Event::Ps2Read(Ok(())) => r.0 is CheckingUnwrapOutput && r.1 is CheckUnwrapOutput,
                _ => false,
            },
            Stage7State::CheckingUnwrapOutput => match event {
                Stage7Event::UnwrapOutputExists(false) => r.0 is Done && (r.1 matches Stage7Action::Finish(Err(x)) && x@
                    == stage7_error("Missing required artifact: phuw2.mat (stage-6 unwrap output) before stage 7"@)),
                Stage7Event::UnwrapOutputExists(true) => r.0 is ReadingInputs && r.1 is ReadInputs,
                _ => false,
            },
            Stage7State::ReadingInputs => match event {
                Stage7Event::InputsRead(Err(e)) => r.0 is Done && (r.1 matches Stage7Action::Finish(Err(x)) && x@
                    == stage7_error("unable to read "@ + e.0@ + ": "@ + e.1@)),
                Stage7Event::InputsRead(Ok(s)) => if s.n_ps == 0 {
                    r.0 is Done && (r.1 matches Stage7Action::Finish(Err(x)) && x@ == stage7_error(
                        "ps2.mat missing valid n_ps"@,
                    ))
                } else {
                    (r.0 matches Stage7State::ReadingPhase { scalars } && scalars == s) && (r.1 matches Stage7Action::ReadPhase { n_ps }
                        && n_ps == s.n_ps)
                },
                _ => false,
            },
            Stage7State::ReadingPhase { scalars } => match event {
                Stage7Event::PhaseRead(Err(e)) => r.0 is Done && (r.1 matches Stage7Action::Finish(Err(x)) && x@
                    == stage7_error("phuw2.ph_uw is invalid: "@ + e@)),
                Stage7Event::PhaseRead(Ok(shape)) => match stage7_phase_problem(scalars, shape) {
                    Some(m) => r.0 is Done && (r.1 matches Stage7Action::Finish(Err(x)) && x@ == stage7_error(m)),
                    None => (r.0 matches Stage7State::Preparing { scalars: s, n_ifg } && s == scalars && n_ifg
                        == unwrapped_columns(shape, scalars.n_ps)) && (r.1 matches Stage7Action::Prepare {
                        n_ps,
                        n_ifg,
                        master_ix,
                        transpose_phase,
                        small_baseline,
                        deramp,
                    } && n_ps == scalars.n_ps && n_ifg == unwrapped_columns(shape, scalars.n_ps) && master_ix
                        == scalars.master_ix && transpose_phase == (shape.0 != scalars.n_ps) && small_baseline
                        == eq_ignore_ascii_case(scalars.small_baseline_flag@, "y"@) && deramp == eq_ignore_ascii_case(
                        scalars.scla_deramp@,
                        "y"@,
                    )),
                },
                _ => false,
            },
            Stage7State::Preparing { scalars, n_ifg } => match event {
                Stage7Event::Prepared(Err(e)) => r.0 is Done && (r.1 matches Stage7Action::Finish(Err(x)) && x@ == e@),
                Stage7Event::Prepared(Ok(())) => if stage7_solve_ifg(scalars, n_ifg).len() < 2 {
                    r.0 is Done && (r.1 matches Stage7Action::Finish(Err(x)) && x@ == stage7_error(
                        too_few_message(eq_ignore_ascii_case(scalars.small_baseline_flag@, "y"@)),
                    ))
                } else {
                    (r.0 == Stage7State::Estimating { n_ps: scalars.n_ps }) && (r.1 matches Stage7Action::Estimate {
                        unwrap_ifg,
                        solve_ifg,
                    } && unwrap_ifg@ == stage7_unwrap_ifg(scalars, n_ifg) && solve_ifg@ == stage7_solve_ifg(
                        scalars,
                        n_ifg,
                    ))
                },
                _ => false,
            },
            Stage7State::Estimating { n_ps } => match event {
                Stage7Event::Written(Err(e)) => r.0 is Done && (r.1 matches Stage7Action::Finish(Err(x)) && x@ == e@),
                Stage7Event::Written(Ok(())) => r.0 is Done && (r.1 matches Stage7Action::Finish(Ok(m)) && m@
                    == "Stage 7 estimated SCLA for "@ + decimal(n_ps as nat) + " PS"@),
                _ => false,
            },
            Stage7State::Done => false,
        },
{
    match state {
        Stage7State::Start => (Stage7State::ReadingPs2, Stage7Action::ReadPs2),
        Stage7State::ReadingPs2 => match event {
            Stage7Event::Ps2Read(Err(e)) => {
                let mut m = String::from_str("unable to read ps2.mat: ");
                m.append(e.as_str());
                fail7(m)
            },
            Stage7Event::Ps2Read(Ok(())) => (Stage7State::CheckingUnwrapOutput, Stage7Action::CheckUnwrapOutput),
            _ => (Stage7State::Done, Stage7Action::ReadPs2),
        },
        Stage7State::CheckingUnwrapOutput => match event {
            Stage7Event::UnwrapOutputExists(exists) => {
                if exists {
                    (Stage7State::ReadingInputs, Stage7Action::ReadInputs)
                } else {
                    fail7(String::from_str("Missing required artifact: phuw2.mat (stage-6 unwrap output) before stage 7"))
                }
            },
            _ => (Stage7State::Done, Stage7Action::ReadPs2),
        },
        Stage7State::ReadingInputs => match event {
            Stage7Event::InputsRead(Err((file, err))) => {
                let mut m = String::from_str("unable to read ");
                m.append(file.as_str());
                m.append(": ");
                m.append(err.as_str());
                fail7(m)
            },
            Stage7Event::InputsRead(Ok(s)) => {
                if s.n_ps == 0 {
                    fail7(String::from_str("ps2.mat missing valid n_ps"))
                } else {
                    let n_ps = s.n_ps;
                    (Stage7State::ReadingPhase { scalars: s }, Stage7Action::ReadPhase { n_ps })
                }
            },
            _ => (Stage7State::Done, Stage7Action::ReadPs2),
        },
        Stage7State::ReadingPhase { scalars } => match event {
            Stage7Event::PhaseRead(Err(e)) => {
                let mut m = String::from_str("phuw2.ph_uw is invalid: ");
                m.append(e.as_str());
                fail7(m)
            },
            Stage7Event::PhaseRead(Ok((rows, cols))) => {
                let n_ps = scalars.n_ps;
                if rows != n_ps && cols != n_ps {
                    let mut m = String::from_str("phuw2.ph_uw has incompatible shape ");
                    m.append(usize_text(rows).as_str());
                    m.append("x");
                    m.append(usize_text(cols).as_str());
                    m.append(" for n_ps=");
                    m.append(usize_text(n_ps).as_str());
                    return fail7(m);
                }
                let n_ifg = if rows == n_ps { cols } else { rows };
                if n_ifg == 0 {
                    return fail7(String::from_str("phuw2.ph_uw must contain at least one interferogram"));
                }
                let master_ix = scalars.master_ix;
                if master_ix == 0 || master_ix > n_ifg {
                    let mut m = String::from_str("ps2.master_ix must be 1-based within phuw2.ph_uw columns; got ");
                    m.append(usize_text(master_ix).as_str());
                    return fail7(m);
                }
                let small_baseline = text_eq_ignore_ascii_case(scalars.small_baseline_flag.as_str(), "y");
                let deramp = text_eq_ignore_ascii_case(scalars.scla_deramp.as_str(), "y");
                (
                    Stage7State::Preparing { scalars, n_ifg },
                    Stage7Action::Prepare { n_ps, n_ifg, master_ix, transpose_phase: rows != n_ps, small_baseline, deramp },
                )
            },
            _ => (Stage7State::Done, Stage7Action::ReadPs2),
        },
        Stage7State::Preparing { scalars, n_ifg } => match event {
            Stage7Event::Prepared(Err(e)) => (Stage7State::Done, Stage7Action::Finish(Err(e))),
            Stage7Event::Prepared(Ok(())) => {
                let small_baseline = text_eq_ignore_ascii_case(scalars.small_baseline_flag.as_str(), "y");
                let unwrap_ifg = choose_columns(n_ifg, None, &scalars.drop_ifg_index, &scalars.scla_drop_index);
                let solve_ifg = if small_baseline {
                    choose_columns(n_ifg, None, &scalars.drop_ifg_index, &scalars.scla_drop_index)
                } else if scalars.master_ix >= 1 {
                    choose_columns(n_ifg, Some(scalars.master_ix - 1), &scalars.drop_ifg_index, &scalars.scla_drop_index)
                } else {
                    choose_columns(n_ifg, None, &scalars.drop_ifg_index, &scalars.scla_drop_index)
                };
                if solve_ifg.len() < 2 {
                    if small_baseline {
                        return fail7(String::from_str("stage7 native SCLA requires at least two interferograms after drops"));
                    }
                    return fail7(String::from_str("stage7 native SCLA requires at least two non-master interferograms"));
                }
                (Stage7State::Estimating { n_ps: scalars.n_ps }, Stage7Action::Estimate { unwrap_ifg, solve_ifg })
            },
            _ => (Stage7State::Done, Stage7Action::ReadPs2),
        },
        Stage7State::Estimating { n_ps } => match event {
            Stage7Event::Written(Err(e)) => (Stage7State::Done, Stage7Action::Finish(Err(e))),
            Stage7Event::Written(Ok(())) => {
                let mut m = String::from_str("Stage 7 estimated SCLA for ");
                m.append(usize_text(n_ps).as_str());
                m.append(" PS");
                (Stage7State::Done, Stage7Action::Finish(Ok(m)))
            },
            _ => (Stage7State::Done, Stage7Action::ReadPs2),
        },
        Stage7State::Done => (Stage7State::Done, Stage7Action::ReadPs2),
    }
}

} // verus!
