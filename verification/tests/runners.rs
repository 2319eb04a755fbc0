use pystamps::core_error::CoreError;
use pystamps::graph::NodeColumns;
use pystamps::stage6::{run_stage6_native, select_unwrap_columns, Stage6Action, Stage6Event, Stage6Grid, Stage6Scalars, Stage6State};
use pystamps::stage7::{choose_columns, run_stage7_native, Stage7Action, Stage7Event, Stage7Scalars, Stage7State};
use pystamps::stage8::{run_stage8_native, Ps2Counts, Stage8Action, Stage8Event, Stage8Flags, Stage8State};

fn finish_error<T>(action: T, get: impl Fn(T) -> Option<Result<String, CoreError>>) -> String {
    match get(action) {
        Some(Err(CoreError::NativeStage { message, .. })) => message,
        _ => panic!("expected a stage error"),
    }
}

fn flags(small: &str, method: &str, la: &str, scf: &str) -> Stage8Flags {
    Stage8Flags {
        small_baseline_flag: small.to_string(),
        unwrap_method: method.to_string(),
        unwrap_la_error_flag: la.to_string(),
        unwrap_spatial_cost_func_flag: scf.to_string(),
    }
}

fn stage8_finish(a: Stage8Action) -> Option<Result<String, CoreError>> {
    match a {
        Stage8Action::Finish(r) => Some(r),
        _ => None,
    }
}

fn inputs_ok(f: Stage8Flags) -> Stage8Event {
    Stage8Event::InputsChecked { phuw2: true, scla2: true, uw_grid: true, uw_interp: true, flags: f }
}

#[test]
fn stage8_runs_through_to_its_report() {
    let (s, a) = run_stage8_native(Stage8State::Start, Stage8Event::Begin);
    assert!(matches!(a, Stage8Action::ReadPs2));
    let counts = Ps2Counts { n_ps: 4, n_ifg: 3, master_ix: 2 };
    let (s, a) = run_stage8_native(s, Stage8Event::Ps2Read(Ok(counts)));
    assert!(matches!(a, Stage8Action::CheckInputs));
    let (s, a) = run_stage8_native(s, inputs_ok(flags("n", "3D", "y", "n")));
    assert!(matches!(a, Stage8Action::ReadGrid));
    let (s, a) = run_stage8_native(s, Stage8Event::GridRead(Ok(3)));
    assert!(matches!(a, Stage8Action::ReadGridPhase { n_grid_ps: 3 }));
    let (s, a) = run_stage8_native(s, Stage8Event::GridPhaseRead(Ok((2, 3))));
    assert!(matches!(a, Stage8Action::ReadEdges));
    let table = NodeColumns { rows: 2, cols: 3, ends: vec![(1, 2), (3, 2)] };
    let (s, a) = run_stage8_native(s, Stage8Event::EdgesRead(Ok(Ok(table))));
    match a {
        Stage8Action::ComputeAndWrite { n_ps, n_ifg, master_ix, n_grid_ps, transpose_phase, edges } => {
            assert_eq!((n_ps, n_ifg, master_ix, n_grid_ps, transpose_phase), (4, 3, 2, 3, true));
            assert_eq!(edges, vec![(0, 1), (2, 1)]);
        }
        _ => panic!("expected the computation"),
    }
    let (s, a) = run_stage8_native(s, Stage8Event::Written(Ok(())));
    assert!(matches!(s, Stage8State::Done));
    assert_eq!(stage8_finish(a).unwrap().unwrap(), "Stage 8 produced mean velocity and space-time noise model for 2 arcs");
}

#[test]
fn stage8_reports_its_input_errors_in_order() {
    let start = Stage8State::CheckingInputs { counts: Ps2Counts { n_ps: 4, n_ifg: 3, master_ix: 2 } };
    let missing = Stage8Event::InputsChecked { phuw2: true, scla2: false, uw_grid: false, uw_interp: true, flags: flags("y", "x", "n", "y") };
    assert_eq!(
        finish_error(run_stage8_native(start, missing).1, stage8_finish),
        "Missing required artifact: scla2.mat (stage-7 SCLA output) before stage 8"
    );
    assert!(finish_error(run_stage8_native(start, inputs_ok(flags("y", "3D", "y", "n"))).1, stage8_finish)
        .starts_with("Stage 8 native path currently supports only single-master"));
    let bad_master = Stage8State::CheckingInputs { counts: Ps2Counts { n_ps: 4, n_ifg: 3, master_ix: 5 } };
    assert_eq!(
        finish_error(run_stage8_native(bad_master, inputs_ok(flags("n", "3D", "y", "n"))).1, stage8_finish),
        "ps2.master_ix must be 1-based within n_ifg=3; got 5"
    );
    let no_ps = Stage8State::CheckingInputs { counts: Ps2Counts { n_ps: 0, n_ifg: 0, master_ix: 1 } };
    assert_eq!(finish_error(run_stage8_native(no_ps, inputs_ok(flags("n", "3D", "y", "n"))).1, stage8_finish), "ps2.mat missing valid n_ps");
    assert_eq!(
        finish_error(run_stage8_native(Stage8State::ReadingPs2, Stage8Event::Ps2Read(Err("boom".to_string()))).1, stage8_finish),
        "unable to read ps2.mat: boom"
    );
    let grid = Stage8State::ReadingGridPhase { counts: Ps2Counts { n_ps: 4, n_ifg: 3, master_ix: 2 }, n_grid_ps: 3 };
    assert_eq!(
        finish_error(run_stage8_native(grid, Stage8Event::GridPhaseRead(Ok((2, 2)))).1, stage8_finish),
        "uw_grid.ph has incompatible shape 2x2 for n_ps=3"
    );
}

fn stage6_finish(a: Stage6Action) -> Option<Result<String, CoreError>> {
    match a {
        Stage6Action::Finish(r) => Some(r),
        _ => None,
    }
}

fn scalars6(n_ps: usize, master_ix: usize, small: &str, drop: Vec<i64>) -> Stage6Scalars {
    Stage6Scalars { n_ps, master_ix, small_baseline_flag: small.to_string(), drop_ifg_index: drop }
}

#[test]
fn stage6_unwraps_the_non_master_interferograms_left() {
    assert_eq!(select_unwrap_columns(5, 2, &vec![4]), vec![0, 2, 4]);
    assert_eq!(select_unwrap_columns(2, 1, &vec![2]), Vec::<usize>::new());
    let (s, a) = run_stage6_native(Stage6State::Start, Stage6Event::Begin);
    assert!(matches!(a, Stage6Action::ReadInputs));
    let (s, a) = run_stage6_native(s, Stage6Event::InputsRead(Ok(scalars6(4, 1, "n", vec![]))));
    assert!(matches!(a, Stage6Action::ReadPhase { n_ps: 4 }));
    let (s, a) = run_stage6_native(s, Stage6Event::PhaseRead(Ok((3, 4))));
    match a {
        Stage6Action::PrepareGrid { n_ps, n_ifg, master_ix, transpose_phase, unwrap_cols } => {
            assert_eq!((n_ps, n_ifg, master_ix, transpose_phase), (4, 3, 1, true));
            assert_eq!(unwrap_cols, vec![1, 2]);
        }
        _ => panic!("expected grid preparation"),
    }
    let grid = Stage6Grid { n_grid_ps: 3, edgs: NodeColumns { rows: 2, cols: 3, ends: vec![(1, 2), (2, 3)] } };
    let (s, a) = run_stage6_native(s, Stage6Event::GridReady(Ok(grid)));
    assert!(matches!(a, Stage6Action::Unwrap));
    let (_, a) = run_stage6_native(s, Stage6Event::Written(Ok(())));
    assert_eq!(
        stage6_finish(a).unwrap().unwrap(),
        "Stage 6 natively unwrapped 4 PS across 3 interferograms using Rust graph unwrap"
    );
}

#[test]
fn stage6_rejects_what_it_cannot_unwrap() {
    let reading = |s: Stage6Scalars| Stage6State::ReadingPhase { scalars: s };
    assert_eq!(
        finish_error(run_stage6_native(reading(scalars6(4, 1, "Y", vec![])), Stage6Event::PhaseRead(Ok((4, 3)))).1, stage6_finish),
        "Stage 6 native unwrap currently supports single-master merged artifacts"
    );
    assert_eq!(
        finish_error(run_stage6_native(reading(scalars6(4, 1, "n", vec![2])), Stage6Event::PhaseRead(Ok((4, 2)))).1, stage6_finish),
        "No interferograms available for stage-6 unwrapping"
    );
    assert_eq!(
        finish_error(run_stage6_native(reading(scalars6(4, 3, "n", vec![])), Stage6Event::PhaseRead(Ok((4, 2)))).1, stage6_finish),
        "ps2.master_ix must be 1-based within ph2.ph columns; got 3"
    );
    let grid = Stage6Grid { n_grid_ps: 3, edgs: NodeColumns { rows: 1, cols: 3, ends: vec![(1, 2)] } };
    assert_eq!(
        finish_error(run_stage6_native(Stage6State::PreparingGrid { n_ps: 4, n_ifg: 3 }, Stage6Event::GridReady(Ok(grid))).1, stage6_finish),
        "disconnected unwrap graph: not all grid points are reachable"
    );
    assert_eq!(
        finish_error(
            run_stage6_native(Stage6State::ReadingInputs, Stage6Event::InputsRead(Err(("pm2.mat".to_string(), "gone".to_string())))).1,
            stage6_finish
        ),
        "unable to read pm2.mat: gone"
    );
}

fn stage7_finish(a: Stage7Action) -> Option<Result<String, CoreError>> {
    match a {
        Stage7Action::Finish(r) => Some(r),
        _ => None,
    }
}

fn scalars7(master_ix: usize, small: &str, drop: Vec<i64>, scla_drop: Vec<i64>) -> Stage7Scalars {
    Stage7Scalars {
        n_ps: 5,
        master_ix,
        small_baseline_flag: small.to_string(),
        scla_deramp: "y".to_string(),
        drop_ifg_index: drop,
        scla_drop_index: scla_drop,
    }
}

#[test]
fn stage7_solves_for_the_interferograms_left() {
    assert_eq!(choose_columns(5, Some(1), &vec![3], &vec![5]), vec![0, 3]);
    assert_eq!(choose_columns(3, None, &vec![], &vec![2]), vec![0, 2]);
    let (s, _) = run_stage7_native(Stage7State::Start, Stage7Event::Begin);
    let (s, _) = run_stage7_native(s, Stage7Event::Ps2Read(Ok(())));
    let (s, a) = run_stage7_native(s, Stage7Event::UnwrapOutputExists(true));
    assert!(matches!(a, Stage7Action::ReadInputs));
    let (s, _) = run_stage7_native(s, Stage7Event::InputsRead(Ok(scalars7(2, "n", vec![4], vec![]))));
    let (s, a) = run_stage7_native(s, Stage7Event::PhaseRead(Ok((5, 4))));
    match a {
        Stage7Action::Prepare { n_ps, n_ifg, master_ix, transpose_phase, small_baseline, deramp } => {
            assert_eq!((n_ps, n_ifg, master_ix, transpose_phase, small_baseline, deramp), (5, 4, 2, false, false, true));
        }
        _ => panic!("expected preparation"),
    }
    let (s, a) = run_stage7_native(s, Stage7Event::Prepared(Ok(())));
    match a {
        Stage7Action::Estimate { unwrap_ifg, solve_ifg } => {
            assert_eq!(unwrap_ifg, vec![0, 1, 2]);
            assert_eq!(solve_ifg, vec![0, 2]);
        }
        _ => panic!("expected the estimate"),
    }
    let (_, a) = run_stage7_native(s, Stage7Event::Written(Ok(())));
    assert_eq!(stage7_finish(a).unwrap().unwrap(), "Stage 7 estimated SCLA for 5 PS");
}

#[test]
fn missing_phuw2_returns_structured_stage7_error() {
    let (_, a) = run_stage7_native(Stage7State::CheckingUnwrapOutput, Stage7Event::UnwrapOutputExists(false));
    match stage7_finish(a) {
        Some(Err(CoreError::NativeStage { stage, message })) => {
            assert_eq!(stage, 7);
            assert!(message.contains("phuw2.mat"));
        }
        _ => panic!("expected structured Stage 7 error"),
    }
}

#[test]
fn stage7_needs_two_interferograms_to_solve_for() {
    let preparing = |s: Stage7Scalars| Stage7State::Preparing { scalars: s, n_ifg: 3 };
    assert_eq!(
        finish_error(run_stage7_native(preparing(scalars7(2, "n", vec![3], vec![])), Stage7Event::Prepared(Ok(()))).1, stage7_finish),
        "stage7 native SCLA requires at least two non-master interferograms"
    );
    assert_eq!(
        finish_error(run_stage7_native(preparing(scalars7(2, "y", vec![1], vec![2])), Stage7Event::Prepared(Ok(()))).1, stage7_finish),
        "stage7 native SCLA requires at least two interferograms after drops"
    );
}
