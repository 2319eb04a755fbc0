use pystamps::core_error::CoreError;
use pystamps::stage2::{bperp_source, run_stage2_native, BperpSource, Stage2Action, Stage2Event, Stage2Inputs, Stage2State};

fn stage2_message(action: Stage2Action) -> String {
    match action {
        Stage2Action::Finish(Err(CoreError::NativeStage { stage, message })) => {
            assert_eq!(stage, 2);
            message
        }
        _ => panic!("expected a stage 2 error"),
    }
}

fn inputs(n_ps: usize, master_ix: usize, small: &str, max_iterations: usize) -> Stage2Inputs {
    Stage2Inputs { n_ps, master_ix, small_baseline_flag: small.to_string(), gamma_max_iterations: max_iterations }
}

fn at_phase(i: Stage2Inputs) -> Stage2State {
    let (s, a) = run_stage2_native(Stage2State::Start, Stage2Event::Begin);
    assert!(matches!(a, Stage2Action::ReadInputs));
    let n_ps = i.n_ps;
    let (s, a) = run_stage2_native(s, Stage2Event::InputsRead(Ok(i)));
    assert!(matches!(a, Stage2Action::ReadPhase { n_ps: n } if n == n_ps));
    s
}

fn prepared_columns(i: Stage2Inputs, n_ifg: usize) -> (Stage2State, Vec<usize>) {
    let s = at_phase(i);
    let (s, a) = run_stage2_native(s, Stage2Event::PhaseRead(Ok(n_ifg)));
    assert!(matches!(a, Stage2Action::ReadBaselines));
    let (s, a) = run_stage2_native(s, Stage2Event::BaselinesRead(Ok(n_ifg)));
    match a {
        Stage2Action::Prepare { columns, .. } => (s, columns),
        _ => panic!("expected the preparation"),
    }
}

#[test]
fn stage2_reports_unreadable_input() {
    let (s, _) = run_stage2_native(Stage2State::Start, Stage2Event::Begin);
    let (_, a) = run_stage2_native(s, Stage2Event::InputsRead(Err(("ph1.mat".to_string(), "bad header".to_string()))));
    assert_eq!(stage2_message(a), "unable to read ph1.mat: bad header");
}

#[test]
fn stage2_rejects_zero_point_count() {
    let (s, _) = run_stage2_native(Stage2State::Start, Stage2Event::Begin);
    let (_, a) = run_stage2_native(s, Stage2Event::InputsRead(Ok(inputs(0, 1, "n", 25))));
    assert_eq!(stage2_message(a), "ps1.mat missing valid n_ps");
}

#[test]
fn stage2_rejects_master_outside_interferograms() {
    let s = at_phase(inputs(3, 5, "n", 25));
    let (_, a) = run_stage2_native(s, Stage2Event::PhaseRead(Ok(4)));
    assert_eq!(stage2_message(a), "ps1.master_ix must be 1-based within ph1 width 4; got 5");
    let s = at_phase(inputs(3, 0, "n", 25));
    let (_, a) = run_stage2_native(s, Stage2Event::PhaseRead(Ok(4)));
    assert_eq!(stage2_message(a), "ps1.master_ix must be 1-based within ph1 width 4; got 0");
}

#[test]
fn stage2_rejects_baselines_of_other_length() {
    let s = at_phase(inputs(3, 2, "n", 25));
    let (s, _) = run_stage2_native(s, Stage2Event::PhaseRead(Ok(4)));
    let (_, a) = run_stage2_native(s, Stage2Event::BaselinesRead(Ok(3)));
    assert_eq!(stage2_message(a), "ps1.bperp has length 3 but ph1.ph has 4 interferograms");
}

#[test]
fn stage2_leaves_out_master_column_unless_small_baselines() {
    let (_, columns) = prepared_columns(inputs(3, 2, "n", 25), 4);
    assert_eq!(columns, vec![0, 2, 3]);
    let s = at_phase(inputs(3, 2, "Y", 25));
    let (s, _) = run_stage2_native(s, Stage2Event::PhaseRead(Ok(4)));
    let (_, a) = run_stage2_native(s, Stage2Event::BaselinesRead(Ok(4)));
    match a {
        Stage2Action::Prepare { columns, small_baseline } => {
            assert_eq!(columns, vec![0, 1, 2, 3]);
            assert!(small_baseline);
        }
        _ => panic!("expected the preparation"),
    }
    let (_, columns) = prepared_columns(inputs(3, 4, "n", 25), 4);
    assert_eq!(columns, vec![0, 1, 2]);
}

#[test]
fn stage2_iterates_up_to_its_limit() {
    let (s, _) = prepared_columns(inputs(3, 1, "n", 3), 2);
    let (s, a) = run_stage2_native(s, Stage2Event::Prepared(Ok(())));
    assert!(matches!(a, Stage2Action::Iterate { i_loop: 1, reweight: false }));
    let (s, a) = run_stage2_native(s, Stage2Event::Iterated(Ok(false)));
    assert!(matches!(a, Stage2Action::Iterate { i_loop: 2, reweight: true }));
    let (s, a) = run_stage2_native(s, Stage2Event::Iterated(Ok(false)));
    assert!(matches!(a, Stage2Action::Iterate { i_loop: 3, reweight: true }));
    let (s, a) = run_stage2_native(s, Stage2Event::Iterated(Ok(false)));
    assert!(matches!(a, Stage2Action::Write { i_loop: 3 }));
    let (s, a) = run_stage2_native(s, Stage2Event::Written(Ok(())));
    assert!(matches!(s, Stage2State::Done));
    match a {
        Stage2Action::Finish(Ok(m)) => assert_eq!(m, "Stage 2 computed coherence for 3 candidates in 3 iterations"),
        _ => panic!("expected success"),
    }
}

#[test]
fn stage2_stops_when_coherence_converges() {
    let (s, _) = prepared_columns(inputs(5, 1, "n", 25), 2);
    let (s, _) = run_stage2_native(s, Stage2Event::Prepared(Ok(())));
    let (s, a) = run_stage2_native(s, Stage2Event::Iterated(Ok(false)));
    assert!(matches!(a, Stage2Action::Iterate { i_loop: 2, reweight: true }));
    let (s, a) = run_stage2_native(s, Stage2Event::Iterated(Ok(true)));
    assert!(matches!(a, Stage2Action::Write { i_loop: 2 }));
    let (_, a) = run_stage2_native(s, Stage2Event::Written(Ok(())));
    match a {
        Stage2Action::Finish(Ok(m)) => assert_eq!(m, "Stage 2 computed coherence for 5 candidates in 2 iterations"),
        _ => panic!("expected success"),
    }
}

#[test]
fn stage2_runs_one_iteration_when_limit_is_zero() {
    let (s, _) = prepared_columns(inputs(2, 1, "n", 0), 2);
    let (s, _) = run_stage2_native(s, Stage2Event::Prepared(Ok(())));
    let (_, a) = run_stage2_native(s, Stage2Event::Iterated(Ok(false)));
    assert!(matches!(a, Stage2Action::Write { i_loop: 1 }));
}

#[test]
fn stage2_passes_on_iteration_errors() {
    let (s, _) = prepared_columns(inputs(2, 1, "n", 25), 2);
    let (s, _) = run_stage2_native(s, Stage2Event::Prepared(Ok(())));
    let err = CoreError::NativeStage {
        stage: 2,
        message: "bp1.bperp_mat is required for non-invariant stage-2 baselines".to_string(),
    };
    let (_, a) = run_stage2_native(s, Stage2Event::Iterated(Err(err)));
    assert_eq!(stage2_message(a), "bp1.bperp_mat is required for non-invariant stage-2 baselines");
}

#[test]
fn bperp_source_takes_working_or_all_columns() {
    assert!(matches!(bperp_source(3, 2, 3, 3, 2, false), Ok(BperpSource::AsStored)));
    assert!(matches!(bperp_source(3, 3, 3, 3, 2, false), Ok(BperpSource::WorkingColumns)));
    assert!(matches!(bperp_source(3, 3, 3, 3, 3, true), Ok(BperpSource::AsStored)));
}

#[test]
fn incompatible_bp1_shape_returns_stage2_error() {
    match bperp_source(3, 1, 3, 3, 2, false) {
        Err(e) => {
            let text = e.message();
            assert!(text.contains("stage 2 native implementation error"));
            assert!(text.contains("bp1.bperp_mat has incompatible shape"));
            assert!(matches!(e, CoreError::NativeStage { stage: 2, .. }));
        }
        Ok(_) => panic!("expected an error"),
    }
    match bperp_source(3, 4, 3, 4, 3, true) {
        Err(CoreError::NativeStage { message, .. }) => {
            assert_eq!(message, "bp1.bperp_mat has incompatible shape 3x4 for stage-2 ph shape 3x3")
        }
        _ => panic!("expected an error"),
    }
}
