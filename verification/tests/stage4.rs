use pystamps::core_error::CoreError;
use pystamps::stage4::{
    run_stage4_native, Stage4Action, Stage4Event, Stage4Inputs, Stage4Points, Stage4Selection, Stage4State,
};

fn stage4_message(action: Stage4Action) -> String {
    match action {
        Stage4Action::Finish(Err(CoreError::NativeStage { stage, message })) => {
            assert_eq!(stage, 4);
            message
        }
        _ => panic!("expected a stage 4 error"),
    }
}

fn inputs(n_ps: usize, neighbours: &str, elevation: &str, small: &str, noise: bool) -> Stage4Inputs {
    Stage4Inputs {
        n_ps,
        n_ifg: 4,
        master_ix: 2,
        drop_ifg_index: vec![2],
        small_baseline_flag: small.to_string(),
        weed_zero_elevation: elevation.to_string(),
        weed_neighbours: neighbours.to_string(),
        noise_weeding: noise,
    }
}

fn at_selection(i: Stage4Inputs) -> Stage4State {
    let (s, a) = run_stage4_native(Stage4State::Start, Stage4Event::Begin);
    assert!(matches!(a, Stage4Action::ReadInputs));
    let (s, a) = run_stage4_native(s, Stage4Event::InputsRead(Ok(i)));
    assert!(matches!(a, Stage4Action::ReadSelection));
    s
}

fn at_points(i: Stage4Inputs, ix: Vec<i64>) -> Stage4State {
    let s = at_selection(i);
    let (s, a) = run_stage4_native(s, Stage4Event::SelectionRead(Ok(Stage4Selection { ix, keep_ix: None })));
    assert!(matches!(a, Stage4Action::ReadPoints { .. }));
    s
}

fn bits(x: f64) -> u64 {
    x.to_bits()
}

/// Three points in cells far apart, at distinct positions.
fn spread_points() -> Stage4Points {
    Stage4Points {
        ij_cols23: vec![(10, 10), (20, 20), (30, 30)],
        xy_bits: vec![(bits(1.0), bits(1.0)), (bits(2.0), bits(2.0)), (bits(3.0), bits(3.0))],
        coh_bits: vec![bits(0.5), bits(0.6), bits(0.7)],
    }
}

fn written(action: Stage4Action) -> (Vec<i64>, Vec<bool>, Vec<bool>) {
    match action {
        Stage4Action::Write { ifg_index, ix_weed, ix_weed2 } => (ifg_index, ix_weed, ix_weed2),
        _ => panic!("expected the write"),
    }
}

fn finish_ok(s: Stage4State) -> String {
    let (s, a) = run_stage4_native(s, Stage4Event::Written(Ok(())));
    assert!(matches!(s, Stage4State::Done));
    match a {
        Stage4Action::Finish(Ok(m)) => m,
        _ => panic!("expected success"),
    }
}

#[test]
fn stage4_reports_unreadable_input() {
    let (s, _) = run_stage4_native(Stage4State::Start, Stage4Event::Begin);
    let (_, a) = run_stage4_native(s, Stage4Event::InputsRead(Err(("ph1.mat".to_string(), "truncated".to_string()))));
    assert_eq!(stage4_message(a), "unable to read ph1.mat: truncated");
}

#[test]
fn stage4_rejects_zero_point_count() {
    let (s, _) = run_stage4_native(Stage4State::Start, Stage4Event::Begin);
    let (_, a) = run_stage4_native(s, Stage4Event::InputsRead(Ok(inputs(0, "y", "n", "n", false))));
    assert_eq!(stage4_message(a), "ps1.mat missing valid n_ps");
}

#[test]
fn stage4_rejects_empty_selection() {
    let s = at_selection(inputs(3, "y", "n", "n", false));
    let (_, a) = run_stage4_native(s, Stage4Event::SelectionRead(Ok(Stage4Selection { ix: vec![], keep_ix: None })));
    assert_eq!(stage4_message(a), "select1.mat has empty ix");
}

#[test]
fn stage4_rejects_selected_index_beyond_points() {
    let s = at_selection(inputs(3, "y", "n", "n", false));
    let sel = Stage4Selection { ix: vec![1, 4], keep_ix: None };
    let (_, a) = run_stage4_native(s, Stage4Event::SelectionRead(Ok(sel)));
    assert_eq!(
        stage4_message(a),
        "select1.ix after keep_ix contains out-of-bounds 1-based index 4 at position 2 for n_ps=3"
    );
}

#[test]
fn stage4_with_nothing_selected_writes_empty_flags() {
    let s = at_selection(inputs(3, "y", "n", "n", true));
    let sel = Stage4Selection { ix: vec![1, 2], keep_ix: Some(vec![false, false]) };
    let (s, a) = run_stage4_native(s, Stage4Event::SelectionRead(Ok(sel)));
    let (ifg_index, ix_weed, ix_weed2) = written(a);
    assert_eq!(ifg_index, vec![1, 3, 4]);
    assert!(ix_weed.is_empty());
    assert!(ix_weed2.is_empty());
    assert_eq!(finish_ok(s), "Stage 4 retained 0/0 selected PS");
}

#[test]
fn stage4_reads_the_rows_of_kept_candidates() {
    let s = at_selection(inputs(5, "n", "n", "n", false));
    let sel = Stage4Selection { ix: vec![5, 2, 4], keep_ix: Some(vec![true, false, true]) };
    let (_, a) = run_stage4_native(s, Stage4Event::SelectionRead(Ok(sel)));
    match a {
        Stage4Action::ReadPoints { keep, rows } => {
            assert_eq!(keep, vec![true, false, true]);
            assert_eq!(rows, vec![4, 3]);
        }
        _ => panic!("expected the point read"),
    }
}

#[test]
fn stage4_without_weeding_keeps_every_point() {
    let s = at_points(inputs(3, "n", "n", "n", false), vec![2, 1, 3]);
    let (s, a) = run_stage4_native(s, Stage4Event::PointsRead(Ok(spread_points())));
    let (_, ix_weed, ix_weed2) = written(a);
    assert_eq!(ix_weed, vec![true, true, true]);
    assert_eq!(ix_weed2, vec![true, true, true]);
    assert_eq!(finish_ok(s), "Stage 4 retained 3/3 selected PS");
}

#[test]
fn stage4_neighbour_weeding_keeps_most_coherent_of_adjacent_points() {
    let s = at_points(inputs(3, "Y", "n", "n", false), vec![1, 2, 3]);
    let points = Stage4Points {
        ij_cols23: vec![(1, 1), (1, 2), (5, 5)],
        xy_bits: vec![(bits(1.0), bits(1.0)), (bits(2.0), bits(2.0)), (bits(3.0), bits(3.0))],
        coh_bits: vec![bits(0.2), bits(0.9), bits(0.5)],
    };
    let (s, a) = run_stage4_native(s, Stage4Event::PointsRead(Ok(points)));
    let (_, ix_weed, ix_weed2) = written(a);
    assert_eq!(ix_weed, vec![false, true, true]);
    assert_eq!(ix_weed2, vec![true, true]);
    assert_eq!(finish_ok(s), "Stage 4 retained 2/3 selected PS");
}

#[test]
fn stage4_duplicate_positions_keep_most_coherent_point() {
    let s = at_points(inputs(3, "n", "n", "n", false), vec![1, 2, 3]);
    let points = Stage4Points {
        ij_cols23: vec![(10, 10), (20, 20), (30, 30)],
        xy_bits: vec![(bits(1.0), bits(1.0)), (bits(2.0), bits(2.0)), (bits(1.0), bits(1.0))],
        coh_bits: vec![bits(0.7), bits(0.1), bits(0.3)],
    };
    let (_, a) = run_stage4_native(s, Stage4Event::PointsRead(Ok(points)));
    let (_, ix_weed, _) = written(a);
    assert_eq!(ix_weed, vec![true, true, false]);
}

#[test]
fn stage4_zero_elevation_weeding_drops_low_points() {
    let s = at_points(inputs(3, "n", "y", "n", false), vec![3, 1]);
    let points = Stage4Points {
        ij_cols23: vec![(10, 10), (20, 20)],
        xy_bits: vec![(bits(1.0), bits(1.0)), (bits(2.0), bits(2.0))],
        coh_bits: vec![bits(0.5), bits(0.6)],
    };
    let (s, a) = run_stage4_native(s, Stage4Event::PointsRead(Ok(points)));
    assert!(matches!(a, Stage4Action::ReadElevation));
    let (s, a) = run_stage4_native(s, Stage4Event::ElevationRead(Ok(Some(vec![true, false, false]))));
    let (_, ix_weed, _) = written(a);
    assert_eq!(ix_weed, vec![true, false]);
    assert_eq!(finish_ok(s), "Stage 4 retained 1/2 selected PS");
}

#[test]
fn stage4_zero_elevation_without_heights_keeps_points() {
    let s = at_points(inputs(3, "n", "y", "n", false), vec![3, 1]);
    let points = Stage4Points {
        ij_cols23: vec![(10, 10), (20, 20)],
        xy_bits: vec![(bits(1.0), bits(1.0)), (bits(2.0), bits(2.0))],
        coh_bits: vec![bits(0.5), bits(0.6)],
    };
    let (s, _) = run_stage4_native(s, Stage4Event::PointsRead(Ok(points)));
    let (_, a) = run_stage4_native(s, Stage4Event::ElevationRead(Ok(None)));
    let (_, ix_weed, _) = written(a);
    assert_eq!(ix_weed, vec![true, true]);
}

fn at_noise(small: &str) -> Stage4State {
    let s = at_points(inputs(3, "n", "n", small, true), vec![1, 2, 3]);
    let points = Stage4Points {
        ij_cols23: vec![(10, 10), (20, 20), (30, 30)],
        xy_bits: vec![(bits(1.0), bits(1.0)), (bits(2.0), bits(2.0)), (bits(1.0), bits(1.0))],
        coh_bits: vec![bits(0.7), bits(0.1), bits(0.3)],
    };
    let (s, a) = run_stage4_native(s, Stage4Event::PointsRead(Ok(points)));
    assert!(matches!(a, Stage4Action::ReadNoiseInputs));
    s
}

#[test]
fn stage4_rejects_baselines_that_do_not_match_interferograms() {
    let s = at_noise("n");
    let (_, a) = run_stage4_native(s, Stage4Event::NoiseInputsRead(Ok((4, 3))));
    assert_eq!(stage4_message(a), "ps1.bperp has length 3 but ph1.ph has 4 interferograms");
}

#[test]
fn stage4_noise_verdicts_replace_flags_of_kept_points() {
    let s = at_noise("n");
    let (s, a) = run_stage4_native(s, Stage4Event::NoiseInputsRead(Ok((4, 4))));
    match a {
        Stage4Action::BuildGraph { kept } => assert_eq!(kept, vec![0, 1]),
        _ => panic!("expected the triangulation"),
    }
    let (s, a) = run_stage4_native(s, Stage4Event::GraphBuilt(vec![(0, 1)]));
    assert!(matches!(a, Stage4Action::ReadDays));
    let (s, a) = run_stage4_native(s, Stage4Event::DaysRead(Ok(4)));
    match a {
        Stage4Action::EstimateNoise { kept, columns, edges, small_baseline, master_ix } => {
            assert_eq!(kept, vec![0, 1]);
            assert_eq!(columns, Some(vec![0, 2, 3]));
            assert_eq!(edges, vec![(0, 1)]);
            assert!(!small_baseline);
            assert_eq!(master_ix, 2);
        }
        _ => panic!("expected the noise estimate"),
    }
    let (s, a) = run_stage4_native(s, Stage4Event::NoiseEstimated(Ok(vec![false, true])));
    let (ifg_index, ix_weed, ix_weed2) = written(a);
    assert_eq!(ifg_index, vec![1, 3, 4]);
    assert_eq!(ix_weed, vec![false, true, false]);
    assert_eq!(ix_weed2, vec![false, true]);
    assert_eq!(finish_ok(s), "Stage 4 retained 1/3 selected PS");
}

#[test]
fn stage4_rejects_invalid_triangulation() {
    let s = at_noise("n");
    let (s, _) = run_stage4_native(s, Stage4Event::NoiseInputsRead(Ok((4, 4))));
    let (_, a) = run_stage4_native(s, Stage4Event::GraphBuilt(vec![(0, 1), (1, 2)]));
    assert_eq!(stage4_message(a), "invalid Stage 4 edge topology at edge 2: (1, 2) for n_nodes=2");
}

#[test]
fn stage4_rejects_master_outside_interferograms() {
    let s = at_points(
        Stage4Inputs { master_ix: 5, ..inputs(3, "n", "n", "n", true) },
        vec![1, 2, 3],
    );
    let (s, _) = run_stage4_native(s, Stage4Event::PointsRead(Ok(spread_points())));
    let (s, _) = run_stage4_native(s, Stage4Event::NoiseInputsRead(Ok((4, 4))));
    let (_, a) = run_stage4_native(s, Stage4Event::GraphBuilt(vec![(0, 1), (1, 2)]));
    assert_eq!(stage4_message(a), "ps1.master_ix must be 1-based within ph1 width 4; got 5");
}

#[test]
fn stage4_rejects_dates_that_do_not_match_interferograms() {
    let s = at_noise("n");
    let (s, _) = run_stage4_native(s, Stage4Event::NoiseInputsRead(Ok((4, 4))));
    let (s, _) = run_stage4_native(s, Stage4Event::GraphBuilt(vec![(0, 1)]));
    let (_, a) = run_stage4_native(s, Stage4Event::DaysRead(Ok(3)));
    assert_eq!(stage4_message(a), "ps1.day has length 3 but ph1.ph has 4 interferograms");
}

#[test]
fn stage4_small_baselines_skip_dates() {
    let s = at_noise("y");
    let (s, _) = run_stage4_native(s, Stage4Event::NoiseInputsRead(Ok((4, 4))));
    let (_, a) = run_stage4_native(s, Stage4Event::GraphBuilt(vec![(0, 1)]));
    match a {
        Stage4Action::EstimateNoise { columns, small_baseline, .. } => {
            assert_eq!(columns, Some(vec![0, 2, 3]));
            assert!(small_baseline);
        }
        _ => panic!("expected the noise estimate"),
    }
}

#[test]
fn stage4_without_edges_estimates_no_columns() {
    let s = at_noise("n");
    let (s, _) = run_stage4_native(s, Stage4Event::NoiseInputsRead(Ok((4, 4))));
    let (s, a) = run_stage4_native(s, Stage4Event::GraphBuilt(vec![]));
    match a {
        Stage4Action::EstimateNoise { columns, edges, .. } => {
            assert_eq!(columns, None);
            assert!(edges.is_empty());
        }
        _ => panic!("expected the noise estimate"),
    }
    let (_, a) = run_stage4_native(s, Stage4Event::NoiseEstimated(Ok(vec![false, false])));
    let (_, ix_weed, _) = written(a);
    assert_eq!(ix_weed, vec![false, false, false]);
}

#[test]
fn stage4_weeding_never_restores_a_dropped_point() {
    let s = at_points(inputs(3, "y", "n", "n", true), vec![1, 2, 3]);
    let points = Stage4Points {
        ij_cols23: vec![(1, 1), (1, 2), (5, 5)],
        xy_bits: vec![(bits(1.0), bits(1.0)), (bits(2.0), bits(2.0)), (bits(3.0), bits(3.0))],
        coh_bits: vec![bits(0.2), bits(0.9), bits(0.5)],
    };
    let (s, a) = run_stage4_native(s, Stage4Event::PointsRead(Ok(points)));
    assert!(matches!(a, Stage4Action::ReadNoiseInputs));
    let (s, a) = run_stage4_native(s, Stage4Event::NoiseInputsRead(Ok((4, 4))));
    match a {
        Stage4Action::BuildGraph { kept } => assert_eq!(kept, vec![1, 2]),
        _ => panic!("expected the triangulation"),
    }
    let (s, _) = run_stage4_native(s, Stage4Event::GraphBuilt(vec![(0, 1)]));
    let (s, _) = run_stage4_native(s, Stage4Event::DaysRead(Ok(4)));
    let (s, a) = run_stage4_native(s, Stage4Event::NoiseEstimated(Ok(vec![true, true])));
    let (_, ix_weed, ix_weed2) = written(a);
    assert_eq!(ix_weed, vec![false, true, true]);
    assert_eq!(ix_weed2, vec![true, true]);
    assert_eq!(finish_ok(s), "Stage 4 retained 2/3 selected PS");
}
