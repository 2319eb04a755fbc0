use pystamps::core_error::CoreError;
use pystamps::calendar::order_acquisitions;
use pystamps::stage1::{optional_point_rows, point_order, run_stage1_native, stage1_layout, Stage1Action, Stage1Event, Stage1State};

fn stage1_message(action: Stage1Action) -> String {
    match action {
        Stage1Action::Finish(Err(CoreError::NativeStage { stage, message })) => {
            assert_eq!(stage, 1);
            message
        }
        _ => panic!("expected a stage 1 error"),
    }
}

fn all_present() -> Vec<(String, bool)> {
    vec![
        ("p/pscands.1.ij".to_string(), true),
        ("p/pscands.1.ph".to_string(), true),
        ("p/pscands.1.ll".to_string(), true),
    ]
}

fn checked() -> Stage1State {
    let (s, a) = run_stage1_native(Stage1State::Start, Stage1Event::Begin);
    assert!(matches!(a, Stage1Action::CheckInputs));
    let (s, a) = run_stage1_native(s, Stage1Event::InputsChecked { required: all_present(), metadata: Ok(()) });
    assert!(matches!(a, Stage1Action::ReadCandidates));
    s
}

fn with_dates(n_ps: usize, dates: Vec<i64>) -> Stage1State {
    let s = checked();
    let (s, a) = run_stage1_native(s, Stage1Event::CandidatesRead(Ok(n_ps)));
    assert!(matches!(a, Stage1Action::ReadDates));
    let n = dates.len();
    let (s, a) = run_stage1_native(s, Stage1Event::DatesRead(Ok((dates, n))));
    assert!(matches!(a, Stage1Action::ReadMasterDay));
    s
}

#[test]
fn stage1_reports_first_missing_required_input() {
    let (s, _) = run_stage1_native(Stage1State::Start, Stage1Event::Begin);
    let required = vec![
        ("p/pscands.1.ij".to_string(), true),
        ("p/pscands.1.ph".to_string(), false),
        ("p/pscands.1.ll".to_string(), false),
    ];
    let metadata = Err(CoreError::NativeStage { stage: 1, message: "width.txt not found near p".to_string() });
    let (s, a) = run_stage1_native(s, Stage1Event::InputsChecked { required, metadata });
    assert!(matches!(s, Stage1State::Done));
    assert_eq!(stage1_message(a), "missing required input p/pscands.1.ph");
}

#[test]
fn stage1_passes_on_metadata_lookup_error() {
    let (s, _) = run_stage1_native(Stage1State::Start, Stage1Event::Begin);
    let metadata = Err(CoreError::NativeStage { stage: 1, message: "width.txt not found near p".to_string() });
    let (_, a) = run_stage1_native(s, Stage1Event::InputsChecked { required: all_present(), metadata });
    assert_eq!(stage1_message(a), "width.txt not found near p");
}

#[test]
fn stage1_rejects_empty_candidate_table() {
    let s = checked();
    let (_, a) = run_stage1_native(s, Stage1Event::CandidatesRead(Ok(0)));
    assert_eq!(stage1_message(a), "pscands.1.ij is empty");
}

#[test]
fn stage1_rejects_dates_and_baselines_of_different_lengths() {
    let s = checked();
    let (s, _) = run_stage1_native(s, Stage1Event::CandidatesRead(Ok(4)));
    let (_, a) = run_stage1_native(s, Stage1Event::DatesRead(Ok((vec![20200101, 20200113, 20200125], 2))));
    assert_eq!(stage1_message(a), "day.1.in has 3 rows but bperp.1.in has 2 rows");
}

#[test]
fn stage1_rejects_empty_master_day() {
    let s = with_dates(4, vec![20200101]);
    let (_, a) = run_stage1_native(s, Stage1Event::MasterDayRead(Ok(None)));
    assert_eq!(stage1_message(a), "master_day.1.in is empty");
}

#[test]
fn stage1_orders_acquisitions_and_places_master() {
    let s = with_dates(3, vec![20200110, 20200101, 20200120]);
    let (s, a) = run_stage1_native(s, Stage1Event::MasterDayRead(Ok(Some(20200105))));
    match a {
        Stage1Action::ReadPhase { n_ps, acquisitions, days } => {
            assert_eq!(n_ps, 3);
            assert_eq!(acquisitions.order, vec![1, 0, 2]);
            assert_eq!(acquisitions.master_ix, 2);
            assert_eq!(days, vec![737791, 737795, 737800, 737810]);
        }
        _ => panic!("expected the phase read"),
    }
    let (s, a) = run_stage1_native(s, Stage1Event::PhaseRead(Ok(3)));
    assert!(matches!(a, Stage1Action::ReadLonLat));
    let (s, a) = run_stage1_native(s, Stage1Event::LonLatRead(Ok(6)));
    assert!(matches!(a, Stage1Action::Write));
    let (s, a) = run_stage1_native(s, Stage1Event::Written(Ok(())));
    assert!(matches!(s, Stage1State::Done));
    match a {
        Stage1Action::Finish(Ok(m)) => assert_eq!(m, "Stage 1 created ps1/ph1 for 3 candidates"),
        _ => panic!("expected success"),
    }
}

#[test]
fn stage1_master_after_every_secondary_goes_last() {
    let s = with_dates(2, vec![20200113, 20200101, 20200113]);
    let (_, a) = run_stage1_native(s, Stage1Event::MasterDayRead(Ok(Some(20200201))));
    match a {
        Stage1Action::ReadPhase { acquisitions, days, .. } => {
            assert_eq!(acquisitions.order, vec![1, 0, 2]);
            assert_eq!(acquisitions.master_ix, 4);
            assert_eq!(days, vec![737791, 737803, 737803, 737822]);
        }
        _ => panic!("expected the phase read"),
    }
}

#[test]
fn stage1_rejects_phase_columns_that_do_not_match_dates() {
    let s = with_dates(3, vec![20200110, 20200101, 20200120]);
    let (s, _) = run_stage1_native(s, Stage1Event::MasterDayRead(Ok(Some(20200105))));
    let (_, a) = run_stage1_native(s, Stage1Event::PhaseRead(Ok(2)));
    assert_eq!(stage1_message(a), "phase file has 2 columns but metadata has 3 entries");
}

#[test]
fn stage1_rejects_coordinates_of_wrong_count() {
    let s = with_dates(3, vec![20200110]);
    let (s, _) = run_stage1_native(s, Stage1Event::MasterDayRead(Ok(Some(20200105))));
    let (s, _) = run_stage1_native(s, Stage1Event::PhaseRead(Ok(1)));
    let (_, a) = run_stage1_native(s, Stage1Event::LonLatRead(Ok(5)));
    assert_eq!(stage1_message(a), "pscands.1.ll has 5 float32 values for 3 candidates");
}

#[test]
fn stage1_passes_on_write_errors() {
    let s = with_dates(1, vec![20200110]);
    let (s, _) = run_stage1_native(s, Stage1Event::MasterDayRead(Ok(Some(20200105))));
    let (s, _) = run_stage1_native(s, Stage1Event::PhaseRead(Ok(1)));
    let (s, _) = run_stage1_native(s, Stage1Event::LonLatRead(Ok(2)));
    let err = CoreError::FileIo { path: "p/ps1.mat".to_string(), message: "disk full".to_string() };
    let (_, a) = run_stage1_native(s, Stage1Event::Written(Err(err)));
    match a {
        Stage1Action::Finish(Err(CoreError::FileIo { path, message })) => {
            assert_eq!(path, "p/ps1.mat");
            assert_eq!(message, "disk full");
        }
        _ => panic!("expected the write error"),
    }
}

#[test]
fn stage1_days_never_decrease_with_ties_around_master() {
    let s = with_dates(2, vec![20200301, 20200101, 20200201, 20200101]);
    let (_, a) = run_stage1_native(s, Stage1Event::MasterDayRead(Ok(Some(20200201))));
    match a {
        Stage1Action::ReadPhase { acquisitions, days, .. } => {
            assert_eq!(acquisitions.order, vec![1, 3, 2, 0]);
            assert_eq!(acquisitions.master_ix, 3);
            assert_eq!(days, vec![737791, 737791, 737822, 737822, 737851]);
            assert!(days.windows(2).all(|w| w[0] <= w[1]));
            assert_eq!(days[acquisitions.master_ix - 1], 737822);
        }
        _ => panic!("expected the phase read"),
    }
}

#[test]
fn stage1_layout_orders_candidates_and_places_master() {
    // Slave days 20200104 and 20200102 (baselines 20 and 10), master 20200103;
    // candidates at latitudes 35, 35.01 and 34.99, keyed by their local y and x.
    let acquisitions = order_acquisitions(&vec![20200104, 20200102], 20200103);
    let keys = vec![(5i64, 0i64), (6, 1), (4, -1)];
    let layout = stage1_layout(&acquisitions, &keys);
    assert_eq!(layout.rows, vec![2, 0, 1]);
    assert_eq!(layout.sort_ix, vec![3, 1, 2]);
    assert_eq!(layout.ids, vec![1, 2, 3]);
    assert_eq!(layout.columns, vec![Some(1), None, Some(0)]);
    assert_eq!(layout.bp_columns, vec![1, 0]);
    assert_eq!(layout.master_column, 1);
    assert_eq!(layout.n_ifg, 3);
    assert_eq!(layout.psver, 1);
    assert_eq!(layout.mean_range, 830_000);
    let bperp_raw = [20.0f64, 10.0];
    let bperp: Vec<f64> = layout.columns.iter().map(|c| c.map_or(0.0, |ix| bperp_raw[ix])).collect();
    assert_eq!(bperp, vec![10.0, 0.0, 20.0]);
    assert_eq!(optional_point_rows(&layout, 3), Some(&vec![2, 0, 1]));
    assert_eq!(optional_point_rows(&layout, 2), None);
}

#[test]
fn point_order_sorts_south_to_north_then_west_to_east() {
    let keys = vec![(5i64, 0i64), (5, 0), (4, 9), (5, -3), (-2, 7)];
    assert_eq!(point_order(&keys), vec![4, 2, 3, 0, 1]);
    assert_eq!(point_order(&Vec::new()), Vec::<usize>::new());
    let many: Vec<(i64, i64)> = (0..1000).map(|k| ((k * 7919 % 101) as i64, (k % 3) as i64)).collect();
    let rows = point_order(&many);
    assert_eq!(rows.len(), 1000);
    assert!(rows.windows(2).all(|w| (many[w[0]], w[0]) < (many[w[1]], w[1])));
}
