use pystamps::core_error::CoreError;
use pystamps::stage5::{promote_selection, rc2_layout, run_stage5_patch_native, Stage5Action, Stage5Event, Stage5Selection, Stage5State};

fn stage5_error_message(action: Stage5Action) -> String {
    match action {
        Stage5Action::Finish(Err(CoreError::NativeStage { stage, message })) => {
            assert_eq!(stage, 5);
            message
        }
        _ => panic!("expected a stage 5 error"),
    }
}

fn at_selection(n_ps1: usize) -> Stage5State {
    let (s, a) = run_stage5_patch_native(Stage5State::Start, Stage5Event::Begin);
    assert!(matches!(a, Stage5Action::ReadInputs));
    let (s, a) = run_stage5_patch_native(s, Stage5Event::InputsRead(Ok(n_ps1)));
    assert!(matches!(a, Stage5Action::ReadSelection { n_ps1: n } if n == n_ps1));
    s
}

#[test]
fn promote_selection_applies_keep_and_weed_flags() {
    let ix = vec![3i64, 1, 4, 2];
    let keep = vec![true, false, true, true];
    let weed = Some(vec![true, false, true]);
    let (ix2, final_ix1, kept_select, kept_ix2) = promote_selection(&ix, &keep, &weed);
    assert_eq!(ix2, vec![3, 4, 2]);
    assert_eq!(final_ix1, vec![3, 2]);
    assert_eq!(kept_select, vec![0, 3]);
    assert_eq!(kept_ix2, vec![0, 2]);
}

#[test]
fn promote_selection_ignores_weed_mask_of_other_length() {
    let ix = vec![3i64, 1, 4];
    let keep = vec![true, true, false];
    let weed = Some(vec![false]);
    let (ix2, final_ix1, kept_select, kept_ix2) = promote_selection(&ix, &keep, &weed);
    assert_eq!(ix2, vec![3, 1]);
    assert_eq!(final_ix1, vec![3, 1]);
    assert_eq!(kept_select, vec![0, 1]);
    assert_eq!(kept_ix2, vec![0, 1]);
}

#[test]
fn stage5_reports_unreadable_input() {
    let (s, _) = run_stage5_patch_native(Stage5State::Start, Stage5Event::Begin);
    let (s, a) = run_stage5_patch_native(
        s,
        Stage5Event::InputsRead(Err(("select1.mat".to_string(), "no such file".to_string()))),
    );
    assert!(matches!(s, Stage5State::Done));
    assert_eq!(stage5_error_message(a), "unable to read select1.mat: no such file");
}

#[test]
fn stage5_rejects_zero_point_count() {
    let (s, _) = run_stage5_patch_native(Stage5State::Start, Stage5Event::Begin);
    let (_, a) = run_stage5_patch_native(s, Stage5Event::InputsRead(Ok(0)));
    assert_eq!(stage5_error_message(a), "ps1.mat missing valid n_ps");
}

#[test]
fn stage5_rejects_empty_selection() {
    let s = at_selection(4);
    let sel = Stage5Selection { ix: vec![], keep_ix: None, ix_weed: None };
    let (_, a) = run_stage5_patch_native(s, Stage5Event::SelectionRead(Ok(sel)));
    assert_eq!(stage5_error_message(a), "select1.mat has empty ix");
}

#[test]
fn stage5_rejects_selected_index_beyond_points() {
    let s = at_selection(3);
    let sel = Stage5Selection { ix: vec![1, 5, 0], keep_ix: Some(vec![true, true, false]), ix_weed: None };
    let (_, a) = run_stage5_patch_native(s, Stage5Event::SelectionRead(Ok(sel)));
    assert_eq!(
        stage5_error_message(a),
        "select1.ix after keep_ix for weed1.mat contains out-of-bounds 1-based index 5 at position 2 for n_ps=3"
    );
}

#[test]
fn stage5_passes_on_read_errors() {
    let s = at_selection(3);
    let err = CoreError::NativeStage { stage: 5, message: "ps1.ij is missing".to_string() };
    let (_, a) = run_stage5_patch_native(s, Stage5Event::SelectionRead(Err(err)));
    assert_eq!(stage5_error_message(a), "ps1.ij is missing");
}

#[test]
fn stage5_promotes_and_reports_count() {
    let s = at_selection(5);
    let sel = Stage5Selection {
        ix: vec![5, 2, 4, 1],
        keep_ix: Some(vec![true, false, true, true]),
        ix_weed: Some(vec![false, true, true]),
    };
    let (s, a) = run_stage5_patch_native(s, Stage5Event::SelectionRead(Ok(sel)));
    match a {
        Stage5Action::Promote(p) => {
            assert_eq!(p.final_ix0, vec![3, 0]);
            assert_eq!(p.kept_select_positions, vec![2, 3]);
            assert_eq!(p.kept_ix2_positions, vec![1, 2]);
            assert_eq!(p.ix2_rows, vec![4, 3, 0]);
        }
        _ => panic!("expected a promotion"),
    }
    let (s, a) = run_stage5_patch_native(s, Stage5Event::Written(Ok(())));
    assert!(matches!(s, Stage5State::Done));
    match a {
        Stage5Action::Finish(Ok(m)) => assert_eq!(m, "Stage 5 promoted 2 PS to version 2"),
        _ => panic!("expected success"),
    }
}

#[test]
fn stage5_keep_flags_of_other_length_keep_everything() {
    let s = at_selection(3);
    let sel = Stage5Selection { ix: vec![3, 1], keep_ix: Some(vec![false]), ix_weed: None };
    let (s, a) = run_stage5_patch_native(s, Stage5Event::SelectionRead(Ok(sel)));
    match a {
        Stage5Action::Promote(p) => {
            assert_eq!(p.final_ix0, vec![2, 0]);
            assert_eq!(p.ix2_rows, vec![2, 0]);
        }
        _ => panic!("expected a promotion"),
    }
    let err = CoreError::NativeStage { stage: 5, message: "disk full".to_string() };
    let (_, a) = run_stage5_patch_native(s, Stage5Event::Written(Err(err)));
    assert_eq!(stage5_error_message(a), "disk full");
}

#[test]
fn promoted_indices_match_their_recorded_positions() {
    let ix = vec![7i64, 3, 9, 1, 4];
    let keep = vec![true, true, false, true, true];
    let weed = Some(vec![false, true, true, false]);
    let (ix2, final_ix1, kept_select, kept_ix2) = promote_selection(&ix, &keep, &weed);
    assert_eq!(ix2, vec![7, 3, 1, 4]);
    assert_eq!(final_ix1, vec![3, 1]);
    for t in 0..final_ix1.len() {
        assert_eq!(ix[kept_select[t]], final_ix1[t]);
        assert!(keep[kept_select[t]]);
        assert_eq!(ix2[kept_ix2[t]], final_ix1[t]);
    }
}

#[test]
fn promotion_rows_agree_with_selected_rows_and_version() {
    let s = at_selection(5);
    let sel = Stage5Selection {
        ix: vec![1, 3, 4, 5],
        keep_ix: Some(vec![true, true, false, true]),
        ix_weed: Some(vec![true, false, true]),
    };
    let (_, a) = run_stage5_patch_native(s, Stage5Event::SelectionRead(Ok(sel)));
    match a {
        Stage5Action::Promote(p) => {
            assert_eq!(p.final_ix0, vec![0, 4]);
            assert_eq!(p.kept_select_positions, vec![0, 3]);
            assert_eq!(p.psver, 2);
            for k in 0..p.final_ix0.len() {
                assert_eq!(p.ix2_rows[p.kept_ix2_positions[k]], p.final_ix0[k]);
            }
        }
        _ => panic!("expected a promotion"),
    }
}

#[test]
fn rc2_small_baseline_has_no_reref_and_keeps_columns() {
    let layout = match rc2_layout("Y", 5, 4, 5, 5, 4, 0, 2) {
        Ok(l) => l,
        Err(_) => panic!("expected a layout"),
    };
    assert!(!layout.reref);
    assert_eq!(layout.columns, vec![Some(0), Some(1), Some(2), Some(3)]);
}

#[test]
fn rc2_single_master_skips_master_column() {
    let layout = match rc2_layout("n", 2, 3, 2, 2, 2, 4, 2) {
        Ok(l) => l,
        Err(_) => panic!("expected a layout"),
    };
    assert!(layout.reref);
    assert_eq!(layout.columns, vec![Some(0), None, Some(1)]);
    let first = match rc2_layout("n", 1, 3, 1, 1, 2, 2, 1) {
        Ok(l) => l,
        Err(_) => panic!("expected a layout"),
    };
    assert_eq!(first.columns, vec![None, Some(0), Some(1)]);
}

fn rc2_error(r: Result<pystamps::stage5::Rc2Layout, CoreError>) -> String {
    match r {
        Err(CoreError::NativeStage { stage: 5, message }) => message,
        _ => panic!("expected a stage 5 error"),
    }
}

#[test]
fn rc2_layout_reports_each_shape_error() {
    assert_eq!(
        rc2_error(rc2_layout("n", 2, 3, 1, 2, 2, 4, 1)),
        "select1 K/C vectors have incompatible lengths K=1 C=2 for promoted n_ps=2"
    );
    assert_eq!(
        rc2_error(rc2_layout("y", 2, 3, 2, 2, 2, 0, 1)),
        "bp2.bperp_mat has 2 columns but small-baseline ph2 has 3"
    );
    assert_eq!(
        rc2_error(rc2_layout("n", 2, 3, 2, 2, 2, 4, 4)),
        "ps2.master_ix must be 1-based within ph2 columns; got 4"
    );
    assert_eq!(
        rc2_error(rc2_layout("n", 2, 3, 2, 2, 3, 4, 1)),
        "bp2.bperp_mat has 3 columns but single-master ph2 has 3"
    );
    assert_eq!(rc2_error(rc2_layout("n", 2, 3, 2, 2, 2, 3, 1)), "pm2.ph_patch has 3 values for 2x2");
}
