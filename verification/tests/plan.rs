use pystamps::core_error::CoreError;
use pystamps::dataset::{DatasetLayout, DirEntryInfo};
use pystamps::plan::{
    dataset_name, expected_bundle, expected_stage_artifact, plan_pipeline, plan_single_scope, selected_stages,
    stage_defs, validate_stage_range, PlanTarget, RunRequest, StageScope, StageStatus,
};

fn target(name: &str, present: &[&str]) -> PlanTarget {
    PlanTarget { name: Some(name.to_string()), present: present.iter().map(|s| s.to_string()).collect() }
}

fn request(start_step: u8, end_step: u8, dry_run: bool) -> RunRequest {
    RunRequest { dataset_root: "/data/set".to_string(), start_step, end_step, dry_run }
}

#[test]
fn plans_patch_and_stage5_merged_work() {
    let root = target("set", &[]);
    let patches = vec![target("PATCH_1", &[]), target("PATCH_2", &[])];
    let results = plan_pipeline(&request(5, 5, true), &root, &patches).unwrap();

    assert_eq!(results.len(), 3);
    assert_eq!(results[0].scope, StageScope::Patch);
    assert_eq!(results[0].status, StageStatus::Planned);
    assert_eq!(results[2].scope, StageScope::Merged);
    assert_eq!(results[2].details, "Would produce ifgstd2.mat");
}

#[test]
fn reports_existing_bundle_only_when_all_bundle_files_exist() {
    let root = target("set", &[]);
    let partial = plan_pipeline(&request(1, 1, true), &root, &vec![target("PATCH_1", &["ps1.mat"])]).unwrap();
    assert_eq!(partial[0].status, StageStatus::Planned);

    let complete_files = ["ps1.mat", "ph1.mat", "bp1.mat", "da1.mat", "hgt1.mat", "la1.mat", "psver.mat"];
    let complete = plan_pipeline(&request(1, 1, true), &root, &vec![target("PATCH_1", &complete_files)]).unwrap();
    assert_eq!(complete[0].status, StageStatus::SkippedExisting);
    assert_eq!(complete[0].details, "ps1.mat present");
}

#[test]
fn a_real_run_leaves_work_pending() {
    let root = target("set", &[]);
    let results = plan_pipeline(&request(6, 8, false), &root, &vec![target("PATCH_1", &[])]).unwrap();
    assert_eq!(results.len(), 3);
    assert!(results.iter().all(|r| r.scope == StageScope::Merged && r.target == "set"));
    assert_eq!(results[0].status, StageStatus::PendingExecution);
    assert_eq!(results[0].details, "Will produce phuw2.mat");
    assert_eq!(results[2].stage, 8);
}

#[test]
fn whole_chain_has_one_report_per_patch_stage_and_patch() {
    let root = PlanTarget { name: None, present: vec![] };
    let patches = vec![target("PATCH_1", &[]), PlanTarget { name: None, present: vec![] }];
    let results = plan_pipeline(&request(1, 8, true), &root, &patches).unwrap();
    assert_eq!(results.len(), 5 * 2 + 1 + 3);
    let stages: Vec<u8> = results.iter().map(|r| r.stage).collect();
    assert_eq!(stages, vec![1, 1, 2, 2, 3, 3, 4, 4, 5, 5, 5, 6, 7, 8]);
    assert_eq!(results[1].target, "unknown");
    assert_eq!(results[10].target, "dataset");
    assert!(results.iter().all(|r| r.status != StageStatus::PendingExecution));
}

#[test]
fn invalid_ranges_are_rejected() {
    for (start, end) in [(0, 3), (4, 3), (1, 9)] {
        let err = plan_pipeline(&request(start, end, true), &target("set", &[]), &vec![]).unwrap_err();
        assert!(matches!(err, CoreError::InvalidStageRange { start_step, end_step } if start_step == start && end_step == end));
        assert!(validate_stage_range(start, end).is_err());
    }
    let err = validate_stage_range(4, 3).unwrap_err();
    assert_eq!(err.message(), "invalid stage range 4..3; expected 1..8");
    assert!(validate_stage_range(1, 8).is_ok());
}

#[test]
fn stage_definitions_and_selection() {
    let defs = stage_defs();
    assert_eq!(defs.len(), 8);
    assert_eq!(defs[5].name, "Unwrap phase");
    let selected = selected_stages(3, 5);
    let ids: Vec<u8> = selected.iter().map(|d| d.stage_id).collect();
    assert_eq!(ids, vec![3, 4, 5]);
    assert_eq!(selected[2].scope, StageScope::Patch);
}

#[test]
fn artifacts_and_bundles() {
    assert_eq!(expected_stage_artifact(2, StageScope::Patch), Some("pm1.mat"));
    assert_eq!(expected_stage_artifact(7, StageScope::Patch), None);
    assert_eq!(expected_bundle(1, StageScope::Patch), vec!["ps1.mat", "ph1.mat", "bp1.mat", "da1.mat", "hgt1.mat", "la1.mat", "psver.mat"]);
    let skipped = plan_single_scope(7, StageScope::Patch, "PATCH_1", &vec![], true);
    assert_eq!(skipped.status, StageStatus::Skipped);
    assert_eq!(skipped.details, "No expected artifact mapping");
}

#[test]
fn dataset_label_defaults() {
    assert_eq!(dataset_name(&PlanTarget { name: None, present: vec![] }), "dataset");
    assert_eq!(dataset_name(&target("set", &[])), "set");
}

#[test]
fn patches_are_the_patch_directories_in_name_order() {
    let entry = |path: &str, name: Option<&str>, is_dir: bool| DirEntryInfo {
        path: path.to_string(),
        name: name.map(|n| n.to_string()),
        is_dir,
    };
    let entries = vec![
        entry("/d/PATCH_2", Some("PATCH_2"), true),
        entry("/d/notes", Some("notes"), true),
        entry("/d/PATCH_1", Some("PATCH_1"), true),
        entry("/d/PATCH_file", Some("PATCH_file"), false),
        entry("/d/PATCH_10", Some("PATCH_10"), true),
    ];
    let layout = DatasetLayout::from_entries("/d".to_string(), &entries);
    assert_eq!(layout.root, "/d");
    assert_eq!(layout.patches, vec!["/d/PATCH_1", "/d/PATCH_10", "/d/PATCH_2"]);
}
