use pystamps::calendar::{days_from_civil, order_acquisitions, output_column, yyyymmdd_to_ordinal};
use pystamps::core_error::CoreError;
use pystamps::stage_checks::{
    ensure_exists, ifg_index_for_weed, resolve_file, resolve_file_optional, stage8_mode_supported,
    text_eq_ignore_ascii_case, validate_supported_stage8_mode,
};
use pystamps::web::{is_blank_text, validate_form, JobState, RunForm};

fn message_of(err: CoreError) -> String {
    err.message()
}

#[test]
fn days_are_counted_from_the_unix_epoch() {
    assert_eq!(days_from_civil(1970, 1, 1), 0);
    assert_eq!(days_from_civil(1970, 1, 2), 1);
    assert_eq!(days_from_civil(1969, 12, 31), -1);
    assert_eq!(days_from_civil(2000, 3, 1), 11_017);
    assert_eq!(days_from_civil(2020, 1, 2), 18_263);
    assert_eq!(days_from_civil(2024, 2, 29) + 1, days_from_civil(2024, 3, 1));
}

#[test]
fn dates_as_numbers_become_day_numbers() {
    assert_eq!(yyyymmdd_to_ordinal(19700101), 719_529);
    assert_eq!(yyyymmdd_to_ordinal(20200102), 18_263 + 719_529);
    assert_eq!(yyyymmdd_to_ordinal(20200104) - yyyymmdd_to_ordinal(20200102), 2);
}

#[test]
fn weeding_uses_the_interferograms_that_are_not_dropped() {
    assert_eq!(ifg_index_for_weed(5, &[2, 4, 9]), vec![1, 3, 5]);
    assert_eq!(ifg_index_for_weed(3, &[]), vec![1, 2, 3]);
    assert_eq!(ifg_index_for_weed(0, &[1]), Vec::<i64>::new());
    assert_eq!(ifg_index_for_weed(-2, &[]), Vec::<i64>::new());
}

#[test]
fn stage8_supports_only_single_master_full_3d_unwrapping() {
    assert!(validate_supported_stage8_mode("n", "3D", "y", "n").is_ok());
    assert!(validate_supported_stage8_mode("N", "3d_new", "Y", "n").is_ok());
    assert!(validate_supported_stage8_mode("n", "3D_FULL", "y", "n").is_ok());
    let err = validate_supported_stage8_mode("y", "3D_FULL", "y", "n").unwrap_err();
    assert_eq!(
        message_of(err),
        "stage 8 native implementation error: Stage 8 native path currently supports only single-master \
         unwrap_method=3D_FULL with unwrap_la_error_flag='y' and unwrap_spatial_cost_func_flag='n'"
    );
    assert!(validate_supported_stage8_mode("n", "3D", "n", "n").is_err());
    assert!(validate_supported_stage8_mode("n", "3D", "y", "Y").is_err());
    assert!(validate_supported_stage8_mode("n", "snaphu", "y", "n").is_err());
}

#[test]
fn mode_decision_takes_the_method_in_capitals() {
    assert!(stage8_mode_supported("n", "3D", "y", "n"));
    assert!(!stage8_mode_supported("n", "3d", "y", "n"));
    assert!(text_eq_ignore_ascii_case("Yes", "yES"));
    assert!(!text_eq_ignore_ascii_case("y", "yy"));
}

#[test]
fn the_first_existing_candidate_is_used() {
    let candidates = vec![("/p/a.txt".to_string(), false), ("/a.txt".to_string(), true), ("/x/a.txt".to_string(), true)];
    assert_eq!(resolve_file("a.txt", "/p", &candidates).unwrap(), "/a.txt");
    assert_eq!(resolve_file_optional(&candidates), Some("/a.txt".to_string()));
    let none = vec![("/p/a.txt".to_string(), false)];
    assert_eq!(resolve_file_optional(&none), None);
    assert_eq!(
        message_of(resolve_file("width.txt", "/p", &none).unwrap_err()),
        "stage 1 native implementation error: width.txt not found near /p"
    );
}

#[test]
fn stage8_artifacts_must_exist() {
    assert!(ensure_exists("phuw2.mat", "stage-6 unwrap output", true).is_ok());
    match ensure_exists("scla2.mat", "stage-7 SCLA output", false).unwrap_err() {
        CoreError::NativeStage { stage, message } => {
            assert_eq!(stage, 8);
            assert_eq!(message, "Missing required artifact: scla2.mat (stage-7 SCLA output) before stage 8");
        }
        other => panic!("unexpected error {other:?}"),
    }
}

fn form(dataset: &str, start_step: u8, end_step: u8, backend: &str) -> RunForm {
    RunForm {
        dataset: dataset.to_string(),
        start_step,
        end_step,
        backend: backend.to_string(),
        io_workers: 1,
        cpu_workers: 0,
        dry_run: None,
    }
}

#[test]
fn run_forms_are_checked_in_order() {
    assert!(validate_form(&form("/d", 1, 8, "auto")).is_ok());
    let err = validate_form(&form("", 0, 8, "bogus")).unwrap_err();
    assert_eq!((err.status, err.message.as_str()), (400, "stage range must be within 1..8"));
    let err = validate_form(&form("   ", 2, 3, "bogus")).unwrap_err();
    assert_eq!((err.status, err.message.as_str()), (400, "dataset path is required"));
    let err = validate_form(&form("/d", 2, 3, "bogus")).unwrap_err();
    assert_eq!((err.status, err.message.as_str()), (400, "unsupported backend"));
    assert!(validate_form(&form("/d", 6, 6, "native")).is_ok());
}

#[test]
fn dry_run_is_the_presence_of_the_field() {
    let mut f = form("/d", 1, 1, "auto");
    assert!(!f.is_dry_run());
    f.dry_run = Some("on".to_string());
    assert!(f.is_dry_run());
}

#[test]
fn blank_text_and_labels() {
    assert!(is_blank_text(" \t\n"));
    assert!(!is_blank_text(" x "));
    assert_eq!(JobState::Running.label(), "running");
    assert_eq!(JobState::Failed.label(), "failed");
}

#[test]
fn acquisitions_are_put_in_date_order_around_the_master() {
    let order = order_acquisitions(&vec![20200104, 20200102], 20200103);
    assert_eq!(order.order, vec![1, 0]);
    assert_eq!(order.master_ix, 2);
    assert_eq!(output_column(0, order.master_ix), 0);
    assert_eq!(output_column(1, order.master_ix), 2);

    let order = order_acquisitions(&vec![20190301, 20180101, 20190301, 20170615], 20100101);
    assert_eq!(order.order, vec![3, 1, 0, 2]);
    assert_eq!(order.master_ix, 1);
    assert_eq!(output_column(0, 1), 1);

    let order = order_acquisitions(&vec![], 20200101);
    assert!(order.order.is_empty());
    assert_eq!(order.master_ix, 1);
}

#[test]
fn days_from_civil_counts_across_month_year_and_leap_boundaries() {
    assert_eq!(days_from_civil(2023, 2, 28) + 1, days_from_civil(2023, 3, 1));
    assert_eq!(days_from_civil(2023, 3, 1), 19_417);
    assert_eq!(days_from_civil(1900, 2, 28) + 1, days_from_civil(1900, 3, 1));
    assert_eq!(days_from_civil(1900, 3, 1), -25_508);
    assert_eq!(days_from_civil(2000, 2, 29) + 1, days_from_civil(2000, 3, 1));
    assert_eq!(days_from_civil(1999, 12, 31) + 1, days_from_civil(2000, 1, 1));
    assert_eq!(days_from_civil(2000, 1, 1), 10_957);
    assert_eq!(days_from_civil(-1, 2, 28) + 1, days_from_civil(-1, 3, 1));
    assert_eq!(days_from_civil(-1, 3, 1), -719_834);
}

#[test]
fn days_from_civil_handles_far_years() {
    assert_eq!(days_from_civil(10_000_000_000_000_000, 6, 15), 3_652_424_999_999_280_638);
    assert_eq!(days_from_civil(-10_000_000_000_000_000, 6, 15), -3_652_425_000_000_719_362);
}

#[test]
fn blank_text_follows_unicode_white_space() {
    assert!(is_blank_text("\u{3000}\u{85}\u{a0}\u{2009}\r"));
    assert!(is_blank_text(""));
    assert!(!is_blank_text("\u{200b}"));
    assert!(!is_blank_text("\u{3000}x\u{3000}"));
}
