use pystamps::cli::{parse_command, parse_coverage_args, parse_dataset_arg, parse_patch_arg, parse_step_value, Command};

fn args(items: &[&str]) -> Vec<String> {
    items.iter().map(|s| s.to_string()).collect()
}

fn error_of(items: &[&str]) -> String {
    match parse_command(&args(items)) {
        Ok(_) => panic!("expected an error for {items:?}"),
        Err(err) => err,
    }
}

#[test]
fn no_arguments_prints_usage_and_exits_nonzero() {
    assert!(error_of(&[]).contains("missing subcommand"));
}

#[test]
fn unknown_subcommand_prints_clear_error_and_exits_nonzero() {
    assert!(error_of(&["bogus"]).contains("unknown subcommand 'bogus'"));
}

#[test]
fn coverage_subcommand_reports_stage_matrix() {
    match parse_command(&args(&["coverage", "--start-step", "1", "--end-step", "1"])).unwrap() {
        Command::Coverage { start_step, end_step } => assert_eq!((start_step, end_step), (1, 1)),
        _ => panic!("expected the coverage command"),
    }
}

#[test]
fn coverage_defaults_to_the_whole_chain_and_later_options_win() {
    assert_eq!(parse_coverage_args(&args(&[])).unwrap(), (1, 8));
    assert_eq!(parse_coverage_args(&args(&["--end-step", "3", "--end-step", "5"])).unwrap(), (1, 5));
    assert_eq!(parse_coverage_args(&args(&["--start-step", "+4"])).unwrap(), (4, 8));
}

#[test]
fn coverage_rejects_unknown_and_incomplete_options() {
    assert_eq!(parse_coverage_args(&args(&["--bogus"])).unwrap_err(), "unexpected coverage argument '--bogus'");
    assert_eq!(parse_coverage_args(&args(&["--start-step"])).unwrap_err(), "--start-step requires a value");
    let err = parse_coverage_args(&args(&["--end-step", "300"])).unwrap_err();
    assert!(err.starts_with("invalid --end-step value '300': "));
}

#[test]
fn step_value_reads_the_next_argument() {
    let a = args(&["--start-step", "7"]);
    assert_eq!(parse_step_value(&a, 0, "--start-step").unwrap(), 7);
    assert_eq!(parse_step_value(&a, 1, "--x").unwrap_err(), "--x requires a value");
    let err = parse_step_value(&args(&["--start-step", "-1"]), 0, "--start-step").unwrap_err();
    assert!(err.starts_with("invalid --start-step value '-1': "));
}

#[test]
fn patch_and_dataset_arguments_need_exactly_flag_and_path() {
    assert_eq!(parse_patch_arg(&args(&["--patch", "/d/PATCH_1"])).unwrap(), "/d/PATCH_1");
    assert_eq!(parse_patch_arg(&args(&["--patch"])).unwrap_err(), "expected --patch PATH");
    assert_eq!(parse_patch_arg(&args(&["--dataset", "/d"])).unwrap_err(), "expected --patch PATH");
    assert_eq!(parse_dataset_arg(&args(&["--dataset", "/d"])).unwrap(), "/d");
    assert_eq!(parse_dataset_arg(&args(&["--dataset", "/d", "x"])).unwrap_err(), "expected --dataset PATH");
}

#[test]
fn stage_subcommand_dispatches_on_the_stage_number() {
    match parse_command(&args(&["stage", "1", "--patch", "P"])).unwrap() {
        Command::Stage1 { patch } => assert_eq!(patch, "P"),
        _ => panic!("expected stage 1"),
    }
    match parse_command(&args(&["stage", "5", "--dataset", "D"])).unwrap() {
        Command::Stage5Merge { dataset } => assert_eq!(dataset, "D"),
        _ => panic!("expected the stage 5 merge"),
    }
    match parse_command(&args(&["stage", "5", "--patch", "P"])).unwrap() {
        Command::Stage5Patch { patch } => assert_eq!(patch, "P"),
        _ => panic!("expected the stage 5 patch run"),
    }
    match parse_command(&args(&["stage", "8", "--dataset", "D"])).unwrap() {
        Command::Stage8 { dataset } => assert_eq!(dataset, "D"),
        _ => panic!("expected stage 8"),
    }
}

#[test]
fn stage_subcommand_errors() {
    assert_eq!(error_of(&["stage"]), "expected stage number");
    assert_eq!(error_of(&["stage", "4", "--patch", "P"]), "stage 4 is not native-executable yet");
    assert_eq!(error_of(&["stage", "6", "--dataset", "D"]), "stage 6 is not native-executable yet");
    assert!(error_of(&["stage", "x"]).starts_with("invalid stage number 'x': "));
    assert_eq!(error_of(&["stage", "7", "--patch", "P"]), "expected --dataset PATH");
}

#[test]
fn named_stage_subcommands() {
    match parse_command(&args(&["stage5-merge", "--dataset", "D"])).unwrap() {
        Command::Stage5Merge { dataset } => assert_eq!(dataset, "D"),
        _ => panic!("expected the stage 5 merge"),
    }
    match parse_command(&args(&["stage3", "--patch", "P"])).unwrap() {
        Command::Stage3 { patch } => assert_eq!(patch, "P"),
        _ => panic!("expected stage 3"),
    }
    assert_eq!(error_of(&["stage7", "--patch", "P"]), "expected --dataset PATH");
    assert_eq!(error_of(&["stage2"]), "expected --patch PATH");
}

#[test]
fn run_rejects_unknown_backend() {
    assert_eq!(
        error_of(&["run", "--dataset", "/data/run_copy", "--backend", "bogus"]),
        "unsupported runtime backend 'bogus'"
    );
    assert_eq!(
        error_of(&["run", "--dataset", "/d", "--stage2-kernel-backend", "cuda"]),
        "unsupported stage-2 kernel backend 'cuda'"
    );
}

#[test]
fn run_native_only_needs_native_backends() {
    assert_eq!(
        error_of(&["run", "--dataset", "/d", "--native-only", "--backend", "auto"]),
        "--native-only requires --backend native"
    );
    assert_eq!(
        error_of(&["run", "--dataset", "/d", "--native-only", "--backend", "native"]),
        "--native-only requires --stage2-kernel-backend native"
    );
}

#[test]
fn run_reads_the_documented_options() {
    let items = [
        "run", "--native-only", "--dataset", "/data/copy", "--start-step", "1", "--end-step", "8", "--backend",
        "native", "--stage2-kernel-backend", "native", "--cpu-workers", "0", "--stage2-native-threads", "4",
    ];
    match parse_command(&args(&items)).unwrap() {
        Command::Run { options } => {
            assert!(options.native_only);
            assert_eq!(options.dataset.as_deref(), Some("/data/copy"));
            assert_eq!((options.start_step, options.end_step), (1, 8));
            assert_eq!(options.backend, "native");
            assert_eq!(options.stage2_kernel_backend, "native");
            assert_eq!(options.cpu_workers, "0");
            assert_eq!(options.stage2_native_threads, "4");
        }
        _ => panic!("expected run"),
    }
    match parse_command(&args(&["run", "--dataset", "/d", "--backend", "gpu"])).unwrap() {
        Command::Run { options } => {
            assert!(!options.native_only);
            assert_eq!((options.start_step, options.end_step), (1, 8));
            assert_eq!(options.stage2_kernel_backend, "auto");
        }
        _ => panic!("expected run"),
    }
}

#[test]
fn run_argument_errors() {
    assert_eq!(error_of(&["run"]), "run requires --dataset PATH");
    assert_eq!(error_of(&["run", "--dataset"]), "--dataset requires a value");
    assert_eq!(error_of(&["run", "--dataset", "/d", "--cpu-workers", "-1"]), "invalid --cpu-workers value '-1'");
    assert_eq!(error_of(&["run", "--dataset", "/d", "--verbose"]), "unexpected run argument '--verbose'");
}
