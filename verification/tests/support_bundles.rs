use torc::support_bundles::{archive_name, belongs_to_workflow, count_severity, error_patterns, is_log_file, scan_log, truncate_line, ErrorSeverity};

#[test]
fn log_files_are_recognised() {
    assert!(is_log_file("output/job_stdio/job_1_2_3.o"));
    assert!(is_log_file("run.e"));
    assert!(is_log_file("job_runner.log"));
    assert!(!is_log_file("bundle_metadata.json"));
    assert!(!is_log_file("notes.txt"));
}

#[test]
fn lines_are_truncated() {
    assert_eq!(truncate_line("short", 120), "short");
    let long = "x".repeat(130);
    assert_eq!(truncate_line(&long, 120), format!("{}...", "x".repeat(117)));
    assert_eq!(truncate_line("abcdef", 5), "ab...");
    assert_eq!(truncate_line("abcdef", 2), "...");
}

#[test]
fn logs_are_scanned_for_problems() {
    let patterns = error_patterns().unwrap();
    assert_eq!(patterns.len(), 11);
    let content = "all good\nslurmstepd: error: Detected 1 oom_kill event\nthread 'main' panicked at src/x.rs\nsome error here\n";
    let found = scan_log("job_1.e", content, &patterns).unwrap();
    assert_eq!(found.len(), 3);
    assert_eq!(found[0].line_number, 2);
    assert_eq!(found[0].pattern_name, "OOM Killed");
    assert_eq!(found[0].severity, ErrorSeverity::Error);
    assert_eq!(found[1].line_number, 3);
    assert_eq!(found[1].pattern_name, "Rust Panic");
    assert_eq!(found[2].line_number, 4);
    assert_eq!(found[2].pattern_name, "Generic Error");
    assert_eq!(found[2].severity, ErrorSeverity::Warning);
    assert_eq!(found[2].file, "job_1.e");
    assert_eq!(found[2].line_content, "some error here");
    assert_eq!(count_severity(&found, ErrorSeverity::Error), 2);
    assert_eq!(count_severity(&found, ErrorSeverity::Warning), 1);
    assert_eq!(ErrorSeverity::Warning.label(), "WARN");
}

#[test]
fn bundles_take_the_workflows_files() {
    assert!(belongs_to_workflow("job_runner_wf12_host.log", 12));
    assert!(belongs_to_workflow("wf12.json", 12));
    // A longer id that starts with the same digits also matches, as in the name test.
    assert!(belongs_to_workflow("wf123.log", 12));
    assert!(!belongs_to_workflow("job_5_12_1.o", 12));
    assert_eq!(archive_name(Some("job_stdio"), "wf3.o"), "job_stdio/wf3.o");
    assert_eq!(archive_name(None, "wf3.o"), "wf3.o");
}
