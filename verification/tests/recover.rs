use torc::recover::{
    correlate_slurm_logs, format_duration_iso8601, format_memory_bytes_short,
    parse_hook_command, split_memory_unit, JobLogRecord, JobRecoveryOutcome, RecoveryAnswer,
    RecoveryCheck, RecoveryCheckStep, RecoveryQuery, RecoveryResult,
};

#[test]
fn test_format_memory_bytes_short() {
    assert_eq!(format_memory_bytes_short(1024 * 1024 * 1024), "1g");
    assert_eq!(format_memory_bytes_short(2 * 1024 * 1024 * 1024), "2g");
    assert_eq!(format_memory_bytes_short(512 * 1024 * 1024), "512m");
    assert_eq!(format_memory_bytes_short(1024 * 1024), "1m");
    assert_eq!(format_memory_bytes_short(1024), "1k");
}

#[test]
fn memory_short_rounds_down_and_counts_bytes() {
    assert_eq!(format_memory_bytes_short(1536 * 1024 * 1024), "1g");
    assert_eq!(format_memory_bytes_short(1023), "1023b");
    assert_eq!(format_memory_bytes_short(0), "0b");
}

#[test]
fn test_format_duration_iso8601() {
    assert_eq!(format_duration_iso8601(3600), "PT1H");
    assert_eq!(format_duration_iso8601(7200), "PT2H");
    assert_eq!(format_duration_iso8601(5400), "PT1H30M");
    assert_eq!(format_duration_iso8601(1800), "PT30M");
    assert_eq!(format_duration_iso8601(60), "PT1M");
    assert_eq!(format_duration_iso8601(30), "PT1M");
}

#[test]
fn duration_drops_seconds() {
    assert_eq!(format_duration_iso8601(0), "PT1M");
    assert_eq!(format_duration_iso8601(3661), "PT1H1M");
    assert_eq!(format_duration_iso8601(86400), "PT24H");
}

#[test]
fn memory_units_are_split() {
    assert_eq!(split_memory_unit("8g"), ("8".to_string(), 1024 * 1024 * 1024));
    assert_eq!(split_memory_unit(" 2GB "), ("2".to_string(), 1024 * 1024 * 1024));
    assert_eq!(split_memory_unit("512m"), ("512".to_string(), 1024 * 1024));
    assert_eq!(split_memory_unit("256mb"), ("256".to_string(), 1024 * 1024));
    assert_eq!(split_memory_unit("1024k"), ("1024".to_string(), 1024));
    assert_eq!(split_memory_unit("1024kb"), ("1024".to_string(), 1024));
    assert_eq!(split_memory_unit("1024"), ("1024".to_string(), 1));
    assert_eq!(split_memory_unit("1.5gg"), ("1.5".to_string(), 1024 * 1024 * 1024));
}

fn rec(id: Option<i64>, out: Option<&str>, err: Option<&str>, sid: Option<&str>) -> JobLogRecord {
    JobLogRecord {
        job_id: id,
        slurm_job_id: sid.map(|s| s.to_string()),
        slurm_stdout: out.map(|s| s.to_string()),
        slurm_stderr: err.map(|s| s.to_string()),
    }
}

#[test]
fn failed_jobs_get_their_slurm_logs() {
    let records = vec![
        rec(Some(1), Some("a.o"), None, Some("100")),
        rec(Some(2), None, None, Some("101")),
        rec(Some(1), Some("b.o"), Some("b.e"), Some("102")),
        rec(None, Some("c.o"), None, None),
        rec(Some(3), None, Some("d.e"), None),
    ];
    let failed = vec![Some(3), Some(1), Some(2), Some(1), None, Some(9)];
    let logs = correlate_slurm_logs(&records, &failed);
    assert_eq!(logs.len(), 2);
    assert_eq!(logs[0].0, 3);
    assert_eq!(logs[0].1.slurm_stderr, Some("d.e".to_string()));
    assert_eq!(logs[1].0, 1);
    assert_eq!(logs[1].1.slurm_stdout, Some("b.o".to_string()));
    assert_eq!(logs[1].1.slurm_job_id, Some("102".to_string()));
}

#[test]
fn recovery_outcomes_are_counted() {
    let mut r = RecoveryResult::new();
    r.record(1, JobRecoveryOutcome::Examined { likely_oom: true, likely_timeout: false, memory_raised: true, runtime_raised: false }, false);
    r.record(2, JobRecoveryOutcome::Examined { likely_oom: false, likely_timeout: true, memory_raised: false, runtime_raised: true }, false);
    r.record(3, JobRecoveryOutcome::Examined { likely_oom: false, likely_timeout: false, memory_raised: false, runtime_raised: false }, false);
    r.record(4, JobRecoveryOutcome::NoResourceRequirements, true);
    r.record(5, JobRecoveryOutcome::Skipped, true);
    r.record(6, JobRecoveryOutcome::Examined { likely_oom: false, likely_timeout: true, memory_raised: false, runtime_raised: false }, true);
    r.record(7, JobRecoveryOutcome::Examined { likely_oom: false, likely_timeout: false, memory_raised: false, runtime_raised: false }, true);
    assert_eq!(r.oom_fixed, 1);
    assert_eq!(r.timeout_fixed, 1);
    assert_eq!(r.other_failures, 3);
    assert_eq!(r.jobs_to_retry, vec![1, 2, 7]);
    assert_eq!(r.nothing_to_retry(), None);
    r.settle_unknown(true);
    assert_eq!(r.unknown_retried, 3);
}

#[test]
fn nothing_to_retry_is_an_error() {
    let mut r = RecoveryResult::new();
    r.record(3, JobRecoveryOutcome::Examined { likely_oom: false, likely_timeout: false, memory_raised: false, runtime_raised: false }, false);
    r.settle_unknown(false);
    assert_eq!(r.unknown_retried, 0);
    assert_eq!(
        r.nothing_to_retry(),
        Some("No recoverable jobs found. 1 job(s) failed with unknown causes. Use --retry-unknown to retry jobs with unknown failure causes.".to_string())
    );
}

#[test]
fn hook_commands_are_split() {
    assert_eq!(parse_hook_command("fix.sh --force 'a b'"), Ok(vec!["fix.sh".to_string(), "--force".to_string(), "a b".to_string()]));
    assert_eq!(parse_hook_command("   "), Err("Recovery hook command is empty".to_string()));
    assert_eq!(parse_hook_command("run 'open"), Err("Invalid quoting in recovery hook command: run 'open".to_string()));
}

#[test]
fn memory_sizes_split_into_number_and_unit() {
    const GIB: u64 = 1024 * 1024 * 1024;
    assert_eq!(split_memory_unit("1g"), ("1".to_string(), GIB));
    assert_eq!(split_memory_unit("2gb"), ("2".to_string(), GIB));
    assert_eq!(split_memory_unit("512m"), ("512".to_string(), 1024 * 1024));
    assert_eq!(split_memory_unit("256mb"), ("256".to_string(), 1024 * 1024));
    assert_eq!(split_memory_unit("1024k"), ("1024".to_string(), 1024));
    assert_eq!(split_memory_unit("1024kb"), ("1024".to_string(), 1024));
    assert_eq!(split_memory_unit("1024"), ("1024".to_string(), 1));
}

fn listed(total_count: i64) -> RecoveryAnswer {
    RecoveryAnswer::Listed { items: Some(0), total_count }
}

#[test]
fn recovery_checks_ask_each_question_in_turn() {
    let mut check = RecoveryCheck::new();
    assert_eq!(check.asked, RecoveryQuery::Completion);
    let done = RecoveryAnswer::Completion { is_complete: true, is_canceled: false };
    assert!(matches!(check.step(&done), RecoveryCheckStep::Ask(RecoveryQuery::ActiveNodes)));
    let no_nodes = RecoveryAnswer::Listed { items: None, total_count: 0 };
    assert!(matches!(check.step(&no_nodes), RecoveryCheckStep::Ask(RecoveryQuery::PendingAllocations)));
    assert!(matches!(check.step(&listed(0)), RecoveryCheckStep::Ask(RecoveryQuery::ActiveAllocations)));
    assert!(matches!(check.step(&listed(0)), RecoveryCheckStep::Ask(RecoveryQuery::FailedJobs)));
    assert!(matches!(check.step(&listed(2)), RecoveryCheckStep::Ask(RecoveryQuery::TerminatedJobs)));
    assert_eq!(check.failed_jobs, 2);
    assert!(matches!(check.step(&listed(0)), RecoveryCheckStep::Ready));
}

#[test]
fn recovery_is_refused_with_the_reason() {
    let mut check = RecoveryCheck::new();
    let running = RecoveryAnswer::Completion { is_complete: false, is_canceled: false };
    match check.step(&running) {
        RecoveryCheckStep::Refuse(m) => assert_eq!(
            m,
            "Cannot recover: workflow is not complete. Wait for all jobs to finish or use 'torc workflows cancel' first."
        ),
        _ => panic!("expected a refusal"),
    }

    let mut check = RecoveryCheck::new();
    let canceled = RecoveryAnswer::Completion { is_complete: false, is_canceled: true };
    assert!(matches!(check.step(&canceled), RecoveryCheckStep::Ask(RecoveryQuery::ActiveNodes)));
    let busy = RecoveryAnswer::Listed { items: Some(1), total_count: 1 };
    match check.step(&busy) {
        RecoveryCheckStep::Refuse(m) => assert_eq!(
            m,
            "Cannot recover: there are still active compute nodes. Wait for all workers to exit."
        ),
        _ => panic!("expected a refusal"),
    }

    let mut check = RecoveryCheck { asked: RecoveryQuery::PendingAllocations, failed_jobs: 0 };
    match check.step(&RecoveryAnswer::RequestFailed("timeout".to_string())) {
        RecoveryCheckStep::Refuse(m) => {
            assert_eq!(m, "Failed to check for pending scheduled compute nodes: timeout")
        }
        _ => panic!("expected a refusal"),
    }

    let mut check = RecoveryCheck { asked: RecoveryQuery::TerminatedJobs, failed_jobs: 0 };
    match check.step(&listed(0)) {
        RecoveryCheckStep::Refuse(m) => assert_eq!(
            m,
            "No failed or terminated jobs to recover. Workflow may have completed successfully."
        ),
        _ => panic!("expected a refusal"),
    }
    let mut check = RecoveryCheck { asked: RecoveryQuery::TerminatedJobs, failed_jobs: 0 };
    assert!(matches!(check.step(&listed(3)), RecoveryCheckStep::Ready));
}
