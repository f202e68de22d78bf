use torc::models::JobStatus;
use torc::watch::{count_statuses, next_watch_step, parse_log_level, LogLevel, StatusCounts, WatchStep};

fn counts(failed: i64, canceled: i64, terminated: i64) -> StatusCounts {
    StatusCounts {
        uninitialized: 0,
        blocked: 0,
        ready: 0,
        pending: 0,
        running: 0,
        done: 0,
        completed: 3,
        failed,
        canceled,
        terminated,
        disabled: 0,
    }
}

#[test]
fn statuses_are_counted_by_kind() {
    let statuses = vec![
        Some(JobStatus::Completed),
        Some(JobStatus::Failed),
        None,
        Some(JobStatus::Completed),
        Some(JobStatus::Running),
        Some(JobStatus::Done),
        Some(JobStatus::Terminated),
    ];
    let c = count_statuses(&statuses);
    assert_eq!(c.completed, 2);
    assert_eq!(c.failed, 1);
    assert_eq!(c.running, 1);
    assert_eq!(c.done, 1);
    assert_eq!(c.terminated, 1);
    assert_eq!(c.ready, 0);
    assert_eq!(c.canceled, 0);
}

#[test]
fn no_statuses_count_nothing() {
    let c = count_statuses(&Vec::new());
    assert_eq!(c.completed + c.failed + c.uninitialized + c.disabled, 0);
}

#[test]
fn watch_ends_when_nothing_failed() {
    assert_eq!(next_watch_step(&counts(0, 0, 0), true, 0, 3), WatchStep::Finished);
    assert_eq!(next_watch_step(&counts(0, 0, 0), false, 5, 3), WatchStep::Finished);
}

#[test]
fn failures_need_recovery_switched_on() {
    assert_eq!(next_watch_step(&counts(1, 0, 0), false, 0, 3), WatchStep::RecoveryDisabled);
    assert_eq!(next_watch_step(&counts(0, 2, 0), true, 0, 3), WatchStep::Recover);
    assert_eq!(next_watch_step(&counts(0, 0, 1), true, 2, 3), WatchStep::Recover);
}

#[test]
fn recovery_stops_after_the_last_attempt() {
    // Counting one attempt per recovery, the loop recovers exactly max_retries times.
    let mut attempts = 0u32;
    while next_watch_step(&counts(1, 0, 0), true, attempts, 3) == WatchStep::Recover {
        attempts += 1;
    }
    assert_eq!(attempts, 3);
    assert_eq!(next_watch_step(&counts(1, 0, 0), true, attempts, 3), WatchStep::RetriesExhausted);
}

#[test]
fn log_levels_are_read_in_any_case() {
    assert_eq!(parse_log_level("DEBUG"), (LogLevel::Debug, true));
    assert_eq!(parse_log_level("warn"), (LogLevel::Warn, true));
    assert_eq!(parse_log_level("Trace"), (LogLevel::Trace, true));
    assert_eq!(parse_log_level("error"), (LogLevel::Error, true));
    assert_eq!(parse_log_level("info"), (LogLevel::Info, true));
    assert_eq!(parse_log_level("verbose"), (LogLevel::Info, false));
}
