use torc::errors::TorcError;
use torc::job_process::{command_line, return_code_of, JobProcess};
use torc::models::JobStatus;
use torc::resource_monitor::{MonitorGranularity, ResourceMonitorConfig};
use torc::utils::{is_network_error, retry_step, retry_timed_out, RetryEvent, RetryStep};

#[test]
fn network_errors_are_recognised() {
    assert!(is_network_error("Connection refused"));
    assert!(is_network_error("request TIMEOUT after 30s"));
    assert!(is_network_error("failed to resolve host"));
    assert!(is_network_error("Host Unreachable"));
    assert!(!is_network_error("404 Not Found"));
    assert!(!is_network_error(""));
}

#[test]
fn waiting_for_the_server_times_out() {
    assert!(!retry_timed_out(599, 10));
    assert!(retry_timed_out(600, 10));
    assert!(retry_timed_out(0, 0));
}

#[test]
fn errors_have_messages() {
    assert_eq!(TorcError::ApiError("boom".to_string()).message(), "API error: boom");
    assert_eq!(TorcError::CommandFailed("exit 2".to_string()).message(), "Command failed: exit 2");
    assert_eq!(
        TorcError::OperationNotAllowed("busy".to_string()).message(),
        "Operation not allowed: busy"
    );
}

#[test]
fn command_lines_put_the_script_first() {
    assert_eq!(command_line("python run.py", Some("bash wrap.sh")), "bash wrap.sh python run.py");
    assert_eq!(command_line("python run.py", None), "python run.py");
}

#[test]
fn a_job_process_starts_once() {
    let mut p = JobProcess::new(7, JobStatus::Pending);
    assert!(p.check_can_start().is_ok());
    p.mark_started();
    assert!(p.is_running);
    assert_eq!(p.status, JobStatus::Running);
    assert_eq!(p.check_can_start(), Err("Job is already running".to_string()));
    p.mark_completed(3, JobStatus::Failed);
    assert!(!p.is_running);
    assert!(p.is_complete);
    assert_eq!(p.return_code, Some(3));
    assert_eq!(p.status, JobStatus::Failed);
}

#[test]
fn signals_give_minus_one() {
    assert_eq!(return_code_of(Some(0)), 0);
    assert_eq!(return_code_of(Some(137)), 137);
    assert_eq!(return_code_of(None), -1);
}

#[test]
fn monitoring_is_off_by_default() {
    let c = ResourceMonitorConfig::default();
    assert!(!c.enabled);
    assert_eq!(c.granularity, MonitorGranularity::Summary);
    assert_eq!(c.sample_interval_seconds, 5);
    assert!(!c.generate_plots);
}

#[test]
fn retry_steps_follow_the_error_and_the_wait() {
    let refused = RetryEvent::CallFailed("Connection refused".to_string());
    let missing = RetryEvent::CallFailed("404 Not Found".to_string());
    assert_eq!(retry_step(&missing, 0, 10), RetryStep::GiveUp);
    assert_eq!(retry_step(&refused, 0, 10), RetryStep::WaitAndPing);
    assert_eq!(retry_step(&refused, 0, 0), RetryStep::GiveUp);
    assert_eq!(retry_step(&RetryEvent::PingFailed, 599, 10), RetryStep::WaitAndPing);
    assert_eq!(retry_step(&RetryEvent::PingFailed, 600, 10), RetryStep::GiveUp);
    assert_eq!(retry_step(&RetryEvent::PingAnswered, 10_000, 10), RetryStep::CallAgain);
}
