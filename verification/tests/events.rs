use torc::events::{event_selected, monitor_expired};

#[test]
fn monitoring_ends_after_its_duration() {
    assert!(!monitor_expired(Some(2), 119));
    assert!(monitor_expired(Some(2), 120));
    assert!(monitor_expired(Some(0), 0));
    assert!(!monitor_expired(None, u64::MAX));
    // A negative duration is compared as a huge unsigned number.
    assert!(!monitor_expired(Some(-1), 1_000_000));
}

#[test]
fn events_are_filtered_by_category() {
    assert!(event_selected(None, "job_started"));
    assert!(event_selected(Some("job"), "job_started"));
    assert!(!event_selected(Some("scheduler"), "job_started"));
    assert!(event_selected(Some(""), "anything"));
}
