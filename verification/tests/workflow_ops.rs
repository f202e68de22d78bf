use torc::workflow_ops::{confirmed, parse_archive_flag, reset_report};

#[test]
fn only_yes_confirms() {
    assert!(confirmed("y\n"));
    assert!(confirmed("  YES "));
    assert!(confirmed("Yes"));
    assert!(!confirmed("n"));
    assert!(!confirmed(""));
    assert!(!confirmed("yeah"));
}

#[test]
fn archive_flags_are_read() {
    assert_eq!(parse_archive_flag("TRUE"), Some(true));
    assert_eq!(parse_archive_flag("1"), Some(true));
    assert_eq!(parse_archive_flag("yes"), Some(true));
    assert_eq!(parse_archive_flag("False"), Some(false));
    assert_eq!(parse_archive_flag("0"), Some(false));
    assert_eq!(parse_archive_flag("no"), Some(false));
    assert_eq!(parse_archive_flag("maybe"), None);
}

#[test]
fn resets_report_each_step() {
    let r = reset_report(9, true, true, true, true, true);
    assert!(r.success);
    assert_eq!(
        r.messages,
        vec![
            "Successfully reset workflow status for workflow 9".to_string(),
            "Successfully reset failed job status for workflow 9".to_string(),
            "Successfully reinitialized workflow 9".to_string(),
        ]
    );
    let r = reset_report(9, false, false, true, true, false);
    assert!(r.success);
    assert_eq!(
        r.messages,
        vec![
            "Successfully reset workflow status for workflow 9".to_string(),
            "Successfully reset all job status for workflow 9".to_string(),
        ]
    );
    let r = reset_report(9, false, true, true, false, false);
    assert!(!r.success);
    assert_eq!(r.messages, vec!["Successfully reset workflow status for workflow 9".to_string()]);
}
