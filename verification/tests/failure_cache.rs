use torc::failure_cache::{cache_entry_usable, compute_signature, extract_job_pattern, normalize_error_line};

#[test]
fn error_lines_are_normalized() {
    assert_eq!(
        normalize_error_line("  2024-01-15T10:30:45.123 ERROR pid=1234 at /home/user/run/app.py: 0xDEADbeef  "),
        "[TIME] ERROR [PID] at [PATH]/app.py: [ADDR]"
    );
    assert_eq!(normalize_error_line("[2024-01-15 10:30:45] Killed [42]"), "[[TIME]] Killed [PID]");
    assert_eq!(normalize_error_line("Jan 15 10:30:45 oom"), "[TIME] oom");
}

#[test]
fn job_patterns_drop_numbers() {
    assert_eq!(extract_job_pattern("job_001"), "job[N]");
    assert_eq!(extract_job_pattern("sim-42"), "sim[N]");
    assert_eq!(extract_job_pattern("work"), "work");
    assert_eq!(extract_job_pattern("a_1_2"), "a_1[N]");
}

#[test]
fn signatures_ignore_what_changes() {
    let a = compute_signature("starting\n2024-01-15T10:30:45 Error: pid=12 failed\ndone\n");
    let b = compute_signature("setup\n2025-02-01T00:00:00 Error: pid=99 failed\n");
    assert_eq!(a, b);
    assert_eq!(a.len(), 64);
    assert!(a.chars().all(|c| c.is_ascii_hexdigit() && !c.is_ascii_uppercase()));
    let c = compute_signature("Segmentation fault\n");
    assert_ne!(a, c);
}

#[test]
fn signature_of_known_text() {
    assert_eq!(compute_signature("Error: x"), "4623504ee28177d79fc3fbef081cc84858c754ef0166304383f43eee4e71edb0");
    assert_eq!(compute_signature("line one\n  line two  \n"), "e9024f1a07d29d52ad3aa5e1a18e94db1f3a9fd32b89e39d47c472cd99071e13");
    assert_eq!(compute_signature(""), "e3b0c44298fc1c149afbf4c8996fb92427ae41e4649b934ca495991b7852b855");
}

#[test]
fn cached_diagnoses_need_a_fair_record() {
    assert!(cache_entry_usable(0, 0));
    assert!(cache_entry_usable(3, 1));
    assert!(cache_entry_usable(1, 1));
    assert!(!cache_entry_usable(1, 2));
    assert!(!cache_entry_usable(0, 1));
}
