use torc::slurm::{
    apply_scheduler_update, new_slurm_scheduler, scheduler_options, submission_job_name,
    submission_script_path, SchedulerUpdate,
};

fn no_update() -> SchedulerUpdate {
    SchedulerUpdate {
        name: None,
        account: None,
        gres: None,
        mem: None,
        nodes: None,
        partition: None,
        qos: None,
        tmp: None,
        walltime: None,
        extra: None,
    }
}

#[test]
fn created_schedulers_carry_the_options() {
    let s = new_slurm_scheduler(
        3,
        "short",
        "proj",
        &None,
        &Some("64G".to_string()),
        2,
        &Some("debug".to_string()),
        "normal",
        &None,
        "01:00:00",
        &None,
    );
    assert_eq!(s.id, None);
    assert_eq!(s.workflow_id, 3);
    assert_eq!(s.name.as_deref(), Some("short"));
    assert_eq!(s.account, "proj");
    assert_eq!(s.mem.as_deref(), Some("64G"));
    assert_eq!(s.nodes, 2);
    assert_eq!(s.ntasks_per_node, None);
    assert_eq!(s.qos.as_deref(), Some("normal"));
    assert_eq!(s.walltime, "01:00:00");
    let opts = scheduler_options(&s);
    let expected: Vec<(String, String)> = vec![
        ("account", "proj"),
        ("walltime", "01:00:00"),
        ("nodes", "2"),
        ("partition", "debug"),
        ("qos", "normal"),
        ("mem", "64G"),
    ]
    .into_iter()
    .map(|(k, v)| (k.to_string(), v.to_string()))
    .collect();
    assert_eq!(opts, expected);
}

#[test]
fn updates_replace_only_given_fields() {
    let mut s = new_slurm_scheduler(3, "short", "proj", &None, &None, 1, &None, "normal", &None, "01:00:00", &None);
    assert!(!apply_scheduler_update(&mut s, &no_update()));
    assert_eq!(s.account, "proj");
    assert_eq!(s.nodes, 1);

    let mut u = no_update();
    u.nodes = Some(4);
    u.walltime = Some("04:00:00".to_string());
    u.gres = Some("gpu:2".to_string());
    assert!(apply_scheduler_update(&mut s, &u));
    assert_eq!(s.nodes, 4);
    assert_eq!(s.walltime, "04:00:00");
    assert_eq!(s.gres.as_deref(), Some("gpu:2"));
    assert_eq!(s.account, "proj");
    assert_eq!(s.name.as_deref(), Some("short"));
}

#[test]
fn submission_scripts_are_named_by_job() {
    let name = submission_job_name("wf3", 0);
    assert_eq!(name, "wf3_0");
    assert_eq!(submission_job_name("p", 12), "p_12");
    assert_eq!(submission_script_path("output", &name), "output/wf3_0.sh");
}
