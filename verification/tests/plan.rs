use torc::plan::graph::JobSpec;
use torc::plan::stages::{ExecutionPlan, PlanError, WorkflowActionSpec, WorkflowSpec};
use torc::plan::stored::{JobModel, WorkflowActionModel};

fn job(name: &str, after: &[&str]) -> JobSpec {
    JobSpec {
        name: name.to_string(),
        blocked_by_job_names: if after.is_empty() { None } else { Some(after.iter().map(|s| s.to_string()).collect()) },
        blocked_by_job_name_regexes: None,
        input_file_names: None,
        output_file_names: None,
        input_user_data_names: None,
        output_data_names: None,
    }
}

fn schedule(trigger: &str, names: &[&str], regexes: Option<Vec<String>>) -> WorkflowActionSpec {
    WorkflowActionSpec {
        trigger_type: trigger.to_string(),
        action_type: "schedule_nodes".to_string(),
        job_names: Some(names.iter().map(|s| s.to_string()).collect()),
        job_name_regexes: regexes,
        scheduler_name: Some("big".to_string()),
        scheduler_type: Some("slurm".to_string()),
        num_allocations: None,
    }
}

#[test]
fn plan_follows_dependencies() {
    let mut work = job("work", &[]);
    work.input_file_names = Some(vec!["in.txt".to_string()]);
    let mut prep = job("prep", &[]);
    prep.output_file_names = Some(vec!["in.txt".to_string()]);
    let report = job("report", &["work"]);
    let spec = WorkflowSpec {
        jobs: vec![work, prep, report],
        actions: Some(vec![
            schedule("on_workflow_start", &["prep"], None),
            schedule("on_jobs_ready", &["report"], None),
        ]),
    };
    let plan = ExecutionPlan::from_spec(&spec).ok().unwrap();
    assert_eq!(plan.stages.len(), 3);
    let s0 = &plan.stages[0];
    assert_eq!(s0.stage_number, 0);
    assert_eq!(s0.trigger_description, "Workflow Start");
    assert_eq!(s0.jobs_becoming_ready, vec!["prep"]);
    assert_eq!(s0.scheduler_allocations.len(), 1);
    assert_eq!(s0.scheduler_allocations[0].scheduler_name, "big");
    assert_eq!(s0.scheduler_allocations[0].num_allocations, 1);
    assert_eq!(s0.scheduler_allocations[0].job_names, vec!["prep"]);
    let s1 = &plan.stages[1];
    assert_eq!(s1.stage_number, 1);
    assert_eq!(s1.trigger_description, "When job 'prep' completes");
    assert_eq!(s1.jobs_becoming_ready, vec!["work"]);
    assert!(s1.scheduler_allocations.is_empty());
    let s2 = &plan.stages[2];
    assert_eq!(s2.stage_number, 2);
    assert_eq!(s2.trigger_description, "When job 'work' completes");
    assert_eq!(s2.jobs_becoming_ready, vec!["report"]);
    assert_eq!(s2.scheduler_allocations.len(), 1);
}

#[test]
fn patterns_select_jobs() {
    let mut sink = job("sink", &[]);
    sink.blocked_by_job_name_regexes = Some(vec!["^job_".to_string()]);
    let spec = WorkflowSpec {
        jobs: vec![job("job_1", &[]), job("job_2", &[]), job("job_3", &[]), job("job_4", &[]), sink],
        actions: None,
    };
    let plan = ExecutionPlan::from_spec(&spec).ok().unwrap();
    assert_eq!(plan.stages.len(), 2);
    assert_eq!(plan.stages[0].jobs_becoming_ready, vec!["job_1", "job_2", "job_3", "job_4"]);
    assert_eq!(plan.stages[1].trigger_description, "When 4 jobs complete ('job_1', 'job_2'...)");
    assert_eq!(plan.stages[1].jobs_becoming_ready, vec!["sink"]);
}

#[test]
fn three_jobs_are_named() {
    let spec = WorkflowSpec {
        jobs: vec![job("a", &[]), job("b", &[]), job("c", &[]), job("d", &["a", "b", "c"])],
        actions: None,
    };
    let plan = ExecutionPlan::from_spec(&spec).ok().unwrap();
    assert_eq!(plan.stages[1].trigger_description, "When jobs 'a', 'b', 'c' complete");
}

#[test]
fn circular_dependencies_are_refused() {
    let spec = WorkflowSpec { jobs: vec![job("a", &["b"]), job("b", &["a"])], actions: None };
    match ExecutionPlan::from_spec(&spec) {
        Err(e) => {
            assert!(matches!(e, PlanError::CircularDependency));
            assert_eq!(e.message(), "Circular dependency detected in job graph");
        }
        Ok(_) => panic!("expected an error"),
    }
    let missing = WorkflowSpec { jobs: vec![job("a", &["ghost"])], actions: None };
    assert!(matches!(ExecutionPlan::from_spec(&missing), Err(PlanError::CircularDependency)));
}

#[test]
fn bad_patterns_are_refused() {
    let mut a = job("a", &[]);
    a.blocked_by_job_name_regexes = Some(vec!["(".to_string()]);
    let spec = WorkflowSpec { jobs: vec![a], actions: None };
    match ExecutionPlan::from_spec(&spec) {
        Err(PlanError::InvalidRegex(p)) => assert_eq!(p, "("),
        _ => panic!("expected an invalid pattern"),
    }
}

#[test]
fn actions_without_scheduler_are_refused() {
    let mut action = schedule("on_workflow_start", &["a"], None);
    action.scheduler_name = None;
    let spec = WorkflowSpec { jobs: vec![job("a", &[])], actions: Some(vec![action]) };
    assert!(matches!(ExecutionPlan::from_spec(&spec), Err(PlanError::MissingSchedulerName)));
    let mut action = schedule("on_workflow_start", &["a"], None);
    action.scheduler_type = None;
    let spec = WorkflowSpec { jobs: vec![job("a", &[])], actions: Some(vec![action]) };
    assert!(matches!(ExecutionPlan::from_spec(&spec), Err(PlanError::MissingSchedulerType)));
}

fn stored(id: Option<i64>, name: &str, after: &[i64]) -> JobModel {
    JobModel { id, name: name.to_string(), blocked_by_job_ids: Some(after.to_vec()) }
}

#[test]
fn stored_plan_follows_ids() {
    let jobs = vec![stored(Some(1), "a", &[]), stored(Some(2), "b", &[1, 77])];
    let actions = vec![WorkflowActionModel {
        trigger_type: "on_jobs_ready".to_string(),
        action_type: "schedule_nodes".to_string(),
        scheduler_type: Some("slurm".to_string()),
        num_allocations: Some(2),
        job_ids: Some(vec![2]),
    }];
    let plan = ExecutionPlan::from_database_models(&jobs, &actions).ok().unwrap();
    assert_eq!(plan.stages.len(), 2);
    assert_eq!(plan.stages[0].jobs_becoming_ready, vec!["a"]);
    assert_eq!(plan.stages[1].jobs_becoming_ready, vec!["b"]);
    let alloc = &plan.stages[1].scheduler_allocations[0];
    assert_eq!(alloc.scheduler_name, "slurm_scheduler");
    assert_eq!(alloc.scheduler_type, "slurm");
    assert_eq!(alloc.num_allocations, 2);
    assert_eq!(alloc.job_names, vec!["b"]);
}

#[test]
fn stored_jobs_need_ids() {
    let jobs = vec![stored(Some(1), "a", &[]), stored(None, "b", &[])];
    match ExecutionPlan::from_database_models(&jobs, &[]) {
        Err(e) => assert_eq!(e.message(), "Job missing ID"),
        Ok(_) => panic!("expected an error"),
    }
    let jobs = vec![stored(Some(1), "a", &[])];
    let actions = vec![WorkflowActionModel {
        trigger_type: "on_workflow_start".to_string(),
        action_type: "schedule_nodes".to_string(),
        scheduler_type: None,
        num_allocations: None,
        job_ids: None,
    }];
    match ExecutionPlan::from_database_models(&jobs, &actions) {
        Err(e) => assert_eq!(e.message(), "Action config missing scheduler_type"),
        Ok(_) => panic!("expected an error"),
    }
}
