use torc::report::{lookup_requirements, result_log_paths, JobRequirementRef, RequirementLookup, RunnerLogs};

#[test]
fn local_results_name_the_runner_log() {
    let r = result_log_paths("out", 5, 12, 2, "local", "node1", 4242, None);
    assert_eq!(r.job_stdout, "out/job_stdio/job_5_12_2.o");
    assert_eq!(r.job_stderr, "out/job_stdio/job_5_12_2.e");
    match r.runner {
        RunnerLogs::Local { job_runner_log } => assert_eq!(job_runner_log, "out/job_runner_node1_5_2.log"),
        _ => panic!("expected a local runner log"),
    }
}

#[test]
fn slurm_results_name_slurm_outputs() {
    let r = result_log_paths("out", 5, 12, 1, "slurm", "n07", 311, Some("9876"));
    match r.runner {
        RunnerLogs::Slurm { job_runner_log, slurm_stdout, slurm_stderr } => {
            assert_eq!(job_runner_log, "out/job_runner_slurm_9876_n07_311.log");
            assert_eq!(slurm_stdout, "out/slurm_output_9876.o");
            assert_eq!(slurm_stderr, "out/slurm_output_9876.e");
        }
        _ => panic!("expected slurm logs"),
    }
    let r = result_log_paths("out", 5, 12, 1, "slurm", "n07", 311, None);
    assert!(matches!(r.runner, RunnerLogs::SlurmWithoutJob));
    let r = result_log_paths("out", 5, 12, 1, "cloud", "n07", 311, Some("1"));
    assert!(matches!(r.runner, RunnerLogs::Unknown));
}

fn job(id: Option<i64>, rr: Option<i64>) -> JobRequirementRef {
    JobRequirementRef { id, resource_requirements_id: rr }
}

#[test]
fn requirements_are_found_through_the_job() {
    let jobs = vec![job(Some(1), Some(10)), job(None, Some(11)), job(Some(2), None), job(Some(3), Some(99))];
    let rrs = vec![Some(11), Some(10), None];
    assert!(matches!(
        lookup_requirements(1, &jobs, &rrs),
        RequirementLookup::Found { job: 0, requirements: 1 }
    ));
    assert!(matches!(lookup_requirements(2, &jobs, &rrs), RequirementLookup::NoRequirements));
    assert!(matches!(lookup_requirements(3, &jobs, &rrs), RequirementLookup::RequirementsMissing(99)));
    assert!(matches!(lookup_requirements(4, &jobs, &rrs), RequirementLookup::JobMissing));
}

#[test]
fn a_later_job_of_the_same_id_wins() {
    let jobs = vec![job(Some(1), Some(10)), job(Some(1), Some(11))];
    let rrs = vec![Some(10), Some(11), Some(11)];
    assert!(matches!(
        lookup_requirements(1, &jobs, &rrs),
        RequirementLookup::Found { job: 1, requirements: 2 }
    ));
}
