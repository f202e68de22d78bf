//! The reports on a workflow's results: where a resource utilization check
//! finds a result's requirements, and the log files that a results report
//! lists for one job result.
//!
//! Every result names the job's standard output and error; what else it names
//! depends on the kind of compute node that ran the job.

use vstd::prelude::*;
use crate::chars::chars_eq_str;
use crate::log_paths::{
    get_job_runner_log_file, get_job_stderr_path, get_job_stdout_path,
    get_slurm_job_runner_log_file, get_slurm_stderr_path, get_slurm_stdout_path,
    job_runner_log_name, job_stdio_name, slurm_output_name, slurm_runner_log_name,
};
use crate::text::chars_of;

verus! {

/// The job runner's logs, as far as the compute node record tells them.
pub enum RunnerLogs {
    /// A node of the local runner: its log file.
    Local { job_runner_log: String },
    /// A node inside a Slurm allocation: the runner's log and Slurm's output.
    Slurm { job_runner_log: String, slurm_stdout: String, slurm_stderr: String },
    /// A Slurm node whose scheduler record names no Slurm job.
    SlurmWithoutJob,
    /// A node of any other type: no runner log is known.
    Unknown,
}

/// The log files of one job result.
pub struct ResultLogPaths {
    pub job_stdout: String,
    pub job_stderr: String,
    pub runner: RunnerLogs,
}

/// A job as the utilization check sees it: its id and the id of its resource
/// requirements.
pub struct JobRequirementRef {
    pub id: Option<i64>,
    pub resource_requirements_id: Option<i64>,
}

/// Where the requirements of a result's job are, or why they are not found.
pub enum RequirementLookup {
    /// No job of the workflow has the result's job id.
    JobMissing,
    /// The job has no resource requirements.
    NoRequirements,
    /// No requirements of the workflow have the job's requirements id.
    RequirementsMissing(i64),
    /// The job and its requirements, by their indices in the lists.
    Found { job: usize, requirements: usize },
}

/// The last index at which `ids` holds `id`; -1 where it holds it nowhere.
/// (The lists are looked up as maps from id to item, where a later item
/// replaces an earlier one of the same id.)
pub open spec fn last_id_index(ids: Seq<Option<i64>>, id: i64) -> int
    decreases ids.len(),
{
    if ids.len() == 0 {
        -1
    } else if ids.last() == Some(id) {
        ids.len() - 1
    } else {
        last_id_index(ids.drop_last(), id)
    }
}

proof fn lemma_last_id_index_range(ids: Seq<Option<i64>>, id: i64)
    ensures
        -1 <= last_id_index(ids, id) < ids.len(),
        last_id_index(ids, id) >= 0 ==> ids[last_id_index(ids, id)] == Some(id),
    decreases ids.len(),
{
    if ids.len() > 0 && ids.last() != Some(id) {
        lemma_last_id_index_range(ids.drop_last(), id);
    }
}

/// The ids of a list of jobs.
pub open spec fn job_ids(jobs: Seq<JobRequirementRef>) -> Seq<Option<i64>> {
    Seq::new(jobs.len(), |i: int| jobs[i].id)
}

/// Where the check finds the requirements of the job `job_id`.
pub open spec fn lookup_of(
    job_id: i64,
    jobs: Seq<JobRequirementRef>,
    requirement_ids: Seq<Option<i64>>,
) -> RequirementLookup {
    let j = last_id_index(job_ids(jobs), job_id);
    if j < 0 {
        RequirementLookup::JobMissing
    } else {
        match jobs[j].resource_requirements_id {
            None => RequirementLookup::NoRequirements,
            Some(rr) => {
                let k = last_id_index(requirement_ids, rr);
                if k < 0 {
                    RequirementLookup::RequirementsMissing(rr)
                } else {
                    RequirementLookup::Found { job: j as usize, requirements: k as usize }
                }
            },
        }
    }
}

fn last_index_of(ids: &Vec<Option<i64>>, id: i64) -> (r: Option<usize>)
    ensures
        match r {
            Some(i) => i as int == last_id_index(ids@, id),
            None => last_id_index(ids@, id) == -1,
        },
{
    let mut found: Option<usize> = None;
    let mut i: usize = 0;
    while i < ids.len()
        invariant
            i <= ids@.len(),
            match found {
                Some(k) => k as int == last_id_index(ids@.take(i as int), id),
                None => last_id_index(ids@.take(i as int), id) == -1,
            },
        decreases ids@.len() - i,
    {
        assert(ids@.take(i + 1).drop_last() =~= ids@.take(i as int));
        if ids[i] == Some(id) {
            found = Some(i);
        }
        i = i + 1;
    }
    assert(ids@.take(ids@.len() as int) =~= ids@);
    found
}

/// Finds the requirements of the job `job_id` of a result, among the jobs of
/// the workflow and the ids of its resource requirements.
pub fn lookup_requirements(
    job_id: i64,
    jobs: &Vec<JobRequirementRef>,
    requirement_ids: &Vec<Option<i64>>,
) -> (r: RequirementLookup)
    ensures
        r == lookup_of(job_id, jobs@, requirement_ids@),
{
    let mut ids: Vec<Option<i64>> = Vec::new();
    let mut i: usize = 0;
    while i < jobs.len()
        invariant
            i <= jobs@.len(),
            ids@ == job_ids(jobs@).take(i as int),
        decreases jobs@.len() - i,
    {
        ids.push(jobs[i].id);
        assert(ids@ =~= job_ids(jobs@).take(i + 1));
        i = i + 1;
    }
    assert(ids@ =~= job_ids(jobs@));
    proof {
        lemma_last_id_index_range(job_ids(jobs@), job_id);
    }
    match last_index_of(&ids, job_id) {
        None => RequirementLookup::JobMissing,
        Some(j) => match jobs[j].resource_requirements_id {
            None => RequirementLookup::NoRequirements,
            Some(rr) => {
                proof {
                    lemma_last_id_index_range(requirement_ids@, rr);
                }
                match last_index_of(requirement_ids, rr) {
                    None => RequirementLookup::RequirementsMissing(rr),
                    Some(k) => RequirementLookup::Found { job: j, requirements: k },
                }
            },
        },
    }
}

/// What a report lists of the runner's logs, for a node of type `node_type`.
pub open spec fn runner_logs_hold(
    r: RunnerLogs,
    dir: Seq<char>,
    workflow_id: int,
    run_id: int,
    node_type: Seq<char>,
    hostname: Seq<char>,
    pid: i64,
    slurm_job_id: Option<Seq<char>>,
) -> bool {
    if node_type == "local"@ {
        r matches RunnerLogs::Local { job_runner_log }
            && job_runner_log@ == job_runner_log_name(dir, hostname, workflow_id, run_id)
    } else if node_type == "slurm"@ {
        match slurm_job_id {
            Some(id) => r matches RunnerLogs::Slurm { job_runner_log, slurm_stdout, slurm_stderr }
                && job_runner_log@ == slurm_runner_log_name(dir, id, hostname, (pid as usize) as nat)
                && slurm_stdout@ == slurm_output_name(dir, id, ".o"@)
                && slurm_stderr@ == slurm_output_name(dir, id, ".e"@),
            None => r is SlurmWithoutJob,
        }
    } else {
        r is Unknown
    }
}

/// The log files of the result of `job_id` in run `run_id`, for a job that ran
/// on a node of type `compute_node_type` (`local` or `slurm`) named `hostname`,
/// whose job runner had process id `pid`, inside the Slurm job `slurm_job_id`
/// where the scheduler record names one. A Slurm runner's log is named by the
/// node's host name and process id.
pub fn result_log_paths(
    output_dir: &str,
    workflow_id: i64,
    job_id: i64,
    run_id: i64,
    compute_node_type: &str,
    hostname: &str,
    pid: i64,
    slurm_job_id: Option<&str>,
) -> (r: ResultLogPaths)
    ensures
        r.job_stdout@ == job_stdio_name(output_dir@, workflow_id as int, job_id as int, run_id as int, ".o"@),
        r.job_stderr@ == job_stdio_name(output_dir@, workflow_id as int, job_id as int, run_id as int, ".e"@),
        runner_logs_hold(
            r.runner,
            output_dir@,
            workflow_id as int,
            run_id as int,
            compute_node_type@,
            hostname@,
            pid,
            match slurm_job_id {
                Some(s) => Some(s@),
                None => None,
            },
        ),
{
    let job_stdout = get_job_stdout_path(output_dir, workflow_id, job_id, run_id);
    let job_stderr = get_job_stderr_path(output_dir, workflow_id, job_id, run_id);
    let node_type = chars_of(compute_node_type);
    let runner = if chars_eq_str(node_type.as_slice(), "local") {
        RunnerLogs::Local {
            job_runner_log: get_job_runner_log_file(output_dir, hostname, workflow_id, run_id),
        }
    } else if chars_eq_str(node_type.as_slice(), "slurm") {
        match slurm_job_id {
            Some(id) => {
                let task_pid = pid as usize;
                RunnerLogs::Slurm {
                    job_runner_log: get_slurm_job_runner_log_file(output_dir, id, hostname, task_pid),
                    slurm_stdout: get_slurm_stdout_path(output_dir, id),
                    slurm_stderr: get_slurm_stderr_path(output_dir, id),
                }
            },
            None => RunnerLogs::SlurmWithoutJob,
        }
    } else {
        RunnerLogs::Unknown
    };
    ResultLogPaths { job_stdout, job_stderr, runner }
}

} // verus!
