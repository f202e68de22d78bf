//! Names of the log files that job runners, jobs and Slurm allocations write.
//!
//! Every path is the output directory, a `/`, and a file name built from the
//! identifiers of the run.

use vstd::prelude::*;
use crate::text::{append_str, append_chars, decimal, decimal_chars, decimal_int, i64_to_string};

verus! {

/// `{dir}/job_runner_{hostname}_{workflow_id}_{run_id}.log`
pub open spec fn job_runner_log_name(dir: Seq<char>, hostname: Seq<char>, workflow_id: int, run_id: int) -> Seq<char> {
    dir + "/job_runner_"@ + hostname + "_"@ + decimal_int(workflow_id) + "_"@ + decimal_int(run_id) + ".log"@
}

/// `{dir}/job_runner_slurm_{job_id}_{node_id}_{task_pid}.log`
pub open spec fn slurm_runner_log_name(dir: Seq<char>, job_id: Seq<char>, node_id: Seq<char>, task_pid: nat) -> Seq<char> {
    dir + "/job_runner_slurm_"@ + job_id + "_"@ + node_id + "_"@ + decimal(task_pid) + ".log"@
}

/// `{dir}/job_stdio/job_{workflow_id}_{job_id}_{run_id}{ext}`
pub open spec fn job_stdio_name(dir: Seq<char>, workflow_id: int, job_id: int, run_id: int, ext: Seq<char>) -> Seq<char> {
    dir + "/job_stdio/job_"@ + decimal_int(workflow_id) + "_"@ + decimal_int(job_id) + "_"@ + decimal_int(run_id) + ext
}

/// `{dir}/slurm_output_{slurm_job_id}{ext}`
pub open spec fn slurm_output_name(dir: Seq<char>, slurm_job_id: Seq<char>, ext: Seq<char>) -> Seq<char> {
    dir + "/slurm_output_"@ + slurm_job_id + ext
}

fn append_i64(s: &mut String, n: i64)
    ensures
        final(s)@ == old(s)@ + decimal_int(n as int),
{
    let t = i64_to_string(n);
    append_str(s, t.as_str());
}

fn append_usize(s: &mut String, n: usize)
    ensures
        final(s)@ == old(s)@ + decimal(n as nat),
{
    let v = decimal_chars(n as u64);
    append_chars(s, v.as_slice());
}

/// The log file of the local job runner:
/// `{dir}/job_runner_{hostname}_{workflow_id}_{run_id}.log`.
pub fn get_job_runner_log_file(output_dir: &str, hostname: &str, workflow_id: i64, run_id: i64) -> (r: String)
    ensures
        r@ == job_runner_log_name(output_dir@, hostname@, workflow_id as int, run_id as int),
{
    let mut s = String::new();
    append_str(&mut s, output_dir);
    append_str(&mut s, "/job_runner_");
    append_str(&mut s, hostname);
    append_str(&mut s, "_");
    append_i64(&mut s, workflow_id);
    append_str(&mut s, "_");
    append_i64(&mut s, run_id);
    append_str(&mut s, ".log");
    s
}

/// The log file of a job runner inside a Slurm allocation:
/// `{dir}/job_runner_slurm_{job_id}_{node_id}_{task_pid}.log`.
pub fn get_slurm_job_runner_log_file(output_dir: &str, job_id: &str, node_id: &str, task_pid: usize) -> (r: String)
    ensures
        r@ == slurm_runner_log_name(output_dir@, job_id@, node_id@, task_pid as nat),
{
    let mut s = String::new();
    append_str(&mut s, output_dir);
    append_str(&mut s, "/job_runner_slurm_");
    append_str(&mut s, job_id);
    append_str(&mut s, "_");
    append_str(&mut s, node_id);
    append_str(&mut s, "_");
    append_usize(&mut s, task_pid);
    append_str(&mut s, ".log");
    s
}

fn job_stdio_path(output_dir: &str, workflow_id: i64, job_id: i64, run_id: i64, ext: &str) -> (r: String)
    ensures
        r@ == output_dir@ + "/job_stdio/job_"@ + decimal_int(workflow_id as int) + "_"@
            + decimal_int(job_id as int) + "_"@ + decimal_int(run_id as int) + ext@,
{
    let mut s = String::new();
    append_str(&mut s, output_dir);
    append_str(&mut s, "/job_stdio/job_");
    append_i64(&mut s, workflow_id);
    append_str(&mut s, "_");
    append_i64(&mut s, job_id);
    append_str(&mut s, "_");
    append_i64(&mut s, run_id);
    append_str(&mut s, ext);
    s
}

/// The standard output of a job run:
/// `{dir}/job_stdio/job_{workflow_id}_{job_id}_{run_id}.o`.
pub fn get_job_stdout_path(output_dir: &str, workflow_id: i64, job_id: i64, run_id: i64) -> (r: String)
    ensures
        r@ == job_stdio_name(output_dir@, workflow_id as int, job_id as int, run_id as int, ".o"@),
{
    job_stdio_path(output_dir, workflow_id, job_id, run_id, ".o")
}

/// The standard error of a job run:
/// `{dir}/job_stdio/job_{workflow_id}_{job_id}_{run_id}.e`.
pub fn get_job_stderr_path(output_dir: &str, workflow_id: i64, job_id: i64, run_id: i64) -> (r: String)
    ensures
        r@ == job_stdio_name(output_dir@, workflow_id as int, job_id as int, run_id as int, ".e"@),
{
    job_stdio_path(output_dir, workflow_id, job_id, run_id, ".e")
}

/// Slurm's standard output for an allocation: `{dir}/slurm_output_{slurm_job_id}.o`.
pub fn get_slurm_stdout_path(output_dir: &str, slurm_job_id: &str) -> (r: String)
    ensures
        r@ == slurm_output_name(output_dir@, slurm_job_id@, ".o"@),
{
    let mut s = String::new();
    append_str(&mut s, output_dir);
    append_str(&mut s, "/slurm_output_");
    append_str(&mut s, slurm_job_id);
    append_str(&mut s, ".o");
    s
}

/// Slurm's standard error for an allocation: `{dir}/slurm_output_{slurm_job_id}.e`.
pub fn get_slurm_stderr_path(output_dir: &str, slurm_job_id: &str) -> (r: String)
    ensures
        r@ == slurm_output_name(output_dir@, slurm_job_id@, ".e"@),
{
    let mut s = String::new();
    append_str(&mut s, output_dir);
    append_str(&mut s, "/slurm_output_");
    append_str(&mut s, slurm_job_id);
    append_str(&mut s, ".e");
    s
}

fn slurm_task_file(output_dir: &str, stem: &str, job_id: &str, node_id: &str, task_pid: usize) -> (r: String)
    ensures
        r@ == output_dir@ + stem@ + job_id@ + "_"@ + node_id@ + "_"@ + decimal(task_pid as nat)
            + ".log"@,
{
    let mut s = String::new();
    append_str(&mut s, output_dir);
    append_str(&mut s, stem);
    append_str(&mut s, job_id);
    append_str(&mut s, "_");
    append_str(&mut s, node_id);
    append_str(&mut s, "_");
    append_usize(&mut s, task_pid);
    append_str(&mut s, ".log");
    s
}

/// The `dmesg` capture of a Slurm job runner:
/// `{dir}/dmesg_slurm_{job_id}_{node_id}_{task_pid}.log`.
pub fn get_slurm_dmesg_log_file(output_dir: &str, job_id: &str, node_id: &str, task_pid: usize) -> (r: String)
    ensures
        r@ == output_dir@ + "/dmesg_slurm_"@ + job_id@ + "_"@ + node_id@ + "_"@ + decimal(
            task_pid as nat,
        ) + ".log"@,
{
    slurm_task_file(output_dir, "/dmesg_slurm_", job_id, node_id, task_pid)
}

/// The environment capture of a Slurm job runner:
/// `{dir}/slurm_env_{job_id}_{node_id}_{task_pid}.log`.
pub fn get_slurm_env_log_file(output_dir: &str, job_id: &str, node_id: &str, task_pid: usize) -> (r: String)
    ensures
        r@ == output_dir@ + "/slurm_env_"@ + job_id@ + "_"@ + node_id@ + "_"@ + decimal(
            task_pid as nat,
        ) + ".log"@,
{
    slurm_task_file(output_dir, "/slurm_env_", job_id, node_id, task_pid)
}

} // verus!
