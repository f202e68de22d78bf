//! The life of a job's process as the job runner tracks it: started once,
//! then completed with a return code and a status.

use vstd::prelude::*;
use crate::models::JobStatus;
use crate::text::{append_str, string_from};

verus! {

/// The command line a job runs: its invocation script, when it has one,
/// in front of its command.
pub open spec fn command_line_of(command: Seq<char>, invocation_script: Option<Seq<char>>) -> Seq<char> {
    match invocation_script {
        Some(s) => s + " "@ + command,
        None => command,
    }
}

/// Builds the command line a job runs.
pub fn command_line(command: &str, invocation_script: Option<&str>) -> (r: String)
    ensures
        r@ == command_line_of(command@, crate::text::opt_str_chars(invocation_script)),
{
    match invocation_script {
        Some(s) => {
            let mut out = string_from(s);
            append_str(&mut out, " ");
            append_str(&mut out, command);
            out
        },
        None => string_from(command),
    }
}

/// What the runner knows of one job's process.
pub struct JobProcess {
    pub job_id: i64,
    pub is_running: bool,
    pub is_complete: bool,
    pub status: JobStatus,
    pub return_code: Option<i64>,
}

impl JobProcess {
    /// Whether the record is consistent: a completed process has a return
    /// code, one that has not completed has none.
    pub open spec fn wf(&self) -> bool {
        &&& self.is_complete ==> self.return_code is Some
        &&& !self.is_complete ==> self.return_code is None
    }

    /// A job not started yet, in the status the server gave it.
    pub fn new(job_id: i64, status: JobStatus) -> (r: Self)
        ensures
            r.wf(),
            r.job_id == job_id,
            r.status == status,
            !r.is_running,
            !r.is_complete,
    {
        JobProcess { job_id, is_running: false, is_complete: false, status, return_code: None }
    }

    /// A job may be started unless it already runs.
    pub fn check_can_start(&self) -> (r: Result<(), String>)
        ensures
            match r {
                Ok(()) => !self.is_running,
                Err(e) => self.is_running && e@ == "Job is already running"@,
            },
    {
        if self.is_running {
            Err(string_from("Job is already running"))
        } else {
            Ok(())
        }
    }

    /// Records that the process was spawned: it runs. A job that completed
    /// before keeps its completion and return code until it completes again.
    pub fn mark_started(&mut self)
        requires
            old(self).wf(),
            !old(self).is_running,
        ensures
            final(self).wf(),
            final(self).is_running,
            final(self).is_complete == old(self).is_complete,
            final(self).return_code == old(self).return_code,
            final(self).status == JobStatus::Running,
            final(self).job_id == old(self).job_id,
    {
        self.is_running = true;
        self.status = JobStatus::Running;
    }

    /// Records that the process ended with the given return code and
    /// status.
    pub fn mark_completed(&mut self, return_code: i64, status: JobStatus)
        ensures
            final(self).wf(),
            !final(self).is_running,
            final(self).is_complete,
            final(self).status == status,
            final(self).return_code == Some(return_code),
            final(self).job_id == old(self).job_id,
    {
        self.is_running = false;
        self.is_complete = true;
        self.status = status;
        self.return_code = Some(return_code);
    }
}

/// The return code of an exited process: its exit code, or -1 when a
/// signal ended it.
pub fn return_code_of(code: Option<i32>) -> (r: i64)
    ensures
        r == match code {
            Some(c) => c as int,
            None => -1,
        },
{
    match code {
        Some(c) => c as i64,
        None => -1,
    }
}

} // verus!
