//! Values of the Torc data model that the client's logic reads.

use vstd::prelude::*;

verus! {

/// The status of a job.
#[derive(Debug, Clone, Copy, PartialEq, Eq, Structural)]
pub enum JobStatus {
    /// Not yet initialized.
    Uninitialized,
    /// Waiting on other jobs.
    Blocked,
    /// Ready to run.
    Ready,
    /// Claimed by a worker, not yet started.
    Pending,
    /// Running.
    Running,
    /// Its process ended; the server has yet to record how.
    Done,
    /// Finished successfully.
    Completed,
    /// Finished with an error.
    Failed,
    /// Canceled by a user.
    Canceled,
    /// Terminated by the job runner.
    Terminated,
    /// Disabled by a user.
    Disabled,
}

} // verus!
