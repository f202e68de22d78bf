//! Verified core of the Torc workflow client.

pub mod access_groups;
pub mod chars;
pub mod diagnosis;
pub mod errors;
pub mod events;
pub mod failure_cache;
pub mod hpc;
pub mod job_process;
pub mod job_runner;
pub mod log_paths;
pub mod models;
pub mod pagination;
pub mod plan;
pub mod recover;
pub mod report;
pub mod resource_monitor;
pub mod slurm;
pub mod support_bundles;
pub mod text;
pub mod utils;
pub mod version_check;
pub mod watch;
pub mod workflow_ops;
