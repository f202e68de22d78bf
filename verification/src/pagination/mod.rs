//! Reading server lists page by page.

pub mod collect;
pub mod compute_nodes;
pub mod jobs;
pub mod pager;
pub mod results;
pub mod slurm_schedulers;
pub mod user_data;
pub mod workflows;
pub mod server;
