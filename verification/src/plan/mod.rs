//! The execution plan of a workflow: which jobs depend on which, the order
//! in which they become ready, and the Slurm allocations each stage asks for.


pub mod graph;
pub mod names;
pub mod pattern;
pub mod stages;
pub mod stored;
pub mod topo;

pub mod compact;
