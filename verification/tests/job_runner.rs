use torc::job_runner::{can_handle_action, convert_memory_string_to_bytes, memory_string_to_bytes, ClaimJobsSortMethod, ComputeNodeRules, ResourcePool};

#[test]
fn rules_take_defaults() {
    let r = ComputeNodeRules::new(None, None, None, None);
    assert_eq!(r.compute_node_expiration_buffer_seconds, 60);
    assert!(!r.compute_node_ignore_workflow_completion);
    assert_eq!(r.compute_node_wait_for_healthy_database_minutes, 20);
    assert_eq!(r.jobs_sort_method, ClaimJobsSortMethod::GpusRuntimeMemory);
    let r = ComputeNodeRules::new(Some(0), Some(true), Some(5), Some(ClaimJobsSortMethod::GpusRuntimeMemory));
    assert_eq!(r.compute_node_expiration_buffer_seconds, 0);
    assert!(r.compute_node_ignore_workflow_completion);
    assert_eq!(r.compute_node_wait_for_healthy_database_minutes, 5);
    let r = ComputeNodeRules::new(None, None, Some(-1), None);
    assert_eq!(r.compute_node_wait_for_healthy_database_minutes, u64::MAX);
}

#[test]
fn memory_strings_convert_to_bytes() {
    assert_eq!(convert_memory_string_to_bytes("1024"), Ok(1024));
    assert_eq!(convert_memory_string_to_bytes("1k"), Ok(1024));
    assert_eq!(convert_memory_string_to_bytes("2M"), Ok(2 * 1024 * 1024));
    assert_eq!(convert_memory_string_to_bytes(" 3g "), Ok(3 * 1024 * 1024 * 1024));
    assert_eq!(convert_memory_string_to_bytes("4T"), Ok(4 * 1024_i64.pow(4)));
}

#[test]
fn memory_string_errors() {
    assert_eq!(convert_memory_string_to_bytes(""), Err("Memory string cannot be empty".to_string()));
    assert_eq!(convert_memory_string_to_bytes("5x"), Err("Invalid memory unit: x".to_string()));
    assert_eq!(convert_memory_string_to_bytes("1.5g"), Err("Invalid number in memory string: 1.5".to_string()));
    assert_eq!(convert_memory_string_to_bytes("-1g"), Err("Memory size cannot be negative".to_string()));
    assert_eq!(convert_memory_string_to_bytes("9000000000t"), Err("Memory size too large, would cause overflow".to_string()));
    assert_eq!(memory_string_to_bytes("5é"), None);
    assert_eq!(memory_string_to_bytes("5k"), Some(Ok(5120)));
}

#[test]
fn runner_handles_commands_and_slurm() {
    assert!(can_handle_action("run_commands", None));
    assert!(can_handle_action("schedule_nodes", Some("slurm")));
    assert!(!can_handle_action("schedule_nodes", Some("local")));
    assert!(!can_handle_action("schedule_nodes", None));
    assert!(!can_handle_action("other", Some("slurm")));
}

#[test]
fn finished_jobs_give_their_resources_back() {
    let mut pool = ResourcePool::new(8, 2);
    pool.decrement(3, 1);
    assert_eq!((pool.num_cpus, pool.num_gpus), (5, 1));
    pool.decrement(5, 1);
    assert_eq!((pool.num_cpus, pool.num_gpus), (0, 0));
    pool.increment(5, 1);
    pool.increment(3, 1);
    assert_eq!((pool.num_cpus, pool.num_gpus), (8, 2));
    assert_eq!((pool.orig_cpus, pool.orig_gpus), (8, 2));
}
