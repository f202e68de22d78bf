use torc::log_paths::{
    get_job_runner_log_file, get_job_stderr_path, get_job_stdout_path, get_slurm_dmesg_log_file,
    get_slurm_env_log_file, get_slurm_job_runner_log_file, get_slurm_stderr_path,
    get_slurm_stdout_path,
};

#[test]
fn log_file_names() {
    assert_eq!(get_job_runner_log_file("out", "host1", 3, 2), "out/job_runner_host1_3_2.log");
    assert_eq!(get_slurm_job_runner_log_file("out", "77", "n1", 5), "out/job_runner_slurm_77_n1_5.log");
    assert_eq!(get_job_stdout_path("out", 1, 2, 3), "out/job_stdio/job_1_2_3.o");
    assert_eq!(get_job_stderr_path("out", 1, 2, 3), "out/job_stdio/job_1_2_3.e");
    assert_eq!(get_job_stdout_path("out", -1, 2, 3), "out/job_stdio/job_-1_2_3.o");
}

#[test]
fn slurm_log_file_names() {
    assert_eq!(get_slurm_stdout_path("out", "77"), "out/slurm_output_77.o");
    assert_eq!(get_slurm_stderr_path("out", "77"), "out/slurm_output_77.e");
    assert_eq!(get_slurm_dmesg_log_file("out", "77", "n1", 5), "out/dmesg_slurm_77_n1_5.log");
    assert_eq!(get_slurm_env_log_file("out", "77", "n1", 5), "out/slurm_env_77_n1_5.log");
}
