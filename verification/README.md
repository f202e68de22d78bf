# torc

The client side of the Torc workflow orchestration system, as a library whose
behaviour is stated in `requires`/`ensures` contracts and proved with Verus.

## Layout

- `src/` — the verified library.
  - `text.rs`, `chars.rs`: strings as character sequences; decimal numbers,
    splitting, trimming, searching.
  - `plan/`: the execution plan of a workflow — dependency graph, topological
    levels, stages and the Slurm allocations they ask for, job name patterns
    (`regex`), and the compact display of job name lists.
  - `hpc.rs`: reading `sinfo` and `scontrol` output, merging partitions, and
    writing HPC profiles.
  - `slurm.rs`, `access_groups.rs`, `events.rs`, `report.rs`,
    `workflow_ops.rs`: the decisions and request data of the command groups.
  - `watch.rs`, `diagnosis.rs`, `failure_cache.rs`, `recover.rs`: watching a
    workflow, diagnosing and recovering failed jobs.
  - `support_bundles.rs`, `log_paths.rs`: log files and their names.
  - `pagination/`: reading long lists page by page.
  - `job_runner.rs`, `job_process.rs`, `resource_monitor.rs`,
    `version_check.rs`, `utils.rs`, `errors.rs`, `models.rs`.
- `tests/` — tests of the library on concrete values.
- `app/` — ordinary Rust around the library: running Slurm's tools, files,
  archives, SQLite, GPU and process queries, tables, and the command line.
