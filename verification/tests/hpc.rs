use torc::hpc::{
    capitalize_first, cluster_name_from_config, config_detection, HpcDetection, infer_gpu_from_name, merge_partition,
    parse_gres, parse_scontrol_output, parse_sinfo_string, parse_slurm_timelimit,
    parse_time_component, partition_names, render_toml_profile, sinfo_in_range,
    timelimit_in_range, HpcPartitionConfig, ScontrolPartitionInfo, SinfoPartition,
};

#[test]
fn test_parse_gres_simple_count() {
    let (count, gpu_type) = parse_gres(&Some("gpu:4".to_string()));
    assert_eq!(count, Some(4));
    assert_eq!(gpu_type, None);
}

#[test]
fn test_parse_gres_with_type() {
    let (count, gpu_type) = parse_gres(&Some("gpu:a100:4".to_string()));
    assert_eq!(count, Some(4));
    assert_eq!(gpu_type, Some("a100".to_string()));
}

#[test]
fn test_parse_gres_with_socket_info() {
    let (count, gpu_type) = parse_gres(&Some("gpu:h100:4(S:0-3)".to_string()));
    assert_eq!(count, Some(4));
    assert_eq!(gpu_type, Some("h100".to_string()));
}

#[test]
fn test_parse_gres_simple_with_socket_info() {
    let (count, gpu_type) = parse_gres(&Some("gpu:4(S:0-3)".to_string()));
    assert_eq!(count, Some(4));
    assert_eq!(gpu_type, None);
}

#[test]
fn test_parse_gres_multiple_resources() {
    let (count, gpu_type) = parse_gres(&Some("gpu:a100:2,nvme:1".to_string()));
    assert_eq!(count, Some(2));
    assert_eq!(gpu_type, Some("a100".to_string()));
}

#[test]
fn test_parse_gres_none() {
    let (count, gpu_type) = parse_gres(&None);
    assert_eq!(count, None);
    assert_eq!(gpu_type, None);
}

#[test]
fn test_parse_gres_no_gpu() {
    let (count, gpu_type) = parse_gres(&Some("nvme:1".to_string()));
    assert_eq!(count, None);
    assert_eq!(gpu_type, None);
}

#[test]
fn gres_zero_count_is_skipped() {
    let (count, gpu_type) = parse_gres(&Some("gpu:0,gpu:v100:8".to_string()));
    assert_eq!(count, Some(8));
    assert_eq!(gpu_type, Some("v100".to_string()));
}

#[test]
fn gpu_inferred_from_partition_name() {
    assert_eq!(infer_gpu_from_name("gpu-h100"), Some((4, "h100".to_string())));
    assert_eq!(infer_gpu_from_name("GPU-A100-large"), Some((4, "a100".to_string())));
    assert_eq!(infer_gpu_from_name("debug-gpu"), Some((4, "gpu".to_string())));
    assert_eq!(infer_gpu_from_name("standard"), None);
    assert_eq!(infer_gpu_from_name("a100"), None);
}

#[test]
fn slurm_time_limits() {
    assert_eq!(parse_slurm_timelimit("infinite"), 365 * 24 * 3600);
    assert_eq!(parse_slurm_timelimit("UNLIMITED"), 365 * 24 * 3600);
    assert_eq!(parse_slurm_timelimit("1-00:00:00"), 86400);
    assert_eq!(parse_slurm_timelimit("2-12:30:15"), 2 * 86400 + 12 * 3600 + 30 * 60 + 15);
    assert_eq!(parse_slurm_timelimit("4:00:00"), 4 * 3600);
    assert_eq!(parse_slurm_timelimit("30:00"), 1800);
    assert_eq!(parse_slurm_timelimit("45"), 45 * 60);
    assert_eq!(parse_slurm_timelimit(" 10:05 "), 605);
    assert_eq!(parse_time_component("1:2:3:4"), 0);
    assert_eq!(parse_time_component("x:30"), 30);
}

#[test]
fn time_limits_out_of_range_are_flagged() {
    assert!(timelimit_in_range("4:00:00"));
    assert!(!timelimit_in_range("999999999999999-00:00:00"));
    assert!(timelimit_in_range("99999999999999999999-00:00:00"));
    assert!(!timelimit_in_range("999999999999999999:00:00"));
}

#[test]
fn sinfo_rows_are_read() {
    let input = "standard*|104|240000|2-00:00:00|(null)|100\n\
                 gpu-h100|64|512000|1-00:00:00|gpu:h100:4|8\n\
                 short line\n\
                 debug|x|y|30:00||2\n";
    assert!(sinfo_in_range(input));
    let rows = parse_sinfo_string(input).unwrap();
    assert_eq!(rows.len(), 3);
    assert_eq!(rows[0].name, "standard");
    assert_eq!(rows[0].cpus, 104);
    assert_eq!(rows[0].memory_mb, 240000);
    assert_eq!(rows[0].timelimit_secs, 2 * 86400);
    assert_eq!(rows[0].gres, None);
    assert_eq!(rows[1].gres, Some("gpu:h100:4".to_string()));
    assert_eq!(rows[2].name, "debug");
    assert_eq!(rows[2].cpus, 1);
    assert_eq!(rows[2].memory_mb, 1024);
    assert_eq!(rows[2].timelimit_secs, 1800);
    assert_eq!(rows[2].gres, None);
}

#[test]
fn scontrol_settings_are_read() {
    let text = "PartitionName=gpu\n   MinNodes=1 MaxNodes=UNLIMITED OverSubscribe=FORCE:4\n   QoS=N/A Other=x MinNodes=2\n";
    let info = parse_scontrol_output(text);
    assert_eq!(info.min_nodes, Some(2));
    assert_eq!(info.max_nodes, None);
    assert_eq!(info.oversubscribe, Some("FORCE:4".to_string()));
    assert_eq!(info.default_qos, None);
    let other = parse_scontrol_output("MaxNodes=16 QoS=normal MinNodes=abc");
    assert_eq!(other.max_nodes, Some(16));
    assert_eq!(other.default_qos, Some("normal".to_string()));
    assert_eq!(other.min_nodes, None);
    assert_eq!(other.oversubscribe, None);
}

fn row(name: &str, cpus: u32, mem: u64, secs: u64, gres: Option<&str>) -> SinfoPartition {
    SinfoPartition {
        name: name.to_string(),
        cpus,
        memory_mb: mem,
        timelimit_secs: secs,
        gres: gres.map(|g| g.to_string()),
    }
}

#[test]
fn partition_names_sorted_and_distinct() {
    let rows = vec![
        row("short", 4, 100, 60, None),
        row("gpu-stdby", 4, 100, 60, None),
        row("debug", 4, 100, 60, None),
        row("short", 8, 100, 60, None),
    ];
    assert_eq!(partition_names(&rows, false), vec!["debug", "gpu-stdby", "short"]);
    assert_eq!(partition_names(&rows, true), vec!["debug", "short"]);
}

#[test]
fn node_types_merge_to_guaranteed_resources() {
    let rows = vec![
        row("gpu", 64, 512000, 3600, Some("gpu:a100:4")),
        row("other", 2, 10, 99999, None),
        row("gpu", 32, 256000, 7200, Some("nvme:1")),
    ];
    let info = ScontrolPartitionInfo::default();
    let p = merge_partition("gpu", &rows, &info);
    assert_eq!(p.cpus_per_node, 32);
    assert_eq!(p.memory_mb, 256000);
    assert_eq!(p.max_walltime_secs, 7200);
    assert_eq!(p.gpus_per_node, Some(4));
    assert_eq!(p.gpu_type, Some("a100".to_string()));
    assert!(p.shared);
    let plain = merge_partition("other", &rows, &info);
    assert_eq!(plain.gpus_per_node, None);
    assert!(!plain.shared);
    let shared_info = ScontrolPartitionInfo {
        min_nodes: None,
        max_nodes: None,
        oversubscribe: Some("YES".to_string()),
        default_qos: None,
    };
    assert!(merge_partition("other", &rows, &shared_info).shared);
}

#[test]
fn profile_toml_is_rendered() {
    let parts = vec![HpcPartitionConfig {
        name: "gpu".to_string(),
        description: String::new(),
        cpus_per_node: 32,
        memory_mb: 256000,
        max_walltime_secs: 7200,
        gpus_per_node: Some(4),
        gpu_type: Some("a100".to_string()),
        shared: true,
        requires_explicit_request: false,
    }];
    let text = render_toml_profile("kestrel", "Kestrel", &parts, "2024-01-01 00:00:00 UTC", Some("node1.hpc.nrel.gov"));
    assert!(text.starts_with("# HPC profile for Kestrel generated from Slurm\n# Generated: 2024-01-01 00:00:00 UTC\n"));
    assert!(text.contains("[client.hpc.custom_profiles.kestrel]\ndisplay_name = \"Kestrel\"\ndetect_hostname = \".*\\\\.hpc\\\\.nrel\\\\.gov\"\n\n"));
    assert!(text.ends_with("[[client.hpc.custom_profiles.kestrel.partitions]]\nname = \"gpu\"\ncpus_per_node = 32\nmemory_mb = 256000\nmax_walltime_secs = 7200\ngpus_per_node = 4\ngpu_type = \"a100\"\nshared = true\n\n"));
    let no_host = render_toml_profile("x", "X", &[], "t", Some("localhost"));
    assert!(!no_host.contains("detect_hostname"));
}

#[test]
fn cluster_name_and_display_name() {
    let cfg = "Foo=1\nClusterName = kestrel \nClusterName=other\n";
    assert_eq!(cluster_name_from_config(cfg), Some("kestrel".to_string()));
    assert_eq!(cluster_name_from_config("x=1"), None);
    assert_eq!(cluster_name_from_config("ClusterName"), None);
    assert_eq!(capitalize_first("kestrel"), "Kestrel");
    assert_eq!(capitalize_first(""), "");
    assert_eq!(capitalize_first("ßx"), "SSx");
}

#[test]
fn detection_rules_split_the_setting_at_the_first_equals_sign() {
    assert_eq!(
        config_detection(Some("NREL_CLUSTER=kestrel=a"), Some("kl.*")),
        vec![
            HpcDetection::EnvVar { name: "NREL_CLUSTER".to_string(), value: "kestrel=a".to_string() },
            HpcDetection::HostnamePattern { pattern: "kl.*".to_string() },
        ]
    );
    assert_eq!(
        config_detection(Some("NO_EQUALS"), None),
        Vec::<HpcDetection>::new()
    );
    assert_eq!(
        config_detection(Some("=x"), None),
        vec![HpcDetection::EnvVar { name: String::new(), value: "x".to_string() }]
    );
    assert_eq!(config_detection(None, None), Vec::<HpcDetection>::new());
}
