use torc::diagnosis::{
    diagnosis_prompt, find_diagnosis_source, recommended_action, text_summary, ContentBlock,
    DiagnosisSource,
};
use torc::watch::RecoveryAction;

fn block(kind: &str, text: Option<&str>, name: Option<&str>) -> ContentBlock {
    ContentBlock {
        content_type: kind.to_string(),
        text: text.map(|s| s.to_string()),
        name: name.map(|s| s.to_string()),
    }
}

#[test]
fn the_prompt_describes_the_job() {
    let p = diagnosis_prompt(4, 17, "train", "python train.py", "epoch 1", "Killed");
    assert!(p.starts_with("Please diagnose the following job failure and recommend a recovery action.\n\n## Job Information\n- Workflow ID: 4\n- Job ID: 17\n- Job Name: train\n- Command: python train.py\n"));
    assert!(p.contains("## Standard Output (last 10KB)\n```\nepoch 1\n```\n"));
    assert!(p.contains("## Standard Error (last 10KB)\n```\nKilled\n```\n"));
    assert!(p.ends_with("Analyze this failure and use the diagnose_failure tool to report your findings."));
}

#[test]
fn the_tool_call_is_preferred_to_text() {
    let blocks = vec![
        block("text", Some("Let me look."), None),
        block("tool_use", None, Some("other_tool")),
        block("tool_use", None, Some("diagnose_failure")),
    ];
    assert!(matches!(find_diagnosis_source(&blocks), DiagnosisSource::Tool(2)));
    let blocks = vec![block("tool_use", None, Some("other_tool")), block("text", Some("OOM"), None)];
    assert!(matches!(find_diagnosis_source(&blocks), DiagnosisSource::Text(1)));
    let blocks = vec![block("text", None, None)];
    assert!(matches!(find_diagnosis_source(&blocks), DiagnosisSource::Missing));
    assert!(matches!(find_diagnosis_source(&Vec::new()), DiagnosisSource::Missing));
}

#[test]
fn text_summaries_keep_two_hundred_characters() {
    let long: String = "é".repeat(250);
    assert_eq!(text_summary(&long).chars().count(), 200);
    assert_eq!(text_summary("short"), "short");
}

#[test]
fn actions_are_named_by_type() {
    assert!(matches!(recommended_action("restart", None, None, None), Some(RecoveryAction::Restart)));
    assert!(matches!(recommended_action("cancel", None, None, None), Some(RecoveryAction::Cancel)));
    assert!(matches!(recommended_action("skip", None, None, None), Some(RecoveryAction::Skip)));
    assert!(recommended_action("none", None, None, None).is_none());
    assert!(recommended_action("Restart", None, None, None).is_none());
    match recommended_action("restart_with_resources", Some("16g".to_string()), None, Some(8)) {
        Some(RecoveryAction::RestartWithResources { memory, runtime, num_cpus }) => {
            assert_eq!(memory.as_deref(), Some("16g"));
            assert_eq!(runtime, None);
            assert_eq!(num_cpus, Some(8));
        }
        _ => panic!("expected a restart with resources"),
    }
}
