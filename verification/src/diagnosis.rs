//! Asking a language model to diagnose a failed job: the prompt it is given,
//! where its answer holds the diagnosis, and the recovery action it names.

use vstd::prelude::*;
use crate::chars::chars_eq_str;
use crate::text::{append_str, chars_of, decimal_int, i64_to_string, opt_chars, push_char};
use crate::watch::RecoveryAction;

verus! {

/// The prompt that describes a failed job: its identifiers, its command and
/// the ends of its standard output and error.
pub open spec fn prompt_text(
    workflow_id: i64,
    job_id: i64,
    job_name: Seq<char>,
    command: Seq<char>,
    stdout: Seq<char>,
    stderr: Seq<char>,
) -> Seq<char> {
    "Please diagnose the following job failure and recommend a recovery action.\n\n## Job Information\n- Workflow ID: "@
        + decimal_int(workflow_id as int) + "\n- Job ID: "@ + decimal_int(job_id as int)
        + "\n- Job Name: "@ + job_name + "\n- Command: "@ + command
        + "\n\n## Standard Output (last 10KB)\n```\n"@ + stdout
        + "\n```\n\n## Standard Error (last 10KB)\n```\n"@ + stderr
        + "\n```\n\nAnalyze this failure and use the diagnose_failure tool to report your findings."@
}

/// Builds the prompt that asks for the diagnosis of a failed job.
pub fn diagnosis_prompt(
    workflow_id: i64,
    job_id: i64,
    job_name: &str,
    command: &str,
    stdout: &str,
    stderr: &str,
) -> (r: String)
    ensures
        r@ == prompt_text(workflow_id, job_id, job_name@, command@, stdout@, stderr@),
{
    let mut s = String::new();
    append_str(
        &mut s,
        "Please diagnose the following job failure and recommend a recovery action.\n\n## Job Information\n- Workflow ID: ",
    );
    let w = i64_to_string(workflow_id);
    append_str(&mut s, w.as_str());
    append_str(&mut s, "\n- Job ID: ");
    let j = i64_to_string(job_id);
    append_str(&mut s, j.as_str());
    append_str(&mut s, "\n- Job Name: ");
    append_str(&mut s, job_name);
    append_str(&mut s, "\n- Command: ");
    append_str(&mut s, command);
    append_str(&mut s, "\n\n## Standard Output (last 10KB)\n```\n");
    append_str(&mut s, stdout);
    append_str(&mut s, "\n```\n\n## Standard Error (last 10KB)\n```\n");
    append_str(&mut s, stderr);
    append_str(
        &mut s,
        "\n```\n\nAnalyze this failure and use the diagnose_failure tool to report your findings.",
    );
    s
}

/// A block of the model's answer, without the input of a tool call.
pub struct ContentBlock {
    pub content_type: String,
    pub text: Option<String>,
    pub name: Option<String>,
}

/// A call of the diagnosis tool.
pub open spec fn is_tool_block(b: ContentBlock) -> bool {
    b.content_type@ == "tool_use"@ && opt_chars(b.name) == Some("diagnose_failure"@)
}

/// A block of text.
pub open spec fn is_text_block(b: ContentBlock) -> bool {
    b.content_type@ == "text"@ && b.text is Some
}

/// Where an answer holds the diagnosis.
pub enum DiagnosisSource {
    /// In the call of the diagnosis tool at this index.
    Tool(usize),
    /// Only in the text block at this index.
    Text(usize),
    /// Nowhere.
    Missing,
}

/// Finds the diagnosis in an answer: the first call of the diagnosis tool;
/// where there is none, the first block of text.
pub fn find_diagnosis_source(blocks: &Vec<ContentBlock>) -> (r: DiagnosisSource)
    ensures
        match r {
            DiagnosisSource::Tool(i) => i < blocks@.len() && is_tool_block(blocks@[i as int])
                && forall|j: int| 0 <= j < i ==> !is_tool_block(#[trigger] blocks@[j]),
            DiagnosisSource::Text(i) => i < blocks@.len() && is_text_block(blocks@[i as int])
                && (forall|j: int| 0 <= j < blocks@.len() ==> !is_tool_block(#[trigger] blocks@[j]))
                && forall|j: int| 0 <= j < i ==> !is_text_block(#[trigger] blocks@[j]),
            DiagnosisSource::Missing => forall|j: int|
                0 <= j < blocks@.len() ==> !is_tool_block(#[trigger] blocks@[j])
                    && !is_text_block(blocks@[j]),
        },
{
    let mut i: usize = 0;
    while i < blocks.len()
        invariant
            i <= blocks@.len(),
            forall|j: int| 0 <= j < i ==> !is_tool_block(#[trigger] blocks@[j]),
        decreases blocks@.len() - i,
    {
        let b = &blocks[i];
        let t = chars_of(b.content_type.as_str());
        let named = match &b.name {
            Some(n) => {
                let nv = chars_of(n.as_str());
                chars_eq_str(nv.as_slice(), "diagnose_failure")
            },
            None => false,
        };
        if chars_eq_str(t.as_slice(), "tool_use") && named {
            return DiagnosisSource::Tool(i);
        }
        i = i + 1;
    }
    let mut k: usize = 0;
    while k < blocks.len()
        invariant
            k <= blocks@.len(),
            forall|j: int| 0 <= j < blocks@.len() ==> !is_tool_block(#[trigger] blocks@[j]),
            forall|j: int| 0 <= j < k ==> !is_text_block(#[trigger] blocks@[j]),
        decreases blocks@.len() - k,
    {
        let b = &blocks[k];
        let t = chars_of(b.content_type.as_str());
        if chars_eq_str(t.as_slice(), "text") && b.text.is_some() {
            return DiagnosisSource::Text(k);
        }
        k = k + 1;
    }
    DiagnosisSource::Missing
}

/// The summary taken from a plain text answer: its first 200 characters.
pub fn text_summary(text: &str) -> (r: String)
    ensures
        r@ == if text@.len() <= 200 {
            text@
        } else {
            text@.take(200)
        },
{
    let v = chars_of(text);
    let n: usize = if v.len() <= 200 { v.len() } else { 200 };
    let mut s = String::new();
    let mut i: usize = 0;
    while i < n
        invariant
            n <= v@.len(),
            v@ == text@,
            n == if text@.len() <= 200 { text@.len() } else { 200 },
            i <= n,
            s@ == text@.take(i as int),
        decreases n - i,
    {
        push_char(&mut s, v[i]);
        assert(text@.take(i + 1) =~= text@.take(i as int).push(text@[i as int]));
        i = i + 1;
    }
    assert(text@.len() <= 200 ==> text@.take(n as int) =~= text@);
    s
}

/// Whether `r` is the recovery action that the answer names by `action_type`,
/// with the given resources for a restart with other resources; any other
/// type names none.
pub open spec fn names_action(
    r: Option<RecoveryAction>,
    action_type: Seq<char>,
    new_memory: Option<String>,
    new_runtime: Option<String>,
    new_num_cpus: Option<i64>,
) -> bool {
    if action_type == "restart"@ {
        r matches Some(RecoveryAction::Restart)
    } else if action_type == "restart_with_resources"@ {
        r matches Some(RecoveryAction::RestartWithResources { memory, runtime, num_cpus })
            && memory == new_memory && runtime == new_runtime && num_cpus == new_num_cpus
    } else if action_type == "cancel"@ {
        r matches Some(RecoveryAction::Cancel)
    } else if action_type == "skip"@ {
        r matches Some(RecoveryAction::Skip)
    } else {
        r is None
    }
}

/// The recovery action an answer recommends.
pub fn recommended_action(
    action_type: &str,
    new_memory: Option<String>,
    new_runtime: Option<String>,
    new_num_cpus: Option<i64>,
) -> (r: Option<RecoveryAction>)
    ensures
        names_action(r, action_type@, new_memory, new_runtime, new_num_cpus),
{
    let t = chars_of(action_type);
    if chars_eq_str(t.as_slice(), "restart") {
        Some(RecoveryAction::Restart)
    } else if chars_eq_str(t.as_slice(), "restart_with_resources") {
        Some(
            RecoveryAction::RestartWithResources {
                memory: new_memory,
                runtime: new_runtime,
                num_cpus: new_num_cpus,
            },
        )
    } else if chars_eq_str(t.as_slice(), "cancel") {
        Some(RecoveryAction::Cancel)
    } else if chars_eq_str(t.as_slice(), "skip") {
        Some(RecoveryAction::Skip)
    } else {
        None
    }
}

} // verus!
