//! Decisions of the workflow commands: reading the user's answers, and what a
//! status reset reports.

use vstd::prelude::*;
use crate::chars::{chars_eq_str, trim, trim_of};
use crate::plan::names::strings_view;
use crate::text::{append_str, chars_of, decimal_int, i64_to_string, lowercase, string_from, string_of, to_lowercase};

verus! {

/// An answer to a yes/no question agrees when, trimmed and lower-cased, it is
/// `y` or `yes`.
pub open spec fn agrees(input: Seq<char>) -> bool {
    lowercase(trim_of(input)) == "y"@ || lowercase(trim_of(input)) == "yes"@
}

/// Whether the user's answer to a confirmation question agrees.
pub fn confirmed(input: &str) -> (b: bool)
    ensures
        b == agrees(input@),
{
    let v = chars_of(input);
    let t = trim(v.as_slice());
    let ts = string_of(t.as_slice());
    let low = to_lowercase(ts.as_str());
    let l = chars_of(low.as_str());
    chars_eq_str(l.as_slice(), "y") || chars_eq_str(l.as_slice(), "yes")
}

/// The archive flag a word gives, lower-cased: `true`, `1` and `yes` set it,
/// `false`, `0` and `no` clear it; any other word is refused.
pub open spec fn archive_flag_of(word: Seq<char>) -> Option<bool> {
    let w = lowercase(word);
    if w == "true"@ || w == "1"@ || w == "yes"@ {
        Some(true)
    } else if w == "false"@ || w == "0"@ || w == "no"@ {
        Some(false)
    } else {
        None
    }
}

/// Reads the archive flag of the archive command; `None` where the word is
/// neither a yes nor a no.
pub fn parse_archive_flag(word: &str) -> (r: Option<bool>)
    ensures
        r == archive_flag_of(word@),
{
    let low = to_lowercase(word);
    let l = chars_of(low.as_str());
    let s = l.as_slice();
    if chars_eq_str(s, "true") || chars_eq_str(s, "1") || chars_eq_str(s, "yes") {
        Some(true)
    } else if chars_eq_str(s, "false") || chars_eq_str(s, "0") || chars_eq_str(s, "no") {
        Some(false)
    } else {
        None
    }
}

/// The messages of a status reset: one for each step that succeeded, in the
/// order of the steps.
pub open spec fn reset_messages(
    workflow_id: i64,
    failed_only: bool,
    reinitialize: bool,
    workflow_reset: bool,
    job_reset: bool,
    reinitialized: bool,
) -> Seq<Seq<char>> {
    let id = decimal_int(workflow_id as int);
    (if workflow_reset {
        seq!["Successfully reset workflow status for workflow "@ + id]
    } else {
        seq![]
    }) + (if job_reset {
        if failed_only {
            seq!["Successfully reset failed job status for workflow "@ + id]
        } else {
            seq!["Successfully reset all job status for workflow "@ + id]
        }
    } else {
        seq![]
    }) + (if reinitialize && reinitialized {
        seq!["Successfully reinitialized workflow "@ + id]
    } else {
        seq![]
    })
}

/// What a status reset reports.
pub struct ResetReport {
    /// Whether every step that was asked for succeeded.
    pub success: bool,
    /// A message for each step that succeeded.
    pub messages: Vec<String>,
}

fn push_message(v: &mut Vec<String>, text: &str, id: &str)
    ensures
        strings_view(final(v)@) == strings_view(old(v)@).push(text@ + id@),
{
    let mut s = string_from(text);
    append_str(&mut s, id);
    v.push(s);
    assert(strings_view(final(v)@) =~= strings_view(old(v)@).push(text@ + id@));
}

/// The report of a status reset of `workflow_id`, from which of its steps
/// succeeded: the workflow's reset, the jobs' reset (of the failed jobs only,
/// where `failed_only`), and, where `reinitialize` asked for it, the
/// reinitialization.
pub fn reset_report(
    workflow_id: i64,
    failed_only: bool,
    reinitialize: bool,
    workflow_reset: bool,
    job_reset: bool,
    reinitialized: bool,
) -> (r: ResetReport)
    ensures
        r.success == (workflow_reset && job_reset && (!reinitialize || reinitialized)),
        strings_view(r.messages@) == reset_messages(
            workflow_id,
            failed_only,
            reinitialize,
            workflow_reset,
            job_reset,
            reinitialized,
        ),
{
    let id = i64_to_string(workflow_id);
    let mut messages: Vec<String> = Vec::new();
    if workflow_reset {
        push_message(&mut messages, "Successfully reset workflow status for workflow ", id.as_str());
    }
    if job_reset {
        if failed_only {
            push_message(&mut messages, "Successfully reset failed job status for workflow ", id.as_str());
        } else {
            push_message(&mut messages, "Successfully reset all job status for workflow ", id.as_str());
        }
    }
    if reinitialize && reinitialized {
        push_message(&mut messages, "Successfully reinitialized workflow ", id.as_str());
    }
    assert(strings_view(messages@) =~= reset_messages(
        workflow_id,
        failed_only,
        reinitialize,
        workflow_reset,
        job_reset,
        reinitialized,
    ));
    ResetReport {
        success: workflow_reset && job_reset && (!reinitialize || reinitialized),
        messages,
    }
}

} // verus!
