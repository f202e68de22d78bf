//! Recovery of failed Slurm workflows: memory and runtime strings, the
//! correlation of failed jobs with their Slurm logs, the tally of what
//! recovery did, and the user's recovery hook command.

use vstd::prelude::*;
use crate::chars::{ends_with, trim, trim_end_matches, trim_end_matches_of, trim_of, views};
use crate::text::{
    append_str, chars_of, decimal, lowercase, opt_chars, string_from, string_of, to_lowercase,
    u64_to_string,
};

verus! {

// ---------------------------------------------------------------------------
// Memory and runtime strings
// ---------------------------------------------------------------------------

/// Bytes in a gibibyte.
pub const GIB: u64 = 1073741824;

/// Bytes in a mebibyte.
pub const MIB: u64 = 1048576;

/// Bytes in a kibibyte.
pub const KIB: u64 = 1024;

/// A byte count in the largest unit it reaches, rounded down: `12g`,
/// `512m`, `3k`, or `100b`.
pub open spec fn memory_short(bytes: nat) -> Seq<char> {
    if bytes >= GIB {
        decimal(bytes / (GIB as nat)) + "g"@
    } else if bytes >= MIB {
        decimal(bytes / (MIB as nat)) + "m"@
    } else if bytes >= KIB {
        decimal(bytes / (KIB as nat)) + "k"@
    } else {
        decimal(bytes) + "b"@
    }
}

/// The bytes a memory unit letter stands for.
pub open spec fn unit_bytes(u: char) -> nat {
    if u == 'g' {
        GIB as nat
    } else if u == 'm' {
        MIB as nat
    } else if u == 'k' {
        KIB as nat
    } else {
        1
    }
}

/// A short memory string is a number and a unit letter that together stand
/// for the bytes rounded down to the unit; the unit is the largest one the
/// bytes reach, so the number is under 1024 unless the unit is `g`, and at
/// least 1 unless the unit is `b`.
pub proof fn lemma_memory_short_denotes(bytes: nat)
    ensures
        exists|q: nat, u: char| #[trigger] memory_short(bytes) == decimal(q) + seq![u] && (u == 'g' || u
            == 'm' || u == 'k' || u == 'b') && q * unit_bytes(u) <= bytes < (q + 1) * unit_bytes(u) && (u
            == 'g' || q < 1024) && (u == 'b' || q >= 1),
{
    let g = GIB as nat;
    let m = MIB as nat;
    let k = KIB as nat;
    assert(g == 1024 * m && m == 1024 * k && k == 1024);
    let (q, u) = if bytes >= g {
        (bytes / g, 'g')
    } else if bytes >= m {
        (bytes / m, 'm')
    } else if bytes >= k {
        (bytes / k, 'k')
    } else {
        (bytes, 'b')
    };
    let sz = unit_bytes(u);
    assert(sz > 0);
    assert(q * sz <= bytes < (q + 1) * sz) by (nonlinear_arith)
        requires
            sz > 0,
            u == 'b' ==> q == bytes && sz == 1,
            u != 'b' ==> q == bytes / sz,
    {
    }
    assert(u == 'g' || q < 1024) by (nonlinear_arith)
        requires
            u != 'g' ==> bytes < 1024 * sz,
            q * sz <= bytes,
            sz > 0,
    {
    }
    assert(u == 'b' || q >= 1) by (nonlinear_arith)
        requires
            u != 'b' ==> bytes >= sz,
            bytes < (q + 1) * sz,
            sz > 0,
    {
    }
    reveal_strlit("g");
    reveal_strlit("m");
    reveal_strlit("k");
    reveal_strlit("b");
    assert(memory_short(bytes) =~= decimal(q) + seq![u]);
}

/// Formats a byte count as a short memory string such as `12g` or `512m`.
pub fn format_memory_bytes_short(bytes: u64) -> (r: String)
    ensures
        r@ == memory_short(bytes as nat),
{
    if bytes >= GIB {
        let mut s = u64_to_string(bytes / GIB);
        append_str(&mut s, "g");
        s
    } else if bytes >= MIB {
        let mut s = u64_to_string(bytes / MIB);
        append_str(&mut s, "m");
        s
    } else if bytes >= KIB {
        let mut s = u64_to_string(bytes / KIB);
        append_str(&mut s, "k");
        s
    } else {
        let mut s = u64_to_string(bytes);
        append_str(&mut s, "b");
        s
    }
}

/// Whole hours and the minutes beyond them as an ISO 8601 duration:
/// `PT2H30M`, `PT2H` when no minutes are left, `PT30M` under an hour, and
/// never less than `PT1M`. Seconds beyond the minute are dropped.
pub open spec fn duration_iso8601(secs: nat) -> Seq<char> {
    let hours = secs / 3600;
    let mins = (secs % 3600) / 60;
    if hours > 0 && mins > 0 {
        "PT"@ + decimal(hours) + "H"@ + decimal(mins) + "M"@
    } else if hours > 0 {
        "PT"@ + decimal(hours) + "H"@
    } else {
        "PT"@ + decimal(if mins > 1 { mins } else { 1 }) + "M"@
    }
}

/// The ISO 8601 duration of `hours` hours and `minutes` minutes, each part
/// written only when it is not zero.
pub open spec fn iso_duration(hours: nat, minutes: nat) -> Seq<char> {
    "PT"@ + (if hours > 0 {
        decimal(hours) + "H"@
    } else {
        Seq::empty()
    }) + (if minutes > 0 {
        decimal(minutes) + "M"@
    } else {
        Seq::empty()
    })
}

/// A duration of a minute or more is written as whole hours and fewer than
/// sixty minutes that together make up the seconds, rounded down to the
/// minute; a shorter one is written as one minute.
pub proof fn lemma_duration_keeps_the_minutes(secs: nat)
    ensures
        secs >= 60 ==> exists|hours: nat, minutes: nat|
            minutes < 60 && hours * 3600 + minutes * 60 == secs - secs % 60
                && #[trigger] iso_duration(hours, minutes) == duration_iso8601(secs),
        secs < 60 ==> duration_iso8601(secs) == iso_duration(0, 1),
{
    let hours = secs / 3600;
    let minutes = (secs % 3600) / 60;
    assert(hours * 3600 + minutes * 60 == secs - secs % 60) by (nonlinear_arith)
        requires
            hours == secs / 3600,
            minutes == (secs % 3600) / 60,
    {
        assert(secs == hours * 3600 + secs % 3600);
        assert(secs % 3600 == minutes * 60 + (secs % 3600) % 60);
        assert((secs % 3600) % 60 == secs % 60);
    }
    assert(minutes < 60);
    if secs >= 60 {
        assert(hours > 0 || minutes > 0);
        assert(iso_duration(hours, minutes) =~= duration_iso8601(secs));
    } else {
        assert(iso_duration(0, 1) =~= duration_iso8601(secs));
    }
}

/// Formats seconds as an ISO 8601 duration such as `PT2H30M`.
pub fn format_duration_iso8601(secs: u64) -> (r: String)
    ensures
        r@ == duration_iso8601(secs as nat),
{
    let hours = secs / 3600;
    let mins = (secs % 3600) / 60;
    let mut s = string_from("PT");
    if hours > 0 && mins > 0 {
        let h = u64_to_string(hours);
        append_str(&mut s, h.as_str());
        append_str(&mut s, "H");
        let m = u64_to_string(mins);
        append_str(&mut s, m.as_str());
        append_str(&mut s, "M");
    } else if hours > 0 {
        let h = u64_to_string(hours);
        append_str(&mut s, h.as_str());
        append_str(&mut s, "H");
    } else {
        let m = u64_to_string(if mins > 1 { mins } else { 1 });
        append_str(&mut s, m.as_str());
        append_str(&mut s, "M");
    }
    s
}

/// The number part of a memory string and the bytes its unit stands for:
/// the string is trimmed and lower-cased, and a `gb`/`g`, `mb`/`m` or
/// `kb`/`k` suffix (every repetition of it) is cut off; with no unit a
/// byte is meant.
pub open spec fn memory_unit(mem: Seq<char>) -> (Seq<char>, u64) {
    let m = lowercase(trim_of(mem));
    if "gb"@.is_suffix_of(m) {
        (trim_end_matches_of(m, "gb"@), GIB)
    } else if "g"@.is_suffix_of(m) {
        (trim_end_matches_of(m, "g"@), GIB)
    } else if "mb"@.is_suffix_of(m) {
        (trim_end_matches_of(m, "mb"@), MIB)
    } else if "m"@.is_suffix_of(m) {
        (trim_end_matches_of(m, "m"@), MIB)
    } else if "kb"@.is_suffix_of(m) {
        (trim_end_matches_of(m, "kb"@), KIB)
    } else if "k"@.is_suffix_of(m) {
        (trim_end_matches_of(m, "k"@), KIB)
    } else {
        (m, 1)
    }
}

fn cut_unit(m: &[char], unit: &str) -> (r: Vec<char>)
    requires
        unit@.len() > 0,
    ensures
        r@ == trim_end_matches_of(m@, unit@),
{
    let u = chars_of(unit);
    trim_end_matches(m, u.as_slice())
}

/// Splits a memory string such as `8g`, `512mb` or `1024` into its number
/// part and the bytes per unit, for the caller to scale the number by.
pub fn split_memory_unit(mem: &str) -> (r: (String, u64))
    ensures
        (r.0@, r.1) == memory_unit(mem@),
{
    let t = trim(chars_of(mem).as_slice());
    let ts = string_of(t.as_slice());
    let lower = to_lowercase(ts.as_str());
    let m = chars_of(lower.as_str());
    let ms = m.as_slice();
    proof {
        reveal_strlit("gb");
        reveal_strlit("g");
        reveal_strlit("mb");
        reveal_strlit("m");
        reveal_strlit("kb");
        reveal_strlit("k");
    }
    let gb = chars_of("gb");
    let g = chars_of("g");
    let mb = chars_of("mb");
    let mm = chars_of("m");
    let kb = chars_of("kb");
    let k = chars_of("k");
    let (num, mult) = if ends_with(ms, gb.as_slice()) {
        (cut_unit(ms, "gb"), GIB)
    } else if ends_with(ms, g.as_slice()) {
        (cut_unit(ms, "g"), GIB)
    } else if ends_with(ms, mb.as_slice()) {
        (cut_unit(ms, "mb"), MIB)
    } else if ends_with(ms, mm.as_slice()) {
        (cut_unit(ms, "m"), MIB)
    } else if ends_with(ms, kb.as_slice()) {
        (cut_unit(ms, "kb"), KIB)
    } else if ends_with(ms, k.as_slice()) {
        (cut_unit(ms, "k"), KIB)
    } else {
        (m.clone(), 1)
    };
    (string_of(num.as_slice()), mult)
}

// ---------------------------------------------------------------------------
// Slurm logs of failed jobs
// ---------------------------------------------------------------------------

/// Where a job's Slurm allocation wrote its logs.
pub struct SlurmLogInfo {
    pub slurm_job_id: Option<String>,
    pub slurm_stdout: Option<String>,
    pub slurm_stderr: Option<String>,
}

/// One job of the results report, as far as log correlation reads it.
pub struct JobLogRecord {
    pub job_id: Option<i64>,
    pub slurm_job_id: Option<String>,
    pub slurm_stdout: Option<String>,
    pub slurm_stderr: Option<String>,
}

/// A job's Slurm log locations, as plain values.
pub struct LogInfoView {
    pub slurm_job_id: Option<Seq<char>>,
    pub slurm_stdout: Option<Seq<char>>,
    pub slurm_stderr: Option<Seq<char>>,
}

impl View for SlurmLogInfo {
    type V = LogInfoView;

    open spec fn view(&self) -> LogInfoView {
        LogInfoView {
            slurm_job_id: opt_chars(self.slurm_job_id),
            slurm_stdout: opt_chars(self.slurm_stdout),
            slurm_stderr: opt_chars(self.slurm_stderr),
        }
    }
}

/// The log locations a report record gives.
pub open spec fn record_info(r: JobLogRecord) -> LogInfoView {
    LogInfoView {
        slurm_job_id: opt_chars(r.slurm_job_id),
        slurm_stdout: opt_chars(r.slurm_stdout),
        slurm_stderr: opt_chars(r.slurm_stderr),
    }
}

/// The log locations of job `id`: those of the last record for it that
/// names a Slurm stdout or stderr file.
pub open spec fn log_entry(records: Seq<JobLogRecord>, id: i64) -> Option<LogInfoView>
    decreases records.len(),
{
    if records.len() == 0 {
        None
    } else {
        let r = records.last();
        if r.job_id == Some(id) && (r.slurm_stdout is Some || r.slurm_stderr is Some) {
            Some(record_info(r))
        } else {
            log_entry(records.drop_last(), id)
        }
    }
}

/// The failed jobs that have Slurm logs, each once, in the order they first
/// appear among the failed jobs.
pub open spec fn correlated_logs(records: Seq<JobLogRecord>, failed: Seq<Option<i64>>) -> Seq<
    (i64, LogInfoView),
>
    decreases failed.len(),
{
    if failed.len() == 0 {
        Seq::empty()
    } else {
        let prev = correlated_logs(records, failed.drop_last());
        match failed.last() {
            Some(id) => if !failed.drop_last().contains(Some(id)) && log_entry(records, id) is Some {
                prev.push((id, log_entry(records, id).unwrap()))
            } else {
                prev
            },
            None => prev,
        }
    }
}

/// The entries' job ids and log locations, as plain values.
pub open spec fn log_pairs(v: Seq<(i64, SlurmLogInfo)>) -> Seq<(i64, LogInfoView)> {
    Seq::new(v.len(), |i: int| (v[i].0, v[i].1@))
}

fn clone_opt(o: &Option<String>) -> (r: Option<String>)
    ensures
        opt_chars(r) == opt_chars(*o),
{
    match o {
        Some(s) => Some(s.clone()),
        None => None,
    }
}

fn find_log_entry(records: &[JobLogRecord], id: i64) -> (r: Option<SlurmLogInfo>)
    ensures
        match r {
            Some(info) => log_entry(records@, id) == Some(info@),
            None => log_entry(records@, id) is None,
        },
{
    let mut k: usize = records.len();
    assert(records@.take(k as int) =~= records@);
    while k > 0
        invariant
            k <= records@.len(),
            log_entry(records@, id) == log_entry(records@.take(k as int), id),
        decreases k,
    {
        let r = &records[k - 1];
        let ghost rk = records@.take(k as int);
        assert(rk.last() == records@[k - 1]);
        assert(rk.drop_last() =~= records@.take(k - 1));
        if r.job_id == Some(id) && (r.slurm_stdout.is_some() || r.slurm_stderr.is_some()) {
            let info = SlurmLogInfo {
                slurm_job_id: clone_opt(&r.slurm_job_id),
                slurm_stdout: clone_opt(&r.slurm_stdout),
                slurm_stderr: clone_opt(&r.slurm_stderr),
            };
            return Some(info);
        }
        k = k - 1;
    }
    None
}

fn seen_before(failed: &[Option<i64>], i: usize, id: i64) -> (b: bool)
    requires
        i <= failed@.len(),
    ensures
        b == failed@.take(i as int).contains(Some(id)),
{
    let mut j: usize = 0;
    while j < i
        invariant
            i <= failed@.len(),
            j <= i,
            !failed@.take(j as int).contains(Some(id)),
        decreases i - j,
    {
        if failed[j] == Some(id) {
            assert(failed@.take(i as int)[j as int] == Some(id));
            return true;
        }
        assert forall|x: Option<i64>| failed@.take(j + 1).contains(x) implies failed@.take(
            j as int,
        ).contains(x) || x == failed@[j as int] by {
            let w = choose|w: int| 0 <= w < j + 1 && #[trigger] failed@.take(j + 1)[w] == x;
            if w < j {
                assert(failed@.take(j as int)[w] == x);
            }
        }
        j = j + 1;
    }
    assert(failed@.take(i as int) =~= failed@.take(j as int));
    false
}

/// Pairs each failed job with the Slurm log locations the results report
/// gives for it: a job's last record naming a Slurm stdout or stderr file
/// counts, and each failed job appears once, in the order of `failed`.
pub fn correlate_slurm_logs(records: &[JobLogRecord], failed: &[Option<i64>]) -> (r: Vec<
    (i64, SlurmLogInfo),
>)
    ensures
        log_pairs(r@) == correlated_logs(records@, failed@),
{
    let mut out: Vec<(i64, SlurmLogInfo)> = Vec::new();
    let mut i: usize = 0;
    while i < failed.len()
        invariant
            i <= failed@.len(),
            log_pairs(out@) == correlated_logs(records@, failed@.take(i as int)),
        decreases failed@.len() - i,
    {
        let ghost fi1 = failed@.take(i + 1);
        assert(fi1.drop_last() =~= failed@.take(i as int));
        assert(fi1.last() == failed@[i as int]);
        match failed[i] {
            Some(id) => {
                if !seen_before(failed, i, id) {
                    match find_log_entry(records, id) {
                        Some(info) => {
                            out.push((id, info));
                        },
                        None => {},
                    }
                }
            },
            None => {},
        }
        assert(log_pairs(out@) =~= correlated_logs(records@, fi1));
        i = i + 1;
    }
    assert(failed@.take(failed@.len() as int) =~= failed@);
    out
}

// ---------------------------------------------------------------------------
// What recovery did
// ---------------------------------------------------------------------------

/// What happened to one failed job during recovery.
pub enum JobRecoveryOutcome {
    /// The job was passed over: it has no id, it or its resource
    /// requirements could not be read, or it ran out of memory and no new
    /// memory amount could be found.
    Skipped,
    /// The job has no resource requirements to adjust.
    NoResourceRequirements,
    /// The heuristics ran on the job: what the diagnosis suspected and
    /// which resources were raised.
    Examined { likely_oom: bool, likely_timeout: bool, memory_raised: bool, runtime_raised: bool },
}

/// What recovery did to a workflow's failed jobs.
pub struct RecoveryResult {
    pub oom_fixed: usize,
    pub timeout_fixed: usize,
    pub unknown_retried: usize,
    pub other_failures: usize,
    pub jobs_to_retry: Vec<i64>,
}

impl RecoveryResult {
    /// Nothing done yet.
    pub fn new() -> (r: Self)
        ensures
            r.oom_fixed == 0,
            r.timeout_fixed == 0,
            r.unknown_retried == 0,
            r.other_failures == 0,
            r.jobs_to_retry@ == Seq::<i64>::empty(),
    {
        RecoveryResult {
            oom_fixed: 0,
            timeout_fixed: 0,
            unknown_retried: 0,
            other_failures: 0,
            jobs_to_retry: Vec::new(),
        }
    }

    /// Whether the job goes back to be retried after this outcome.
    pub open spec fn retries(outcome: JobRecoveryOutcome, retry_unknown: bool) -> bool {
        match outcome {
            JobRecoveryOutcome::Examined { likely_oom, likely_timeout, memory_raised, runtime_raised } =>
                memory_raised || runtime_raised || (!likely_oom && !likely_timeout && retry_unknown),
            _ => false,
        }
    }

    /// Whether the outcome counts as a failure of unknown cause.
    pub open spec fn unknown_cause(outcome: JobRecoveryOutcome) -> bool {
        match outcome {
            JobRecoveryOutcome::NoResourceRequirements => true,
            JobRecoveryOutcome::Examined { likely_oom, likely_timeout, memory_raised, runtime_raised } =>
                !memory_raised && !runtime_raised && !likely_oom && !likely_timeout,
            JobRecoveryOutcome::Skipped => false,
        }
    }

    /// Counts one job's outcome: raised memory and runtime count as fixes
    /// and send the job back; a job with no suspected cause counts as an
    /// unknown failure and goes back only when `retry_unknown` is set; a
    /// job without resource requirements counts as an unknown failure.
    pub fn record(&mut self, job_id: i64, outcome: JobRecoveryOutcome, retry_unknown: bool)
        requires
            old(self).oom_fixed < usize::MAX,
            old(self).timeout_fixed < usize::MAX,
            old(self).other_failures < usize::MAX,
        ensures
            final(self).oom_fixed == old(self).oom_fixed + (if outcome matches JobRecoveryOutcome::Examined { memory_raised: true, .. } { 1int } else { 0int }),
            final(self).timeout_fixed == old(self).timeout_fixed + (if outcome matches JobRecoveryOutcome::Examined { runtime_raised: true, .. } { 1int } else { 0int }),
            final(self).other_failures == old(self).other_failures + (if Self::unknown_cause(outcome) { 1int } else { 0int }),
            final(self).unknown_retried == old(self).unknown_retried,
            final(self).jobs_to_retry@ == if Self::retries(outcome, retry_unknown) {
                old(self).jobs_to_retry@.push(job_id)
            } else {
                old(self).jobs_to_retry@
            },
    {
        match outcome {
            JobRecoveryOutcome::Skipped => {},
            JobRecoveryOutcome::NoResourceRequirements => {
                self.other_failures = self.other_failures + 1;
            },
            JobRecoveryOutcome::Examined { likely_oom, likely_timeout, memory_raised, runtime_raised } => {
                if memory_raised {
                    self.oom_fixed = self.oom_fixed + 1;
                }
                if runtime_raised {
                    self.timeout_fixed = self.timeout_fixed + 1;
                }
                if memory_raised || runtime_raised {
                    self.jobs_to_retry.push(job_id);
                } else if !likely_oom && !likely_timeout {
                    self.other_failures = self.other_failures + 1;
                    if retry_unknown {
                        self.jobs_to_retry.push(job_id);
                    }
                }
            },
        }
    }

    /// Counts the failures of unknown cause as retried when they are.
    pub fn settle_unknown(&mut self, retry_unknown: bool)
        ensures
            final(self).unknown_retried == if old(self).other_failures > 0 && retry_unknown {
                old(self).other_failures
            } else {
                old(self).unknown_retried
            },
            final(self).oom_fixed == old(self).oom_fixed,
            final(self).timeout_fixed == old(self).timeout_fixed,
            final(self).other_failures == old(self).other_failures,
            final(self).jobs_to_retry@ == old(self).jobs_to_retry@,
    {
        if self.other_failures > 0 && retry_unknown {
            self.unknown_retried = self.other_failures;
        }
    }

    /// The error recovery ends with when no job is left to retry.
    pub fn nothing_to_retry(&self) -> (r: Option<String>)
        ensures
            match r {
                Some(msg) => self.jobs_to_retry@.len() == 0 && msg@ == "No recoverable jobs found. "@
                    + decimal(self.other_failures as nat)
                    + " job(s) failed with unknown causes. Use --retry-unknown to retry jobs with unknown failure causes."@,
                None => self.jobs_to_retry@.len() > 0,
            },
    {
        if self.jobs_to_retry.len() == 0 {
            let mut msg = string_from("No recoverable jobs found. ");
            let n = u64_to_string(self.other_failures as u64);
            append_str(&mut msg, n.as_str());
            append_str(
                &mut msg,
                " job(s) failed with unknown causes. Use --retry-unknown to retry jobs with unknown failure causes.",
            );
            Some(msg)
        } else {
            None
        }
    }
}

// ---------------------------------------------------------------------------
// The recovery hook
// ---------------------------------------------------------------------------

/// The words `shlex::split` makes of a command line, `None` when its
/// quoting is broken.
pub uninterp spec fn shell_words(s: Seq<char>) -> Option<Seq<Seq<char>>>;

/// The characters of each string of an optional list.
pub open spec fn opt_string_views(o: Option<Vec<String>>) -> Option<Seq<Seq<char>>> {
    match o {
        Some(v) => Some(Seq::new(v@.len(), |i: int| v@[i]@)),
        None => None,
    }
}

/// Splits a command line by shell quoting rules with `shlex::split`; the
/// contract names the result.
#[verifier::external_body]
fn shlex_split(s: &str) -> (r: Option<Vec<String>>)
    ensures
        opt_string_views(r) == shell_words(s@),
{
    shlex::split(s)
}

/// Splits the user's recovery hook into program and arguments: an error
/// when its quoting is broken or it holds no word.
pub fn parse_hook_command(hook_command: &str) -> (r: Result<Vec<String>, String>)
    ensures
        match shell_words(hook_command@) {
            None => r matches Err(e) && e@ == "Invalid quoting in recovery hook command: "@
                + hook_command@,
            Some(words) => if words.len() == 0 {
                r matches Err(e) && e@ == "Recovery hook command is empty"@
            } else {
                r matches Ok(v) && opt_string_views(Some(v)) == Some(words)
            },
        },
{
    match shlex_split(hook_command) {
        None => {
            let mut e = string_from("Invalid quoting in recovery hook command: ");
            append_str(&mut e, hook_command);
            Err(e)
        },
        Some(parts) => {
            if parts.len() == 0 {
                Err(string_from("Recovery hook command is empty"))
            } else {
                Ok(parts)
            }
        },
    }
}

// ---------------------------------------------------------------------------
// Preconditions of a recovery
// ---------------------------------------------------------------------------

/// A question put to the server before a workflow is recovered, in the
/// order in which they are asked.
#[derive(Debug, Clone, Copy, PartialEq, Eq, Structural)]
pub enum RecoveryQuery {
    /// Whether the workflow is complete or canceled.
    Completion,
    /// The active compute nodes (a list of at most one).
    ActiveNodes,
    /// The pending Slurm allocations.
    PendingAllocations,
    /// The active Slurm allocations.
    ActiveAllocations,
    /// The failed jobs.
    FailedJobs,
    /// The terminated jobs.
    TerminatedJobs,
}

/// The server's answer to a query.
pub enum RecoveryAnswer {
    /// The request failed with this error.
    RequestFailed(String),
    /// The completion status of the workflow.
    Completion { is_complete: bool, is_canceled: bool },
    /// A list: how many items came back (`None` when the reply held no
    /// list) and how many there are in all.
    Listed { items: Option<usize>, total_count: i64 },
}

/// Whether an answer is of the kind its query asks for.
pub open spec fn answer_fits(asked: RecoveryQuery, answer: RecoveryAnswer) -> bool {
    match answer {
        RecoveryAnswer::RequestFailed(_) => true,
        RecoveryAnswer::Completion { .. } => asked == RecoveryQuery::Completion,
        RecoveryAnswer::Listed { .. } => asked != RecoveryQuery::Completion,
    }
}

/// What to do after an answer.
pub enum RecoveryCheckStep {
    /// Put this query to the server next.
    Ask(RecoveryQuery),
    /// The workflow cannot be recovered, for this reason.
    Refuse(String),
    /// Every check passed.
    Ready,
}

/// A step with its reason as plain text.
pub enum RecoveryStepView {
    Ask(RecoveryQuery),
    Refuse(Seq<char>),
    Ready,
}

impl View for RecoveryCheckStep {
    type V = RecoveryStepView;

    open spec fn view(&self) -> RecoveryStepView {
        match self {
            RecoveryCheckStep::Ask(q) => RecoveryStepView::Ask(*q),
            RecoveryCheckStep::Refuse(m) => RecoveryStepView::Refuse(m@),
            RecoveryCheckStep::Ready => RecoveryStepView::Ready,
        }
    }
}

/// What a failed request is reported as, before its error.
pub open spec fn request_failure(asked: RecoveryQuery) -> Seq<char> {
    match asked {
        RecoveryQuery::Completion => "Failed to check workflow completion status: "@,
        RecoveryQuery::ActiveNodes => "Failed to check for active compute nodes: "@,
        RecoveryQuery::PendingAllocations => "Failed to check for pending scheduled compute nodes: "@,
        RecoveryQuery::ActiveAllocations => "Failed to check for active scheduled compute nodes: "@,
        RecoveryQuery::FailedJobs => "Failed to list failed jobs: "@,
        RecoveryQuery::TerminatedJobs => "Failed to list terminated jobs: "@,
    }
}

/// Why a recovery is refused when the answer to a query shows it must be.
pub open spec fn refusal(asked: RecoveryQuery) -> Seq<char> {
    match asked {
        RecoveryQuery::Completion =>
            "Cannot recover: workflow is not complete. Wait for all jobs to finish or use 'torc workflows cancel' first."@,
        RecoveryQuery::ActiveNodes =>
            "Cannot recover: there are still active compute nodes. Wait for all workers to exit."@,
        RecoveryQuery::PendingAllocations =>
            "Cannot recover: there are pending Slurm allocations. Wait for them to start or cancel them with 'torc slurm cancel'."@,
        RecoveryQuery::ActiveAllocations =>
            "Cannot recover: there are active Slurm allocations still running. Wait for all workers to exit."@,
        _ => "No failed or terminated jobs to recover. Workflow may have completed successfully."@,
    }
}

/// The query after a passed one (the last is followed by none).
pub open spec fn next_query(asked: RecoveryQuery) -> Option<RecoveryQuery> {
    match asked {
        RecoveryQuery::Completion => Some(RecoveryQuery::ActiveNodes),
        RecoveryQuery::ActiveNodes => Some(RecoveryQuery::PendingAllocations),
        RecoveryQuery::PendingAllocations => Some(RecoveryQuery::ActiveAllocations),
        RecoveryQuery::ActiveAllocations => Some(RecoveryQuery::FailedJobs),
        RecoveryQuery::FailedJobs => Some(RecoveryQuery::TerminatedJobs),
        RecoveryQuery::TerminatedJobs => None,
    }
}

/// Whether an answer shows that the workflow cannot be recovered: it is
/// neither complete nor canceled; a compute node is active; an allocation
/// is pending or active; or, after `failed_jobs` failed jobs were counted,
/// there are no failed and no terminated jobs.
pub open spec fn answer_refuses(asked: RecoveryQuery, failed_jobs: i64, answer: RecoveryAnswer) -> bool {
    match answer {
        RecoveryAnswer::Completion { is_complete, is_canceled } => !is_complete && !is_canceled,
        RecoveryAnswer::Listed { items, total_count } => match asked {
            RecoveryQuery::ActiveNodes => items matches Some(n) && n > 0,
            RecoveryQuery::PendingAllocations => total_count > 0,
            RecoveryQuery::ActiveAllocations => total_count > 0,
            RecoveryQuery::TerminatedJobs => failed_jobs == 0 && total_count == 0,
            _ => false,
        },
        RecoveryAnswer::RequestFailed(_) => false,
    }
}

/// The step after an answer to `asked`, with `failed_jobs` failed jobs
/// counted so far.
pub open spec fn recovery_step_of(asked: RecoveryQuery, failed_jobs: i64, answer: RecoveryAnswer) -> RecoveryStepView {
    match answer {
        RecoveryAnswer::RequestFailed(e) => RecoveryStepView::Refuse(request_failure(asked) + e@),
        _ => if answer_refuses(asked, failed_jobs, answer) {
            RecoveryStepView::Refuse(refusal(asked))
        } else {
            match next_query(asked) {
                Some(q) => RecoveryStepView::Ask(q),
                None => RecoveryStepView::Ready,
            }
        },
    }
}

fn request_failure_text(asked: RecoveryQuery) -> (r: &'static str)
    ensures
        r@ == request_failure(asked),
{
    match asked {
        RecoveryQuery::Completion => "Failed to check workflow completion status: ",
        RecoveryQuery::ActiveNodes => "Failed to check for active compute nodes: ",
        RecoveryQuery::PendingAllocations => "Failed to check for pending scheduled compute nodes: ",
        RecoveryQuery::ActiveAllocations => "Failed to check for active scheduled compute nodes: ",
        RecoveryQuery::FailedJobs => "Failed to list failed jobs: ",
        RecoveryQuery::TerminatedJobs => "Failed to list terminated jobs: ",
    }
}

fn refusal_text(asked: RecoveryQuery) -> (r: &'static str)
    ensures
        r@ == refusal(asked),
{
    match asked {
        RecoveryQuery::Completion =>
            "Cannot recover: workflow is not complete. Wait for all jobs to finish or use 'torc workflows cancel' first.",
        RecoveryQuery::ActiveNodes =>
            "Cannot recover: there are still active compute nodes. Wait for all workers to exit.",
        RecoveryQuery::PendingAllocations =>
            "Cannot recover: there are pending Slurm allocations. Wait for them to start or cancel them with 'torc slurm cancel'.",
        RecoveryQuery::ActiveAllocations =>
            "Cannot recover: there are active Slurm allocations still running. Wait for all workers to exit.",
        _ => "No failed or terminated jobs to recover. Workflow may have completed successfully.",
    }
}

/// The checks made before a workflow is recovered, as far as they have
/// gone: the query asked last and the failed jobs counted.
pub struct RecoveryCheck {
    /// The query whose answer is awaited.
    pub asked: RecoveryQuery,
    /// How many failed jobs the server counted (0 until it is asked).
    pub failed_jobs: i64,
}

impl RecoveryCheck {
    /// The checks before the first query: whether the workflow is complete.
    pub fn new() -> (r: Self)
        ensures
            r.asked == RecoveryQuery::Completion,
            r.failed_jobs == 0,
    {
        RecoveryCheck { asked: RecoveryQuery::Completion, failed_jobs: 0 }
    }

    /// Takes the answer to the query asked and says what to do next: a
    /// failed request or a refusing answer ends the checks with a reason;
    /// otherwise the next query is asked, and after the last one the
    /// workflow is ready. The failed jobs are counted from their answer.
    pub fn step(&mut self, answer: &RecoveryAnswer) -> (r: RecoveryCheckStep)
        requires
            answer_fits(old(self).asked, *answer),
        ensures
            r@ == recovery_step_of(old(self).asked, old(self).failed_jobs, *answer),
            final(self).failed_jobs == (match (old(self).asked, *answer) {
                (RecoveryQuery::FailedJobs, RecoveryAnswer::Listed { total_count, .. }) => total_count,
                _ => old(self).failed_jobs,
            }),
            r matches RecoveryCheckStep::Ask(q) ==> final(self).asked == q,
            !(r is Ask) ==> final(self).asked == old(self).asked,
    {
        let asked = self.asked;
        match answer {
            RecoveryAnswer::RequestFailed(e) => {
                let mut m = String::new();
                append_str(&mut m, request_failure_text(asked));
                append_str(&mut m, e.as_str());
                return RecoveryCheckStep::Refuse(m);
            },
            RecoveryAnswer::Completion { is_complete, is_canceled } => {
                if !*is_complete && !*is_canceled {
                    return RecoveryCheckStep::Refuse(string_from(refusal_text(asked)));
                }
            },
            RecoveryAnswer::Listed { items, total_count } => {
                let refuses = match asked {
                    RecoveryQuery::ActiveNodes => match items {
                        Some(n) => *n > 0,
                        None => false,
                    },
                    RecoveryQuery::PendingAllocations => *total_count > 0,
                    RecoveryQuery::ActiveAllocations => *total_count > 0,
                    RecoveryQuery::TerminatedJobs => self.failed_jobs == 0 && *total_count == 0,
                    _ => false,
                };
                if refuses {
                    return RecoveryCheckStep::Refuse(string_from(refusal_text(asked)));
                }
                if asked == RecoveryQuery::FailedJobs {
                    self.failed_jobs = *total_count;
                }
            },
        }
        let next = match asked {
            RecoveryQuery::Completion => RecoveryQuery::ActiveNodes,
            RecoveryQuery::ActiveNodes => RecoveryQuery::PendingAllocations,
            RecoveryQuery::PendingAllocations => RecoveryQuery::ActiveAllocations,
            RecoveryQuery::ActiveAllocations => RecoveryQuery::FailedJobs,
            RecoveryQuery::FailedJobs => RecoveryQuery::TerminatedJobs,
            RecoveryQuery::TerminatedJobs => {
                return RecoveryCheckStep::Ready;
            },
        };
        self.asked = next;
        RecoveryCheckStep::Ask(next)
    }
}

} // verus!
