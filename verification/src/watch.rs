//! Decisions of the failure watcher: when a failed job may be looked at
//! again, how many diagnoses a minute may be asked for, and what a recovery
//! action changes.

use vstd::prelude::*;
use crate::support_bundles::{is_boundary, lemma_utf8_len_take_mono, utf8_len, width_of};
use crate::chars::chars_eq_str;
use crate::models::JobStatus;
use crate::text::{chars_of, lowercase, opt_chars, string_from, to_lowercase};

verus! {

/// Settings of the watch command.
pub struct WatchConfig {
    /// Seconds between polls.
    pub poll_interval: u64,
    /// Directory of the job logs.
    pub output_dir: String,
    /// Recovery attempts allowed per job.
    pub max_retries: u32,
    /// Seconds to wait between attempts on one job.
    pub retry_cooldown: u64,
    /// Whether to diagnose only, without recovering.
    pub diagnose_only: bool,
    /// The model asked for diagnoses.
    pub model: String,
    /// Where the cache of diagnoses lives, if anywhere.
    pub cache_path: Option<String>,
    /// Diagnoses that may be asked for per minute.
    pub rate_limit_per_minute: u32,
    /// Where the audit log goes, if anywhere.
    pub audit_log_path: Option<String>,
}

// ---------------------------------------------------------------------------
// Retries of one job
// ---------------------------------------------------------------------------

/// What the watcher remembers of one failed job.
pub struct JobRetryState {
    pub retry_count: u32,
    pub last_failure_signature: Option<String>,
}

/// Whether a failed job is looked at now.
#[derive(Debug, Clone, Copy, PartialEq, Eq, Structural)]
pub enum RetryGate {
    /// It was retried as often as allowed.
    ExceededRetries,
    /// Its last retry was too recent.
    Cooldown,
    /// It may be diagnosed and recovered.
    Proceed,
}

/// Whether a job retried `count` times is looked at, given the whole
/// seconds since its last retry: not once it was retried `max_retries`
/// times, and not within `cooldown` seconds of the last retry.
pub open spec fn retry_gate(count: u32, max_retries: u32, cooldown: u64, elapsed_secs: u64) -> RetryGate {
    if count >= max_retries {
        RetryGate::ExceededRetries
    } else if elapsed_secs < cooldown {
        RetryGate::Cooldown
    } else {
        RetryGate::Proceed
    }
}

impl JobRetryState {
    /// A job not retried yet.
    pub fn new() -> (r: Self)
        ensures
            r.retry_count == 0,
            r.last_failure_signature is None,
    {
        JobRetryState { retry_count: 0, last_failure_signature: None }
    }

    /// Whether the job is looked at, given the whole seconds since its last
    /// retry.
    pub fn gate(&self, max_retries: u32, cooldown: u64, elapsed_secs: u64) -> (g: RetryGate)
        ensures
            g == retry_gate(self.retry_count, max_retries, cooldown, elapsed_secs),
    {
        if self.retry_count >= max_retries {
            RetryGate::ExceededRetries
        } else if elapsed_secs < cooldown {
            RetryGate::Cooldown
        } else {
            RetryGate::Proceed
        }
    }

    /// Whether the job failed the same way as before its last successful
    /// recovery, so that recovering it again would loop.
    pub fn is_repeat_failure(&self, signature: &str) -> (b: bool)
        ensures
            b == (opt_chars(self.last_failure_signature) == Some(signature@)),
    {
        match &self.last_failure_signature {
            Some(s) => crate::chars::chars_eq_str(crate::text::chars_of(s.as_str()).as_slice(), signature),
            None => false,
        }
    }

    /// Records a recovery attempt: it counts as a retry, and a successful one
    /// remembers the failure's signature.
    pub fn record_attempt(&mut self, succeeded: bool, signature: &str)
        requires
            old(self).retry_count < u32::MAX,
        ensures
            final(self).retry_count == old(self).retry_count + 1,
            opt_chars(final(self).last_failure_signature) == if succeeded {
                Some(signature@)
            } else {
                opt_chars(old(self).last_failure_signature)
            },
    {
        self.retry_count = self.retry_count + 1;
        if succeeded {
            self.last_failure_signature = Some(string_from(signature));
        }
    }
}

/// Retries only follow a gate that let the job through, so no job is
/// retried more than `max_retries` times: a count within the limit stays
/// within it after a recorded attempt.
pub proof fn lemma_retries_bounded(count: u32, max_retries: u32, cooldown: u64, elapsed_secs: u64)
    requires
        count <= max_retries,
    ensures
        retry_gate(count, max_retries, cooldown, elapsed_secs) == RetryGate::Proceed ==> count + 1
            <= max_retries,
{
}

// ---------------------------------------------------------------------------
// Diagnoses per minute
// ---------------------------------------------------------------------------

/// Counts the diagnoses asked for in the current minute.
pub struct RateLimiter {
    pub calls_this_minute: u32,
    pub limit: u32,
}

/// The calls counted in the minute before a check: none once 60 seconds
/// have passed.
pub open spec fn calls_before(calls: u32, elapsed_secs: u64) -> int {
    if elapsed_secs >= 60 {
        0
    } else {
        calls as int
    }
}

/// The calls counted after a check.
pub open spec fn calls_after(calls: u32, limit: u32, elapsed_secs: u64) -> int {
    let before = calls_before(calls, elapsed_secs);
    if before < limit {
        before + 1
    } else {
        before
    }
}

impl RateLimiter {
    /// No call made yet.
    pub fn new(limit: u32) -> (r: Self)
        ensures
            r.calls_this_minute == 0,
            r.limit == limit,
    {
        RateLimiter { calls_this_minute: 0, limit }
    }

    /// Whether a call may be made, given the whole seconds since the minute
    /// began: a minute's count starts over once 60 seconds have passed (the
    /// first result says so, and the caller starts a new minute), and a
    /// call is allowed and counted while fewer than `limit` were made.
    pub fn check(&mut self, elapsed_secs: u64) -> (r: (bool, bool))
        ensures
            r.1 == (elapsed_secs >= 60),
            r.0 == (calls_before(old(self).calls_this_minute, elapsed_secs) < old(self).limit),
            final(self).calls_this_minute == calls_after(
                old(self).calls_this_minute,
                old(self).limit,
                elapsed_secs,
            ),
            final(self).limit == old(self).limit,
    {
        let reset = elapsed_secs >= 60;
        if reset {
            self.calls_this_minute = 0;
        }
        if self.calls_this_minute >= self.limit {
            return (false, reset);
        }
        self.calls_this_minute = self.calls_this_minute + 1;
        (true, reset)
    }
}

/// Within one minute no more calls are allowed than the limit: a count
/// within the limit stays within it after a check.
pub proof fn lemma_rate_within_limit(calls: u32, limit: u32, elapsed_secs: u64)
    requires
        calls <= limit,
    ensures
        calls_after(calls, limit, elapsed_secs) <= limit,
{
}

// ---------------------------------------------------------------------------
// Recovery actions
// ---------------------------------------------------------------------------

/// What to do about a failed job.
pub enum RecoveryAction {
    /// Run it again unchanged.
    Restart,
    /// Run it again with other resources.
    RestartWithResources { memory: Option<String>, runtime: Option<String>, num_cpus: Option<i64> },
    /// Cancel it and what depends on it.
    Cancel,
    /// Count it as completed and go on.
    Skip,
}

/// A job's resource requirements, as far as recovery changes them.
pub struct ResourceChange {
    pub memory: String,
    pub runtime: String,
    pub num_cpus: i64,
}

/// Applies the changes a restart asks for: each given value replaces the
/// current one.
pub fn apply_resource_changes(
    current: &ResourceChange,
    memory: &Option<String>,
    runtime: &Option<String>,
    num_cpus: &Option<i64>,
) -> (r: ResourceChange)
    ensures
        r.memory@ == match opt_chars(*memory) {
            Some(m) => m,
            None => current.memory@,
        },
        r.runtime@ == match opt_chars(*runtime) {
            Some(t) => t,
            None => current.runtime@,
        },
        r.num_cpus == match *num_cpus {
            Some(c) => c,
            None => current.num_cpus,
        },
{
    ResourceChange {
        memory: match memory {
            Some(m) => string_from(m.as_str()),
            None => string_from(current.memory.as_str()),
        },
        runtime: match runtime {
            Some(t) => string_from(t.as_str()),
            None => string_from(current.runtime.as_str()),
        },
        num_cpus: match num_cpus {
            Some(c) => *c,
            None => current.num_cpus,
        },
    }
}

// ---------------------------------------------------------------------------
// Logs
// ---------------------------------------------------------------------------

/// Whether the log is kept whole, or its last `max_len` bytes start at a
/// character boundary.
pub open spec fn tail_cuttable(s: Seq<char>, max_len: nat) -> bool {
    utf8_len(s) <= max_len || is_boundary(s, (utf8_len(s) - max_len) as nat)
}

/// The log when it takes at most `max_len` bytes; else a `...[truncated]...`
/// line and its last `max_len` bytes.
pub open spec fn log_tail(s: Seq<char>, max_len: nat) -> Seq<char> {
    if utf8_len(s) <= max_len {
        s
    } else {
        "...[truncated]...\n"@ + s.skip(
            choose|n: int| 0 <= n <= s.len() && utf8_len(#[trigger] s.take(n)) == utf8_len(s) - max_len,
        )
    }
}

/// Keeps the end of a long log for a diagnosis.
pub fn keep_log_tail(s: &str, max_len: usize) -> (r: String)
    requires
        tail_cuttable(s@, max_len as nat),
    ensures
        r@ == log_tail(s@, max_len as nat),
{
    let v = chars_of(s);
    let mut total: u128 = 0;
    let mut i: usize = 0;
    while i < v.len()
        invariant
            v@ == s@,
            i <= v@.len(),
            total == utf8_len(v@.take(i as int)),
            total <= 4 * i,
        decreases v@.len() - i,
    {
        let w = width_of(v[i]);
        assert(v@.take(i + 1).drop_last() =~= v@.take(i as int));
        total = total + w as u128;
        i = i + 1;
    }
    assert(v@.take(v@.len() as int) =~= v@);
    if total <= max_len as u128 {
        return string_from(s);
    }
    let target: u128 = total - max_len as u128;
    let ghost n = choose|n: int| 0 <= n <= s@.len() && utf8_len(#[trigger] s@.take(n)) == utf8_len(s@) - max_len;
    let mut j: usize = 0;
    let mut sofar: u128 = 0;
    assert(v@.take(0) =~= Seq::<char>::empty());
    while sofar < target && j < v.len()
        invariant
            v@ == s@,
            j <= v@.len(),
            sofar == utf8_len(v@.take(j as int)),
            sofar <= target,
            target == utf8_len(v@) - max_len,
            0 <= n <= v@.len(),
            utf8_len(v@.take(n)) == target,
            j <= n,
        decreases v@.len() - j,
    {
        let w = width_of(v[j]);
        assert(v@.take(j + 1).drop_last() =~= v@.take(j as int));
        proof {
            if n == j {
                assert(false);
            }
            lemma_utf8_len_take_mono(v@, j + 1, n);
        }
        sofar = sofar + w as u128;
        j = j + 1;
    }
    proof {
        if j < n {
            lemma_utf8_len_take_mono(v@, j as int, n);
        }
    }
    assert(j == n);
    let rest = crate::chars::slice_chars(v.as_slice(), j, v.len());
    assert(rest@ =~= s@.skip(n));
    let mut out = string_from("...[truncated]...\n");
    crate::text::append_chars(&mut out, rest.as_slice());
    out
}

// ---------------------------------------------------------------------------
// The watch loop
// ---------------------------------------------------------------------------

/// How many of the statuses equal `st`.
pub open spec fn status_count(v: Seq<Option<JobStatus>>, st: JobStatus) -> nat
    decreases v.len(),
{
    if v.len() == 0 {
        0
    } else {
        status_count(v.drop_last(), st) + if v.last() == Some(st) {
            1nat
        } else {
            0nat
        }
    }
}

/// How many jobs of a workflow have each status.
pub struct StatusCounts {
    pub uninitialized: i64,
    pub blocked: i64,
    pub ready: i64,
    pub pending: i64,
    pub running: i64,
    pub done: i64,
    pub completed: i64,
    pub failed: i64,
    pub canceled: i64,
    pub terminated: i64,
    pub disabled: i64,
}

/// Whether the counts are those of the statuses; jobs without a status
/// are not counted.
pub open spec fn counts_of(c: StatusCounts, v: Seq<Option<JobStatus>>) -> bool {
    &&& c.uninitialized == status_count(v, JobStatus::Uninitialized)
    &&& c.blocked == status_count(v, JobStatus::Blocked)
    &&& c.ready == status_count(v, JobStatus::Ready)
    &&& c.pending == status_count(v, JobStatus::Pending)
    &&& c.running == status_count(v, JobStatus::Running)
    &&& c.done == status_count(v, JobStatus::Done)
    &&& c.completed == status_count(v, JobStatus::Completed)
    &&& c.failed == status_count(v, JobStatus::Failed)
    &&& c.canceled == status_count(v, JobStatus::Canceled)
    &&& c.terminated == status_count(v, JobStatus::Terminated)
    &&& c.disabled == status_count(v, JobStatus::Disabled)
}

proof fn lemma_status_count_bound(v: Seq<Option<JobStatus>>, st: JobStatus)
    ensures
        status_count(v, st) <= v.len(),
    decreases v.len(),
{
    if v.len() > 0 {
        lemma_status_count_bound(v.drop_last(), st);
    }
}

/// Counts the jobs of each status.
pub fn count_statuses(statuses: &Vec<Option<JobStatus>>) -> (c: StatusCounts)
    requires
        statuses@.len() < i64::MAX,
    ensures
        counts_of(c, statuses@),
{
    let mut c = StatusCounts {
        uninitialized: 0,
        blocked: 0,
        ready: 0,
        pending: 0,
        running: 0,
        done: 0,
        completed: 0,
        failed: 0,
        canceled: 0,
        terminated: 0,
        disabled: 0,
    };
    let mut i: usize = 0;
    while i < statuses.len()
        invariant
            i <= statuses@.len(),
            statuses@.len() < i64::MAX,
            counts_of(c, statuses@.take(i as int)),
        decreases statuses@.len() - i,
    {
        let ghost t = statuses@.take(i + 1);
        assert(t.drop_last() =~= statuses@.take(i as int));
        assert(t.last() == statuses@[i as int]);
        proof {
            let p = statuses@.take(i as int);
            lemma_status_count_bound(p, JobStatus::Uninitialized);
            lemma_status_count_bound(p, JobStatus::Blocked);
            lemma_status_count_bound(p, JobStatus::Ready);
            lemma_status_count_bound(p, JobStatus::Pending);
            lemma_status_count_bound(p, JobStatus::Running);
            lemma_status_count_bound(p, JobStatus::Done);
            lemma_status_count_bound(p, JobStatus::Completed);
            lemma_status_count_bound(p, JobStatus::Failed);
            lemma_status_count_bound(p, JobStatus::Canceled);
            lemma_status_count_bound(p, JobStatus::Terminated);
            lemma_status_count_bound(p, JobStatus::Disabled);
        }
        match statuses[i] {
            Some(JobStatus::Uninitialized) => c.uninitialized = c.uninitialized + 1,
            Some(JobStatus::Blocked) => c.blocked = c.blocked + 1,
            Some(JobStatus::Ready) => c.ready = c.ready + 1,
            Some(JobStatus::Pending) => c.pending = c.pending + 1,
            Some(JobStatus::Running) => c.running = c.running + 1,
            Some(JobStatus::Done) => c.done = c.done + 1,
            Some(JobStatus::Completed) => c.completed = c.completed + 1,
            Some(JobStatus::Failed) => c.failed = c.failed + 1,
            Some(JobStatus::Canceled) => c.canceled = c.canceled + 1,
            Some(JobStatus::Terminated) => c.terminated = c.terminated + 1,
            Some(JobStatus::Disabled) => c.disabled = c.disabled + 1,
            None => {},
        }
        i = i + 1;
    }
    assert(statuses@.take(statuses@.len() as int) =~= statuses@);
    c
}

/// What the watch command does once the workflow has finished a round.
#[derive(Debug, Clone, Copy, PartialEq, Eq, Structural)]
pub enum WatchStep {
    /// No job failed, was canceled or was terminated: watching ends.
    Finished,
    /// Jobs need recovery, but recovery is off: the command fails.
    RecoveryDisabled,
    /// Jobs need recovery, but every attempt was used: the command fails.
    RetriesExhausted,
    /// Recovery is attempted again.
    Recover,
}

/// What follows a finished round: jobs need recovery when some failed, were
/// canceled or were terminated; recovery needs `--recover` and an attempt
/// left.
pub open spec fn watch_step(counts: StatusCounts, recover: bool, retry_count: u32, max_retries: u32) -> WatchStep {
    if !(counts.failed > 0 || counts.canceled > 0 || counts.terminated > 0) {
        WatchStep::Finished
    } else if !recover {
        WatchStep::RecoveryDisabled
    } else if retry_count >= max_retries {
        WatchStep::RetriesExhausted
    } else {
        WatchStep::Recover
    }
}

/// Decides what follows a finished round of watching.
pub fn next_watch_step(counts: &StatusCounts, recover: bool, retry_count: u32, max_retries: u32) -> (r: WatchStep)
    ensures
        r == watch_step(*counts, recover, retry_count, max_retries),
{
    if !(counts.failed > 0 || counts.canceled > 0 || counts.terminated > 0) {
        WatchStep::Finished
    } else if !recover {
        WatchStep::RecoveryDisabled
    } else if retry_count >= max_retries {
        WatchStep::RetriesExhausted
    } else {
        WatchStep::Recover
    }
}

/// The watch command never attempts more recoveries than allowed: it
/// recovers only with an attempt left, and counts the attempt.
pub proof fn lemma_watch_attempts_bounded(counts: StatusCounts, recover: bool, retry_count: u32, max_retries: u32)
    requires
        retry_count <= max_retries,
    ensures
        watch_step(counts, recover, retry_count, max_retries) == WatchStep::Recover ==> retry_count
            + 1 <= max_retries,
        watch_step(counts, recover, retry_count, max_retries) == WatchStep::Finished <==> (
        counts.failed <= 0 && counts.canceled <= 0 && counts.terminated <= 0),
{
}

/// How much the watch command logs.
#[derive(Debug, Clone, Copy, PartialEq, Eq, Structural)]
pub enum LogLevel {
    Error,
    Warn,
    Info,
    Debug,
    Trace,
}

/// The level a name stands for, in any case; `info` for any other name,
/// with the second value false.
pub open spec fn log_level_of(name: Seq<char>) -> (LogLevel, bool) {
    let l = lowercase(name);
    if l == "error"@ {
        (LogLevel::Error, true)
    } else if l == "warn"@ {
        (LogLevel::Warn, true)
    } else if l == "info"@ {
        (LogLevel::Info, true)
    } else if l == "debug"@ {
        (LogLevel::Debug, true)
    } else if l == "trace"@ {
        (LogLevel::Trace, true)
    } else {
        (LogLevel::Info, false)
    }
}

/// Reads a log level name; the second value says whether the name was
/// known (an unknown name falls back to `info`).
pub fn parse_log_level(name: &str) -> (r: (LogLevel, bool))
    ensures
        r == log_level_of(name@),
{
    let lower = to_lowercase(name);
    let l = chars_of(lower.as_str());
    let s = l.as_slice();
    if chars_eq_str(s, "error") {
        (LogLevel::Error, true)
    } else if chars_eq_str(s, "warn") {
        (LogLevel::Warn, true)
    } else if chars_eq_str(s, "info") {
        (LogLevel::Info, true)
    } else if chars_eq_str(s, "debug") {
        (LogLevel::Debug, true)
    } else if chars_eq_str(s, "trace") {
        (LogLevel::Trace, true)
    } else {
        (LogLevel::Info, false)
    }
}

} // verus!
