//! Rules a compute node follows, the memory strings of resource
//! requirements, and the actions a job runner carries out itself.

use vstd::prelude::*;
use crate::chars::{chars_eq_str, slice_chars, trim, trim_of};
use crate::text::{append_str, chars_of, parse_i64_chars, parse_signed, push_char, string_from};

verus! {

/// The order in which the server hands out ready jobs to a worker.
#[derive(Debug, Clone, Copy, PartialEq, Eq, Structural)]
pub enum ClaimJobsSortMethod {
    /// GPUs first, then runtime, then memory, each from the most.
    GpusRuntimeMemory,
}

/// How a compute node behaves at the end of its allocation and when the
/// database does not answer.
pub struct ComputeNodeRules {
    /// Seconds before the allocation expires at which jobs are told to stop.
    pub compute_node_expiration_buffer_seconds: i64,
    /// Whether to keep the allocation after the workflow completes.
    pub compute_node_ignore_workflow_completion: bool,
    /// Minutes to wait for an unresponsive database.
    pub compute_node_wait_for_healthy_database_minutes: u64,
    /// The order in which ready jobs are claimed.
    pub jobs_sort_method: ClaimJobsSortMethod,
}

impl ComputeNodeRules {
    /// The rules a workflow sets, with defaults for what it leaves unset: a
    /// 60-second expiration buffer, completion not ignored, 20 minutes of
    /// waiting for the database, and claims by GPUs, runtime and memory. A
    /// negative waiting time wraps around as a cast to `u64` does.
    pub fn new(
        compute_node_expiration_buffer_seconds: Option<i64>,
        compute_node_ignore_workflow_completion: Option<bool>,
        compute_node_wait_for_healthy_database_minutes: Option<i64>,
        jobs_sort_method: Option<ClaimJobsSortMethod>,
    ) -> (r: Self)
        ensures
            r.compute_node_expiration_buffer_seconds == match compute_node_expiration_buffer_seconds {
                Some(v) => v,
                None => 60,
            },
            r.compute_node_ignore_workflow_completion == match compute_node_ignore_workflow_completion {
                Some(v) => v,
                None => false,
            },
            r.compute_node_wait_for_healthy_database_minutes == match compute_node_wait_for_healthy_database_minutes {
                Some(v) => v as u64,
                None => 20,
            },
            r.jobs_sort_method == match jobs_sort_method {
                Some(m) => m,
                None => ClaimJobsSortMethod::GpusRuntimeMemory,
            },
    {
        let minutes: i64 = match compute_node_wait_for_healthy_database_minutes {
            Some(v) => v,
            None => 20,
        };
        ComputeNodeRules {
            compute_node_expiration_buffer_seconds: match compute_node_expiration_buffer_seconds {
                Some(v) => v,
                None => 60,
            },
            compute_node_ignore_workflow_completion: match compute_node_ignore_workflow_completion {
                Some(v) => v,
                None => false,
            },
            compute_node_wait_for_healthy_database_minutes: minutes as u64,
            jobs_sort_method: match jobs_sort_method {
                Some(m) => m,
                None => ClaimJobsSortMethod::GpusRuntimeMemory,
            },
        }
    }
}

// ---------------------------------------------------------------------------
// Memory strings
// ---------------------------------------------------------------------------

/// Whether `char::is_alphabetic` holds of a character outside ASCII
/// (Unicode's `Alphabetic` property).
pub uninterp spec fn unicode_alphabetic(c: char) -> bool;

/// Whether `char::is_alphabetic` holds of a character: of an ASCII
/// character exactly when it is a letter, A to Z or a to z.
pub open spec fn alphabetic(c: char) -> bool {
    if crate::text::is_ascii_char(c) {
        ('A' <= c && c <= 'Z') || ('a' <= c && c <= 'z')
    } else {
        unicode_alphabetic(c)
    }
}

/// Tests a character with `char::is_alphabetic`; the contract states the
/// ASCII case and names the answer for any other character.
#[verifier::external_body]
fn is_alphabetic(c: char) -> (b: bool)
    ensures
        b == alphabetic(c),
        !crate::text::is_ascii_char(c) ==> b == unicode_alphabetic(c),
{
    c.is_alphabetic()
}

/// Bytes per unit of the memory unit letter, in either case; none for any
/// other letter.
pub open spec fn unit_bytes(c: char) -> Option<int> {
    if c == 'k' || c == 'K' {
        Some(1024)
    } else if c == 'm' || c == 'M' {
        Some(1048576)
    } else if c == 'g' || c == 'G' {
        Some(1073741824)
    } else if c == 't' || c == 'T' {
        Some(1099511627776)
    } else {
        None
    }
}

/// Whether reading the memory string would cut a multi-byte letter in
/// half: its trimmed form ends in a letter outside ASCII.
pub open spec fn cuts_letter(s: Seq<char>) -> bool {
    let t = trim_of(s);
    t.len() > 0 && alphabetic(t.last()) && t.last() as u32 >= 128
}

/// The bytes a memory string stands for: the trimmed string is a whole
/// number, optionally followed by a unit letter `k`, `m`, `g` or `t` (in
/// either case, powers of 1024). Errors for an empty string, another
/// letter, a number that does not parse, a negative number, and a result
/// beyond `i64`.
pub open spec fn memory_bytes(s: Seq<char>) -> Result<int, Seq<char>> {
    let t = trim_of(s);
    if t.len() == 0 {
        Err("Memory string cannot be empty"@)
    } else {
        let last = t.last();
        let (num, mult) = if alphabetic(last) {
            (t.drop_last(), unit_bytes(last))
        } else {
            (t, Some(1int))
        };
        match mult {
            None => Err("Invalid memory unit: "@.push(last)),
            Some(m) => match parse_signed(num) {
                None => Err("Invalid number in memory string: "@ + num),
                Some(n) => if n < 0 {
                    Err("Memory size cannot be negative"@)
                } else if n * m > i64::MAX {
                    Err("Memory size too large, would cause overflow"@)
                } else {
                    Ok(n * m)
                },
            },
        }
    }
}

/// Converts a memory string such as `512`, `2M` or `3g` to bytes.
pub fn convert_memory_string_to_bytes(memory_str: &str) -> (r: Result<i64, String>)
    requires
        !cuts_letter(memory_str@),
    ensures
        match memory_bytes(memory_str@) {
            Ok(n) => r matches Ok(v) && v == n,
            Err(e) => r matches Err(x) && x@ == e,
        },
{
    let tv = trim(chars_of(memory_str).as_slice());
    let t = tv.as_slice();
    let n = t.len();
    if n == 0 {
        return Err(string_from("Memory string cannot be empty"));
    }
    let last = t[n - 1];
    let (num, mult): (Vec<char>, Option<i64>) = if is_alphabetic(last) {
        let head = slice_chars(t, 0, n - 1);
        assert(head@ =~= t@.drop_last());
        let m: Option<i64> = if last == 'k' || last == 'K' {
            Some(1024)
        } else if last == 'm' || last == 'M' {
            Some(1048576)
        } else if last == 'g' || last == 'G' {
            Some(1073741824)
        } else if last == 't' || last == 'T' {
            Some(1099511627776)
        } else {
            None
        };
        (head, m)
    } else {
        let all = slice_chars(t, 0, n);
        assert(all@ =~= t@);
        (all, Some(1))
    };
    let m = match mult {
        Some(m) => m,
        None => {
            let mut e = string_from("Invalid memory unit: ");
            push_char(&mut e, last);
            return Err(e);
        },
    };
    let number = match parse_i64_chars(num.as_slice()) {
        Some(x) => x,
        None => {
            let mut e = string_from("Invalid number in memory string: ");
            crate::text::append_chars(&mut e, num.as_slice());
            return Err(e);
        },
    };
    if number < 0 {
        return Err(string_from("Memory size cannot be negative"));
    }
    match number.checked_mul(m) {
        Some(v) => Ok(v),
        None => Err(string_from("Memory size too large, would cause overflow")),
    }
}

/// Converts a memory string to bytes where that can be done: `None` for a
/// string whose reading would cut a multi-byte letter in half.
pub fn memory_string_to_bytes(memory_str: &str) -> (r: Option<Result<i64, String>>)
    ensures
        match r {
            None => cuts_letter(memory_str@),
            Some(res) => !cuts_letter(memory_str@) && match memory_bytes(memory_str@) {
                Ok(n) => res matches Ok(v) && v == n,
                Err(e) => res matches Err(x) && x@ == e,
            },
        },
{
    let tv = trim(chars_of(memory_str).as_slice());
    let n = tv.len();
    if n > 0 && is_alphabetic(tv[n - 1]) && tv[n - 1] as u32 >= 128 {
        return None;
    }
    Some(convert_memory_string_to_bytes(memory_str))
}

// ---------------------------------------------------------------------------
// Actions
// ---------------------------------------------------------------------------

/// Whether a job runner carries out an action itself: it runs commands,
/// and schedules Slurm nodes; other actions are left to others.
pub open spec fn handles_action(action_type: Seq<char>, scheduler_type: Option<Seq<char>>) -> bool {
    action_type == "run_commands"@ || (action_type == "schedule_nodes"@ && scheduler_type
        == Some("slurm"@))
}

/// Whether a job runner carries out an action of the given type, whose
/// configuration names the given scheduler type.
pub fn can_handle_action(action_type: &str, scheduler_type: Option<&str>) -> (b: bool)
    ensures
        b == handles_action(action_type@, crate::text::opt_str_chars(scheduler_type)),
{
    let a = chars_of(action_type);
    if chars_eq_str(a.as_slice(), "run_commands") {
        return true;
    }
    if chars_eq_str(a.as_slice(), "schedule_nodes") {
        return match scheduler_type {
            Some(s) => {
                let sv = chars_of(s);
                chars_eq_str(sv.as_slice(), "slurm")
            },
            None => false,
        };
    }
    false
}

/// The CPUs and GPUs a job runner has free, beside what its node had when
/// the runner started (memory, counted in fractional gigabytes, is kept
/// beside this by the runner).
pub struct ResourcePool {
    pub num_cpus: i64,
    pub num_gpus: i64,
    pub orig_cpus: i64,
    pub orig_gpus: i64,
}

impl ResourcePool {
    /// A pool with all of a node's CPUs and GPUs free.
    pub fn new(num_cpus: i64, num_gpus: i64) -> (r: Self)
        ensures
            r.num_cpus == num_cpus,
            r.num_gpus == num_gpus,
            r.orig_cpus == num_cpus,
            r.orig_gpus == num_gpus,
    {
        ResourcePool { num_cpus, num_gpus, orig_cpus: num_cpus, orig_gpus: num_gpus }
    }

    /// Takes a started job's CPUs and GPUs from the pool; the pool may not
    /// go below zero.
    pub fn decrement(&mut self, num_cpus: i64, num_gpus: i64)
        requires
            0 <= old(self).num_cpus - num_cpus <= i64::MAX,
            0 <= old(self).num_gpus - num_gpus <= i64::MAX,
        ensures
            final(self).num_cpus == old(self).num_cpus - num_cpus,
            final(self).num_gpus == old(self).num_gpus - num_gpus,
            final(self).orig_cpus == old(self).orig_cpus,
            final(self).orig_gpus == old(self).orig_gpus,
    {
        self.num_cpus = self.num_cpus - num_cpus;
        self.num_gpus = self.num_gpus - num_gpus;
    }

    /// Gives a finished job's CPUs and GPUs back; the pool may not exceed
    /// what the node had.
    pub fn increment(&mut self, num_cpus: i64, num_gpus: i64)
        requires
            i64::MIN <= old(self).num_cpus + num_cpus <= old(self).orig_cpus,
            i64::MIN <= old(self).num_gpus + num_gpus <= old(self).orig_gpus,
        ensures
            final(self).num_cpus == old(self).num_cpus + num_cpus,
            final(self).num_gpus == old(self).num_gpus + num_gpus,
            final(self).orig_cpus == old(self).orig_cpus,
            final(self).orig_gpus == old(self).orig_gpus,
    {
        self.num_cpus = self.num_cpus + num_cpus;
        self.num_gpus = self.num_gpus + num_gpus;
    }
}

/// Giving back what a job took restores the pool: a decrement followed by an
/// increment of the same amounts is allowed and leaves the pool as it was,
/// whenever the pool was within what the node had.
pub proof fn lemma_increment_undoes_decrement(p: ResourcePool, num_cpus: i64, num_gpus: i64)
    requires
        p.num_cpus <= p.orig_cpus,
        p.num_gpus <= p.orig_gpus,
        0 <= p.num_cpus - num_cpus <= i64::MAX,
        0 <= p.num_gpus - num_gpus <= i64::MAX,
    ensures
        ({
            let q = ResourcePool {
                num_cpus: (p.num_cpus - num_cpus) as i64,
                num_gpus: (p.num_gpus - num_gpus) as i64,
                ..p
            };
            &&& i64::MIN <= q.num_cpus + num_cpus <= q.orig_cpus
            &&& i64::MIN <= q.num_gpus + num_gpus <= q.orig_gpus
            &&& q.num_cpus + num_cpus == p.num_cpus
            &&& q.num_gpus + num_gpus == p.num_gpus
        }),
{
}

} // verus!
