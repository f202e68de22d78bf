//! Slurm scheduler configurations: creating and updating them, the options
//! they hand to the submission scripts, and the names of those scripts.

use vstd::prelude::*;
use crate::text::{append_str, decimal_int, i64_to_string, opt_chars, string_from};

verus! {

/// A Slurm scheduler configuration of a workflow.
pub struct SlurmSchedulerModel {
    pub id: Option<i64>,
    pub workflow_id: i64,
    pub name: Option<String>,
    pub account: String,
    pub gres: Option<String>,
    pub mem: Option<String>,
    pub nodes: i64,
    pub ntasks_per_node: Option<i64>,
    pub partition: Option<String>,
    pub qos: Option<String>,
    pub tmp: Option<String>,
    pub walltime: String,
    pub extra: Option<String>,
}

/// The fields that an update request replaces; each one that is given.
pub struct SchedulerUpdate {
    pub name: Option<String>,
    pub account: Option<String>,
    pub gres: Option<String>,
    pub mem: Option<String>,
    pub nodes: Option<i64>,
    pub partition: Option<String>,
    pub qos: Option<String>,
    pub tmp: Option<String>,
    pub walltime: Option<String>,
    pub extra: Option<String>,
}

fn copy_opt(o: &Option<String>) -> (r: Option<String>)
    ensures
        opt_chars(r) == opt_chars(*o),
{
    match o {
        Some(s) => Some(string_from(s.as_str())),
        None => None,
    }
}

/// The configuration that a create request sends: no id yet, one task per
/// node left to Slurm, and the name and quality of service always given.
pub fn new_slurm_scheduler(
    workflow_id: i64,
    name: &str,
    account: &str,
    gres: &Option<String>,
    mem: &Option<String>,
    nodes: i64,
    partition: &Option<String>,
    qos: &str,
    tmp: &Option<String>,
    walltime: &str,
    extra: &Option<String>,
) -> (s: SlurmSchedulerModel)
    ensures
        s.id is None,
        s.workflow_id == workflow_id,
        opt_chars(s.name) == Some(name@),
        s.account@ == account@,
        opt_chars(s.gres) == opt_chars(*gres),
        opt_chars(s.mem) == opt_chars(*mem),
        s.nodes == nodes,
        s.ntasks_per_node is None,
        opt_chars(s.partition) == opt_chars(*partition),
        opt_chars(s.qos) == Some(qos@),
        opt_chars(s.tmp) == opt_chars(*tmp),
        s.walltime@ == walltime@,
        opt_chars(s.extra) == opt_chars(*extra),
{
    SlurmSchedulerModel {
        id: None,
        workflow_id,
        name: Some(string_from(name)),
        account: string_from(account),
        gres: copy_opt(gres),
        mem: copy_opt(mem),
        nodes,
        ntasks_per_node: None,
        partition: copy_opt(partition),
        qos: Some(string_from(qos)),
        tmp: copy_opt(tmp),
        walltime: string_from(walltime),
        extra: copy_opt(extra),
    }
}

/// Whether an update request gives any field at all.
pub open spec fn update_gives_any(u: SchedulerUpdate) -> bool {
    ||| u.name is Some
    ||| u.account is Some
    ||| u.gres is Some
    ||| u.mem is Some
    ||| u.nodes is Some
    ||| u.partition is Some
    ||| u.qos is Some
    ||| u.tmp is Some
    ||| u.walltime is Some
    ||| u.extra is Some
}

/// A field after an update: the given value, else the old one.
pub open spec fn updated_opt(new: Option<String>, old: Option<Seq<char>>) -> Option<Seq<char>> {
    match new {
        Some(v) => Some(v@),
        None => old,
    }
}

/// A required field after an update: the given value, else the old one.
pub open spec fn updated_req(new: Option<String>, old: Seq<char>) -> Seq<char> {
    match new {
        Some(v) => v@,
        None => old,
    }
}

/// Applies an update request to a configuration: every field the request
/// gives replaces the old value, the others stay. Returns whether the request
/// gave any field (a request that gives none is not sent).
pub fn apply_scheduler_update(s: &mut SlurmSchedulerModel, u: &SchedulerUpdate) -> (changed: bool)
    ensures
        changed == update_gives_any(*u),
        final(s).id == old(s).id,
        final(s).workflow_id == old(s).workflow_id,
        opt_chars(final(s).name) == updated_opt(u.name, opt_chars(old(s).name)),
        final(s).account@ == updated_req(u.account, old(s).account@),
        opt_chars(final(s).gres) == updated_opt(u.gres, opt_chars(old(s).gres)),
        opt_chars(final(s).mem) == updated_opt(u.mem, opt_chars(old(s).mem)),
        final(s).nodes == match u.nodes {
            Some(n) => n,
            None => old(s).nodes,
        },
        final(s).ntasks_per_node == old(s).ntasks_per_node,
        opt_chars(final(s).partition) == updated_opt(u.partition, opt_chars(old(s).partition)),
        opt_chars(final(s).qos) == updated_opt(u.qos, opt_chars(old(s).qos)),
        opt_chars(final(s).tmp) == updated_opt(u.tmp, opt_chars(old(s).tmp)),
        final(s).walltime@ == updated_req(u.walltime, old(s).walltime@),
        opt_chars(final(s).extra) == updated_opt(u.extra, opt_chars(old(s).extra)),
{
    let mut changed = false;
    if let Some(n) = &u.name {
        s.name = Some(string_from(n.as_str()));
        changed = true;
    }
    if let Some(a) = &u.account {
        s.account = string_from(a.as_str());
        changed = true;
    }
    if let Some(g) = &u.gres {
        s.gres = Some(string_from(g.as_str()));
        changed = true;
    }
    if let Some(m) = &u.mem {
        s.mem = Some(string_from(m.as_str()));
        changed = true;
    }
    if let Some(n) = u.nodes {
        s.nodes = n;
        changed = true;
    }
    if let Some(p) = &u.partition {
        s.partition = Some(string_from(p.as_str()));
        changed = true;
    }
    if let Some(q) = &u.qos {
        s.qos = Some(string_from(q.as_str()));
        changed = true;
    }
    if let Some(t) = &u.tmp {
        s.tmp = Some(string_from(t.as_str()));
        changed = true;
    }
    if let Some(w) = &u.walltime {
        s.walltime = string_from(w.as_str());
        changed = true;
    }
    if let Some(e) = &u.extra {
        s.extra = Some(string_from(e.as_str()));
        changed = true;
    }
    changed
}

/// The option `key` where the configuration gives a value for it.
pub open spec fn opt_entry(key: Seq<char>, v: Option<String>) -> Seq<(Seq<char>, Seq<char>)> {
    match v {
        Some(x) => seq![(key, x@)],
        None => seq![],
    }
}

/// The options a configuration hands to its submission scripts: account,
/// wall time and node count always, then each optional setting it gives.
pub open spec fn options_of(s: SlurmSchedulerModel) -> Seq<(Seq<char>, Seq<char>)> {
    seq![("account"@, s.account@), ("walltime"@, s.walltime@), ("nodes"@, decimal_int(s.nodes as int))]
        + opt_entry("partition"@, s.partition) + opt_entry("qos"@, s.qos) + opt_entry("gres"@, s.gres)
        + opt_entry("mem"@, s.mem) + opt_entry("tmp"@, s.tmp) + opt_entry("extra"@, s.extra)
}

/// The views of a list of key and value pairs.
pub open spec fn pairs_view(v: Seq<(String, String)>) -> Seq<(Seq<char>, Seq<char>)> {
    v.map_values(|p: (String, String)| (p.0@, p.1@))
}

fn push_pair(v: &mut Vec<(String, String)>, key: &str, value: &str)
    ensures
        pairs_view(final(v)@) == pairs_view(old(v)@).push((key@, value@)),
{
    v.push((string_from(key), string_from(value)));
    proof {
        assert(pairs_view(final(v)@) =~= pairs_view(old(v)@).push((key@, value@)));
    }
}

fn push_opt(v: &mut Vec<(String, String)>, key: &str, value: &Option<String>)
    ensures
        pairs_view(final(v)@) == pairs_view(old(v)@) + opt_entry(key@, *value),
{
    match value {
        Some(x) => push_pair(v, key, x.as_str()),
        None => {
            assert(pairs_view(old(v)@) + opt_entry(key@, *value) =~= pairs_view(old(v)@));
        },
    }
}

/// The options of a configuration, as key and value pairs in the order of
/// `options_of`; no key occurs twice.
pub fn scheduler_options(s: &SlurmSchedulerModel) -> (r: Vec<(String, String)>)
    ensures
        pairs_view(r@) == options_of(*s),
{
    let mut v: Vec<(String, String)> = Vec::new();
    push_pair(&mut v, "account", s.account.as_str());
    push_pair(&mut v, "walltime", s.walltime.as_str());
    let nodes = i64_to_string(s.nodes);
    push_pair(&mut v, "nodes", nodes.as_str());
    push_opt(&mut v, "partition", &s.partition);
    push_opt(&mut v, "qos", &s.qos);
    push_opt(&mut v, "gres", &s.gres);
    push_opt(&mut v, "mem", &s.mem);
    push_opt(&mut v, "tmp", &s.tmp);
    push_opt(&mut v, "extra", &s.extra);
    assert(pairs_view(v@) =~= options_of(*s));
    v
}

/// The name of the `job_num`-th Slurm job of a submission: `{prefix}_{job_num}`.
pub fn submission_job_name(job_prefix: &str, job_num: i32) -> (r: String)
    ensures
        r@ == job_prefix@ + "_"@ + decimal_int(job_num as int),
{
    let mut s = string_from(job_prefix);
    append_str(&mut s, "_");
    let n = i64_to_string(job_num as i64);
    append_str(&mut s, n.as_str());
    s
}

/// The path of a job's submission script: `{output}/{job_name}.sh`.
pub fn submission_script_path(output: &str, job_name: &str) -> (r: String)
    ensures
        r@ == output@ + "/"@ + job_name@ + ".sh"@,
{
    let mut s = string_from(output);
    append_str(&mut s, "/");
    append_str(&mut s, job_name);
    append_str(&mut s, ".sh");
    s
}

} // verus!
