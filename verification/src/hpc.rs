//! Reading a Slurm cluster's partitions from the output of `sinfo` and
//! `scontrol`, and describing them as an HPC profile.

use vstd::prelude::*;
use crate::chars::{
    chars_eq, chars_eq_str, contains, contains_seq, ends_with, starts_with, lemma_lex_total,
    lemma_lex_transitive, lex_less, lex_lt, find_char, first_index_of, lines, lines_of,
    slice_chars, split_char, split_chars, split_whitespace, trim, trim_end_matches,
    trim_end_matches_of, trim_of, words_of, replace_char, replace_char_of,
    views,
};
use crate::text::{
    append_chars, append_str, chars_of, decimal, lowercase, opt_chars, u64_to_string, opt_str_chars, parse_unsigned, parse_unsigned_chars, string_from, string_of,
    to_lowercase,
};

verus! {

// ---------------------------------------------------------------------------
// GRES
// ---------------------------------------------------------------------------

/// A number as `str::parse` reads it, or `default` when it does not parse.
pub open spec fn parse_or(s: Seq<char>, max: nat, default: nat) -> nat {
    match parse_unsigned(s, max) {
        Some(n) => n,
        None => default,
    }
}

/// The GPUs one GRES entry declares: `gpu:COUNT` or `gpu:TYPE:COUNT`, after
/// dropping socket information from the first `(` on; `None` for other
/// entries and for a count that is zero or does not parse.
pub open spec fn gres_entry(entry: Seq<char>) -> Option<(u32, Option<Seq<char>>)> {
    let e = split_char(entry, '(')[0];
    let parts = split_char(e, ':');
    if parts[0] != seq!['g', 'p', 'u'] {
        None
    } else if parts.len() == 2 {
        let count = parse_or(parts[1], u32::MAX as nat, 0);
        if count > 0 { Some((count as u32, None)) } else { None }
    } else if parts.len() == 3 {
        let count = parse_or(parts[2], u32::MAX as nat, 0);
        if count > 0 { Some((count as u32, Some(parts[1]))) } else { None }
    } else {
        None
    }
}

/// The first entry of a list that declares GPUs.
pub open spec fn first_gpu_entry(entries: Seq<Seq<char>>) -> Option<(u32, Option<Seq<char>>)>
    decreases entries.len(),
{
    if entries.len() == 0 {
        None
    } else {
        match gres_entry(entries[0]) {
            Some(x) => Some(x),
            None => first_gpu_entry(entries.drop_first()),
        }
    }
}

/// GPU count and type from a GRES string such as `gpu:a100:4` or
/// `gpu:h100:2,nvme:1`: the first comma-separated entry that declares GPUs.
pub open spec fn spec_parse_gres(gres: Option<Seq<char>>) -> Option<(u32, Option<Seq<char>>)> {
    match gres {
        Some(g) => first_gpu_entry(split_char(g, ',')),
        None => None,
    }
}

fn parse_u32_or(s: &[char], default: u32) -> (r: u32)
    ensures
        r == parse_or(s@, u32::MAX as nat, default as nat),
{
    match parse_unsigned_chars(s, u32::MAX as u64) {
        Some(n) => n as u32,
        None => default,
    }
}

fn parse_u64_or(s: &[char], default: u64) -> (r: u64)
    ensures
        r == parse_or(s@, u64::MAX as nat, default as nat),
{
    match parse_unsigned_chars(s, u64::MAX) {
        Some(n) => n,
        None => default,
    }
}

fn gres_entry_exec(entry: &[char]) -> (r: Option<(u32, Option<Vec<char>>)>)
    ensures
        match r {
            Some((c, t)) => gres_entry(entry@) == Some(
                (
                    c,
                    match t {
                        Some(v) => Some(v@),
                        None => None::<Seq<char>>,
                    },
                ),
            ),
            None => gres_entry(entry@) is None,
        },
{
    let pieces = split_chars(entry, '(');
    assert(views(pieces@)[0] == pieces@[0]@);
    let parts = split_chars(pieces[0].as_slice(), ':');
    assert(views(parts@)[0] == parts@[0]@);
    if !chars_eq_str(parts[0].as_slice(), "gpu") {
        proof {
            reveal_strlit("gpu");
            assert("gpu"@ =~= seq!['g', 'p', 'u']);
        }
        return None;
    }
    proof {
        reveal_strlit("gpu");
        assert("gpu"@ =~= seq!['g', 'p', 'u']);
    }
    if parts.len() == 2 {
        assert(views(parts@)[1] == parts@[1]@);
        let count = parse_u32_or(parts[1].as_slice(), 0);
        if count > 0 {
            Some((count, None))
        } else {
            None
        }
    } else if parts.len() == 3 {
        assert(views(parts@)[1] == parts@[1]@);
        assert(views(parts@)[2] == parts@[2]@);
        let count = parse_u32_or(parts[2].as_slice(), 0);
        if count > 0 {
            let t = slice_chars(parts[1].as_slice(), 0, parts[1].len());
            assert(t@ =~= parts@[1]@);
            Some((count, Some(t)))
        } else {
            None
        }
    } else {
        None
    }
}

/// Reads the GPU count and type from a GRES string; `(None, None)` when no
/// entry declares GPUs.
pub fn parse_gres(gres: &Option<String>) -> (r: (Option<u32>, Option<String>))
    ensures
        (r.0, opt_chars(r.1)) == match spec_parse_gres(opt_chars(*gres)) {
            Some((c, t)) => (Some(c), t),
            None => (None, None),
        },
{
    let g = match gres {
        Some(g) => g.as_str(),
        None => return (None, None),
    };
    let all = chars_of(g);
    let entries = split_chars(all.as_slice(), ',');
    let ghost es = views(entries@);
    assert(es.skip(0) =~= es);
    let mut i: usize = 0;
    while i < entries.len()
        invariant
            es == views(entries@),
            es == split_char(g@, ','),
            opt_chars(*gres) == Some(g@),
            i <= entries@.len(),
            first_gpu_entry(es) == first_gpu_entry(es.skip(i as int)),
        decreases entries@.len() - i,
    {
        let ghost rest = es.skip(i as int);
        assert(rest[0] == entries@[i as int]@);
        assert(rest.drop_first() =~= es.skip(i + 1));
        match gres_entry_exec(entries[i].as_slice()) {
            Some((count, t)) => {
                assert(first_gpu_entry(rest) == gres_entry(rest[0]));
                assert(spec_parse_gres(opt_chars(*gres)) == first_gpu_entry(es));
                let kind = match t {
                    Some(v) => Some(string_of(v.as_slice())),
                    None => None,
                };
                assert(opt_chars(kind) == match t {
                    Some(v) => Some(v@),
                    None => None::<Seq<char>>,
                });
                return (Some(count), kind);
            },
            None => {},
        }
        i = i + 1;
    }
    assert(es.skip(i as int) =~= Seq::<Seq<char>>::empty());
    (None, None)
}

// ---------------------------------------------------------------------------
// GPU inference from a partition name
// ---------------------------------------------------------------------------

/// The GPU type a partition name suggests, by the first of `h100`, `a100`,
/// `v100`, `a40`, `a30`, `l40` that its lower-case form contains, else
/// `gpu`; four GPUs are assumed. Only names whose lower-case form contains
/// `gpu` suggest GPUs at all.
pub open spec fn spec_infer_gpu(name: Seq<char>) -> Option<(u32, Seq<char>)> {
    let n = lowercase(name);
    if !contains_seq(n, "gpu"@) {
        None
    } else if contains_seq(n, "h100"@) {
        Some((4, "h100"@))
    } else if contains_seq(n, "a100"@) {
        Some((4, "a100"@))
    } else if contains_seq(n, "v100"@) {
        Some((4, "v100"@))
    } else if contains_seq(n, "a40"@) {
        Some((4, "a40"@))
    } else if contains_seq(n, "a30"@) {
        Some((4, "a30"@))
    } else if contains_seq(n, "l40"@) {
        Some((4, "l40"@))
    } else {
        Some((4, "gpu"@))
    }
}

fn contains_str(s: &[char], p: &str) -> (b: bool)
    ensures
        b == contains_seq(s@, p@),
{
    let v = chars_of(p);
    contains(s, v.as_slice())
}

/// Guesses GPU count and type from a partition name, for partitions whose
/// GRES Slurm does not report.
pub fn infer_gpu_from_name(name: &str) -> (r: Option<(u32, String)>)
    ensures
        match spec_infer_gpu(name@) {
            Some((c, t)) => r matches Some((rc, rt)) && rc == c && rt@ == t,
            None => r is None,
        },
{
    let lower = to_lowercase(name);
    let n = chars_of(lower.as_str());
    if !contains_str(n.as_slice(), "gpu") {
        return None;
    }
    if contains_str(n.as_slice(), "h100") {
        return Some((4, string_from("h100")));
    }
    if contains_str(n.as_slice(), "a100") {
        return Some((4, string_from("a100")));
    }
    if contains_str(n.as_slice(), "v100") {
        return Some((4, string_from("v100")));
    }
    if contains_str(n.as_slice(), "a40") {
        return Some((4, string_from("a40")));
    }
    if contains_str(n.as_slice(), "a30") {
        return Some((4, string_from("a30")));
    }
    if contains_str(n.as_slice(), "l40") {
        return Some((4, string_from("l40")));
    }
    Some((4, string_from("gpu")))
}

// ---------------------------------------------------------------------------
// Time limits
// ---------------------------------------------------------------------------

/// Seconds of a time given as `HH:MM:SS`, `MM:SS` or `MM`; parts that do
/// not parse count as zero, and any other shape gives zero.
pub open spec fn time_component_value(s: Seq<char>) -> int {
    let parts = split_char(s, ':');
    let p = |i: int| parse_or(parts[i], u64::MAX as nat, 0) as int;
    if parts.len() == 3 {
        p(0) * 3600 + p(1) * 60 + p(2)
    } else if parts.len() == 2 {
        p(0) * 60 + p(1)
    } else if parts.len() == 1 {
        p(0) * 60
    } else {
        0
    }
}

/// The seconds of a year, what an unlimited time limit counts as.
pub open spec fn unlimited_secs() -> int {
    31536000int
}

/// Seconds of a Slurm time limit: `infinite` or `UNLIMITED` count as a
/// year; otherwise `D-HH:MM:SS` (days before the first `-`) or a time as
/// `time_component_value` reads it. Surrounding whitespace is ignored.
pub open spec fn timelimit_value(s: Seq<char>) -> int {
    let t = trim_of(s);
    if t == "infinite"@ || t == "UNLIMITED"@ {
        unlimited_secs()
    } else {
        match first_index_of(t, '-') {
            Some(k) => parse_or(t.take(k), u64::MAX as nat, 0) as int * 86400 + time_component_value(
                t.skip(k + 1),
            ),
            None => time_component_value(t),
        }
    }
}

fn time_component_checked(s: &[char]) -> (r: Option<u64>)
    ensures
        match r {
            Some(v) => v == time_component_value(s@),
            None => time_component_value(s@) > u64::MAX,
        },
{
    let parts = split_chars(s, ':');
    let ghost pv = views(parts@);
    let n = parts.len();
    if n == 3 {
        assert(pv[0] == parts@[0]@ && pv[1] == parts@[1]@ && pv[2] == parts@[2]@);
        let h = parse_u64_or(parts[0].as_slice(), 0);
        let m = parse_u64_or(parts[1].as_slice(), 0);
        let sec = parse_u64_or(parts[2].as_slice(), 0);
        let a = match h.checked_mul(3600) {
            Some(a) => a,
            None => return None,
        };
        let b = match m.checked_mul(60) {
            Some(b) => b,
            None => return None,
        };
        let ab = match a.checked_add(b) {
            Some(x) => x,
            None => return None,
        };
        match ab.checked_add(sec) {
            Some(x) => Some(x),
            None => None,
        }
    } else if n == 2 {
        assert(pv[0] == parts@[0]@ && pv[1] == parts@[1]@);
        let m = parse_u64_or(parts[0].as_slice(), 0);
        let sec = parse_u64_or(parts[1].as_slice(), 0);
        let a = match m.checked_mul(60) {
            Some(a) => a,
            None => return None,
        };
        match a.checked_add(sec) {
            Some(x) => Some(x),
            None => None,
        }
    } else if n == 1 {
        assert(pv[0] == parts@[0]@);
        let m = parse_u64_or(parts[0].as_slice(), 0);
        match m.checked_mul(60) {
            Some(a) => Some(a),
            None => None,
        }
    } else {
        Some(0)
    }
}

fn timelimit_checked(s: &[char]) -> (r: Option<u64>)
    ensures
        match r {
            Some(v) => v == timelimit_value(s@),
            None => timelimit_value(s@) > u64::MAX,
        },
{
    let tv = trim(s);
    let t = tv.as_slice();
    if chars_eq_str(t, "infinite") || chars_eq_str(t, "UNLIMITED") {
        return Some(365 * 24 * 3600);
    }
    match find_char(t, '-') {
        Some(k) => {
            let n = t.len();
            assert(k < n);
            let days_part = slice_chars(t, 0, k);
            let rest = slice_chars(t, k + 1, n);
            assert(days_part@ =~= t@.take(k as int));
            assert(rest@ =~= t@.skip(k + 1));
            let days = parse_u64_or(days_part.as_slice(), 0);
            let d = match days.checked_mul(86400) {
                Some(d) => d,
                None => {
                    proof {
                        let tc = time_component_value(rest@);
                        assert(tc >= 0) by {
                            let parts = split_char(rest@, ':');
                        }
                    }
                    return None;
                },
            };
            match time_component_checked(rest.as_slice()) {
                Some(x) => d.checked_add(x),
                None => None,
            }
        },
        None => time_component_checked(t),
    }
}

/// Whether a Slurm time limit's seconds fit in a `u64`.
pub fn timelimit_in_range(s: &str) -> (b: bool)
    ensures
        b == (timelimit_value(s@) <= u64::MAX),
{
    let v = chars_of(s);
    timelimit_checked(v.as_slice()).is_some()
}

/// Converts a Slurm time limit to seconds.
pub fn parse_slurm_timelimit(s: &str) -> (r: u64)
    requires
        timelimit_value(s@) <= u64::MAX,
    ensures
        r == timelimit_value(s@),
{
    let v = chars_of(s);
    match timelimit_checked(v.as_slice()) {
        Some(x) => x,
        None => 0,
    }
}

/// Converts a time given as `HH:MM:SS`, `MM:SS` or `MM` to seconds.
pub fn parse_time_component(s: &str) -> (r: u64)
    requires
        time_component_value(s@) <= u64::MAX,
    ensures
        r == time_component_value(s@),
{
    let v = chars_of(s);
    match time_component_checked(v.as_slice()) {
        Some(x) => x,
        None => 0,
    }
}

// ---------------------------------------------------------------------------
// sinfo
// ---------------------------------------------------------------------------

/// One row of `sinfo -o "%P|%c|%m|%l|%G|%D"`, one node type of a partition.
pub struct SinfoPartition {
    pub name: String,
    pub cpus: u32,
    pub memory_mb: u64,
    pub timelimit_secs: u64,
    pub gres: Option<String>,
}

/// What a row of `sinfo` says, as plain values.
pub struct SinfoRow {
    pub name: Seq<char>,
    pub cpus: u32,
    pub memory_mb: u64,
    pub timelimit_secs: int,
    pub gres: Option<Seq<char>>,
}

impl View for SinfoPartition {
    type V = SinfoRow;

    open spec fn view(&self) -> SinfoRow {
        SinfoRow {
            name: self.name@,
            cpus: self.cpus,
            memory_mb: self.memory_mb,
            timelimit_secs: self.timelimit_secs as int,
            gres: opt_chars(self.gres),
        }
    }
}

/// The rows' views, in order.
pub open spec fn sinfo_views(v: Seq<SinfoPartition>) -> Seq<SinfoRow> {
    Seq::new(v.len(), |i: int| v[i]@)
}

/// The row one line of `sinfo` output gives: `None` for a line with fewer
/// than six `|`-separated fields. The partition name loses trailing `*`
/// (the default partition's mark); CPUs that do not parse count as 1,
/// memory as 1024 MB; a GRES field of `(null)` or nothing means none.
pub open spec fn sinfo_line(line: Seq<char>) -> Option<SinfoRow> {
    let parts = split_char(line, '|');
    if parts.len() < 6 {
        None
    } else {
        Some(
            SinfoRow {
                name: trim_end_matches_of(parts[0], seq!['*']),
                cpus: parse_or(parts[1], u32::MAX as nat, 1) as u32,
                memory_mb: parse_or(parts[2], u64::MAX as nat, 1024) as u64,
                timelimit_secs: timelimit_value(parts[3]),
                gres: if parts[4] == "(null)"@ || parts[4].len() == 0 {
                    None
                } else {
                    Some(parts[4])
                },
            },
        )
    }
}

/// The rows of the given lines, in order, skipping lines that give none.
pub open spec fn sinfo_rows(lines: Seq<Seq<char>>) -> Seq<SinfoRow>
    decreases lines.len(),
{
    if lines.len() == 0 {
        Seq::empty()
    } else {
        let prev = sinfo_rows(lines.drop_last());
        match sinfo_line(lines.last()) {
            Some(row) => prev.push(row),
            None => prev,
        }
    }
}

/// Whether every time limit in the given `sinfo` lines fits in a `u64`.
pub open spec fn sinfo_lines_fit(lines: Seq<Seq<char>>) -> bool {
    forall|i: int|
        0 <= i < lines.len() && #[trigger] split_char(lines[i], '|').len() >= 6 ==> timelimit_value(
            split_char(lines[i], '|')[3],
        ) <= u64::MAX
}

fn sinfo_line_exec(line: &[char]) -> (r: Option<SinfoPartition>)
    requires
        split_char(line@, '|').len() >= 6 ==> timelimit_value(split_char(line@, '|')[3]) <= u64::MAX,
    ensures
        match r {
            Some(p) => sinfo_line(line@) == Some(p@),
            None => sinfo_line(line@) is None,
        },
{
    let parts = split_chars(line, '|');
    let ghost pv = views(parts@);
    if parts.len() < 6 {
        return None;
    }
    assert(pv[0] == parts@[0]@ && pv[1] == parts@[1]@ && pv[2] == parts@[2]@);
    assert(pv[3] == parts@[3]@ && pv[4] == parts@[4]@);
    let star = vec!['*'];
    assert(star@ =~= seq!['*']);
    let name_chars = trim_end_matches(parts[0].as_slice(), star.as_slice());
    let name = string_of(name_chars.as_slice());
    let cpus = parse_u32_or(parts[1].as_slice(), 1);
    let memory_mb = parse_u64_or(parts[2].as_slice(), 1024);
    let timelimit_secs = match timelimit_checked(parts[3].as_slice()) {
        Some(t) => t,
        None => 0,
    };
    let g = parts[4].as_slice();
    let gres = if chars_eq_str(g, "(null)") || g.len() == 0 {
        None
    } else {
        Some(string_of(g))
    };
    let row = SinfoPartition { name, cpus, memory_mb, timelimit_secs, gres };
    assert(row@ == sinfo_line(line@).unwrap());
    Some(row)
}

/// Whether every time limit in `sinfo` output fits in a `u64`, which
/// `parse_sinfo_string` asks of its input.
pub fn sinfo_in_range(input: &str) -> (b: bool)
    ensures
        b == sinfo_lines_fit(lines_of(input@)),
{
    let all = chars_of(input);
    let ls = lines(all.as_slice());
    let ghost lv = views(ls@);
    let mut i: usize = 0;
    while i < ls.len()
        invariant
            lv == views(ls@),
            lv == lines_of(input@),
            i <= ls@.len(),
            forall|j: int|
                0 <= j < i && #[trigger] split_char(lv[j], '|').len() >= 6 ==> timelimit_value(
                    split_char(lv[j], '|')[3],
                ) <= u64::MAX,
        decreases ls@.len() - i,
    {
        assert(lv[i as int] == ls@[i as int]@);
        let parts = split_chars(ls[i].as_slice(), '|');
        if parts.len() >= 6 {
            assert(views(parts@)[3] == parts@[3]@);
            if timelimit_checked(parts[3].as_slice()).is_none() {
                assert(split_char(lv[i as int], '|').len() >= 6 && timelimit_value(
                    split_char(lv[i as int], '|')[3],
                ) > u64::MAX);
                return false;
            }
        }
        i = i + 1;
    }
    true
}

/// Reads `sinfo -o "%P|%c|%m|%l|%G|%D" --noheader` output into one entry
/// per line that has all six fields.
pub fn parse_sinfo_string(input: &str) -> (r: Result<Vec<SinfoPartition>, String>)
    requires
        sinfo_lines_fit(lines_of(input@)),
    ensures
        r matches Ok(v) && sinfo_views(v@) == sinfo_rows(lines_of(input@)),
{
    let all = chars_of(input);
    let ls = lines(all.as_slice());
    let ghost lv = views(ls@);
    let mut partitions: Vec<SinfoPartition> = Vec::new();
    let mut i: usize = 0;
    while i < ls.len()
        invariant
            lv == views(ls@),
            sinfo_lines_fit(lv),
            i <= ls@.len(),
            sinfo_views(partitions@) == sinfo_rows(lv.take(i as int)),
        decreases ls@.len() - i,
    {
        assert(lv[i as int] == ls@[i as int]@);
        assert(lv.take(i + 1).drop_last() =~= lv.take(i as int));
        assert(split_char(lv[i as int], '|').len() >= 6 ==> timelimit_value(
            split_char(lv[i as int], '|')[3],
        ) <= u64::MAX);
        match sinfo_line_exec(ls[i].as_slice()) {
            Some(p) => {
                partitions.push(p);
            },
            None => {},
        }
        assert(sinfo_views(partitions@) =~= sinfo_rows(lv.take(i + 1)));
        i = i + 1;
    }
    assert(lv.take(ls@.len() as int) =~= lv);
    Ok(partitions)
}

// ---------------------------------------------------------------------------
// scontrol
// ---------------------------------------------------------------------------

/// Settings of a partition that `scontrol show partition` reports.
pub struct ScontrolPartitionInfo {
    pub min_nodes: Option<u32>,
    pub max_nodes: Option<u32>,
    pub oversubscribe: Option<String>,
    pub default_qos: Option<String>,
}

impl Default for ScontrolPartitionInfo {
    fn default() -> (r: Self)
        ensures
            r.min_nodes is None,
            r.max_nodes is None,
            r.oversubscribe is None,
            r.default_qos is None,
    {
        ScontrolPartitionInfo { min_nodes: None, max_nodes: None, oversubscribe: None, default_qos: None }
    }
}

/// The characters of an optional character vector.
pub open spec fn opt_vec_chars(o: Option<Vec<char>>) -> Option<Seq<char>> {
    match o {
        Some(v) => Some(v@),
        None => None,
    }
}

/// The value of the last `key=value` word among `words` whose key is `key`;
/// a word splits at its first `=`.
pub open spec fn word_value(words: Seq<Seq<char>>, key: Seq<char>) -> Option<Seq<char>>
    decreases words.len(),
{
    if words.len() == 0 {
        None
    } else {
        let w = words.last();
        match first_index_of(w, '=') {
            Some(k) => if w.take(k) == key {
                Some(w.skip(k + 1))
            } else {
                word_value(words.drop_last(), key)
            },
            None => word_value(words.drop_last(), key),
        }
    }
}

/// The value of the last `key=value` word in the given lines, each line
/// split at whitespace.
pub open spec fn setting_value(lines: Seq<Seq<char>>, key: Seq<char>) -> Option<Seq<char>>
    decreases lines.len(),
{
    if lines.len() == 0 {
        None
    } else {
        match word_value(words_of(lines.last()), key) {
            Some(v) => Some(v),
            None => setting_value(lines.drop_last(), key),
        }
    }
}

/// A `u32` as `str::parse` reads it.
pub open spec fn parse_u32_of(s: Seq<char>) -> Option<u32> {
    match parse_unsigned(s, u32::MAX as nat) {
        Some(n) => Some(n as u32),
        None => None,
    }
}

fn word_split(w: &[char], key: &[char]) -> (r: Option<Vec<char>>)
    ensures
        opt_vec_chars(r) == match first_index_of(w@, '=') {
            Some(k) => if w@.take(k) == key@ {
                Some(w@.skip(k + 1))
            } else {
                None
            },
            None => None,
        },
{
    match find_char(w, '=') {
        Some(k) => {
            let n = w.len();
            assert(k < n);
            let head = slice_chars(w, 0, k);
            assert(head@ =~= w@.take(k as int));
            if chars_eq(head.as_slice(), key) {
                let v = slice_chars(w, k + 1, n);
                assert(v@ =~= w@.skip(k + 1));
                Some(v)
            } else {
                None
            }
        },
        None => None,
    }
}

fn setting_exec(ls: &Vec<Vec<char>>, key: &[char]) -> (r: Option<Vec<char>>)
    ensures
        opt_vec_chars(r) == setting_value(views(ls@), key@),
{
    let ghost lv = views(ls@);
    let mut cur: Option<Vec<char>> = None;
    let mut i: usize = 0;
    while i < ls.len()
        invariant
            lv == views(ls@),
            i <= ls@.len(),
            opt_vec_chars(cur) == setting_value(lv.take(i as int), key@),
        decreases ls@.len() - i,
    {
        assert(lv[i as int] == ls@[i as int]@);
        let ws = split_whitespace(ls[i].as_slice());
        let ghost wv = views(ws@);
        let ghost before = setting_value(lv.take(i as int), key@);
        let mut j: usize = 0;
        assert(wv.take(0) =~= Seq::<Seq<char>>::empty());
        while j < ws.len()
            invariant
                wv == views(ws@),
                j <= ws@.len(),
                opt_vec_chars(cur) == match word_value(wv.take(j as int), key@) {
                    Some(v) => Some(v),
                    None => before,
                },
            decreases ws@.len() - j,
        {
            assert(wv[j as int] == ws@[j as int]@);
            assert(wv.take(j + 1).drop_last() =~= wv.take(j as int));
            assert(wv.take(j + 1).last() == wv[j as int]);
            match word_split(ws[j].as_slice(), key) {
                Some(v) => {
                    cur = Some(v);
                },
                None => {},
            }
            j = j + 1;
        }
        assert(wv.take(ws@.len() as int) =~= wv);
        assert(lv.take(i + 1).drop_last() =~= lv.take(i as int));
        assert(lv.take(i + 1).last() == lv[i as int]);
        i = i + 1;
    }
    assert(lv.take(ls@.len() as int) =~= lv);
    cur
}

fn parse_u32_vec(v: &Option<Vec<char>>) -> (r: Option<u32>)
    ensures
        r == match opt_vec_chars(*v) {
            Some(s) => parse_u32_of(s),
            None => None,
        },
{
    match v {
        Some(s) => match parse_unsigned_chars(s.as_slice(), u32::MAX as u64) {
            Some(n) => Some(n as u32),
            None => None,
        },
        None => None,
    }
}

/// Reads a partition's minimum and maximum node counts, `OverSubscribe`
/// setting and QoS from the output of `scontrol show partition`: the last
/// `key=value` word for each key counts. A `MaxNodes` of `UNLIMITED`
/// and a `QoS` of `N/A` mean no setting; node counts that do not parse
/// are left out.
pub fn parse_scontrol_output(text: &str) -> (r: ScontrolPartitionInfo)
    ensures
        r.min_nodes == match setting_value(lines_of(text@), "MinNodes"@) {
            Some(v) => parse_u32_of(v),
            None => None,
        },
        r.max_nodes == match setting_value(lines_of(text@), "MaxNodes"@) {
            Some(v) => if v == "UNLIMITED"@ {
                None
            } else {
                parse_u32_of(v)
            },
            None => None,
        },
        opt_chars(r.oversubscribe) == setting_value(lines_of(text@), "OverSubscribe"@),
        opt_chars(r.default_qos) == match setting_value(lines_of(text@), "QoS"@) {
            Some(v) => if v == "N/A"@ {
                None
            } else {
                Some(v)
            },
            None => None,
        },
{
    let all = chars_of(text);
    let ls = lines(all.as_slice());
    let k_min = chars_of("MinNodes");
    let k_max = chars_of("MaxNodes");
    let k_over = chars_of("OverSubscribe");
    let k_qos = chars_of("QoS");
    let min_v = setting_exec(&ls, k_min.as_slice());
    let max_v = setting_exec(&ls, k_max.as_slice());
    let over_v = setting_exec(&ls, k_over.as_slice());
    let qos_v = setting_exec(&ls, k_qos.as_slice());
    let min_nodes = parse_u32_vec(&min_v);
    let max_nodes = match &max_v {
        Some(v) => if chars_eq_str(v.as_slice(), "UNLIMITED") {
            None
        } else {
            parse_u32_vec(&max_v)
        },
        None => None,
    };
    let oversubscribe = match over_v {
        Some(v) => Some(string_of(v.as_slice())),
        None => None,
    };
    let default_qos = match qos_v {
        Some(v) => if chars_eq_str(v.as_slice(), "N/A") {
            None
        } else {
            Some(string_of(v.as_slice()))
        },
        None => None,
    };
    ScontrolPartitionInfo { min_nodes, max_nodes, oversubscribe, default_qos }
}

// ---------------------------------------------------------------------------
// Partition names
// ---------------------------------------------------------------------------

/// Whether a partition goes into a generated profile: standby partitions
/// (names ending in `-stdby`) stay out when asked.
pub open spec fn keeps_partition(name: Seq<char>, skip_stdby: bool) -> bool {
    !(skip_stdby && "-stdby"@.is_suffix_of(name))
}

/// Whether `n` names a partition of the rows that goes into the profile.
pub open spec fn names_partition(rows: Seq<SinfoRow>, n: Seq<char>, skip_stdby: bool) -> bool {
    keeps_partition(n, skip_stdby) && exists|j: int| 0 <= j < rows.len() && #[trigger] rows[j].name == n
}

/// Each name comes before the next one.
pub open spec fn strictly_sorted(v: Seq<Seq<char>>) -> bool {
    forall|i: int, j: int| 0 <= i < j < v.len() ==> lex_lt(#[trigger] v[i], #[trigger] v[j])
}

/// The characters of each string.
pub open spec fn string_views(v: Seq<String>) -> Seq<Seq<char>> {
    Seq::new(v.len(), |i: int| v[i]@)
}

proof fn lemma_sorted_insert(s: Seq<Seq<char>>, p: int, x: Seq<char>)
    requires
        strictly_sorted(s),
        0 <= p <= s.len(),
        forall|i: int| 0 <= i < p ==> lex_lt(#[trigger] s[i], x),
        p < s.len() ==> lex_lt(x, s[p]),
    ensures
        strictly_sorted(s.insert(p, x)),
        forall|n: Seq<char>| s.insert(p, x).contains(n) <==> (s.contains(n) || n == x),
{
    let t = s.insert(p, x);
    s.insert_ensures(p, x);
    assert forall|i: int, j: int| 0 <= i < j < t.len() implies lex_lt(#[trigger] t[i], #[trigger] t[j]) by {
        if j < p {
            assert(t[i] == s[i] && t[j] == s[j]);
        } else if j == p {
            assert(t[i] == s[i]);
        } else if i == p {
            assert(t[j] == s[j - 1]);
            if j - 1 > p {
                lemma_lex_transitive(x, s[p], s[j - 1]);
            }
        } else if i < p {
            assert(t[i] == s[i] && t[j] == s[j - 1]);
            if p < s.len() {
                lemma_lex_transitive(s[i], x, s[p]);
                if j - 1 > p {
                    lemma_lex_transitive(s[i], s[p], s[j - 1]);
                }
            }
        } else {
            assert(t[i] == s[i - 1] && t[j] == s[j - 1]);
        }
    }
    assert forall|n: Seq<char>| t.contains(n) <==> (s.contains(n) || n == x) by {
        if t.contains(n) {
            let k = choose|k: int| 0 <= k < t.len() && t[k] == n;
            if k < p {
                assert(s[k] == n);
            } else if k > p {
                assert(s[k - 1] == n);
            }
        }
        if s.contains(n) {
            let k = choose|k: int| 0 <= k < s.len() && s[k] == n;
            if k < p {
                assert(t[k] == n);
            } else {
                assert(t[k + 1] == n);
            }
        }
        if n == x {
            assert(t[p] == n);
        }
    }
}

fn insert_position(v: &Vec<Vec<char>>, x: &[char]) -> (p: usize)
    ensures
        p <= v@.len(),
        forall|i: int| 0 <= i < p ==> lex_lt(#[trigger] views(v@)[i], x@),
        p < v@.len() ==> !lex_lt(views(v@)[p as int], x@),
{
    let mut p: usize = 0;
    while p < v.len()
        invariant
            p <= v@.len(),
            forall|i: int| 0 <= i < p ==> lex_lt(#[trigger] views(v@)[i], x@),
        decreases v@.len() - p,
    {
        assert(views(v@)[p as int] == v@[p as int]@);
        if !lex_less(v[p].as_slice(), x) {
            return p;
        }
        p = p + 1;
    }
    p
}

proof fn lemma_insert_contains(s: Seq<Seq<char>>, p: int, x: Seq<char>, n: Seq<char>)
    requires
        0 <= p <= s.len(),
    ensures
        s.insert(p, x).contains(n) <==> (s.contains(n) || n == x),
{
    let t = s.insert(p, x);
    if s.contains(n) {
        let j = choose|j: int| 0 <= j < s.len() && s[j] == n;
        if j < p {
            assert(t[j] == n);
        } else {
            assert(t[j + 1] == n);
        }
    }
    if n == x {
        assert(t[p] == x);
    }
    if t.contains(n) {
        let j = choose|j: int| 0 <= j < t.len() && t[j] == n;
        if j < p {
            assert(s[j] == n);
        } else if j > p {
            assert(s[j - 1] == n);
        }
    }
}

/// The distinct partition names of `sinfo` rows, in sorted order, without
/// standby partitions when `skip_stdby` is set.
pub fn partition_names(sinfo: &[SinfoPartition], skip_stdby: bool) -> (r: Vec<String>)
    ensures
        strictly_sorted(string_views(r@)),
        forall|n: Seq<char>|
            string_views(r@).contains(n) <==> names_partition(sinfo_views(sinfo@), n, skip_stdby),
{
    let ghost rows = sinfo_views(sinfo@);
    let suffix = chars_of("-stdby");
    let mut v: Vec<Vec<char>> = Vec::new();
    let mut k: usize = 0;
    while k < sinfo.len()
        invariant
            rows == sinfo_views(sinfo@),
            suffix@ == "-stdby"@,
            k <= sinfo@.len(),
            strictly_sorted(views(v@)),
            forall|n: Seq<char>|
                views(v@).contains(n) <==> names_partition(rows.take(k as int), n, skip_stdby),
        decreases sinfo@.len() - k,
    {
        let name = chars_of(sinfo[k].name.as_str());
        assert(rows[k as int].name == name@);
        let ghost before = views(v@);
        let ghost rk = rows.take(k as int);
        let ghost rk1 = rows.take(k + 1);
        assert(rk1[k as int] == rows[k as int]);
        assert forall|n: Seq<char>| names_partition(rk1, n, skip_stdby) <==> (names_partition(
            rk,
            n,
            skip_stdby,
        ) || (n == name@ && keeps_partition(n, skip_stdby))) by {
            if names_partition(rk1, n, skip_stdby) {
                let j = choose|j: int| 0 <= j < rk1.len() && #[trigger] rk1[j].name == n;
                if j < k {
                    assert(rk[j] == rk1[j]);
                }
            }
            if names_partition(rk, n, skip_stdby) {
                let j = choose|j: int| 0 <= j < rk.len() && #[trigger] rk[j].name == n;
                assert(rk1[j] == rk[j]);
            }
        }
        let skip = skip_stdby && ends_with(name.as_slice(), suffix.as_slice());
        if !skip {
            let p = insert_position(&v, name.as_slice());
            if p < v.len() && chars_eq(v[p].as_slice(), name.as_slice()) {
                assert(before[p as int] == name@);
                assert(before.contains(name@));
                assert(keeps_partition(name@, skip_stdby));
                assert(forall|n: Seq<char>|
                    views(v@).contains(n) <==> names_partition(rk1, n, skip_stdby));
            } else {
                proof {
                    if p < v@.len() {
                        lemma_lex_total(before[p as int], name@);
                    }
                    lemma_sorted_insert(before, p as int, name@);
                }
                v.insert(p, name);
                assert(views(v@) =~= before.insert(p as int, name@));
                assert forall|n: Seq<char>|
                    views(v@).contains(n) <==> names_partition(rk1, n, skip_stdby) by {
                    lemma_insert_contains(before, p as int, name@, n);
                    assert(before.contains(n) <==> names_partition(rk, n, skip_stdby));
                }
            }
        } else {
            assert(!keeps_partition(name@, skip_stdby));
            assert(forall|n: Seq<char>|
                views(v@).contains(n) <==> names_partition(rk1, n, skip_stdby));
        }
        assert(forall|n: Seq<char>|
            views(v@).contains(n) <==> names_partition(rk1, n, skip_stdby));
        k = k + 1;
    }
    assert(rows.take(sinfo@.len() as int) =~= rows);
    let mut out: Vec<String> = Vec::new();
    let mut i: usize = 0;
    while i < v.len()
        invariant
            i <= v@.len(),
            out@.len() == i,
            string_views(out@) =~= views(v@).take(i as int),
        decreases v@.len() - i,
    {
        assert(views(v@)[i as int] == v@[i as int]@);
        let sv = string_of(v[i].as_slice());
        out.push(sv);
        assert(string_views(out@)[i as int] == views(v@)[i as int]);
        assert(string_views(out@) =~= views(v@).take(i + 1));
        i = i + 1;
    }
    assert(views(v@).take(v@.len() as int) =~= views(v@));
    out
}

// ---------------------------------------------------------------------------
// Merging a partition's node types
// ---------------------------------------------------------------------------

/// A partition as an HPC profile in the configuration file describes it.
pub struct HpcPartitionConfig {
    pub name: String,
    pub description: String,
    pub cpus_per_node: u32,
    pub memory_mb: u64,
    pub max_walltime_secs: u64,
    pub gpus_per_node: Option<u32>,
    pub gpu_type: Option<String>,
    pub shared: bool,
    pub requires_explicit_request: bool,
}

/// What a partition's configuration says, as plain values.
pub struct PartitionConfigView {
    pub name: Seq<char>,
    pub description: Seq<char>,
    pub cpus_per_node: u32,
    pub memory_mb: u64,
    pub max_walltime_secs: u64,
    pub gpus_per_node: Option<u32>,
    pub gpu_type: Option<Seq<char>>,
    pub shared: bool,
    pub requires_explicit_request: bool,
}

impl View for HpcPartitionConfig {
    type V = PartitionConfigView;

    open spec fn view(&self) -> PartitionConfigView {
        PartitionConfigView {
            name: self.name@,
            description: self.description@,
            cpus_per_node: self.cpus_per_node,
            memory_mb: self.memory_mb,
            max_walltime_secs: self.max_walltime_secs,
            gpus_per_node: self.gpus_per_node,
            gpu_type: opt_chars(self.gpu_type),
            shared: self.shared,
            requires_explicit_request: self.requires_explicit_request,
        }
    }
}

/// The fewest CPUs among the rows of partition `name` (`u32::MAX` when
/// there are none): what every node of the partition has.
pub open spec fn group_min_cpus(rows: Seq<SinfoRow>, name: Seq<char>) -> int
    decreases rows.len(),
{
    if rows.len() == 0 {
        u32::MAX as int
    } else {
        let prev = group_min_cpus(rows.drop_last(), name);
        let r = rows.last();
        if r.name == name && (r.cpus as int) < prev {
            r.cpus as int
        } else {
            prev
        }
    }
}

/// The least memory among the rows of partition `name` (`u64::MAX` when
/// there are none).
pub open spec fn group_min_memory(rows: Seq<SinfoRow>, name: Seq<char>) -> int
    decreases rows.len(),
{
    if rows.len() == 0 {
        u64::MAX as int
    } else {
        let prev = group_min_memory(rows.drop_last(), name);
        let r = rows.last();
        if r.name == name && (r.memory_mb as int) < prev {
            r.memory_mb as int
        } else {
            prev
        }
    }
}

/// The longest time limit among the rows of partition `name` (0 when there
/// are none).
pub open spec fn group_max_walltime(rows: Seq<SinfoRow>, name: Seq<char>) -> int
    decreases rows.len(),
{
    if rows.len() == 0 {
        0
    } else {
        let prev = group_max_walltime(rows.drop_last(), name);
        let r = rows.last();
        if r.name == name && r.timelimit_secs > prev {
            r.timelimit_secs
        } else {
            prev
        }
    }
}

/// The GPUs of the last row of partition `name` whose GRES declares GPUs.
pub open spec fn group_gpu(rows: Seq<SinfoRow>, name: Seq<char>) -> Option<(u32, Option<Seq<char>>)>
    decreases rows.len(),
{
    if rows.len() == 0 {
        None
    } else {
        let r = rows.last();
        if r.name == name && spec_parse_gres(r.gres) is Some {
            spec_parse_gres(r.gres)
        } else {
            group_gpu(rows.drop_last(), name)
        }
    }
}

/// GPUs from the GRES Slurm reported, else as the partition's name
/// suggests.
pub open spec fn partition_gpu(rows: Seq<SinfoRow>, name: Seq<char>) -> Option<(u32, Option<Seq<char>>)> {
    match group_gpu(rows, name) {
        Some(g) => Some(g),
        None => match spec_infer_gpu(name) {
            Some((c, t)) => Some((c, Some(t))),
            None => None,
        },
    }
}

/// Whether jobs share the partition's nodes: `OverSubscribe` says `yes`
/// or `force` (in any case), the name contains `shared`, or the partition
/// has GPUs.
pub open spec fn partition_shared(
    name: Seq<char>,
    oversubscribe: Option<Seq<char>>,
    has_gpus: bool,
) -> bool {
    (match oversubscribe {
        Some(o) => contains_seq(lowercase(o), "yes"@) || contains_seq(lowercase(o), "force"@),
        None => false,
    }) || contains_seq(lowercase(name), "shared"@) || has_gpus
}

/// The configuration generated for partition `name` from its `sinfo` rows
/// and its `OverSubscribe` setting.
pub open spec fn merged_partition(
    name: Seq<char>,
    rows: Seq<SinfoRow>,
    oversubscribe: Option<Seq<char>>,
) -> PartitionConfigView {
    let gpu = partition_gpu(rows, name);
    PartitionConfigView {
        name,
        description: Seq::empty(),
        cpus_per_node: group_min_cpus(rows, name) as u32,
        memory_mb: group_min_memory(rows, name) as u64,
        max_walltime_secs: group_max_walltime(rows, name) as u64,
        gpus_per_node: match gpu {
            Some((c, _)) => Some(c),
            None => None,
        },
        gpu_type: match gpu {
            Some((_, t)) => t,
            None => None,
        },
        shared: partition_shared(name, oversubscribe, gpu is Some),
        requires_explicit_request: false,
    }
}

/// Describes partition `name` from all its `sinfo` rows (one per node
/// type): the fewest CPUs and least memory any node has, the longest time
/// limit, the GPUs of the last node type that reports some (else as the
/// name suggests), and whether it is shared.
pub fn merge_partition(
    name: &str,
    sinfo: &[SinfoPartition],
    info: &ScontrolPartitionInfo,
) -> (r: HpcPartitionConfig)
    ensures
        r@ == merged_partition(name@, sinfo_views(sinfo@), opt_chars(info.oversubscribe)),
{
    let ghost rows = sinfo_views(sinfo@);
    let mut min_cpus: u32 = u32::MAX;
    let mut min_memory: u64 = u64::MAX;
    let mut max_walltime: u64 = 0;
    let mut gpus_per_node: Option<u32> = None;
    let mut gpu_type: Option<String> = None;
    let mut k: usize = 0;
    while k < sinfo.len()
        invariant
            rows == sinfo_views(sinfo@),
            k <= sinfo@.len(),
            min_cpus == group_min_cpus(rows.take(k as int), name@),
            min_memory == group_min_memory(rows.take(k as int), name@),
            max_walltime == group_max_walltime(rows.take(k as int), name@),
            (gpus_per_node, opt_chars(gpu_type)) == match group_gpu(rows.take(k as int), name@) {
                Some((c, t)) => (Some(c), t),
                None => (None, None),
            },
        decreases sinfo@.len() - k,
    {
        let ghost rk1 = rows.take(k + 1);
        assert(rk1.drop_last() =~= rows.take(k as int));
        assert(rk1.last() == sinfo@[k as int]@);
        let sp = &sinfo[k];
        let same = chars_eq_str(chars_of(sp.name.as_str()).as_slice(), name);
        if same {
            if sp.cpus < min_cpus {
                min_cpus = sp.cpus;
            }
            if sp.memory_mb < min_memory {
                min_memory = sp.memory_mb;
            }
            if sp.timelimit_secs > max_walltime {
                max_walltime = sp.timelimit_secs;
            }
            let (gp, gt) = parse_gres(&sp.gres);
            if gp.is_some() {
                gpus_per_node = gp;
                gpu_type = gt;
            }
        }
        k = k + 1;
    }
    assert(rows.take(sinfo@.len() as int) =~= rows);
    if gpus_per_node.is_none() {
        match infer_gpu_from_name(name) {
            Some((c, t)) => {
                gpus_per_node = Some(c);
                gpu_type = Some(t);
            },
            None => {},
        }
    }
    let over = match &info.oversubscribe {
        Some(o) => {
            let lo = to_lowercase(o.as_str());
            let lc = chars_of(lo.as_str());
            contains_str(lc.as_slice(), "yes") || contains_str(lc.as_slice(), "force")
        },
        None => false,
    };
    let lname = to_lowercase(name);
    let ln = chars_of(lname.as_str());
    let shared = over || contains_str(ln.as_slice(), "shared") || gpus_per_node.is_some();
    HpcPartitionConfig {
        name: string_from(name),
        description: String::new(),
        cpus_per_node: min_cpus,
        memory_mb: min_memory,
        max_walltime_secs: max_walltime,
        gpus_per_node,
        gpu_type,
        shared,
        requires_explicit_request: false,
    }
}

// ---------------------------------------------------------------------------
// The generated profile
// ---------------------------------------------------------------------------

/// The pattern that recognises the cluster's hosts by the domain of a host
/// name: everything after its first `.`, dots escaped, behind `.*\\.`;
/// none for a name without a dot.
pub open spec fn hostname_pattern(hostname: Seq<char>) -> Option<Seq<char>> {
    match first_index_of(hostname, '.') {
        Some(k) => Some(".*\\\\."@ + replace_char_of(hostname.skip(k + 1), '.', "\\\\."@)),
        None => None,
    }
}

/// The `detect_hostname` line, when the host name gives a pattern.
pub open spec fn detect_line(hostname: Option<Seq<char>>) -> Seq<char> {
    match hostname {
        Some(h) => match hostname_pattern(h) {
            Some(p) => "detect_hostname = \""@ + p + "\"\n"@,
            None => Seq::empty(),
        },
        None => Seq::empty(),
    }
}

/// The comment block, profile table and `display_name` that open a
/// generated profile.
pub open spec fn toml_head(
    profile: Seq<char>,
    display: Seq<char>,
    generated_at: Seq<char>,
    hostname: Option<Seq<char>>,
) -> Seq<char> {
    "# HPC profile for "@ + display + " generated from Slurm\n"@ + "# Generated: "@ + generated_at
        + "\n"@ + "#\n"@ + "# To use this profile, add it to your torc config file:\n"@
        + "#   ~/.config/torc/config.toml (Linux/macOS)\n"@
        + "#   %APPDATA%\\torc\\config.toml (Windows)\n"@ + "#\n"@
        + "# You may want to review and adjust:\n"@
        + "#   - requires_explicit_request: set to true for partitions that shouldn't auto-route\n"@
        + "#   - gpu_memory_gb: add GPU memory if known\n"@
        + "#   - description: add human-readable descriptions\n"@ + "\n"@
        + "[client.hpc.custom_profiles."@ + profile + "]\n"@ + "display_name = \""@ + display
        + "\"\n"@ + detect_line(hostname) + "\n"@
}

/// The `gpus_per_node` line, when the partition has GPUs.
pub open spec fn gpus_line(gpus: Option<u32>) -> Seq<char> {
    match gpus {
        Some(g) => "gpus_per_node = "@ + decimal(g as nat) + "\n"@,
        None => Seq::empty(),
    }
}

/// The `gpu_type` line, when the GPU type is known.
pub open spec fn gpu_type_line(gpu_type: Option<Seq<char>>) -> Seq<char> {
    match gpu_type {
        Some(t) => "gpu_type = \""@ + t + "\"\n"@,
        None => Seq::empty(),
    }
}

/// The `shared` line, for shared partitions.
pub open spec fn shared_line(shared: bool) -> Seq<char> {
    if shared {
        "shared = true\n"@
    } else {
        Seq::empty()
    }
}

/// The table that describes one partition of profile `profile`.
pub open spec fn toml_partition(profile: Seq<char>, p: PartitionConfigView) -> Seq<char> {
    "[[client.hpc.custom_profiles."@ + profile + ".partitions]]\n"@ + "name = \""@ + p.name
        + "\"\n"@ + "cpus_per_node = "@ + decimal(p.cpus_per_node as nat) + "\n"@
        + "memory_mb = "@ + decimal(p.memory_mb as nat) + "\n"@ + "max_walltime_secs = "@
        + decimal(p.max_walltime_secs as nat) + "\n"@ + gpus_line(p.gpus_per_node) + gpu_type_line(
        p.gpu_type,
    ) + shared_line(p.shared) + "\n"@
}

/// The tables of all partitions, in order.
pub open spec fn toml_partitions(profile: Seq<char>, parts: Seq<PartitionConfigView>) -> Seq<char>
    decreases parts.len(),
{
    if parts.len() == 0 {
        Seq::empty()
    } else {
        toml_partitions(profile, parts.drop_last()) + toml_partition(profile, parts.last())
    }
}

/// Whether some row describes partition `name`.
pub open spec fn has_rows(rows: Seq<SinfoRow>, name: Seq<char>) -> bool {
    exists|i: int| 0 <= i < rows.len() && #[trigger] rows[i].name == name
}

/// The fewest CPUs, least memory and longest time limit of a partition are
/// bounds over all its rows, each reached by one of them.
proof fn lemma_group_bounds(rows: Seq<SinfoRow>, name: Seq<char>)
    ensures
        forall|i: int| 0 <= i < rows.len() && #[trigger] rows[i].name == name ==> {
            &&& group_min_cpus(rows, name) <= rows[i].cpus
            &&& group_min_memory(rows, name) <= rows[i].memory_mb
            &&& group_max_walltime(rows, name) >= rows[i].timelimit_secs
        },
        has_rows(rows, name) ==> exists|j: int| 0 <= j < rows.len() && rows[j].name == name
            && #[trigger] rows[j].cpus == group_min_cpus(rows, name),
        has_rows(rows, name) ==> exists|j: int| 0 <= j < rows.len() && rows[j].name == name
            && #[trigger] rows[j].memory_mb == group_min_memory(rows, name),
        group_max_walltime(rows, name) >= 0,
        !has_rows(rows, name) ==> group_min_cpus(rows, name) == u32::MAX && group_min_memory(rows, name)
            == u64::MAX && group_max_walltime(rows, name) == 0,
        group_max_walltime(rows, name) == 0 || exists|j: int| 0 <= j < rows.len() && rows[j].name
            == name && #[trigger] rows[j].timelimit_secs == group_max_walltime(rows, name),
    decreases rows.len(),
{
    if rows.len() > 0 {
        let init = rows.drop_last();
        let n = (rows.len() - 1) as int;
        lemma_group_bounds(init, name);
        assert forall|i: int| 0 <= i < init.len() implies #[trigger] init[i] == rows[i] by {}
        if has_rows(init, name) {
            let j = choose|j: int| 0 <= j < init.len() && #[trigger] init[j].name == name;
            assert(rows[j] == init[j]);
        }
        if has_rows(rows, name) && !has_rows(init, name) {
            let j = choose|j: int| 0 <= j < rows.len() && #[trigger] rows[j].name == name;
            if j < n {
                assert(init[j] == rows[j]);
            }
            assert(rows[n].name == name);
        }
        if has_rows(init, name) {
            let j = choose|j: int| 0 <= j < init.len() && init[j].name == name
                && #[trigger] init[j].cpus == group_min_cpus(init, name);
            assert(rows[j] == init[j]);
            let j2 = choose|j: int| 0 <= j < init.len() && init[j].name == name
                && #[trigger] init[j].memory_mb == group_min_memory(init, name);
            assert(rows[j2] == init[j2]);
        }
        if group_max_walltime(init, name) != 0 {
            let j = choose|j: int| 0 <= j < init.len() && init[j].name == name
                && #[trigger] init[j].timelimit_secs == group_max_walltime(init, name);
            assert(rows[j] == init[j]);
        }
        assert forall|i: int| 0 <= i < rows.len() && #[trigger] rows[i].name == name implies {
            &&& group_min_cpus(rows, name) <= rows[i].cpus
            &&& group_min_memory(rows, name) <= rows[i].memory_mb
            &&& group_max_walltime(rows, name) >= rows[i].timelimit_secs
        } by {
            if i < n {
                assert(init[i] == rows[i]);
            }
        }
    }
}

/// A merged partition has as many CPUs and as much memory as its smallest
/// node type and the longest time limit of any: no row of the partition has
/// fewer CPUs, less memory or a longer limit, and some row has exactly those
/// CPUs and that memory (some row has that limit too, unless it is 0).
pub proof fn lemma_merged_partition_bounds(name: Seq<char>, rows: Seq<SinfoRow>, oversubscribe: Option<Seq<char>>)
    requires
        has_rows(rows, name),
        forall|i: int| 0 <= i < rows.len() ==> #[trigger] rows[i].timelimit_secs <= u64::MAX,
    ensures
        forall|i: int| 0 <= i < rows.len() && #[trigger] rows[i].name == name ==> {
            let m = merged_partition(name, rows, oversubscribe);
            &&& m.cpus_per_node <= rows[i].cpus
            &&& m.memory_mb <= rows[i].memory_mb
            &&& m.max_walltime_secs >= rows[i].timelimit_secs
        },
        exists|j: int| 0 <= j < rows.len() && rows[j].name == name
            && #[trigger] rows[j].cpus == merged_partition(name, rows, oversubscribe).cpus_per_node,
        exists|j: int| 0 <= j < rows.len() && rows[j].name == name
            && #[trigger] rows[j].memory_mb == merged_partition(name, rows, oversubscribe).memory_mb,
        merged_partition(name, rows, oversubscribe).max_walltime_secs == 0 || exists|j: int| 0 <= j
            < rows.len() && rows[j].name == name && #[trigger] rows[j].timelimit_secs
            == merged_partition(name, rows, oversubscribe).max_walltime_secs,
{
    lemma_group_bounds(rows, name);
    let j = choose|j: int| 0 <= j < rows.len() && rows[j].name == name
        && #[trigger] rows[j].cpus == group_min_cpus(rows, name);
    let j2 = choose|j: int| 0 <= j < rows.len() && rows[j].name == name
        && #[trigger] rows[j].memory_mb == group_min_memory(rows, name);
    assert(rows[j].cpus == merged_partition(name, rows, oversubscribe).cpus_per_node);
    assert(rows[j2].memory_mb == merged_partition(name, rows, oversubscribe).memory_mb);
    if group_max_walltime(rows, name) != 0 {
        let j3 = choose|j: int| 0 <= j < rows.len() && rows[j].name == name
            && #[trigger] rows[j].timelimit_secs == group_max_walltime(rows, name);
        assert(rows[j3].timelimit_secs <= u64::MAX);
        assert(rows[j3].timelimit_secs == merged_partition(name, rows, oversubscribe).max_walltime_secs);
    }
}

/// The partition tables of a profile are written one after another: the
/// tables of two lists of partitions are those of the first list followed by
/// those of the second.
pub proof fn lemma_toml_partitions_concatenate(profile: Seq<char>, a: Seq<PartitionConfigView>, b: Seq<PartitionConfigView>)
    ensures
        toml_partitions(profile, a + b) == toml_partitions(profile, a) + toml_partitions(profile, b),
    decreases b.len(),
{
    if b.len() == 0 {
        assert(a + b =~= a);
        assert(toml_partitions(profile, a) + toml_partitions(profile, b) =~= toml_partitions(profile, a));
    } else {
        lemma_toml_partitions_concatenate(profile, a, b.drop_last());
        assert((a + b).drop_last() =~= a + b.drop_last());
        assert((a + b).last() == b.last());
        assert(toml_partitions(profile, a) + toml_partitions(profile, b.drop_last()) + toml_partition(
            profile,
            b.last(),
        ) =~= toml_partitions(profile, a) + (toml_partitions(profile, b.drop_last()) + toml_partition(
            profile,
            b.last(),
        )));
    }
}

/// Every partition gets its table, in its place: what is written for a list
/// of partitions is the tables of the partitions before the `i`-th, then the
/// `i`-th partition's own table, then the tables of those after it.
pub proof fn lemma_toml_partition_in_place(profile: Seq<char>, parts: Seq<PartitionConfigView>, i: int)
    requires
        0 <= i < parts.len(),
    ensures
        toml_partitions(profile, parts) == toml_partitions(profile, parts.take(i)) + toml_partition(
            profile,
            parts[i],
        ) + toml_partitions(profile, parts.skip(i + 1)),
{
    let one = seq![parts[i]];
    assert(one.drop_last() =~= Seq::<PartitionConfigView>::empty());
    assert(one.last() == parts[i]);
    assert(toml_partitions(profile, one.drop_last()) == Seq::<char>::empty());
    assert(toml_partitions(profile, one) =~= toml_partition(profile, parts[i]));
    assert(parts =~= parts.take(i) + one + parts.skip(i + 1));
    lemma_toml_partitions_concatenate(profile, parts.take(i) + one, parts.skip(i + 1));
    lemma_toml_partitions_concatenate(profile, parts.take(i), one);
}

/// The partitions' views, in order.
pub open spec fn partition_views(v: Seq<HpcPartitionConfig>) -> Seq<PartitionConfigView> {
    Seq::new(v.len(), |i: int| v[i]@)
}

fn hostname_pattern_exec(hostname: &str) -> (r: Option<Vec<char>>)
    ensures
        opt_vec_chars(r) == hostname_pattern(hostname@),
{
    let h = chars_of(hostname);
    match find_char(h.as_slice(), '.') {
        Some(k) => {
            let n = h.len();
            assert(k < n);
            let domain = slice_chars(h.as_slice(), k + 1, n);
            assert(domain@ =~= hostname@.skip(k + 1));
            let esc = chars_of("\\\\.");
            let replaced = replace_char(domain.as_slice(), '.', esc.as_slice());
            let mut out = chars_of(".*\\\\.");
            let ghost head = out@;
            let mut i: usize = 0;
            while i < replaced.len()
                invariant
                    i <= replaced@.len(),
                    out@ == head + replaced@.take(i as int),
                decreases replaced@.len() - i,
            {
                out.push(replaced[i]);
                assert(head + replaced@.take(i + 1) =~= (head + replaced@.take(i as int)).push(
                    replaced@[i as int],
                ));
                i = i + 1;
            }
            assert(replaced@.take(replaced@.len() as int) =~= replaced@);
            Some(out)
        },
        None => None,
    }
}

fn toml_head_text(
    profile: &str,
    display: &str,
    generated_at: &str,
    hostname: Option<&str>,
) -> (r: String)
    ensures
        r@ == toml_head(profile@, display@, generated_at@, opt_str_chars(hostname)),
{
    let mut out = string_from("# HPC profile for ");
    append_str(&mut out, display);
    append_str(&mut out, " generated from Slurm\n");
    append_str(&mut out, "# Generated: ");
    append_str(&mut out, generated_at);
    append_str(&mut out, "\n");
    append_str(&mut out, "#\n");
    append_str(&mut out, "# To use this profile, add it to your torc config file:\n");
    append_str(&mut out, "#   ~/.config/torc/config.toml (Linux/macOS)\n");
    append_str(&mut out, "#   %APPDATA%\\torc\\config.toml (Windows)\n");
    append_str(&mut out, "#\n");
    append_str(&mut out, "# You may want to review and adjust:\n");
    append_str(
        &mut out,
        "#   - requires_explicit_request: set to true for partitions that shouldn't auto-route\n",
    );
    append_str(&mut out, "#   - gpu_memory_gb: add GPU memory if known\n");
    append_str(&mut out, "#   - description: add human-readable descriptions\n");
    append_str(&mut out, "\n");
    append_str(&mut out, "[client.hpc.custom_profiles.");
    append_str(&mut out, profile);
    append_str(&mut out, "]\n");
    append_str(&mut out, "display_name = \"");
    append_str(&mut out, display);
    append_str(&mut out, "\"\n");
    let detect = match hostname {
        Some(h) => match hostname_pattern_exec(h) {
            Some(p) => {
                let mut line = string_from("detect_hostname = \"");
                append_chars(&mut line, p.as_slice());
                append_str(&mut line, "\"\n");
                line
            },
            None => String::new(),
        },
        None => String::new(),
    };
    append_str(&mut out, detect.as_str());
    append_str(&mut out, "\n");
    out
}

fn toml_partition_text(profile: &str, p: &HpcPartitionConfig) -> (r: String)
    ensures
        r@ == toml_partition(profile@, p@),
{
    let mut out = string_from("[[client.hpc.custom_profiles.");
    append_str(&mut out, profile);
    append_str(&mut out, ".partitions]]\n");
    append_str(&mut out, "name = \"");
    append_str(&mut out, p.name.as_str());
    append_str(&mut out, "\"\n");
    append_str(&mut out, "cpus_per_node = ");
    let c = u64_to_string(p.cpus_per_node as u64);
    append_str(&mut out, c.as_str());
    append_str(&mut out, "\n");
    append_str(&mut out, "memory_mb = ");
    let m = u64_to_string(p.memory_mb);
    append_str(&mut out, m.as_str());
    append_str(&mut out, "\n");
    append_str(&mut out, "max_walltime_secs = ");
    let w = u64_to_string(p.max_walltime_secs);
    append_str(&mut out, w.as_str());
    append_str(&mut out, "\n");
    let gl = match p.gpus_per_node {
        Some(g) => {
            let mut line = string_from("gpus_per_node = ");
            let gs = u64_to_string(g as u64);
            append_str(&mut line, gs.as_str());
            append_str(&mut line, "\n");
            line
        },
        None => String::new(),
    };
    append_str(&mut out, gl.as_str());
    let tl = match &p.gpu_type {
        Some(t) => {
            let mut line = string_from("gpu_type = \"");
            append_str(&mut line, t.as_str());
            append_str(&mut line, "\"\n");
            line
        },
        None => String::new(),
    };
    append_str(&mut out, tl.as_str());
    let sl = if p.shared {
        string_from("shared = true\n")
    } else {
        String::new()
    };
    append_str(&mut out, sl.as_str());
    append_str(&mut out, "\n");
    out
}

/// Writes the TOML of an HPC profile named `name` with the given
/// partitions, stamped with `generated_at`; `hostname`, when given, sets
/// the pattern that detects the cluster.
pub fn render_toml_profile(
    name: &str,
    display_name: &str,
    partitions: &[HpcPartitionConfig],
    generated_at: &str,
    hostname: Option<&str>,
) -> (r: String)
    ensures
        r@ == toml_head(name@, display_name@, generated_at@, opt_str_chars(hostname))
            + toml_partitions(name@, partition_views(partitions@)),
{
    let mut out = toml_head_text(name, display_name, generated_at, hostname);
    let ghost head = out@;
    let ghost pv = partition_views(partitions@);
    let mut k: usize = 0;
    while k < partitions.len()
        invariant
            pv == partition_views(partitions@),
            k <= partitions@.len(),
            out@ == head + toml_partitions(name@, pv.take(k as int)),
        decreases partitions@.len() - k,
    {
        let t = toml_partition_text(name, &partitions[k]);
        let ghost prev = toml_partitions(name@, pv.take(k as int));
        append_str(&mut out, t.as_str());
        assert(pv.take(k + 1).drop_last() =~= pv.take(k as int));
        assert(pv.take(k + 1).last() == partitions@[k as int]@);
        assert(head + prev + t@ =~= head + (prev + t@));
        k = k + 1;
    }
    assert(pv.take(partitions@.len() as int) =~= pv);
    out
}

/// The current time in UTC, as `chrono::Utc::now()` formatted with
/// `%Y-%m-%d %H:%M:%S UTC`. It depends on the clock; nothing is promised
/// of it.
#[verifier::external_body]
fn utc_timestamp() -> (r: String) {
    chrono::Utc::now().format("%Y-%m-%d %H:%M:%S UTC").to_string()
}

/// The machine's host name from `hostname::get`, read lossily as UTF-8;
/// `None` when the call fails. It depends on the machine; nothing is
/// promised of it.
#[verifier::external_body]
fn machine_hostname() -> (r: Option<String>) {
    match hostname::get() {
        Ok(h) => Some(h.to_string_lossy().to_string()),
        Err(_) => None,
    }
}

/// Writes the TOML of an HPC profile generated from the current cluster,
/// stamped with the current time and detecting hosts by this machine's
/// domain.
pub fn generate_toml_profile(
    name: &str,
    display_name: &str,
    partitions: &[HpcPartitionConfig],
) -> (r: Result<String, String>)
    ensures
        r matches Ok(s) && exists|generated_at: Seq<char>, hostname: Option<Seq<char>>|
            s@ == toml_head(name@, display_name@, generated_at, hostname) + toml_partitions(
                name@,
                partition_views(partitions@),
            ),
{
    let generated_at = utc_timestamp();
    let host = machine_hostname();
    let h = match &host {
        Some(h) => Some(h.as_str()),
        None => None,
    };
    let out = render_toml_profile(name, display_name, partitions, generated_at.as_str(), h);
    assert(out@ == toml_head(name@, display_name@, generated_at@, opt_str_chars(h))
        + toml_partitions(name@, partition_views(partitions@)));
    Ok(out)
}

// ---------------------------------------------------------------------------
// Cluster name
// ---------------------------------------------------------------------------

/// The index of the first line that starts with `ClusterName`.
pub open spec fn cluster_line(lines: Seq<Seq<char>>) -> Option<int> {
    if exists|i: int| 0 <= i < lines.len() && "ClusterName"@.is_prefix_of(#[trigger] lines[i]) {
        Some(
            choose|i: int|
                0 <= i < lines.len() && "ClusterName"@.is_prefix_of(#[trigger] lines[i]) && forall|
                    j: int,
                | 0 <= j < i ==> !"ClusterName"@.is_prefix_of(#[trigger] lines[j]),
        )
    } else {
        None
    }
}

/// The cluster's name in the output of `scontrol show config`: on the first
/// line that starts with `ClusterName`, the text between its first and
/// second `=`, trimmed; none when there is no such line or it has no `=`.
pub open spec fn spec_cluster_name(config: Seq<char>) -> Option<Seq<char>> {
    let ls = lines_of(config);
    match cluster_line(ls) {
        Some(i) => {
            let parts = split_char(ls[i], '=');
            if parts.len() >= 2 {
                Some(trim_of(parts[1]))
            } else {
                None
            }
        },
        None => None,
    }
}

/// Reads the cluster's name from the output of `scontrol show config`.
pub fn cluster_name_from_config(config: &str) -> (r: Option<String>)
    ensures
        opt_chars(r) == spec_cluster_name(config@),
{
    let all = chars_of(config);
    let ls = lines(all.as_slice());
    let ghost lv = views(ls@);
    let key = chars_of("ClusterName");
    let mut i: usize = 0;
    while i < ls.len()
        invariant
            lv == views(ls@),
            lv == lines_of(config@),
            key@ == "ClusterName"@,
            i <= ls@.len(),
            forall|j: int| 0 <= j < i ==> !"ClusterName"@.is_prefix_of(#[trigger] lv[j]),
        decreases ls@.len() - i,
    {
        assert(lv[i as int] == ls@[i as int]@);
        if starts_with(ls[i].as_slice(), key.as_slice()) {
            assert(cluster_line(lv) == Some(i as int)) by {
                let c = choose|c: int|
                    0 <= c < lv.len() && "ClusterName"@.is_prefix_of(#[trigger] lv[c]) && forall|
                        j: int,
                    | 0 <= j < c ==> !"ClusterName"@.is_prefix_of(#[trigger] lv[j]);
                if c < i {
                } else if c > i {
                    assert(!"ClusterName"@.is_prefix_of(lv[i as int]));
                }
            }
            let parts = split_chars(ls[i].as_slice(), '=');
            if parts.len() >= 2 {
                assert(views(parts@)[1] == parts@[1]@);
                let t = trim(parts[1].as_slice());
                return Some(string_of(t.as_slice()));
            }
            return None;
        }
        i = i + 1;
    }
    None
}

/// What `char::to_uppercase` gives for a character outside ASCII (one or
/// more characters, by Unicode's case mappings).
pub uninterp spec fn unicode_uppercase(c: char) -> Seq<char>;

/// What `char::to_uppercase` gives for a character: for an ASCII character,
/// a to z become A to Z and any other stays; otherwise Unicode's mapping.
pub open spec fn uppercase_of(c: char) -> Seq<char> {
    if crate::text::is_ascii_char(c) {
        if 'a' <= c && c <= 'z' {
            seq![((c as u32) - 32) as char]
        } else {
            seq![c]
        }
    } else {
        unicode_uppercase(c)
    }
}

/// The upper-case form of a character, from `char::to_uppercase`, collected
/// into a string; its contract states the ASCII case and names the result
/// for any other character.
#[verifier::external_body]
fn char_to_uppercase(c: char) -> (r: String)
    ensures
        r@ == uppercase_of(c),
        !crate::text::is_ascii_char(c) ==> r@ == unicode_uppercase(c),
{
    c.to_uppercase().collect()
}

/// The name with its first character in upper case.
pub open spec fn spec_capitalize(s: Seq<char>) -> Seq<char> {
    if s.len() == 0 {
        s
    } else {
        uppercase_of(s[0]) + s.drop_first()
    }
}

/// Capitalizes the first character of a cluster's name, the default
/// display name of a generated profile.
pub fn capitalize_first(s: &str) -> (r: String)
    ensures
        r@ == spec_capitalize(s@),
{
    let v = chars_of(s);
    if v.len() == 0 {
        return string_from(s);
    }
    let mut out = char_to_uppercase(v[0]);
    let rest = slice_chars(v.as_slice(), 1, v.len());
    assert(rest@ =~= s@.drop_first());
    append_chars(&mut out, rest.as_slice());
    out
}

// ---------------------------------------------------------------------------
// Detection rules of a configured profile
// ---------------------------------------------------------------------------

/// How a configured HPC profile recognises the system it runs on.
#[derive(Debug, Clone, PartialEq, Eq)]
pub enum HpcDetection {
    /// An environment variable with this name holds this value.
    EnvVar { name: String, value: String },
    /// The host name matches this pattern.
    HostnamePattern { pattern: String },
}

/// A detection rule as plain text.
pub enum DetectionView {
    EnvVar { name: Seq<char>, value: Seq<char> },
    HostnamePattern { pattern: Seq<char> },
}

impl View for HpcDetection {
    type V = DetectionView;

    open spec fn view(&self) -> DetectionView {
        match self {
            HpcDetection::EnvVar { name, value } => DetectionView::EnvVar { name: name@, value: value@ },
            HpcDetection::HostnamePattern { pattern } => DetectionView::HostnamePattern { pattern: pattern@ },
        }
    }
}

/// The rule an environment setting `NAME=value` gives: the name before the
/// first `=` and the value after it; a setting without `=` gives none.
pub open spec fn env_var_rule(setting: Seq<char>) -> Seq<DetectionView> {
    match first_index_of(setting, '=') {
        Some(i) => seq![DetectionView::EnvVar { name: setting.take(i), value: setting.skip(i + 1) }],
        None => Seq::empty(),
    }
}

/// The detection rules of a configured profile, in order: the environment
/// setting's rule, if any, then the host name pattern, if any.
pub open spec fn detection_rules(detect_env_var: Option<Seq<char>>, detect_hostname: Option<Seq<char>>) -> Seq<DetectionView> {
    let env = match detect_env_var {
        Some(v) => env_var_rule(v),
        None => Seq::empty(),
    };
    match detect_hostname {
        Some(p) => env.push(DetectionView::HostnamePattern { pattern: p }),
        None => env,
    }
}

/// The detection rules of a configured profile, from its `detect_env_var`
/// (written `NAME=value`) and its `detect_hostname` pattern.
pub fn config_detection(detect_env_var: Option<&str>, detect_hostname: Option<&str>) -> (r: Vec<HpcDetection>)
    ensures
        r@.map_values(|d: HpcDetection| d@) == detection_rules(
            opt_str_chars(detect_env_var),
            opt_str_chars(detect_hostname),
        ),
{
    let mut r: Vec<HpcDetection> = Vec::new();
    if let Some(setting) = detect_env_var {
        let c = chars_of(setting);
        let cs = c.as_slice();
        let found = find_char(cs, '=');
        if let Some(i) = found {
            assert(i < cs@.len());
            assert(cs@.len() == cs.len());
            let name = string_of(slice_chars(cs, 0, i).as_slice());
            let value = string_of(slice_chars(cs, i + 1, cs.len()).as_slice());
            r.push(HpcDetection::EnvVar { name, value });
        }
    }
    if let Some(pattern) = detect_hostname {
        r.push(HpcDetection::HostnamePattern { pattern: string_from(pattern) });
    }
    proof {
        let env = match opt_str_chars(detect_env_var) {
            Some(v) => env_var_rule(v),
            None => Seq::<DetectionView>::empty(),
        };
        assert(r@.map_values(|d: HpcDetection| d@) =~= detection_rules(
            opt_str_chars(detect_env_var),
            opt_str_chars(detect_hostname),
        ));
    }
    r
}

} // verus!
