//! Support bundles: which files go into a workflow's bundle and under what
//! names, and, reading a bundle's logs, which files are logs, which lines show
//! errors, and how the findings are counted.

use vstd::prelude::*;
use crate::chars::{contains, contains_seq, ends_with, lines, lines_of, views};
use crate::plan::pattern::{Pattern, compile, is_match, regex_compiles, regex_matches};
use crate::text::{append_str, chars_of, decimal_int, i64_to_string, push_char, string_from, string_of};

verus! {

/// How serious a finding is.
#[derive(Debug, Clone, Copy, PartialEq, Eq, Structural)]
pub enum ErrorSeverity {
    Error,
    Warning,
    Info,
}

impl ErrorSeverity {
    /// The label shown for the severity.
    pub fn label(&self) -> (r: String)
        ensures
            r@ == match *self {
                ErrorSeverity::Error => "ERROR"@,
                ErrorSeverity::Warning => "WARN"@,
                ErrorSeverity::Info => "INFO"@,
            },
    {
        match self {
            ErrorSeverity::Error => string_from("ERROR"),
            ErrorSeverity::Warning => string_from("WARN"),
            ErrorSeverity::Info => string_from("INFO"),
        }
    }
}

/// A kind of problem, the expression that finds it in a log line, and how
/// serious it is.
pub struct ErrorPattern {
    pub name: String,
    pub pattern: Pattern,
    pub severity: ErrorSeverity,
}

/// A kind of problem, as plain values.
pub struct PatternView {
    pub name: Seq<char>,
    pub source: Seq<char>,
    pub severity: ErrorSeverity,
}

impl View for ErrorPattern {
    type V = PatternView;

    open spec fn view(&self) -> PatternView {
        PatternView { name: self.name@, source: self.pattern.source(), severity: self.severity }
    }
}

/// The patterns' views, in order.
pub open spec fn pattern_views(v: Seq<ErrorPattern>) -> Seq<PatternView> {
    Seq::new(v.len(), |i: int| v[i]@)
}

/// The kinds of problem looked for, in the order they are tried.
pub open spec fn pattern_table() -> Seq<PatternView> {
    seq![
        PatternView { name: "OOM Killed"@, source: r"(?i)(out of memory|oom|killed|cannot allocate memory)"@, severity: ErrorSeverity::Error },
        PatternView { name: "Timeout"@, source: r"(?i)(timeout|time limit|timed out|walltime)"@, severity: ErrorSeverity::Error },
        PatternView { name: "Segmentation Fault"@, source: r"(?i)(segmentation fault|segfault|sigsegv)"@, severity: ErrorSeverity::Error },
        PatternView { name: "Permission Denied"@, source: r"(?i)(permission denied|access denied|EACCES)"@, severity: ErrorSeverity::Error },
        PatternView { name: "File Not Found"@, source: r"(?i)(no such file|file not found|ENOENT)"@, severity: ErrorSeverity::Error },
        PatternView { name: "Disk Full"@, source: r"(?i)(no space left|disk full|quota exceeded|ENOSPC)"@, severity: ErrorSeverity::Error },
        PatternView { name: "Connection Error"@, source: r"(?i)(connection refused|connection reset|network unreachable|ECONNREFUSED)"@, severity: ErrorSeverity::Error },
        PatternView { name: "Rust Panic"@, source: r"thread .* panicked at"@, severity: ErrorSeverity::Error },
        PatternView { name: "Python Exception"@, source: r"(Traceback \(most recent call last\)|raise \w+Error)"@, severity: ErrorSeverity::Error },
        PatternView { name: "Generic Error"@, source: r"(?i)\b(error|failed|failure|exception)\b"@, severity: ErrorSeverity::Warning },
        PatternView { name: "Slurm Error"@, source: r"(?i)(slurmstepd|slurm_|CANCELLED|TIMEOUT|OUT_OF_MEMORY)"@, severity: ErrorSeverity::Error },
    ]
}

/// Whether every pattern of the table compiles.
pub open spec fn table_compiles() -> bool {
    forall|k: int| 0 <= k < pattern_table().len() ==> regex_compiles(#[trigger] pattern_table()[k].source)
}

fn push_pattern(v: &mut Vec<ErrorPattern>, name: &str, source: &str, severity: ErrorSeverity) -> (ok: bool)
    ensures
        ok == regex_compiles(source@),
        ok ==> pattern_views(final(v)@) == pattern_views(old(v)@).push(
            PatternView { name: name@, source: source@, severity },
        ),
{
    match compile(source) {
        Some(p) => {
            let ghost before = pattern_views(v@);
            v.push(ErrorPattern { name: string_from(name), pattern: p, severity });
            assert(pattern_views(v@) =~= before.push(PatternView { name: name@, source: source@, severity }));
            true
        },
        None => false,
    }
}

/// Compiles the table of problem kinds; `None` when one of its expressions
/// does not compile.
pub fn error_patterns() -> (r: Option<Vec<ErrorPattern>>)
    ensures
        r is Some == table_compiles(),
        r matches Some(v) ==> pattern_views(v@) == pattern_table(),
{
    let mut v: Vec<ErrorPattern> = Vec::new();
    let ghost t = pattern_table();
    assert(pattern_views(v@) =~= t.take(0));
    if !push_pattern(&mut v, "OOM Killed", r"(?i)(out of memory|oom|killed|cannot allocate memory)", ErrorSeverity::Error) {
        assert(!regex_compiles(t[0].source));
        return None;
    }
    assert(pattern_views(v@) =~= t.take(1));
    if !push_pattern(&mut v, "Timeout", r"(?i)(timeout|time limit|timed out|walltime)", ErrorSeverity::Error) {
        assert(!regex_compiles(t[1].source));
        return None;
    }
    assert(pattern_views(v@) =~= t.take(2));
    if !push_pattern(&mut v, "Segmentation Fault", r"(?i)(segmentation fault|segfault|sigsegv)", ErrorSeverity::Error) {
        assert(!regex_compiles(t[2].source));
        return None;
    }
    assert(pattern_views(v@) =~= t.take(3));
    if !push_pattern(&mut v, "Permission Denied", r"(?i)(permission denied|access denied|EACCES)", ErrorSeverity::Error) {
        assert(!regex_compiles(t[3].source));
        return None;
    }
    assert(pattern_views(v@) =~= t.take(4));
    if !push_pattern(&mut v, "File Not Found", r"(?i)(no such file|file not found|ENOENT)", ErrorSeverity::Error) {
        assert(!regex_compiles(t[4].source));
        return None;
    }
    assert(pattern_views(v@) =~= t.take(5));
    if !push_pattern(&mut v, "Disk Full", r"(?i)(no space left|disk full|quota exceeded|ENOSPC)", ErrorSeverity::Error) {
        assert(!regex_compiles(t[5].source));
        return None;
    }
    assert(pattern_views(v@) =~= t.take(6));
    if !push_pattern(&mut v, "Connection Error", r"(?i)(connection refused|connection reset|network unreachable|ECONNREFUSED)", ErrorSeverity::Error) {
        assert(!regex_compiles(t[6].source));
        return None;
    }
    assert(pattern_views(v@) =~= t.take(7));
    if !push_pattern(&mut v, "Rust Panic", r"thread .* panicked at", ErrorSeverity::Error) {
        assert(!regex_compiles(t[7].source));
        return None;
    }
    assert(pattern_views(v@) =~= t.take(8));
    if !push_pattern(&mut v, "Python Exception", r"(Traceback \(most recent call last\)|raise \w+Error)", ErrorSeverity::Error) {
        assert(!regex_compiles(t[8].source));
        return None;
    }
    assert(pattern_views(v@) =~= t.take(9));
    if !push_pattern(&mut v, "Generic Error", r"(?i)\b(error|failed|failure|exception)\b", ErrorSeverity::Warning) {
        assert(!regex_compiles(t[9].source));
        return None;
    }
    assert(pattern_views(v@) =~= t.take(10));
    if !push_pattern(&mut v, "Slurm Error", r"(?i)(slurmstepd|slurm_|CANCELLED|TIMEOUT|OUT_OF_MEMORY)", ErrorSeverity::Error) {
        assert(!regex_compiles(t[10].source));
        return None;
    }
    assert(pattern_views(v@) =~= t);
    assert forall|k: int| 0 <= k < t.len() implies regex_compiles(#[trigger] t[k].source) by {
        assert(pattern_views(v@)[k].source == v@[k].pattern.source());
    }
    Some(v)
}

// ---------------------------------------------------------------------------
// Lines
// ---------------------------------------------------------------------------

/// The bytes a character takes in UTF-8.
pub open spec fn char_width(c: char) -> nat {
    if (c as u32) < 0x80 {
        1
    } else if (c as u32) < 0x800 {
        2
    } else if (c as u32) < 0x10000 {
        3
    } else {
        4
    }
}

/// The bytes characters take in UTF-8, as `str::len` counts them.
pub open spec fn utf8_len(s: Seq<char>) -> nat
    decreases s.len(),
{
    if s.len() == 0 {
        0
    } else {
        utf8_len(s.drop_last()) + char_width(s.last())
    }
}

/// Whether `k` bytes end at a character boundary of `s`: some prefix of it
/// takes exactly `k` bytes.
pub open spec fn is_boundary(s: Seq<char>, k: nat) -> bool {
    exists|n: int| 0 <= n <= s.len() && utf8_len(#[trigger] s.take(n)) == k
}

/// The longest line kept whole; longer lines are cut.
pub open spec fn cut_at(max_len: nat) -> nat {
    if max_len >= 3 {
        (max_len - 3) as nat
    } else {
        0
    }
}

/// Whether truncating the line to `max_len` bytes keeps whole characters.
pub open spec fn truncatable(s: Seq<char>, max_len: nat) -> bool {
    utf8_len(s) <= max_len || is_boundary(s, cut_at(max_len))
}

/// The line when it takes at most `max_len` bytes; else its first
/// `max_len - 3` bytes and `...`.
pub open spec fn truncated(s: Seq<char>, max_len: nat) -> Seq<char> {
    if utf8_len(s) <= max_len {
        s
    } else {
        s.take(choose|n: int| 0 <= n <= s.len() && utf8_len(#[trigger] s.take(n)) == cut_at(max_len)) + "..."@
    }
}

/// A longer prefix of a text takes more bytes in UTF-8.
pub proof fn lemma_utf8_len_take_mono(s: Seq<char>, a: int, b: int)
    requires
        0 <= a <= b <= s.len(),
    ensures
        utf8_len(s.take(a)) <= utf8_len(s.take(b)),
        a < b ==> utf8_len(s.take(a)) < utf8_len(s.take(b)),
    decreases b - a,
{
    if a < b {
        assert(s.take(b).drop_last() =~= s.take(b - 1));
        lemma_utf8_len_take_mono(s, a, b - 1);
    }
}

/// The number of bytes a character takes in UTF-8.
pub fn width_of(c: char) -> (w: usize)
    ensures
        w == char_width(c),
{
    if (c as u32) < 0x80 {
        1
    } else if (c as u32) < 0x800 {
        2
    } else if (c as u32) < 0x10000 {
        3
    } else {
        4
    }
}

/// Truncates a line to `max_len` bytes, marking the cut with `...`.
pub fn truncate_line(s: &str, max_len: usize) -> (r: String)
    requires
        truncatable(s@, max_len as nat),
    ensures
        r@ == truncated(s@, max_len as nat),
{
    let v = chars_of(s);
    let mut total: usize = 0;
    let mut i: usize = 0;
    let mut fits = true;
    while i < v.len()
        invariant_except_break
            fits,
        invariant
            i <= v@.len(),
            total == utf8_len(v@.take(i as int)),
            total <= max_len,
        ensures
            fits ==> i == v@.len(),
            !fits ==> utf8_len(v@) > max_len,
        decreases v@.len() - i,
    {
        let w = width_of(v[i]);
        assert(v@.take(i + 1).drop_last() =~= v@.take(i as int));
        if w > max_len - total {
            proof {
                lemma_utf8_len_take_mono(v@, i + 1, v@.len() as int);
                assert(v@.take(v@.len() as int) =~= v@);
            }
            fits = false;
            break;
        }
        total = total + w;
        i = i + 1;
    }
    if fits {
        assert(v@.take(v@.len() as int) =~= v@);
        return string_from(s);
    }
    let cut: usize = if max_len >= 3 { max_len - 3 } else { 0 };
    let ghost n = choose|n: int| 0 <= n <= s@.len() && utf8_len(#[trigger] s@.take(n)) == cut_at(max_len as nat);
    let mut j: usize = 0;
    let mut sofar: usize = 0;
    assert(v@.take(0) =~= Seq::<char>::empty());
    while sofar < cut && j < v.len()
        invariant
            j <= v@.len(),
            sofar == utf8_len(v@.take(j as int)),
            sofar <= cut,
            0 <= n <= v@.len(),
            utf8_len(v@.take(n)) == cut,
            j <= n,
        decreases v@.len() - j,
    {
        let w = width_of(v[j]);
        assert(v@.take(j + 1).drop_last() =~= v@.take(j as int));
        proof {
            if n == j {
                assert(false);
            }
            lemma_utf8_len_take_mono(v@, j + 1, n);
        }
        sofar = sofar + w;
        j = j + 1;
    }
    proof {
        if j < n {
            lemma_utf8_len_take_mono(v@, j as int, n);
        }
    }
    assert(j == n);
    let head = crate::chars::slice_chars(v.as_slice(), 0, j);
    assert(head@ =~= s@.take(n));
    let mut out = string_of(head.as_slice());
    append_str(&mut out, "...");
    out
}

fn can_truncate(s: &str, max_len: usize) -> (b: bool)
    ensures
        b == truncatable(s@, max_len as nat),
{
    let v = chars_of(s);
    let cut: usize = if max_len >= 3 { max_len - 3 } else { 0 };
    let mut total: usize = 0;
    let mut i: usize = 0;
    let mut hit = cut == 0;
    assert(v@.take(0) =~= Seq::<char>::empty());
    while i < v.len()
        invariant
            v@ == s@,
            i <= v@.len(),
            total == utf8_len(v@.take(i as int)),
            total <= max_len,
            cut == cut_at(max_len as nat),
            hit == exists|n: int| 0 <= n <= i && utf8_len(#[trigger] v@.take(n)) == cut,
        decreases v@.len() - i,
    {
        let w = width_of(v[i]);
        assert(v@.take(i + 1).drop_last() =~= v@.take(i as int));
        if w > max_len - total {
            proof {
                lemma_utf8_len_take_mono(v@, i + 1, v@.len() as int);
                assert(v@.take(v@.len() as int) =~= v@);
                assert forall|n: int| i < n <= v@.len() implies utf8_len(#[trigger] v@.take(n)) != cut by {
                    lemma_utf8_len_take_mono(v@, i + 1, n);
                }
                assert(utf8_len(v@) > max_len);
                if hit {
                    let n = choose|n: int| 0 <= n <= i && utf8_len(#[trigger] v@.take(n)) == cut;
                    assert(is_boundary(s@, cut as nat));
                }
                if is_boundary(s@, cut as nat) {
                    let n = choose|n: int| 0 <= n <= s@.len() && utf8_len(#[trigger] s@.take(n)) == cut;
                    assert(n <= i);
                }
            }
            return hit;
        }
        total = total + w;
        i = i + 1;
        if total == cut {
            hit = true;
        }
    }
    assert(v@.take(v@.len() as int) =~= v@);
    true
}

/// The index of the first pattern, from `k` on, that matches the line.
pub open spec fn first_match_from(patterns: Seq<PatternView>, line: Seq<char>, k: int) -> Option<int>
    decreases patterns.len() - k,
{
    if k < 0 || k >= patterns.len() {
        None
    } else if regex_matches(patterns[k].source, line) {
        Some(k)
    } else {
        first_match_from(patterns, line, k + 1)
    }
}

/// What a finding records, as plain values.
pub struct FindingView {
    pub file: Seq<char>,
    pub line_number: int,
    pub pattern_name: Seq<char>,
    pub severity: ErrorSeverity,
    pub line_content: Seq<char>,
}

/// A line of a log that shows a problem.
pub struct DetectedError {
    pub file: String,
    pub line_number: usize,
    pub pattern_name: String,
    pub severity: ErrorSeverity,
    pub line_content: String,
}

impl View for DetectedError {
    type V = FindingView;

    open spec fn view(&self) -> FindingView {
        FindingView {
            file: self.file@,
            line_number: self.line_number as int,
            pattern_name: self.pattern_name@,
            severity: self.severity,
            line_content: self.line_content@,
        }
    }
}

/// The findings' views, in order.
pub open spec fn finding_views(v: Seq<DetectedError>) -> Seq<FindingView> {
    Seq::new(v.len(), |i: int| v[i]@)
}

/// The longest line shown whole in a finding, in bytes.
pub open spec fn shown_len() -> nat {
    120
}

/// Whether every line that shows a problem can be cut to the shown length
/// without cutting a character.
pub open spec fn findings_cuttable(lines: Seq<Seq<char>>, patterns: Seq<PatternView>) -> bool {
    forall|i: int|
        0 <= i < lines.len() && (#[trigger] first_match_from(patterns, lines[i], 0)) is Some
            ==> truncatable(lines[i], shown_len())
}

/// The findings among the lines, numbered from 1: for each line, the first
/// pattern that matches it, with the line cut to the shown length.
pub open spec fn findings(file: Seq<char>, lines: Seq<Seq<char>>, patterns: Seq<PatternView>) -> Seq<FindingView>
    decreases lines.len(),
{
    if lines.len() == 0 {
        Seq::empty()
    } else {
        let prev = findings(file, lines.drop_last(), patterns);
        match first_match_from(patterns, lines.last(), 0) {
            Some(k) => prev.push(
                FindingView {
                    file,
                    line_number: lines.len() as int,
                    pattern_name: patterns[k].name,
                    severity: patterns[k].severity,
                    line_content: truncated(lines.last(), shown_len()),
                },
            ),
            None => prev,
        }
    }
}

fn first_match_exec(patterns: &Vec<ErrorPattern>, line: &str) -> (r: Option<usize>)
    ensures
        match r {
            Some(k) => first_match_from(pattern_views(patterns@), line@, 0) == Some(k as int) && k
                < patterns@.len(),
            None => first_match_from(pattern_views(patterns@), line@, 0) is None,
        },
{
    let ghost pv = pattern_views(patterns@);
    let mut k: usize = 0;
    while k < patterns.len()
        invariant
            pv == pattern_views(patterns@),
            k <= patterns@.len(),
            first_match_from(pv, line@, 0) == first_match_from(pv, line@, k as int),
        decreases patterns@.len() - k,
    {
        assert(pv[k as int].source == patterns@[k as int].pattern.source());
        if is_match(&patterns[k].pattern, line) {
            return Some(k);
        }
        k = k + 1;
    }
    None
}

/// Scans a log's lines for problems; `None` when a line that shows one
/// cannot be cut to the shown length without cutting a character.
pub fn scan_log(file: &str, content: &str, patterns: &Vec<ErrorPattern>) -> (r: Option<Vec<DetectedError>>)
    ensures
        match r {
            Some(v) => findings_cuttable(lines_of(content@), pattern_views(patterns@))
                && finding_views(v@) == findings(file@, lines_of(content@), pattern_views(patterns@)),
            None => !findings_cuttable(lines_of(content@), pattern_views(patterns@)),
        },
{
    let all = chars_of(content);
    let ls = lines(all.as_slice());
    let ghost lv = views(ls@);
    let ghost pv = pattern_views(patterns@);
    let mut out: Vec<DetectedError> = Vec::new();
    let mut i: usize = 0;
    while i < ls.len()
        invariant
            lv == views(ls@),
            lv == lines_of(content@),
            pv == pattern_views(patterns@),
            i <= ls@.len(),
            finding_views(out@) == findings(file@, lv.take(i as int), pv),
            forall|j: int|
                0 <= j < i && (#[trigger] first_match_from(pv, lv[j], 0)) is Some ==> truncatable(
                    lv[j],
                    shown_len(),
                ),
        decreases ls@.len() - i,
    {
        let ghost t = lv.take(i + 1);
        assert(t.drop_last() =~= lv.take(i as int));
        assert(t.last() == ls@[i as int]@);
        let line = string_of(ls[i].as_slice());
        match first_match_exec(patterns, line.as_str()) {
            Some(k) => {
                if !can_truncate(line.as_str(), 120) {
                    assert(first_match_from(pv, lv[i as int], 0) is Some);
                    return None;
                }
                assert(pv[k as int] == patterns@[k as int]@);
                let found = DetectedError {
                    file: string_from(file),
                    line_number: i + 1,
                    pattern_name: string_from(patterns[k].name.as_str()),
                    severity: patterns[k].severity,
                    line_content: truncate_line(line.as_str(), 120),
                };
                let ghost before = finding_views(out@);
                let ghost fv = found@;
                assert(fv == FindingView {
                    file: file@,
                    line_number: t.len() as int,
                    pattern_name: pv[k as int].name,
                    severity: pv[k as int].severity,
                    line_content: truncated(t.last(), shown_len()),
                });
                out.push(found);
                assert(finding_views(out@) =~= before.push(fv));
                assert(findings(file@, t, pv) == before.push(fv));
            },
            None => {
                assert(first_match_from(pv, t.last(), 0) is None);
                assert(findings(file@, t, pv) == findings(file@, t.drop_last(), pv));
            },
        }
        i = i + 1;
    }
    assert(lv.take(ls@.len() as int) =~= lv);
    Some(out)
}

/// Whether a file of the bundle is a log: its name ends in `.log`, `.o` or
/// `.e`.
pub open spec fn log_file_name(name: Seq<char>) -> bool {
    ".log"@.is_suffix_of(name) || ".o"@.is_suffix_of(name) || ".e"@.is_suffix_of(name)
}

/// Whether a file of the bundle is a log.
pub fn is_log_file(name: &str) -> (b: bool)
    ensures
        b == log_file_name(name@),
{
    let n = chars_of(name);
    let a = chars_of(".log");
    let b = chars_of(".o");
    let c = chars_of(".e");
    ends_with(n.as_slice(), a.as_slice()) || ends_with(n.as_slice(), b.as_slice()) || ends_with(
        n.as_slice(),
        c.as_slice(),
    )
}

/// How many findings have the given severity.
pub open spec fn severity_count(v: Seq<FindingView>, sev: ErrorSeverity) -> nat
    decreases v.len(),
{
    if v.len() == 0 {
        0
    } else {
        severity_count(v.drop_last(), sev) + if v.last().severity == sev {
            1nat
        } else {
            0nat
        }
    }
}

/// Counts the findings of one severity.
pub fn count_severity(errors: &Vec<DetectedError>, sev: ErrorSeverity) -> (c: usize)
    ensures
        c == severity_count(finding_views(errors@), sev),
{
    let ghost fv = finding_views(errors@);
    let mut c: usize = 0;
    let mut i: usize = 0;
    while i < errors.len()
        invariant
            fv == finding_views(errors@),
            i <= errors@.len(),
            c == severity_count(fv.take(i as int), sev),
            c <= i,
        decreases errors@.len() - i,
    {
        let ghost t = fv.take(i + 1);
        assert(t.drop_last() =~= fv.take(i as int));
        assert(t.last() == errors@[i as int]@);
        if errors[i].severity == sev {
            c = c + 1;
        }
        i = i + 1;
    }
    assert(fv.take(errors@.len() as int) =~= fv);
    c
}

/// The mark of a workflow's files in their names: `wf{workflow_id}`.
pub open spec fn workflow_mark(workflow_id: i64) -> Seq<char> {
    "wf"@ + decimal_int(workflow_id as int)
}

/// Whether a file of the output directory goes into the bundle of a
/// workflow: its name holds the workflow's mark.
pub fn belongs_to_workflow(file_name: &str, workflow_id: i64) -> (b: bool)
    ensures
        b == contains_seq(file_name@, workflow_mark(workflow_id)),
{
    let mut mark = string_from("wf");
    let id = i64_to_string(workflow_id);
    append_str(&mut mark, id.as_str());
    let name = chars_of(file_name);
    let m = chars_of(mark.as_str());
    contains(name.as_slice(), m.as_slice())
}

/// The name of a file in the bundle: the name of its directory, a `/` and
/// its own name, or its own name alone where the directory has no name.
pub fn archive_name(directory_name: Option<&str>, file_name: &str) -> (r: String)
    ensures
        r@ == match directory_name {
            Some(d) => d@ + "/"@ + file_name@,
            None => file_name@,
        },
{
    match directory_name {
        Some(d) => {
            let mut s = string_from(d);
            append_str(&mut s, "/");
            append_str(&mut s, file_name);
            s
        },
        None => string_from(file_name),
    }
}

} // verus!
