//! The signature of a failure, by which diagnoses of similar failures are
//! cached, and the pattern of a job's name that cached entries are keyed by.

use vstd::prelude::*;
use sha2::Digest;
use vstd::utf8::encode_utf8;
use crate::chars::{contains, contains_seq, lines, lines_of, trim, trim_of, views};
use crate::plan::pattern::{
    compile, regex_compiles, regex_replace_all, regex_replace_first, replace_all, replace_first,
};
use crate::text::{chars_of, lowercase, push_char, string_from, string_of, to_lowercase};

verus! {

// ---------------------------------------------------------------------------
// Normalizing error lines
// ---------------------------------------------------------------------------

/// `s` with every match of `pattern` replaced, when the pattern compiles.
pub open spec fn replaced_if_valid(s: Seq<char>, pattern: Seq<char>, replacement: Seq<char>) -> Seq<char> {
    if regex_compiles(pattern) {
        regex_replace_all(pattern, s, replacement)
    } else {
        s
    }
}

/// An error line without what differs between runs: timestamps in three
/// forms become `[TIME]`, process ids `[PID]`, directories of absolute
/// paths `[PATH]`, and hexadecimal addresses `[ADDR]`; then it is trimmed.
pub open spec fn normalized_line(line: Seq<char>) -> Seq<char> {
    let a = replaced_if_valid(line, r"\d{4}-\d{2}-\d{2}[T ]\d{2}:\d{2}:\d{2}(\.\d+)?"@, "[TIME]"@);
    let b = replaced_if_valid(a, r"\[\d{4}-\d{2}-\d{2} \d{2}:\d{2}:\d{2}\]"@, "[TIME]"@);
    let c = replaced_if_valid(b, r"[A-Z][a-z]{2} \d{1,2} \d{2}:\d{2}:\d{2}"@, "[TIME]"@);
    let d = replaced_if_valid(c, r"\bpid[=: ]?\d+\b|\bPID[=: ]?\d+\b|\[\d+\]"@, "[PID]"@);
    let e = replaced_if_valid(d, r"/[^\s:]+/([^\s/:]+)"@, "[PATH]/$1"@);
    let f = replaced_if_valid(e, r"0x[0-9a-fA-F]+"@, "[ADDR]"@);
    trim_of(f)
}

fn replace_if_valid(s: String, pattern: &str, replacement: &str) -> (r: String)
    ensures
        r@ == replaced_if_valid(s@, pattern@, replacement@),
{
    match compile(pattern) {
        Some(p) => replace_all(&p, s.as_str(), replacement),
        None => s,
    }
}

/// Normalizes an error line, so that the same failure in another run or
/// another directory gives the same line.
pub fn normalize_error_line(line: &str) -> (r: String)
    ensures
        r@ == normalized_line(line@),
{
    let s = string_from(line);
    let s = replace_if_valid(s, r"\d{4}-\d{2}-\d{2}[T ]\d{2}:\d{2}:\d{2}(\.\d+)?", "[TIME]");
    let s = replace_if_valid(s, r"\[\d{4}-\d{2}-\d{2} \d{2}:\d{2}:\d{2}\]", "[TIME]");
    let s = replace_if_valid(s, r"[A-Z][a-z]{2} \d{1,2} \d{2}:\d{2}:\d{2}", "[TIME]");
    let s = replace_if_valid(s, r"\bpid[=: ]?\d+\b|\bPID[=: ]?\d+\b|\[\d+\]", "[PID]");
    let s = replace_if_valid(s, r"/[^\s:]+/([^\s/:]+)", "[PATH]/$1");
    let s = replace_if_valid(s, r"0x[0-9a-fA-F]+", "[ADDR]");
    let t = trim(chars_of(s.as_str()).as_slice());
    string_of(t.as_slice())
}

/// The pattern of a job's name: a trailing `_` or `-` and digits become
/// `[N]`, so that numbered jobs share cached diagnoses.
pub open spec fn job_pattern(name: Seq<char>) -> Seq<char> {
    if regex_compiles(r"[_-]\d+$"@) {
        regex_replace_first(r"[_-]\d+$"@, name, "[N]"@)
    } else {
        name
    }
}

/// Reduces a job's name to its pattern.
pub fn extract_job_pattern(job_name: &str) -> (r: String)
    ensures
        r@ == job_pattern(job_name@),
{
    match compile(r"[_-]\d+$") {
        Some(p) => replace_first(&p, job_name, "[N]"),
        None => string_from(job_name),
    }
}

// ---------------------------------------------------------------------------
// Signatures
// ---------------------------------------------------------------------------

/// Whether a line mentions an error: its lower-case form contains one of
/// the words that error messages use (the keywords, in any case, reduce to
/// these lower-case forms).
pub open spec fn mentions_error(line: Seq<char>) -> bool {
    let l = lowercase(line);
    ||| contains_seq(l, "error"@)
    ||| contains_seq(l, "exception"@)
    ||| contains_seq(l, "failed"@)
    ||| contains_seq(l, "oom"@)
    ||| contains_seq(l, "out of memory"@)
    ||| contains_seq(l, "killed"@)
    ||| contains_seq(l, "timeout"@)
    ||| contains_seq(l, "cuda"@)
    ||| contains_seq(l, "segfault"@)
    ||| contains_seq(l, "segmentation fault"@)
    ||| contains_seq(l, "permission denied"@)
    ||| contains_seq(l, "not found"@)
    ||| contains_seq(l, "no such file"@)
}

/// The normalized error lines, in order, leaving out those that normalize
/// to nothing.
pub open spec fn error_lines(lines: Seq<Seq<char>>) -> Seq<Seq<char>>
    decreases lines.len(),
{
    if lines.len() == 0 {
        Seq::empty()
    } else {
        let prev = error_lines(lines.drop_last());
        let n = normalized_line(lines.last());
        if mentions_error(lines.last()) && n.len() > 0 {
            prev.push(n)
        } else {
            prev
        }
    }
}

/// The lines normalized, in order, leaving out those that normalize to
/// nothing.
pub open spec fn normalized_lines(lines: Seq<Seq<char>>) -> Seq<Seq<char>>
    decreases lines.len(),
{
    if lines.len() == 0 {
        Seq::empty()
    } else {
        let prev = normalized_lines(lines.drop_last());
        let n = normalized_line(lines.last());
        if n.len() > 0 {
            prev.push(n)
        } else {
            prev
        }
    }
}

/// The lines a signature is made of: the normalized error lines, or, when
/// there are none, the last twenty lines normalized.
pub open spec fn signature_lines(text: Seq<char>) -> Seq<Seq<char>> {
    let ls = lines_of(text);
    let e = error_lines(ls);
    if e.len() > 0 {
        e
    } else {
        normalized_lines(ls.skip(if ls.len() > 20 { ls.len() - 20 } else { 0 }))
    }
}

/// The bytes that are hashed: each line in UTF-8 followed by a newline.
pub open spec fn hashed_bytes(lines: Seq<Seq<char>>) -> Seq<u8>
    decreases lines.len(),
{
    if lines.len() == 0 {
        Seq::empty()
    } else {
        hashed_bytes(lines.drop_last()) + encode_utf8(lines.last()) + seq![10u8]
    }
}

/// The lower-case hexadecimal digit of a value below 16.
pub open spec fn hex_digit(d: nat) -> char {
    if d < 10 {
        ((48 + d) as u8) as char
    } else {
        ((87 + d) as u8) as char
    }
}

/// Bytes in lower-case hexadecimal, two digits each.
pub open spec fn hex_of(bytes: Seq<u8>) -> Seq<char>
    decreases bytes.len(),
{
    if bytes.len() == 0 {
        Seq::empty()
    } else {
        hex_of(bytes.drop_last()) + seq![
            hex_digit((bytes.last() / 16) as nat),
            hex_digit((bytes.last() % 16) as nat),
        ]
    }
}

/// The SHA-256 digest of the bytes, as `sha2::Sha256::digest` computes it.
pub uninterp spec fn sha256(data: Seq<u8>) -> Seq<u8>;

/// Hashes the bytes with `sha2::Sha256::digest`; the digest is 32 bytes
/// long, and the contract names it.
#[verifier::external_body]
fn sha256_digest(data: &[u8]) -> (r: Vec<u8>)
    ensures
        r@ == sha256(data@),
        r@.len() == 32,
{
    sha2::Sha256::digest(data).to_vec()
}

/// The signature of a failure's stderr: the SHA-256 digest, in hexadecimal,
/// of its signature lines.
pub open spec fn signature_of(text: Seq<char>) -> Seq<char> {
    hex_of(sha256(hashed_bytes(signature_lines(text))))
}

fn mentions_error_exec(line: &str) -> (b: bool)
    ensures
        b == mentions_error(line@),
{
    let lower = to_lowercase(line);
    let l = chars_of(lower.as_str());
    let s = l.as_slice();
    has(s, "error") || has(s, "exception") || has(s, "failed") || has(s, "oom") || has(
        s,
        "out of memory",
    ) || has(s, "killed") || has(s, "timeout") || has(s, "cuda") || has(s, "segfault") || has(
        s,
        "segmentation fault",
    ) || has(s, "permission denied") || has(s, "not found") || has(s, "no such file")
}

fn has(s: &[char], p: &str) -> (b: bool)
    ensures
        b == contains_seq(s@, p@),
{
    let v = chars_of(p);
    contains(s, v.as_slice())
}

fn hex_char(d: u8) -> (c: char)
    requires
        d < 16,
    ensures
        c == hex_digit(d as nat),
{
    if d < 10 {
        (48u8 + d) as char
    } else {
        (87u8 + d) as char
    }
}

/// Computes the signature of a failure from its stderr: the lines that
/// mention errors (else the last twenty), normalized, hashed with SHA-256
/// and written in hexadecimal.
pub fn compute_signature(stderr: &str) -> (r: String)
    ensures
        r@ == signature_of(stderr@),
{
    let all = chars_of(stderr);
    let ls = lines(all.as_slice());
    let ghost lv = views(ls@);
    let mut picked: Vec<String> = Vec::new();
    let mut i: usize = 0;
    while i < ls.len()
        invariant
            lv == views(ls@),
            i <= ls@.len(),
            crate::plan::names::strings_view(picked@) == error_lines(lv.take(i as int)),
        decreases ls@.len() - i,
    {
        let ghost t = lv.take(i + 1);
        assert(t.drop_last() =~= lv.take(i as int));
        assert(t.last() == ls@[i as int]@);
        let line = string_of(ls[i].as_slice());
        if mentions_error_exec(line.as_str()) {
            let n = normalize_error_line(line.as_str());
            if chars_of(n.as_str()).len() > 0 {
                let ghost before = crate::plan::names::strings_view(picked@);
                let ghost nv = n@;
                picked.push(n);
                assert(crate::plan::names::strings_view(picked@) =~= before.push(nv));
            }
        }
        i = i + 1;
    }
    assert(lv.take(ls@.len() as int) =~= lv);
    if picked.len() == 0 {
        let start: usize = if ls.len() > 20 { ls.len() - 20 } else { 0 };
        let ghost tail = lv.skip(start as int);
        let mut j: usize = start;
        assert(tail.take(0) =~= Seq::<Seq<char>>::empty());
        while j < ls.len()
            invariant
                lv == views(ls@),
                start <= j <= ls@.len(),
                tail == lv.skip(start as int),
                crate::plan::names::strings_view(picked@) == normalized_lines(tail.take(j - start)),
            decreases ls@.len() - j,
        {
            let ghost t = tail.take(j - start + 1);
            assert(t.drop_last() =~= tail.take(j - start));
            assert(t.last() == ls@[j as int]@);
            let line = string_of(ls[j].as_slice());
            let n = normalize_error_line(line.as_str());
            if chars_of(n.as_str()).len() > 0 {
                let ghost before = crate::plan::names::strings_view(picked@);
                let ghost nv = n@;
                picked.push(n);
                assert(crate::plan::names::strings_view(picked@) =~= before.push(nv));
            }
            j = j + 1;
        }
        assert(tail.take(ls@.len() - start) =~= tail);
    }
    let ghost sl = crate::plan::names::strings_view(picked@);
    assert(sl == signature_lines(stderr@));
    let mut bytes: Vec<u8> = Vec::new();
    let mut k: usize = 0;
    while k < picked.len()
        invariant
            sl == crate::plan::names::strings_view(picked@),
            k <= picked@.len(),
            bytes@ == hashed_bytes(sl.take(k as int)),
        decreases picked@.len() - k,
    {
        let ghost t = sl.take(k + 1);
        assert(t.drop_last() =~= sl.take(k as int));
        assert(t.last() == picked@[k as int]@);
        let b = picked[k].as_str().as_bytes();
        let ghost start = bytes@;
        let mut m: usize = 0;
        while m < b.len()
            invariant
                m <= b@.len(),
                bytes@ == start + b@.take(m as int),
            decreases b@.len() - m,
        {
            bytes.push(b[m]);
            assert(start + b@.take(m + 1) =~= (start + b@.take(m as int)).push(b@[m as int]));
            m = m + 1;
        }
        assert(b@.take(b@.len() as int) =~= b@);
        bytes.push(10u8);
        assert(bytes@ =~= hashed_bytes(sl.take(k as int)) + encode_utf8(picked@[k as int]@) + seq![10u8]);
        k = k + 1;
    }
    assert(sl.take(picked@.len() as int) =~= sl);
    let digest = sha256_digest(bytes.as_slice());
    let mut out = String::new();
    let mut q: usize = 0;
    while q < digest.len()
        invariant
            q <= digest@.len(),
            out@ == hex_of(digest@.take(q as int)),
        decreases digest@.len() - q,
    {
        let ghost t = digest@.take(q + 1);
        assert(t.drop_last() =~= digest@.take(q as int));
        let byte = digest[q];
        push_char(&mut out, hex_char(byte / 16));
        push_char(&mut out, hex_char(byte % 16));
        assert(out@ =~= hex_of(t));
        q = q + 1;
    }
    assert(digest@.take(digest@.len() as int) =~= digest@);
    out
}

/// How often cached diagnoses helped, over the whole cache.
pub struct CacheStats {
    pub total_entries: usize,
    pub total_successes: usize,
    pub total_failures: usize,
}

/// Whether a cached diagnosis may be used: not when more than half of the
/// recoveries that followed it failed. (The counts are compared exactly; the
/// ratio they stand for is exact in a double below 2^53 recoveries.)
pub fn cache_entry_usable(success_count: i64, failure_count: i64) -> (b: bool)
    requires
        0 <= success_count,
        0 <= failure_count,
        success_count + failure_count < 0x20_0000_0000_0000,
    ensures
        b == !(success_count + failure_count > 0 && 2 * failure_count > success_count + failure_count),
{
    let total = success_count + failure_count;
    !(total > 0 && 2 * failure_count > total)
}

} // verus!
