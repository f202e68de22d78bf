//! Regular expressions that select jobs by name, compiled with the `regex`
//! crate.

use vstd::prelude::*;
use crate::text::{opt_chars, string_from};

verus! {

/// `regex::Regex`, carried through verified code without looking inside.
#[verifier::external_type_specification]
#[verifier::external_body]
pub struct ExRegex(regex::Regex);

/// `regex::Error`, the error of a pattern that does not compile.
#[verifier::external_type_specification]
#[verifier::external_body]
pub struct ExRegexError(regex::Error);

/// Whether `regex::Regex::new` accepts the pattern.
pub uninterp spec fn regex_compiles(pattern: Seq<char>) -> bool;

/// Whether the regular expression compiled from `pattern` matches somewhere
/// in `text`, as `regex::Regex::is_match` answers.
pub uninterp spec fn regex_matches(pattern: Seq<char>, text: Seq<char>) -> bool;

/// A compiled regular expression together with the pattern it was compiled
/// from. Only `compile` makes one, so the two always belong together.
pub struct Pattern {
    regex: regex::Regex,
    source: String,
}

impl Pattern {
    /// The pattern the expression was compiled from.
    pub closed spec fn source(&self) -> Seq<char> {
        self.source@
    }
}

/// Compiles a pattern with `regex::Regex::new`; succeeds exactly when the
/// crate accepts the pattern.
#[verifier::external_body]
fn regex_new(pattern: &str) -> (r: Result<regex::Regex, regex::Error>)
    ensures
        r is Ok == regex_compiles(pattern@),
{
    regex::Regex::new(pattern)
}

/// Compiles a pattern; `None` when the `regex` crate refuses it.
pub fn compile(pattern: &str) -> (r: Option<Pattern>)
    ensures
        r is Some == regex_compiles(pattern@),
        r matches Some(p) ==> p.source() == pattern@,
{
    match regex_new(pattern) {
        Ok(re) => Some(Pattern { regex: re, source: string_from(pattern) }),
        Err(_) => None,
    }
}

/// Whether the expression matches somewhere in the text, by
/// `regex::Regex::is_match` on the compiled expression; the contract names
/// the answer by the pattern the expression was compiled from.
#[verifier::external_body]
pub(crate) fn is_match(p: &Pattern, text: &str) -> (b: bool)
    ensures
        b == regex_matches(p.source(), text@),
{
    p.regex.is_match(text)
}

/// What `regex::Regex::replace_all` makes of `text` with the expression
/// compiled from `pattern`: every match replaced by `replacement`, with
/// `$`-references to capture groups expanded.
pub uninterp spec fn regex_replace_all(pattern: Seq<char>, text: Seq<char>, replacement: Seq<char>) -> Seq<char>;

/// What `regex::Regex::replace` makes of `text`: the first match replaced.
pub uninterp spec fn regex_replace_first(pattern: Seq<char>, text: Seq<char>, replacement: Seq<char>) -> Seq<char>;

/// Replaces every match with `regex::Regex::replace_all`; the contract
/// names the result by the pattern the expression was compiled from.
#[verifier::external_body]
pub(crate) fn replace_all(p: &Pattern, text: &str, replacement: &str) -> (r: String)
    ensures
        r@ == regex_replace_all(p.source(), text@, replacement@),
{
    p.regex.replace_all(text, replacement).to_string()
}

/// Replaces the first match with `regex::Regex::replace`; the contract
/// names the result by the pattern the expression was compiled from.
#[verifier::external_body]
pub(crate) fn replace_first(p: &Pattern, text: &str, replacement: &str) -> (r: String)
    ensures
        r@ == regex_replace_first(p.source(), text@, replacement@),
{
    p.regex.replace(text, replacement).to_string()
}

/// What `regex::Regex::captures` finds in `text` with the expression compiled
/// from `pattern`: `None` where the expression does not match; else the text
/// that each group matched, group 0 (the whole match) first and the others in
/// the order of their opening parentheses, `None` for a group that took no
/// part in the match.
pub uninterp spec fn regex_captures(pattern: Seq<char>, text: Seq<char>) -> Option<Seq<Option<Seq<char>>>>;

/// The texts of a list of optional strings.
pub open spec fn opt_strings_view(v: Seq<Option<String>>) -> Seq<Option<Seq<char>>> {
    Seq::new(v.len(), |i: int| opt_chars(v[i]))
}

/// The groups of the first match, by `regex::Regex::captures` and
/// `Captures::iter`; the contract names the result by the pattern the
/// expression was compiled from.
#[verifier::external_body]
pub(crate) fn captures(p: &Pattern, text: &str) -> (r: Option<Vec<Option<String>>>)
    ensures
        match r {
            Some(v) => regex_captures(p.source(), text@) == Some(opt_strings_view(v@)),
            None => regex_captures(p.source(), text@) is None,
        },
{
    p.regex.captures(text).map(|c| c.iter().map(|m| m.map(|m| m.as_str().to_string())).collect())
}

} // verus!
