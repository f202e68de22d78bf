//! Version compatibility between this client and a Torc server.

use vstd::prelude::*;
use crate::chars::{split_char, split_chars, views};
use crate::text::{append_str, chars_of, parse_unsigned, parse_unsigned_chars, string_from};
use crate::chars::chars_eq_str;

verus! {

/// The version of this client.
pub const CLIENT_VERSION: &'static str = "0.8.0";

/// The commit this client was built from (not recorded in this build).
pub const GIT_HASH: &'static str = "unknown";

/// Marks a build from a modified working tree (empty: not recorded).
pub const GIT_DIRTY: &'static str = "";

/// The version with the commit: `"{CLIENT_VERSION} ({GIT_HASH}{GIT_DIRTY})"`.
pub fn full_version() -> (r: String)
    ensures
        r@ == CLIENT_VERSION@ + " ("@ + GIT_HASH@ + GIT_DIRTY@ + ")"@,
{
    let mut s = String::new();
    append_str(&mut s, CLIENT_VERSION);
    append_str(&mut s, " (");
    append_str(&mut s, GIT_HASH);
    append_str(&mut s, GIT_DIRTY);
    append_str(&mut s, ")");
    s
}

/// The version with a commit suffix: `"{CLIENT_VERSION}-{GIT_HASH}{GIT_DIRTY}"`.
pub fn version_with_hash() -> (r: String)
    ensures
        r@ == CLIENT_VERSION@ + "-"@ + GIT_HASH@ + GIT_DIRTY@,
{
    let mut s = String::new();
    append_str(&mut s, CLIENT_VERSION);
    append_str(&mut s, "-");
    append_str(&mut s, GIT_HASH);
    append_str(&mut s, GIT_DIRTY);
    s
}

/// How far a client and a server version are apart.
#[derive(Debug, Clone, Copy, PartialEq, Eq, Structural)]
pub enum VersionMismatchSeverity {
    /// The versions match.
    NoMismatch,
    /// Only the patch version differs, or the server's minor version is newer.
    Patch,
    /// The client's minor version is newer than the server's.
    Minor,
    /// The major versions differ.
    Major,
}

impl VersionMismatchSeverity {
    /// A major mismatch stops the client.
    pub fn is_blocking(&self) -> (b: bool)
        ensures
            b == (*self == VersionMismatchSeverity::Major),
    {
        match self {
            VersionMismatchSeverity::Major => true,
            _ => false,
        }
    }

    /// Every mismatch deserves a warning.
    pub fn has_warning(&self) -> (b: bool)
        ensures
            b == (*self != VersionMismatchSeverity::NoMismatch),
    {
        match self {
            VersionMismatchSeverity::NoMismatch => false,
            _ => true,
        }
    }
}

/// A version string as `(major, minor, patch)`: an optional leading `v`,
/// then at least three `.`-separated parts; the first two are the major and
/// minor numbers, and the third, up to its first `-`, is the patch number.
/// Further parts are ignored.
pub open spec fn spec_parse_version(s: Seq<char>) -> Option<(u32, u32, u32)> {
    let v = if s.len() > 0 && s[0] == 'v' { s.drop_first() } else { s };
    let parts = split_char(v, '.');
    if parts.len() < 3 {
        None
    } else {
        let patch = split_char(parts[2], '-')[0];
        match (
            parse_unsigned(parts[0], u32::MAX as nat),
            parse_unsigned(parts[1], u32::MAX as nat),
            parse_unsigned(patch, u32::MAX as nat),
        ) {
            (Some(a), Some(b), Some(c)) => Some((a as u32, b as u32, c as u32)),
            _ => None,
        }
    }
}

fn parse_u32_chars(s: &[char]) -> (r: Option<u32>)
    ensures
        r == (match parse_unsigned(s@, u32::MAX as nat) {
            Some(n) => Some(n as u32),
            None => None::<u32>,
        }),
{
    match parse_unsigned_chars(s, u32::MAX as u64) {
        Some(n) => Some(n as u32),
        None => None,
    }
}

/// Parses a version string into `(major, minor, patch)`.
pub fn parse_version(version: &str) -> (r: Option<(u32, u32, u32)>)
    ensures
        r == spec_parse_version(version@),
{
    let all = chars_of(version);
    let start: usize = if all.len() > 0 && all[0] == 'v' { 1 } else { 0 };
    let v = crate::chars::slice_chars(all.as_slice(), start, all.len());
    assert(v@ =~= (if version@.len() > 0 && version@[0] == 'v' { version@.drop_first() } else { version@ }));
    let parts = split_chars(v.as_slice(), '.');
    if parts.len() < 3 {
        return None;
    }
    let patch_parts = split_chars(parts[2].as_slice(), '-');
    assert(views(parts@)[2] == parts@[2]@);
    let major = parse_u32_chars(parts[0].as_slice());
    let minor = parse_u32_chars(parts[1].as_slice());
    let patch = parse_u32_chars(patch_parts[0].as_slice());
    assert(views(parts@)[0] == parts@[0]@);
    assert(views(parts@)[1] == parts@[1]@);
    assert(views(patch_parts@)[0] == patch_parts@[0]@);
    match (major, minor, patch) {
        (Some(a), Some(b), Some(c)) => Some((a, b, c)),
        _ => None,
    }
}

/// The severity of the difference between two parsed versions.
pub open spec fn spec_severity(client: (u32, u32, u32), server: (u32, u32, u32)) -> VersionMismatchSeverity {
    if client.0 != server.0 {
        VersionMismatchSeverity::Major
    } else if client.1 > server.1 {
        VersionMismatchSeverity::Minor
    } else if client.1 != server.1 || client.2 != server.2 {
        VersionMismatchSeverity::Patch
    } else {
        VersionMismatchSeverity::NoMismatch
    }
}

/// The severity of the difference between two version strings; `None` when
/// either cannot be parsed, since then nothing can be compared.
pub open spec fn spec_compare_versions(client: Seq<char>, server: Seq<char>) -> VersionMismatchSeverity {
    match (spec_parse_version(client), spec_parse_version(server)) {
        (Some(c), Some(s)) => spec_severity(c, s),
        _ => VersionMismatchSeverity::NoMismatch,
    }
}

/// Compares a client and a server version.
pub fn compare_versions(client_version: &str, server_version: &str) -> (r: VersionMismatchSeverity)
    ensures
        r == spec_compare_versions(client_version@, server_version@),
{
    let client = match parse_version(client_version) {
        Some(v) => v,
        None => return VersionMismatchSeverity::NoMismatch,
    };
    let server = match parse_version(server_version) {
        Some(v) => v,
        None => return VersionMismatchSeverity::NoMismatch,
    };
    if client.0 != server.0 {
        return VersionMismatchSeverity::Major;
    }
    if client.1 > server.1 {
        return VersionMismatchSeverity::Minor;
    }
    if client.1 != server.1 || client.2 != server.2 {
        return VersionMismatchSeverity::Patch;
    }
    VersionMismatchSeverity::NoMismatch
}

/// The message that describes a comparison.
pub open spec fn spec_version_message(client: Seq<char>, server: Seq<char>, severity: VersionMismatchSeverity) -> Seq<char> {
    match severity {
        VersionMismatchSeverity::NoMismatch => "Version "@ + client + " matches server"@,
        VersionMismatchSeverity::Patch => "Version mismatch: client "@ + client + " vs server "@
            + server + " (patch difference)"@,
        VersionMismatchSeverity::Minor => "Warning: Client version "@ + client
            + " is newer than server "@ + server + " - some features may not work"@,
        VersionMismatchSeverity::Major => "Error: Major version mismatch - client "@ + client
            + " vs server "@ + server + " - incompatible versions"@,
    }
}

/// Formats the message that describes a comparison.
pub fn format_version_message(client_version: &str, server_version: &str, severity: VersionMismatchSeverity) -> (r: String)
    ensures
        r@ == spec_version_message(client_version@, server_version@, severity),
{
    let mut s = String::new();
    match severity {
        VersionMismatchSeverity::NoMismatch => {
            append_str(&mut s, "Version ");
            append_str(&mut s, client_version);
            append_str(&mut s, " matches server");
        },
        VersionMismatchSeverity::Patch => {
            append_str(&mut s, "Version mismatch: client ");
            append_str(&mut s, client_version);
            append_str(&mut s, " vs server ");
            append_str(&mut s, server_version);
            append_str(&mut s, " (patch difference)");
        },
        VersionMismatchSeverity::Minor => {
            append_str(&mut s, "Warning: Client version ");
            append_str(&mut s, client_version);
            append_str(&mut s, " is newer than server ");
            append_str(&mut s, server_version);
            append_str(&mut s, " - some features may not work");
        },
        VersionMismatchSeverity::Major => {
            append_str(&mut s, "Error: Major version mismatch - client ");
            append_str(&mut s, client_version);
            append_str(&mut s, " vs server ");
            append_str(&mut s, server_version);
            append_str(&mut s, " - incompatible versions");
        },
    }
    s
}

/// The outcome of comparing this client with a server.
#[derive(Debug, Clone)]
pub struct VersionCheckResult {
    /// The client version.
    pub client_version: String,
    /// The server version, when the server answered.
    pub server_version: Option<String>,
    /// How far the versions are apart.
    pub severity: VersionMismatchSeverity,
    /// A sentence describing the outcome.
    pub message: String,
}

impl VersionCheckResult {
    /// The outcome when the server could not be asked.
    pub fn server_unreachable() -> (r: Self)
        ensures
            r.client_version@ == CLIENT_VERSION@,
            r.server_version is None,
            r.severity == VersionMismatchSeverity::NoMismatch,
            r.message@ == "Could not check server version"@,
    {
        let mut client_version = String::new();
        append_str(&mut client_version, CLIENT_VERSION);
        let mut message = String::new();
        append_str(&mut message, "Could not check server version");
        VersionCheckResult {
            client_version,
            server_version: None,
            severity: VersionMismatchSeverity::NoMismatch,
            message,
        }
    }

    /// The outcome of comparing two versions.
    pub fn new(client_version: &str, server_version: &str) -> (r: Self)
        ensures
            r.client_version@ == client_version@,
            r.server_version matches Some(v) && v@ == server_version@,
            r.severity == spec_compare_versions(client_version@, server_version@),
            r.message@ == spec_version_message(client_version@, server_version@, r.severity),
    {
        let severity = compare_versions(client_version, server_version);
        let message = format_version_message(client_version, server_version, severity);
        let mut c = String::new();
        append_str(&mut c, client_version);
        let mut sv = String::new();
        append_str(&mut sv, server_version);
        VersionCheckResult { client_version: c, server_version: Some(sv), severity, message }
    }
}

/// The body of the server's answer to a version request, as far as the
/// version can be read from it.
pub enum VersionReply {
    /// A bare string.
    Text(String),
    /// An object: each member's name, with its value where that value is a
    /// string (`None` where it is not).
    Object(Vec<(String, Option<String>)>),
    /// Any other value.
    Other,
}

/// The string value of the first member called `name`, if it is a string.
pub open spec fn member_text(members: Seq<(String, Option<String>)>, name: Seq<char>) -> Option<Seq<char>>
    decreases members.len(),
{
    if members.len() == 0 {
        None
    } else if members[0].0@ == name {
        match members[0].1 {
            Some(v) => Some(v@),
            None => None,
        }
    } else {
        member_text(members.drop_first(), name)
    }
}

/// The version a reply tells: a bare string is the version itself; an
/// object carries it as the string member `version`; a request that failed
/// (`None`) or any other reply tells none.
pub open spec fn reply_version(reply: Option<VersionReply>) -> Option<Seq<char>> {
    match reply {
        Some(VersionReply::Text(t)) => Some(t@),
        Some(VersionReply::Object(members)) => member_text(members@, "version"@),
        _ => None,
    }
}

fn member_named(members: &Vec<(String, Option<String>)>, name: &str) -> (r: Option<String>)
    ensures
        match r {
            Some(v) => member_text(members@, name@) == Some(v@),
            None => member_text(members@, name@) is None,
        },
{
    let mut i: usize = 0;
    assert(members@.subrange(0, members@.len() as int) =~= members@);
    while i < members.len()
        invariant
            i <= members@.len(),
            member_text(members@, name@) == member_text(members@.subrange(i as int, members@.len() as int), name@),
        decreases members@.len() - i,
    {
        let ghost rest = members@.subrange(i as int, members@.len() as int);
        let (k, v) = &members[i];
        let kc = chars_of(k.as_str());
        if chars_eq_str(kc.as_slice(), name) {
            assert(rest[0] == members@[i as int]);
            return match v {
                Some(t) => Some(string_from(t.as_str())),
                None => None,
            };
        }
        assert(rest.drop_first() =~= members@.subrange(i + 1, members@.len() as int));
        i = i + 1;
    }
    None
}

/// The version the server reported, read from its reply to a version
/// request (`None` when the request failed).
pub fn get_server_version(reply: Option<VersionReply>) -> (r: Option<String>)
    ensures
        match r {
            Some(v) => reply_version(reply) == Some(v@),
            None => reply_version(reply) is None,
        },
{
    match reply {
        Some(VersionReply::Text(t)) => Some(t),
        Some(VersionReply::Object(members)) => member_named(&members, "version"),
        _ => None,
    }
}

/// The outcome of a version check, given the version the server reported
/// (`None` when it could not be reached).
pub fn check_version(server_version: Option<&str>) -> (r: VersionCheckResult)
    ensures
        match server_version {
            Some(v) => {
                &&& r.client_version@ == CLIENT_VERSION@
                &&& r.server_version matches Some(sv) && sv@ == v@
                &&& r.severity == spec_compare_versions(CLIENT_VERSION@, v@)
                &&& r.message@ == spec_version_message(CLIENT_VERSION@, v@, r.severity)
            },
            None => r.client_version@ == CLIENT_VERSION@ && r.server_version is None && r.severity
                == VersionMismatchSeverity::NoMismatch && r.message@ == "Could not check server version"@,
        },
{
    match server_version {
        Some(v) => VersionCheckResult::new(CLIENT_VERSION, v),
        None => VersionCheckResult::server_unreachable(),
    }
}

/// A version compared with itself never mismatches.
pub proof fn lemma_same_version_matches(v: Seq<char>)
    ensures
        spec_compare_versions(v, v) == VersionMismatchSeverity::NoMismatch,
{
}

/// A major mismatch is symmetric: swapping client and server keeps it.
pub proof fn lemma_major_mismatch_symmetric(a: Seq<char>, b: Seq<char>)
    ensures
        (spec_compare_versions(a, b) == VersionMismatchSeverity::Major) == (spec_compare_versions(b, a)
            == VersionMismatchSeverity::Major),
{
}

/// When the client's minor version is ahead of the server's, the reverse
/// comparison (a server ahead of its client) is only a patch-level concern.
pub proof fn lemma_newer_server_is_patch_level(a: Seq<char>, b: Seq<char>)
    requires
        spec_compare_versions(a, b) == VersionMismatchSeverity::Minor,
    ensures
        spec_compare_versions(b, a) == VersionMismatchSeverity::Patch,
{
}

/// A check passes unless the major versions differ.
pub fn check_passes(result: &VersionCheckResult) -> (b: bool)
    ensures
        b == (result.severity != VersionMismatchSeverity::Major),
{
    !result.severity.is_blocking()
}

} // verus!
