//! Deciding when an API call is worth retrying.

use vstd::prelude::*;
use crate::chars::{contains, contains_seq};
use crate::text::{chars_of, lowercase, to_lowercase};

verus! {

/// Whether an error message tells of a network problem: its lower-case
/// form mentions a connection, a timeout, the network, DNS, resolving or
/// something unreachable.
pub open spec fn network_error(message: Seq<char>) -> bool {
    let l = lowercase(message);
    ||| contains_seq(l, "connection"@)
    ||| contains_seq(l, "timeout"@)
    ||| contains_seq(l, "network"@)
    ||| contains_seq(l, "dns"@)
    ||| contains_seq(l, "resolve"@)
    ||| contains_seq(l, "unreachable"@)
}

fn has(s: &[char], p: &str) -> (b: bool)
    ensures
        b == contains_seq(s@, p@),
{
    let v = chars_of(p);
    contains(s, v.as_slice())
}

/// Whether a failed call's error message tells of a network problem, the
/// kind of failure that waiting for the server may cure; other errors are
/// returned at once.
pub fn is_network_error(message: &str) -> (b: bool)
    ensures
        b == network_error(message@),
{
    let lower = to_lowercase(message);
    let l = chars_of(lower.as_str());
    let s = l.as_slice();
    has(s, "connection") || has(s, "timeout") || has(s, "network") || has(s, "dns") || has(
        s,
        "resolve",
    ) || has(s, "unreachable")
}

/// Whether waiting for the server has gone on long enough: the whole
/// seconds waited reach the allowed minutes.
pub fn retry_timed_out(elapsed_secs: u64, wait_minutes: u64) -> (b: bool)
    requires
        wait_minutes * 60 <= u64::MAX,
    ensures
        b == (elapsed_secs >= wait_minutes * 60),
{
    elapsed_secs >= wait_minutes * 60
}

/// What happened last while calling the server.
pub enum RetryEvent {
    /// The call failed with this error message.
    CallFailed(String),
    /// The server did not answer a ping.
    PingFailed,
    /// The server answered a ping.
    PingAnswered,
}

/// What to do next while calling the server.
#[derive(Debug, Clone, Copy, PartialEq, Eq, Structural)]
pub enum RetryStep {
    /// Return the call's error.
    GiveUp,
    /// Sleep, then ping the server.
    WaitAndPing,
    /// Make the call again and return what it gives.
    CallAgain,
}

/// The step after an event, `elapsed_secs` after the first failure, when
/// waiting for the server may take `wait_minutes`: an error that does not
/// tell of a network problem is returned at once; while waiting, the server
/// is pinged until it answers (then the call is made again) or the wait is
/// over (then the error is returned).
pub open spec fn retry_step_of(event: RetryEvent, elapsed_secs: u64, wait_minutes: u64) -> RetryStep {
    match event {
        RetryEvent::PingAnswered => RetryStep::CallAgain,
        RetryEvent::CallFailed(m) if !network_error(m@) => RetryStep::GiveUp,
        _ => if elapsed_secs >= wait_minutes * 60 {
            RetryStep::GiveUp
        } else {
            RetryStep::WaitAndPing
        },
    }
}

/// Decides the next step of calling the server with retries.
pub fn retry_step(event: &RetryEvent, elapsed_secs: u64, wait_minutes: u64) -> (r: RetryStep)
    requires
        wait_minutes * 60 <= u64::MAX,
    ensures
        r == retry_step_of(*event, elapsed_secs, wait_minutes),
{
    match event {
        RetryEvent::PingAnswered => RetryStep::CallAgain,
        RetryEvent::CallFailed(m) => {
            if !is_network_error(m.as_str()) {
                RetryStep::GiveUp
            } else if retry_timed_out(elapsed_secs, wait_minutes) {
                RetryStep::GiveUp
            } else {
                RetryStep::WaitAndPing
            }
        },
        RetryEvent::PingFailed => {
            if retry_timed_out(elapsed_secs, wait_minutes) {
                RetryStep::GiveUp
            } else {
                RetryStep::WaitAndPing
            }
        },
    }
}

} // verus!
