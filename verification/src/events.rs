//! The decisions of event monitoring: when a monitoring session is over, and
//! which streamed events it shows.

use vstd::prelude::*;
use crate::chars::{contains, contains_seq};
use crate::text::chars_of;

verus! {

/// Monitoring for `duration_minutes` (forever where none is given) is over
/// once `elapsed_secs` reach the duration in seconds. The duration in seconds
/// is compared as an unsigned number, so a negative duration never ends.
pub open spec fn monitoring_over(duration_minutes: Option<i64>, elapsed_secs: u64) -> bool {
    match duration_minutes {
        Some(d) => elapsed_secs >= ((d * 60) as u64),
        None => false,
    }
}

/// Whether a monitoring session that was given `duration_minutes` is over
/// after `elapsed_secs` seconds.
pub fn monitor_expired(duration_minutes: Option<i64>, elapsed_secs: u64) -> (b: bool)
    requires
        duration_minutes matches Some(d) ==> i64::MIN <= d * 60 <= i64::MAX,
    ensures
        b == monitoring_over(duration_minutes, elapsed_secs),
{
    match duration_minutes {
        Some(d) => {
            let max_seconds: i64 = d * 60;
            elapsed_secs >= max_seconds as u64
        },
        None => false,
    }
}

/// Whether a streamed event of type `event_type` is shown: always where no
/// category is given, else where the type contains the category.
pub fn event_selected(category: Option<&str>, event_type: &str) -> (b: bool)
    ensures
        b == match category {
            Some(c) => contains_seq(event_type@, c@),
            None => true,
        },
{
    match category {
        Some(c) => {
            let t = chars_of(event_type);
            let p = chars_of(c);
            contains(t.as_slice(), p.as_slice())
        },
        None => true,
    }
}

} // verus!
