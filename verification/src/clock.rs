//! The system clock.
use vstd::prelude::*;

verus! {

/// `SystemTime::now`, in whole seconds since the start of 1970; `None` where the clock
/// stands before that. What the clock shows is left open.
#[verifier::external_body]
pub(crate) fn clock_secs() -> (r: Option<i64>) {
    std::time::SystemTime::now()
        .duration_since(std::time::UNIX_EPOCH)
        .ok()
        .and_then(|d| i64::try_from(d.as_secs()).ok())
}

/// The second at which something is judged, by what the clock shows. Where it cannot be read,
/// that is the last one of all, so that whatever has a limit is past it.
pub open spec fn judged_at(clock: Option<i64>) -> int {
    match clock {
        Some(s) => s as int,
        None => i64::MAX as int,
    }
}

/// The second at which something is judged, by what the clock shows.
pub fn judging_second(clock: Option<i64>) -> (r: i64)
    ensures
        r == judged_at(clock),
{
    match clock {
        Some(s) => s,
        None => i64::MAX,
    }
}

/// The second that is written on something that is made, by what the clock shows. Where it
/// cannot be read, that is the start of 1970, so that what is made is past its limit.
pub fn making_second(clock: Option<i64>) -> (r: i64)
    ensures
        r == match clock {
            Some(s) => s,
            None => 0,
        },
{
    match clock {
        Some(s) => s,
        None => 0,
    }
}

/// The second that is written on something that is made now.
pub(crate) fn now_secs() -> (r: i64) {
    making_second(clock_secs())
}

} // verus!
