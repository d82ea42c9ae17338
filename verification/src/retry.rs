//! When to try again: a lost connection, and requests that came too fast.
use vstd::prelude::*;

use crate::errors;
use crate::errors::{is_rate_limited_msg, is_token_invalid_msg};

verus! {

/// The longest wait before the next connection, in seconds.
pub const BACKOFF_CAP: u64 = 30;

/// A connection that lived this many milliseconds was a healthy one.
pub const HEALTHY_CONN_MIN_LIFETIME_MS: u64 = 60000;

/// How a connection came to its end.
#[derive(Debug, Clone, Copy, PartialEq, Eq)]
pub enum SessionEnd {
    /// It was finished in good order.
    Finished,
    /// The other side closed it, after this many milliseconds.
    Closed(u64),
    /// It failed.
    Failed,
    /// Somebody asked for a new one.
    Asked,
}

/// Whether the waits start over after such an end.
pub open spec fn starts_over(end: SessionEnd) -> bool {
    match end {
        SessionEnd::Finished => true,
        SessionEnd::Closed(lived) => lived >= HEALTHY_CONN_MIN_LIFETIME_MS,
        SessionEnd::Failed => false,
        SessionEnd::Asked => true,
    }
}

/// Twice as long, up to the cap.
pub open spec fn doubled(secs: int) -> int {
    if 2 * secs <= BACKOFF_CAP {
        2 * secs
    } else {
        BACKOFF_CAP as int
    }
}

/// The waits between connections.
#[derive(Debug, PartialEq, Eq)]
pub struct Reconnect {
    secs: u64,
}

impl View for Reconnect {
    type V = int;

    /// The next wait, in seconds, where nothing makes the waits start over.
    closed spec fn view(&self) -> int {
        self.secs as int
    }
}

impl Reconnect {
    #[verifier::type_invariant]
    spec fn in_range(self) -> bool {
        1 <= self.secs <= BACKOFF_CAP
    }

    /// The waits at the start.
    pub fn new() -> (r: Reconnect)
        ensures
            r@ == 1,
    {
        Reconnect { secs: 1 }
    }

    /// How many seconds to wait after a connection has come to its end.
    pub fn wait_after(&mut self, end: SessionEnd) -> (r: u64)
        ensures
            r == if starts_over(end) {
                1
            } else {
                old(self)@
            },
            final(self)@ == doubled(r as int),
            1 <= r <= BACKOFF_CAP,
    {
        proof {
            use_type_invariant(&*self);
        }
        let over = match end {
            SessionEnd::Finished => true,
            SessionEnd::Closed(lived) => lived >= HEALTHY_CONN_MIN_LIFETIME_MS,
            SessionEnd::Failed => false,
            SessionEnd::Asked => true,
        };
        let wait: u64 = if over {
            1
        } else {
            self.secs
        };
        let next: u64 = if 2 * wait <= BACKOFF_CAP {
            2 * wait
        } else {
            BACKOFF_CAP
        };
        self.secs = next;
        wait
    }
}

/// The wait after `n` failures in a row behind the first.
pub open spec fn failing_wait(n: nat) -> int
    decreases n,
{
    if n == 0 {
        1
    } else {
        doubled(failing_wait((n - 1) as nat))
    }
}

/// The waits never exceed the cap, never shrink, and from the sixth on stay at the cap.
pub proof fn law_waits_grow_to_the_cap(n: nat)
    ensures
        1 <= failing_wait(n) <= failing_wait(n + 1) <= BACKOFF_CAP,
        n >= 5 ==> failing_wait(n) == BACKOFF_CAP,
    decreases n,
{
    if n > 0 {
        law_waits_grow_to_the_cap((n - 1) as nat);
        if n == 5 {
            reveal_with_fuel(failing_wait, 6);
        }
    }
}

/// The first delay before a request is made again, in milliseconds.
pub const FIRST_RETRY_DELAY_MS: u64 = 500;

/// The last delay before a request is made again, in milliseconds.
pub const LAST_RETRY_DELAY_MS: u64 = 2000;

/// The delays of one request.
#[derive(Debug, PartialEq, Eq)]
pub struct RateRetry {
    delay_ms: u64,
}

impl View for RateRetry {
    type V = int;

    /// The next delay, in milliseconds.
    closed spec fn view(&self) -> int {
        self.delay_ms as int
    }
}

impl RateRetry {
    #[verifier::type_invariant]
    spec fn in_range(self) -> bool {
        self.delay_ms <= 2 * LAST_RETRY_DELAY_MS
    }

    /// The delays of a request that has not been made yet.
    pub fn new() -> (r: RateRetry)
        ensures
            r@ == FIRST_RETRY_DELAY_MS,
    {
        RateRetry { delay_ms: FIRST_RETRY_DELAY_MS }
    }

    /// After how many milliseconds a failed request is made again; `None` where it is not.
    pub fn after(&mut self, error: &str) -> (r: Option<u64>)
        ensures
            r is Some <==> errors::rate_limited(error@) && old(self)@ <= LAST_RETRY_DELAY_MS,
            r matches Some(ms) ==> ms == old(self)@ && final(self)@ == 2 * old(self)@,
            r is None ==> final(self)@ == old(self)@,
    {
        proof {
            use_type_invariant(&*self);
        }
        if is_rate_limited_msg(error) && self.delay_ms <= LAST_RETRY_DELAY_MS {
            let ms: u64 = self.delay_ms;
            self.delay_ms = 2 * ms;
            Some(ms)
        } else {
            None
        }
    }
}

/// The delay before the try that follows `n` others.
pub open spec fn retry_delay(n: nat) -> int
    decreases n,
{
    if n == 0 {
        FIRST_RETRY_DELAY_MS as int
    } else {
        2 * retry_delay((n - 1) as nat)
    }
}

/// Whether a request has already been made with a fresh access token.
#[derive(Debug, PartialEq, Eq)]
pub struct TokenRetry {
    tried: bool,
}

impl View for TokenRetry {
    type V = bool;

    closed spec fn view(&self) -> bool {
        self.tried
    }
}

impl TokenRetry {
    /// A request that has not been made yet.
    pub fn new() -> (r: TokenRetry)
        ensures
            !r@,
    {
        TokenRetry { tried: false }
    }

    /// Whether a failed request is made once more with a fresh access token: where the token
    /// was no longer good, and only once.
    pub fn again(&mut self, error: &str) -> (r: bool)
        ensures
            r == (!old(self)@ && errors::token_invalid(error@)),
            final(self)@ == (old(self)@ || r),
    {
        if !self.tried && is_token_invalid_msg(error) {
            self.tried = true;
            true
        } else {
            false
        }
    }
}

/// A request is made again three times at most.
pub proof fn law_three_retries(n: nat)
    ensures
        retry_delay(n) <= LAST_RETRY_DELAY_MS <==> n < 3,
    decreases n,
{
    reveal_with_fuel(retry_delay, 4);
    if n > 3 {
        law_three_retries((n - 1) as nat);
    }
}

} // verus!
