//! The time budget of a poll, counted in nanoseconds from when the poll began.
use std::time::Instant;

use vstd::prelude::*;

verus! {

#[verifier::external_type_specification]
#[verifier::external_body]
pub struct ExInstant(Instant);

/// Relies on `Instant::now`: a reading of the monotonic clock.
#[verifier::external_body]
fn now() -> Instant {
    Instant::now()
}

/// Relies on `Instant::elapsed`: the time since `start`, in whole nanoseconds.
#[verifier::external_body]
fn nanos_since(start: &Instant) -> u128 {
    start.elapsed().as_nanos()
}

/// Whether a budget of `timeout` (none: unbounded) is used up after `elapsed`.
pub open spec fn spent(timeout: Option<u128>, elapsed: u128) -> bool {
    match timeout {
        Some(t) => elapsed >= t,
        None => false,
    }
}

/// What is left of a budget of `timeout` (none: unbounded) after `elapsed`.
pub open spec fn left(timeout: Option<u128>, elapsed: u128) -> Option<u128> {
    match timeout {
        Some(t) => Some(
            if elapsed >= t {
                0
            } else {
                (t - elapsed) as u128
            },
        ),
        None => None,
    }
}

/// Whether a budget of `timeout` is used up after `elapsed` nanoseconds.
pub fn spent_after(timeout: Option<u128>, elapsed: u128) -> (r: bool)
    ensures
        r == spent(timeout, elapsed),
{
    match timeout {
        Some(t) => elapsed >= t,
        None => false,
    }
}

/// What is left of a budget of `timeout` after `elapsed` nanoseconds.
pub fn left_after(timeout: Option<u128>, elapsed: u128) -> (r: Option<u128>)
    ensures
        r == left(timeout, elapsed),
{
    match timeout {
        Some(t) => Some(
            if elapsed >= t {
                0
            } else {
                t - elapsed
            },
        ),
        None => None,
    }
}

/// A time budget in nanoseconds (none: wait without bound) and when it started.
#[derive(Debug)]
pub struct PollTimeout {
    timeout: Option<u128>,
    start: Instant,
}

impl PollTimeout {
    /// The budget, in nanoseconds.
    pub closed spec fn budget(&self) -> Option<u128> {
        self.timeout
    }

    /// Starts a budget of `timeout` nanoseconds now.
    pub fn new(timeout: Option<u128>) -> (r: PollTimeout)
        ensures
            r.budget() == timeout,
    {
        PollTimeout { timeout, start: now() }
    }

    /// Whether the budget is used up; an unbounded one never is.
    pub fn elapsed(&self) -> (r: bool)
        ensures
            self.budget() is None ==> !r,
    {
        spent_after(self.timeout, nanos_since(&self.start))
    }

    /// What is left of the budget, in nanoseconds; none for an unbounded one.
    pub fn leftover(&self) -> (r: Option<u128>)
        ensures
            r is Some <==> self.budget() is Some,
            r matches Some(v) ==> v <= self.budget().unwrap(),
    {
        left_after(self.timeout, nanos_since(&self.start))
    }
}

} // verus!
