//! Spans of time, and what the library needs from the standard clock.

use std::time::Instant;
use vstd::prelude::*;

verus! {

/// `std::time::Instant`, a moment of the monotonic clock. Nothing of its
/// inside is known here.
#[verifier::external_type_specification]
#[verifier::external_body]
pub struct ExInstant(Instant);

/// A span of time in whole nanoseconds.
#[derive(Debug, Copy, Clone, PartialEq, Eq, Structural, PartialOrd, Ord, Hash)]
pub struct Span(pub u128);

impl Span {
    /// The whole milliseconds in the span.
    pub open spec fn whole_millis(self) -> nat {
        (self.0 / 1_000_000) as nat
    }

    /// No time at all.
    pub fn zero() -> (r: Span)
        ensures
            r == Span(0),
    {
        Span(0)
    }

    /// The span of that many nanoseconds.
    pub fn from_nanos(nanos: u128) -> (r: Span)
        ensures
            r == Span(nanos),
    {
        Span(nanos)
    }

    /// The span of that many milliseconds.
    pub fn from_millis(millis: u64) -> (r: Span)
        ensures
            r.0 == millis * 1_000_000,
    {
        Span(millis as u128 * 1_000_000)
    }

    /// The span of that many seconds.
    pub fn from_secs(secs: u64) -> (r: Span)
        ensures
            r.0 == secs * 1_000_000_000,
    {
        Span(secs as u128 * 1_000_000_000)
    }

    /// The nanoseconds in the span.
    pub fn as_nanos(self) -> (r: u128)
        ensures
            r == self.0,
    {
        self.0
    }

    /// The whole milliseconds in the span.
    pub fn as_millis(self) -> (r: u128)
        ensures
            r == self.whole_millis(),
    {
        self.0 / 1_000_000
    }
}

/// `Instant::now`: the present moment. Nothing is known of it.
#[verifier::external_body]
pub(crate) fn now() -> Instant {
    Instant::now()
}

/// `Instant::elapsed`: the time that has passed since `start`, in whole
/// nanoseconds. Nothing is known of it.
#[verifier::external_body]
pub(crate) fn elapsed(start: &Instant) -> Span {
    Span(start.elapsed().as_nanos())
}

} // verus!
