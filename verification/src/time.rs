//! Spans and readings of a monotonic clock, counted in nanoseconds.

use vstd::prelude::*;

verus! {

/// Nanoseconds in a second.
pub const NANOS_PER_SEC: u128 = 1_000_000_000;

/// The longest span there is: `u64::MAX` seconds and the nanoseconds short of
/// one more.
pub const MAX_NANOS: u128 = 18_446_744_073_709_551_615_999_999_999;

/// A span of time, to the nanosecond.
#[derive(Clone, Copy, Debug, PartialEq, Eq, Structural)]
pub struct Duration {
    nanos: u128,
}

impl View for Duration {
    type V = nat;

    closed spec fn view(&self) -> nat {
        self.nanos as nat
    }
}

impl Duration {
    #[verifier::type_invariant]
    closed spec fn in_range(self) -> bool {
        self.nanos <= MAX_NANOS
    }

    /// Returns the empty span.
    pub fn zero() -> (d: Duration)
        ensures
            d@ == 0,
    {
        Duration { nanos: 0 }
    }

    /// Returns a span of whole seconds.
    pub fn from_secs(secs: u64) -> (d: Duration)
        ensures
            d@ == secs * NANOS_PER_SEC,
    {
        Duration { nanos: secs as u128 * NANOS_PER_SEC }
    }

    /// Returns a span of whole milliseconds.
    pub fn from_millis(millis: u64) -> (d: Duration)
        ensures
            d@ == millis * 1_000_000,
    {
        Duration { nanos: millis as u128 * 1_000_000 }
    }

    /// Returns the whole seconds in the span.
    pub fn as_secs(&self) -> (secs: u64)
        ensures
            secs == self@ / NANOS_PER_SEC as nat,
    {
        proof { use_type_invariant(self); }
        (self.nanos / NANOS_PER_SEC) as u64
    }

    /// Returns a span of `secs` seconds and `nanos` nanoseconds, carrying
    /// whole seconds out of `nanos`.
    pub fn new(secs: u64, nanos: u32) -> (d: Duration)
        requires
            secs * NANOS_PER_SEC + nanos <= MAX_NANOS,
        ensures
            d@ == secs * NANOS_PER_SEC + nanos,
    {
        Duration { nanos: secs as u128 * NANOS_PER_SEC + nanos as u128 }
    }

    /// Returns the nanoseconds left over after the whole seconds.
    pub fn subsec_nanos(&self) -> (nanos: u32)
        ensures
            nanos == self@ % NANOS_PER_SEC as nat,
    {
        (self.nanos % NANOS_PER_SEC) as u32
    }

    /// Returns whether the span is empty.
    pub fn is_zero(&self) -> (b: bool)
        ensures
            b == (self@ == 0),
    {
        self.nanos == 0
    }

    /// Returns the span less `other`, or the empty span if `other` is longer.
    pub fn saturating_sub(self, other: Duration) -> (d: Duration)
        ensures
            d@ == if other@ <= self@ { self@ - other@ } else { 0 },
    {
        if other.nanos <= self.nanos {
            proof { use_type_invariant(self); }
            Duration { nanos: self.nanos - other.nanos }
        } else {
            Duration { nanos: 0 }
        }
    }

    /// Returns the two spans together.
    pub fn plus(self, other: Duration) -> (d: Duration)
        requires
            self@ + other@ <= MAX_NANOS,
        ensures
            d@ == self@ + other@,
    {
        Duration { nanos: self.nanos + other.nanos }
    }

    /// Returns the span less `other`, which is no longer than it.
    pub fn minus(self, other: Duration) -> (d: Duration)
        requires
            other@ <= self@,
        ensures
            d@ == self@ - other@,
    {
        proof { use_type_invariant(self); }
        Duration { nanos: self.nanos - other.nanos }
    }

    /// Returns whether the two spans together are no longer than the longest
    /// span there is.
    pub fn fits_with(self, other: Duration) -> (b: bool)
        ensures
            b == (self@ + other@ <= MAX_NANOS),
    {
        proof {
            use_type_invariant(self);
            use_type_invariant(other);
        }
        other.nanos <= MAX_NANOS - self.nanos
    }
}

/// A reading of a monotonic clock, as the span since an origin the caller
/// chose.
#[derive(Clone, Copy, Debug, PartialEq, Eq, Structural)]
pub struct Instant {
    since_origin: Duration,
}

impl View for Instant {
    type V = nat;

    closed spec fn view(&self) -> nat {
        self.since_origin@
    }
}

impl Instant {
    /// Returns the origin itself.
    pub fn origin() -> (t: Instant)
        ensures
            t@ == 0,
    {
        Instant { since_origin: Duration::zero() }
    }

    /// Returns the reading `span` after this one.
    pub fn after(self, span: Duration) -> (t: Instant)
        requires
            self@ + span@ <= MAX_NANOS,
        ensures
            t@ == self@ + span@,
    {
        Instant { since_origin: self.since_origin.plus(span) }
    }

    /// Returns how long after `earlier` this reading was taken, or the empty
    /// span if it was taken first.
    pub fn saturating_duration_since(self, earlier: Instant) -> (d: Duration)
        ensures
            d@ == if earlier@ <= self@ { self@ - earlier@ } else { 0 },
    {
        self.since_origin.saturating_sub(earlier.since_origin)
    }
}

} // verus!
