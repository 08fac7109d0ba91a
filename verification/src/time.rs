//! Instants and durations, both counted in milliseconds.

use vstd::prelude::*;

verus! {

/// A span of time in milliseconds.
#[derive(Clone, Copy, Debug, PartialEq, Eq, Structural)]
pub struct TimeDiff(pub u64);

/// An instant: milliseconds since the epoch.
#[derive(Clone, Copy, Debug, PartialEq, Eq, Structural)]
pub struct Timestamp(pub u64);

/// The sum of two 64-bit quantities, held at the largest representable value.
pub open spec fn saturating_sum(a: u64, b: u64) -> u64 {
    if a + b > u64::MAX {
        u64::MAX
    } else {
        (a + b) as u64
    }
}

impl TimeDiff {
    pub fn from_millis(millis: u64) -> (r: Self)
        ensures
            r == TimeDiff(millis),
    {
        TimeDiff(millis)
    }

    pub fn millis(&self) -> (r: u64)
        ensures
            r == self.0,
    {
        self.0
    }
}

impl Timestamp {
    /// The instant zero.
    pub fn zero() -> (r: Self)
        ensures
            r == Timestamp(0),
    {
        Timestamp(0)
    }

    pub fn from_millis(millis: u64) -> (r: Self)
        ensures
            r == Timestamp(millis),
    {
        Timestamp(millis)
    }

    pub fn millis(&self) -> (r: u64)
        ensures
            r == self.0,
    {
        self.0
    }

    /// This instant moved forward by `diff`, held at the last representable instant.
    pub open spec fn plus(self, diff: TimeDiff) -> Timestamp {
        Timestamp(saturating_sum(self.0, diff.0))
    }

    /// The later of two instants.
    pub open spec fn latest(self, other: Timestamp) -> Timestamp {
        if self.0 >= other.0 {
            self
        } else {
            other
        }
    }

    /// Moves the instant forward by `diff`; the result never wraps around.
    pub fn saturating_add(self, diff: TimeDiff) -> (r: Timestamp)
        ensures
            r == self.plus(diff),
    {
        if self.0 > u64::MAX - diff.0 {
            Timestamp(u64::MAX)
        } else {
            Timestamp(self.0 + diff.0)
        }
    }

    /// Returns the later of two instants.
    pub fn max(self, other: Timestamp) -> (r: Timestamp)
        ensures
            r == self.latest(other),
    {
        if self.0 >= other.0 {
            self
        } else {
            other
        }
    }
}

} // verus!
