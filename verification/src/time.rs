//! Points in time, as the contest clock and the caches read them.

use vstd::prelude::*;

verus! {

/// A point in time without a zone: whole seconds since the Unix epoch and the
/// nanoseconds after them. Two values are ordered by the seconds first, then
/// by the nanoseconds.
#[derive(Debug, Clone, Copy, PartialEq, Eq, Structural)]
pub struct Timestamp {
    pub secs: i64,
    pub nanos: u32,
}

/// The number of seconds in a day.
pub const SECS_PER_DAY: i64 = 86400;

/// The number of nanoseconds in a second.
pub const NANOS_PER_SEC: i64 = 1_000_000_000;

impl Timestamp {
    /// `self` lies strictly before `other`.
    pub open spec fn before(self, other: Timestamp) -> bool {
        self.secs < other.secs || (self.secs == other.secs && self.nanos < other.nanos)
    }

    /// The day `self` falls on, counted from the epoch's day; days before it
    /// are negative.
    pub open spec fn day(self) -> int {
        self.secs as int / SECS_PER_DAY as int
    }

    /// The nanoseconds that have passed from `earlier` to `self`; negative
    /// if `self` is the earlier one.
    pub open spec fn nanos_since(self, earlier: Timestamp) -> int {
        (self.secs - earlier.secs) * NANOS_PER_SEC as int + (self.nanos - earlier.nanos)
    }

    pub fn new(secs: i64, nanos: u32) -> (t: Timestamp)
        ensures
            t.secs == secs,
            t.nanos == nanos,
    {
        Timestamp { secs, nanos }
    }

    /// Whether fewer than `secs` seconds have passed from `earlier` to `self`.
    pub fn is_within(&self, earlier: &Timestamp, secs: i64) -> (b: bool)
        ensures
            b == (self.nanos_since(*earlier) < secs * NANOS_PER_SEC as int),
    {
        let whole: i128 = self.secs as i128 - earlier.secs as i128;
        let part: i128 = self.nanos as i128 - earlier.nanos as i128;
        let limit: i128 = secs as i128;
        assert(-0x4000_0000_0000_0000_0000_0000 <= whole * 1_000_000_000
            <= 0x4000_0000_0000_0000_0000_0000) by (nonlinear_arith)
            requires
                -0x1_0000_0000_0000_0000 <= whole <= 0x1_0000_0000_0000_0000,
        ;
        assert(-0x4000_0000_0000_0000_0000_0000 <= limit * 1_000_000_000
            <= 0x4000_0000_0000_0000_0000_0000) by (nonlinear_arith)
            requires
                -0x1_0000_0000_0000_0000 <= limit <= 0x1_0000_0000_0000_0000,
        ;
        whole * 1_000_000_000 + part < limit * 1_000_000_000
    }

    /// Whether `self` lies strictly before `other`.
    pub fn is_before(&self, other: &Timestamp) -> (b: bool)
        ensures
            b == self.before(*other),
    {
        self.secs < other.secs || (self.secs == other.secs && self.nanos < other.nanos)
    }
}

} // verus!
