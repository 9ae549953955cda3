//! Per-second rates derived from cumulative byte counters.

use vstd::prelude::*;

verus! {

/// Nanoseconds in one second.
pub const NANOS_PER_SEC: u64 = 1_000_000_000;

/// `a - b`, or zero when the counter went backwards (it was reset or wrapped).
pub fn saturating_subtract(a: u64, b: u64) -> (r: u64)
    ensures
        a < b ==> r == 0,
        a >= b ==> r == a - b,
{
    a.saturating_sub(b)
}

/// Time between two readings of a monotonic clock, zero when it did not advance.
pub fn elapsed_nanos(earlier: u64, now: u64) -> (r: u64)
    ensures
        now <= earlier ==> r == 0,
        now > earlier ==> r == now - earlier,
{
    now.saturating_sub(earlier)
}

/// `bytes` transferred over `nanos` nanoseconds (never zero when made by a
/// counter update).
#[derive(Clone, Copy, Debug, PartialEq, Eq, Structural)]
pub struct RateSample {
    pub bytes: u64,
    pub nanos: u64,
}

/// Whole bytes per second of a sample, rounded down.
pub open spec fn bytes_per_second_of(s: RateSample) -> int
    recommends
        s.nanos > 0,
{
    (s.bytes * NANOS_PER_SEC) as int / s.nanos as int
}

impl RateSample {
    /// The rate in whole bytes per second, rounded down; divide by 1024 for KB/s.
    pub fn bytes_per_second(&self) -> (r: u128)
        requires
            self.nanos > 0,
        ensures
            r == bytes_per_second_of(*self),
    {
        let num: u128 = self.bytes as u128 * NANOS_PER_SEC as u128;
        assert(num == self.bytes * NANOS_PER_SEC) by (nonlinear_arith)
            requires
                num == self.bytes as u128 * NANOS_PER_SEC as u128,
                self.bytes <= u64::MAX,
        ;
        num / self.nanos as u128
    }
}

} // verus!
