use vstd::prelude::*;

verus! {

/// Calls `rand::random_range(low..=high)`: a number drawn uniformly from the
/// inclusive range. The draw is random; what holds of every outcome is that
/// it lies in the range. The crate panics on an empty range, which `low <= high`
/// rules out.
#[verifier::external_body]
pub(crate) fn random_in_inclusive_range(low: u64, high: u64) -> (r: u64)
    requires
        low <= high,
    ensures
        low <= r <= high,
{
    rand::random_range(low..=high)
}

/// A range of durations, in milliseconds, from which timeouts are drawn.
#[derive(Debug, Clone, Copy, PartialEq, Eq, Structural)]
pub struct TimeoutRange {
    min: u64,
    max: u64,
}

impl TimeoutRange {
    pub closed spec fn min_spec(&self) -> u64 {
        self.min
    }

    pub closed spec fn max_spec(&self) -> u64 {
        self.max
    }

    /// The range from `min` to `max` milliseconds, both included.
    pub fn new(min: u64, max: u64) -> (r: Self)
        ensures
            r.min_spec() == min,
            r.max_spec() == max,
    {
        Self { min, max }
    }

    /// A duration, in milliseconds, drawn at random from the range.
    pub fn random(&self) -> (ms: u64)
        requires
            self.min_spec() <= self.max_spec(),
        ensures
            self.min_spec() <= ms <= self.max_spec(),
    {
        random_in_inclusive_range(self.min, self.max)
    }
}

} // verus!
