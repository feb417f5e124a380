//! The bookkeeping of the timing counter: one record per tag, updated on
//! every traced call.  Reading the clock, locking the tag table and
//! printing a report line are the shell's business; the arithmetic on a
//! record is here, exact.

use vstd::prelude::*;

verus! {

/// The aggregate for one tag.  All times are in nanoseconds.
#[derive(Clone, Copy, Debug, PartialEq, Eq, Structural)]
pub struct Recored {
    pub lasttime: u64,
    pub count: u64,
    pub min: u64,
    pub max: u64,
    pub total: u64,
}

impl Recored {
    /// The record after the first observation of a tag: one call, costing
    /// `cost`, observed at `now`.
    pub fn new(now: u64, cost: u64) -> (r: Recored)
        ensures
            r == (Recored { lasttime: now, count: 1, min: cost, max: cost, total: cost }),
    {
        Recored { lasttime: now, count: 1, min: cost, max: cost, total: cost }
    }

    /// Folds one more observation into the record: a new maximum
    /// displaces the maximum, otherwise a new minimum displaces the
    /// minimum, and count and total always grow.
    pub fn observe(&mut self, cost: u64)
        requires
            old(self).count < u64::MAX,
            old(self).total + cost <= u64::MAX,
        ensures
            *final(self) == (Recored {
                lasttime: old(self).lasttime,
                count: (old(self).count + 1) as u64,
                min: if cost > old(self).max {
                    old(self).min
                } else if cost < old(self).min {
                    cost
                } else {
                    old(self).min
                },
                max: if cost > old(self).max {
                    cost
                } else {
                    old(self).max
                },
                total: (old(self).total + cost) as u64,
            }),
    {
        if cost > self.max {
            self.max = cost;
        } else if cost < self.min {
            self.min = cost;
        }
        self.count = self.count + 1;
        self.total = self.total + cost;
    }
}

/// Whether a record observed at `lasttime` is still within its reporting
/// interval at `now`: the decision of whether to fold the observation in
/// or to report and start afresh.
pub fn within_interval(lasttime: u64, interval: u64, now: u64) -> (r: bool)
    ensures
        r == (now < lasttime + interval),
{
    match lasttime.checked_add(interval) {
        Some(deadline) => now < deadline,
        None => true,
    }
}

} // verus!
