//! The fuel-metered executor: the budget and cooperative-yield policy
//! for one module instantiation.
//!
//! Guest execution consumes fuel, a wall-clock-independent unit of
//! computation. When the counter runs dry mid-call the execution is
//! suspended, not terminated: control returns to the host scheduler,
//! the meter refills to the yield interval, and the call resumes. Only
//! the burst between two yields is bounded; the total across one
//! invocation is not.

use vstd::prelude::*;

verus! {

/// The fuel granted to a fresh execution context before any guest code
/// runs. A failure to grant it is fatal and aborts the run.
pub const INITIAL_FUEL: u64 = 10000;

/// How much fuel may be consumed between two forced yields.
pub const YIELD_INTERVAL: u64 = 10000;

/// How many times the meter may refill across one invocation: in
/// effect, without bound.
pub const FUEL_INJECTION_COUNT: u64 = u64::MAX;

/// Whether one burst of guest work ran to its end or was suspended at
/// a fuel-exhaustion checkpoint.
#[derive(Clone, Copy, Debug, PartialEq, Eq, Structural)]
pub enum BurstOutcome {
    Completed,
    Suspended,
}

/// The meter owned by one execution context: the remaining fuel, the
/// refill interval, and how often the context has yielded so far.
pub struct FuelMeter {
    /// Fuel not yet consumed; never observed below zero.
    pub remaining: u64,
    /// The refill granted at each forced yield.
    pub interval: u64,
    /// Forced yields taken so far.
    pub yields: u64,
}

impl FuelMeter {
    /// A fresh meter holding the initial grant.
    pub fn new(initial: u64, interval: u64) -> (m: FuelMeter)
        ensures
            m.remaining == initial,
            m.interval == interval,
            m.yields == 0,
    {
        FuelMeter { remaining: initial, interval, yields: 0 }
    }

    /// Meters one demand for `work` units. A demand within the
    /// remaining fuel completes and pays for itself; a larger demand
    /// consumes all remaining fuel, suspends at the checkpoint, and the
    /// meter refills to the interval. Guest code never adds fuel.
    pub fn consume(&mut self, work: u64) -> (o: BurstOutcome)
        requires
            old(self).yields < u64::MAX,
        ensures
            final(self).interval == old(self).interval,
            match o {
                BurstOutcome::Completed => {
                    &&& work <= old(self).remaining
                    &&& final(self).remaining == old(self).remaining - work
                    &&& final(self).yields == old(self).yields
                },
                BurstOutcome::Suspended => {
                    &&& work > old(self).remaining
                    &&& final(self).remaining == old(self).interval
                    &&& final(self).yields == old(self).yields + 1
                },
            },
    {
        if work <= self.remaining {
            self.remaining = self.remaining - work;
            BurstOutcome::Completed
        } else {
            self.remaining = self.interval;
            self.yields = self.yields + 1;
            BurstOutcome::Suspended
        }
    }

    /// Drives a call that needs `total` units of guest work to its end,
    /// yielding and refilling as often as the meter demands. Returns
    /// the number of forced yields. The accounting is exact: what was
    /// granted equals what the call consumed plus what is left, so the
    /// effective total budget across one invocation is unbounded while
    /// each burst stays within one grant.
    pub fn drive(&mut self, total: u64) -> (yields: u64)
        requires
            old(self).interval >= 1,
            old(self).yields == 0,
            total < u64::MAX,
        ensures
            final(self).interval == old(self).interval,
            yields == final(self).yields,
            old(self).remaining + yields * old(self).interval == total + final(self).remaining,
            total <= old(self).remaining ==> yields == 0,
    {
        let ghost start = *old(self);
        let mut left = total;
        while left > 0
            invariant
                self.interval == start.interval >= 1,
                left <= total < u64::MAX,
                self.yields <= 1 + (total - left),
                start.remaining + self.yields * start.interval == (total - left)
                    + self.remaining,
                left > 0 && self.yields >= 1 ==> self.remaining >= 1,
                start.remaining >= total ==> self.yields == 0 && (left == 0 || (left == total
                    && self.remaining == start.remaining)),
            decreases left, (if self.remaining == 0 { 1int } else { 0int }),
        {
            let avail = self.remaining;
            let ghost before = *self;
            let burst = self.consume(left);
            match burst {
                BurstOutcome::Completed => {
                    proof {
                        assert(self.yields * start.interval == before.yields * start.interval);
                    }
                    left = 0;
                },
                BurstOutcome::Suspended => {
                    proof {
                        assert(self.yields == before.yields + 1);
                        assert(self.yields * start.interval == before.yields * start.interval
                            + start.interval) by (nonlinear_arith)
                            requires self.yields == before.yields + 1;
                    }
                    left = left - avail;
                },
            }
        }
        self.yields
    }
}

} // verus!
