use vstd::prelude::*;

verus! {

/// The smallest interval recorded before any has been seen: 10000 s.
pub const MIN_INTERVAL_START_US: u64 = 10_000_000_000;

/// Statistics of the intervals between successive events, in microseconds.
pub struct IntervalMeasure {
    prev_time: Option<u64>,
    min_interval: u64,
    max_interval: u64,
    avg: AvgIntervalCalc,
}

/// A running mean over every interval added.
pub struct AvgIntervalCalc {
    acc: u128,
    qty: u64,
}

impl AvgIntervalCalc {
    /// Sum of the intervals added.
    pub closed spec fn total(&self) -> int {
        self.acc as int
    }

    /// How many intervals were added.
    pub closed spec fn count(&self) -> nat {
        self.qty as nat
    }

    pub closed spec fn wf(&self) -> bool {
        self.acc <= self.qty * (u64::MAX as int)
    }

    pub fn new() -> (r: Self)
        ensures
            r.wf(),
            r.total() == 0,
            r.count() == 0,
    {
        AvgIntervalCalc { acc: 0, qty: 0 }
    }

    /// Adds one interval; once the count is at its largest value, further
    /// intervals are not counted.
    pub fn add(&mut self, interval: u64)
        requires
            old(self).wf(),
        ensures
            final(self).wf(),
            old(self).count() < u64::MAX ==> {
                &&& final(self).total() == old(self).total() + interval
                &&& final(self).count() == old(self).count() + 1
            },
            old(self).count() == u64::MAX ==> *final(self) == *old(self),
    {
        if self.qty < u64::MAX {
            proof {
                let q = self.qty as int;
                assert((q + 1) * (u64::MAX as int) < u128::MAX) by (nonlinear_arith)
                    requires
                        0 <= q < 0xffff_ffff_ffff_ffff,
                ;
                assert((q + 1) * (u64::MAX as int) == q * (u64::MAX as int) + u64::MAX) by (nonlinear_arith);
            }
            self.acc = self.acc + interval as u128;
            self.qty = self.qty + 1;
        }
    }

    /// The mean interval, rounded down; zero before any was added.
    pub fn get_avg(&self) -> (r: u64)
        requires
            self.wf(),
        ensures
            r == if self.count() > 0 {
                self.total() / (self.count() as int)
            } else {
                0
            },
    {
        if self.qty > 0 {
            proof {
                let s = self.acc as int;
                let m = self.qty as int;
                assert(s / m <= u64::MAX) by (nonlinear_arith)
                    requires
                        0 <= s <= m * (u64::MAX as int),
                        m > 0,
                ;
            }
            (self.acc / self.qty as u128) as u64
        } else {
            0
        }
    }
}

impl IntervalMeasure {
    /// When the last event happened.
    pub closed spec fn prev_time(&self) -> Option<u64> {
        self.prev_time
    }

    pub closed spec fn min_interval(&self) -> u64 {
        self.min_interval
    }

    pub closed spec fn max_interval(&self) -> u64 {
        self.max_interval
    }

    pub closed spec fn intervals(&self) -> AvgIntervalCalc {
        self.avg
    }

    pub closed spec fn wf(&self) -> bool {
        self.avg.wf()
    }

    pub fn new() -> (r: Self)
        ensures
            r.wf(),
            r.prev_time() is None,
            r.min_interval() == MIN_INTERVAL_START_US,
            r.max_interval() == 0,
            r.intervals().count() == 0,
            r.intervals().total() == 0,
    {
        IntervalMeasure {
            prev_time: None,
            min_interval: MIN_INTERVAL_START_US,
            max_interval: 0,
            avg: AvgIntervalCalc::new(),
        }
    }

    /// Records an event at `now`. The interval since the previous event (zero
    /// if the clock went back) updates the minimum, the maximum and the mean;
    /// returns true when it changed the minimum or the maximum.
    pub fn new_event(&mut self, now: u64) -> (r: bool)
        requires
            old(self).wf(),
        ensures
            final(self).wf(),
            final(self).prev_time() == Some(now),
            old(self).prev_time() is None ==> {
                &&& !r
                &&& final(self).min_interval() == old(self).min_interval()
                &&& final(self).max_interval() == old(self).max_interval()
                &&& final(self).intervals() == old(self).intervals()
            },
            old(self).prev_time() matches Some(prev) ==> {
                let d = if now >= prev {
                    (now - prev) as u64
                } else {
                    0u64
                };
                &&& final(self).min_interval() == if d < old(self).min_interval() {
                    d
                } else {
                    old(self).min_interval()
                }
                &&& final(self).max_interval() == if d > old(self).max_interval() {
                    d
                } else {
                    old(self).max_interval()
                }
                &&& r == (d < old(self).min_interval() || d > old(self).max_interval())
                &&& old(self).intervals().count() < u64::MAX ==> {
                    &&& final(self).intervals().total() == old(self).intervals().total() + d
                    &&& final(self).intervals().count() == old(self).intervals().count() + 1
                }
            },
    {
        let mut is_changed = false;
        match self.prev_time {
            Some(prev_time) => {
                let duration = now.saturating_sub(prev_time);
                if duration < self.min_interval {
                    self.min_interval = duration;
                    is_changed = true;
                }
                if duration > self.max_interval {
                    self.max_interval = duration;
                    is_changed = true;
                }
                self.avg.add(duration);
            },
            None => {},
        }
        self.prev_time = Some(now);
        is_changed
    }

    /// The mean interval between events, rounded down; zero before two events.
    pub fn get_avg_interval(&self) -> (r: u64)
        requires
            self.wf(),
        ensures
            r == if self.intervals().count() > 0 {
                self.intervals().total() / (self.intervals().count() as int)
            } else {
                0
            },
    {
        self.avg.get_avg()
    }

    pub fn get_min_interval(&self) -> (r: u64)
        ensures
            r == self.min_interval(),
    {
        self.min_interval
    }

    pub fn get_max_interval(&self) -> (r: u64)
        ensures
            r == self.max_interval(),
    {
        self.max_interval
    }
}

} // verus!
