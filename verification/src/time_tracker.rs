//! Wall time of work that several workers share: the time during which at
//! least one of them is at work counts once, however many are.
//!
//! The tracker is told the time; it reads no clock. Workers on several
//! threads share it behind a lock and hand it the readings of one clock.

use vstd::prelude::*;

verus! {

/// Keeps the time during which at least one worker was at work.
#[derive(Debug)]
pub struct TimeTracker {
    /// Microseconds counted in spans that have ended.
    total: u64,
    /// The reading at which the current span began.
    started: u64,
    /// How many workers are at work.
    active: u64,
}

impl TimeTracker {
    /// Microseconds counted so far, in spans that have ended.
    pub closed spec fn counted(&self) -> u64 {
        self.total
    }

    /// How many workers are at work.
    pub closed spec fn at_work(&self) -> u64 {
        self.active
    }

    /// The reading at which the current span began; it says something only
    /// while a worker is at work.
    pub closed spec fn span_start(&self) -> u64 {
        self.started
    }

    pub fn new() -> (r: TimeTracker)
        ensures
            r.counted() == 0,
            r.at_work() == 0,
    {
        TimeTracker { total: 0, started: 0, active: 0 }
    }

    /// A worker starts at the reading `now`. Where it is the only one at
    /// work, a span begins.
    pub fn begin(&mut self, now: u64)
        requires
            old(self).at_work() < u64::MAX,
        ensures
            final(self).at_work() == old(self).at_work() + 1,
            final(self).counted() == old(self).counted(),
            final(self).span_start() == if old(self).at_work() == 0 {
                now
            } else {
                old(self).span_start()
            },
    {
        if self.active == 0 {
            self.started = now;
        }
        self.active = self.active + 1;
    }

    /// A worker stops at the reading `now`. Where it was the last one at
    /// work the span ends, and its length is counted; the total wraps round
    /// at the end of its range, and a span that the readings make negative
    /// counts as nothing.
    pub fn end(&mut self, now: u64)
        requires
            old(self).at_work() > 0,
        ensures
            final(self).at_work() == old(self).at_work() - 1,
            final(self).span_start() == old(self).span_start(),
            final(self).counted() == if old(self).at_work() == 1 {
                old(self).counted().wrapping_add(
                    if now >= old(self).span_start() {
                        (now - old(self).span_start()) as u64
                    } else {
                        0
                    },
                )
            } else {
                old(self).counted()
            },
    {
        self.active = self.active - 1;
        if self.active == 0 {
            let span = if now >= self.started {
                now - self.started
            } else {
                0
            };
            self.total = self.total.wrapping_add(span);
        }
    }

    /// How many workers are at work.
    pub fn active(&self) -> (r: u64)
        ensures
            r == self.at_work(),
    {
        self.active
    }

    /// Microseconds counted so far.
    pub fn total(&self) -> (r: u64)
        ensures
            r == self.counted(),
    {
        self.total
    }
}

impl Default for TimeTracker {
    fn default() -> (r: Self)
        ensures
            r.counted() == 0,
            r.at_work() == 0,
    {
        TimeTracker::new()
    }
}

} // verus!
