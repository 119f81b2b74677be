//! The handle a caller keeps between starting and finishing a timed job: the
//! job's name and the instant (nanoseconds) at which it began.

use vstd::prelude::*;

use crate::clock::now_nanos;
use crate::stats::sat_sub;

verus! {

/// A running timer: the job's name and its start instant in nanoseconds.
#[derive(Clone)]
pub struct TimerInfo {
    pub msg: String,
    pub time: u64,
}

impl TimerInfo {
    /// A handle for job `msg` that began when the clock read `now`.
    pub fn new(msg: String, now: u64) -> (t: TimerInfo)
        ensures
            t.msg@ == msg@,
            t.time == now,
    {
        TimerInfo { msg, time: now }
    }

    /// A handle for job `msg` started at the current clock reading.
    pub fn start(msg: String) -> (t: TimerInfo)
        ensures
            t.msg@ == msg@,
    {
        TimerInfo { msg, time: now_nanos() }
    }

    /// Nanoseconds from the handle's start to `now`; zero if the clock ran
    /// backwards in between.
    pub fn elapsed_at(&self, now: u64) -> (d: u64)
        ensures
            d == sat_sub(now, self.time),
    {
        if now >= self.time {
            now - self.time
        } else {
            0
        }
    }

    /// Nanoseconds from the handle's start to the current clock reading;
    /// zero if the clock ran backwards in between.
    pub fn elapsed(&self) -> (d: u64)
        ensures
            (exists|t: u64| d == sat_sub(t, self.time)),
    {
        let now = now_nanos();
        let d = self.elapsed_at(now);
        proof {
            assert(d == sat_sub(now, self.time));
        }
        d
    }
}

} // verus!
