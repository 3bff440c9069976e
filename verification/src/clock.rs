//! Clock synchronizer: estimates one-way latency and the offset between the
//! server clock and the local clock from latency probe round trips.

use vstd::prelude::*;

verus! {

/// Largest timestamp, in milliseconds, that the clock accepts.  Wall-clock
/// milliseconds stay far below this for the next hundred thousand years, and
/// the bound keeps every computation on timestamps inside `i64`.
pub const TIME_LIMIT_MS: u64 = 0x0010_0000_0000_0000;

/// Estimated one-way latency and estimated (server time - local time) offset.
/// A later probe always overwrites the previous estimate; there is no
/// smoothing.
pub struct ServerClock {
    pub latency: i64,
    pub delta_time: i64,
}

impl ServerClock {
    /// Spec view of the latency estimate.
    pub open spec fn latency(&self) -> int {
        self.latency as int
    }

    /// Spec view of the (server time - local time) estimate.
    pub open spec fn delta_time(&self) -> int {
        self.delta_time as int
    }

    /// Both estimates stay small enough that their sum fits in `i64`.
    pub open spec fn wf(&self) -> bool {
        0 <= self.latency <= TIME_LIMIT_MS
        && -(TIME_LIMIT_MS as int) <= self.delta_time <= TIME_LIMIT_MS
    }

    pub fn new() -> (r: Self)
        ensures
            r.wf(),
            r.latency() == 0,
            r.delta_time() == 0,
    {
        Self { latency: 0, delta_time: 0 }
    }

    /// Record one probe round trip: the probe left at local time `then`, the
    /// server reported its own clock as `server_timestamp` when it handled the
    /// probe, and the reply arrived at local time `now`.  Latency becomes half
    /// the round trip and the offset becomes the raw difference of the two
    /// clocks at arrival.
    pub fn update(&mut self, then: u64, server_timestamp: u64, now: u64)
        requires
            then <= now <= TIME_LIMIT_MS,
            server_timestamp <= TIME_LIMIT_MS,
        ensures
            final(self).wf(),
            final(self).latency() == (now - then) / 2,
            final(self).delta_time() == server_timestamp - now,
    {
        self.delta_time = server_timestamp as i64 - now as i64;
        self.latency = ((now - then) / 2) as i64;
    }

    /// The shift that turns a server-relative countdown into local time:
    /// latency plus clock offset.
    pub fn compensation(&self) -> (r: i64)
        requires
            self.wf(),
        ensures
            r == self.latency() + self.delta_time(),
    {
        self.latency + self.delta_time
    }
}

} // verus!
