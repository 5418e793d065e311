//! Windowed counters for global handshake throughput and per-address
//! throughput.

use vstd::prelude::*;
use crate::ip_history::{IpHistory, IpRecord, recorded, stamps_of, sessions_of, recent_stamps};

verus! {

/// The global counter after one more attempt at `now`: it restarts from zero
/// when `now` lies in another window than the one counted so far, and
/// saturates at the largest `u64`.
pub open spec fn next_count(window_id: u64, count: u64, interval: u64, now: u64) -> u64
    recommends
        interval > 0,
{
    let base = if now / interval == window_id { count } else { 0 };
    if base < u64::MAX { (base + 1) as u64 } else { base }
}

/// Counters of attempts, globally and per source address.
pub struct RateLimiter {
    window_id: u64,
    count: u64,
    limit: u64,
    interval: u64,
    max_per_ip: usize,
    max_sessions_per_ip: usize,
    history: IpHistory,
}

impl RateLimiter {
    /// Index of the window whose attempts `count` holds.
    pub closed spec fn window_id(&self) -> u64 {
        self.window_id
    }

    /// Attempts counted in the current window.
    pub closed spec fn count(&self) -> u64 {
        self.count
    }

    /// Attempts admitted per window.
    pub closed spec fn limit(&self) -> u64 {
        self.limit
    }

    /// Length of a global window.
    pub closed spec fn interval(&self) -> u64 {
        self.interval
    }

    /// Attempts admitted per address within the history's window.
    pub closed spec fn max_per_ip(&self) -> nat {
        self.max_per_ip as nat
    }

    /// Live sessions allowed per address.
    pub closed spec fn max_sessions_per_ip(&self) -> nat {
        self.max_sessions_per_ip as nat
    }

    /// The per-address history.
    pub closed spec fn history(&self) -> IpHistory {
        self.history
    }

    pub closed spec fn wf(&self) -> bool {
        &&& self.interval > 0
        &&& self.history.wf()
    }

    /// A limiter with empty counters.
    pub fn new(
        limit: u64,
        interval: u64,
        max_per_ip: usize,
        max_sessions_per_ip: usize,
        history_capacity: usize,
        ip_window: u64,
    ) -> (r: RateLimiter)
        requires
            interval > 0,
            history_capacity > 0,
        ensures
            r.wf(),
            r.count() == 0,
            r.window_id() == 0,
            r.limit() == limit,
            r.interval() == interval,
            r.max_per_ip() == max_per_ip,
            r.max_sessions_per_ip() == max_sessions_per_ip,
            r.history()@ == Seq::<IpRecord>::empty(),
            r.history().capacity() == history_capacity,
            r.history().window() == ip_window,
    {
        RateLimiter {
            window_id: 0,
            count: 0,
            limit,
            interval,
            max_per_ip,
            max_sessions_per_ip,
            history: IpHistory::new(history_capacity, ip_window),
        }
    }

    /// Counts one attempt at `now` against the global limit and says whether
    /// it is admitted.
    pub fn try_admit_global(&mut self, now: u64) -> (r: bool)
        requires
            old(self).wf(),
        ensures
            final(self).wf(),
            final(self).window_id() == now / old(self).interval(),
            final(self).count() == next_count(
                old(self).window_id(),
                old(self).count(),
                old(self).interval(),
                now,
            ),
            r == (final(self).count() <= old(self).limit()),
            final(self).limit() == old(self).limit(),
            final(self).interval() == old(self).interval(),
            final(self).max_per_ip() == old(self).max_per_ip(),
            final(self).max_sessions_per_ip() == old(self).max_sessions_per_ip(),
            final(self).history() == old(self).history(),
    {
        let w = now / self.interval;
        if w != self.window_id {
            self.window_id = w;
            self.count = 0;
        }
        if self.count < u64::MAX {
            self.count = self.count + 1;
        }
        self.count <= self.limit
    }

    /// Records one attempt of `ip` at `now` and says whether the address is
    /// under its rate limit and its session cap.
    pub fn try_admit_ip(&mut self, ip: u128, now: u64) -> (r: bool)
        requires
            old(self).wf(),
        ensures
            final(self).wf(),
            final(self).history()@ == recorded(
                old(self).history()@,
                old(self).history().capacity(),
                old(self).history().window(),
                ip,
                now,
            ),
            r == (stamps_of(final(self).history()@, ip).len() <= old(self).max_per_ip()
                && sessions_of(final(self).history()@, ip) < old(self).max_sessions_per_ip()),
            final(self).history().capacity() == old(self).history().capacity(),
            final(self).history().window() == old(self).history().window(),
            final(self).window_id() == old(self).window_id(),
            final(self).count() == old(self).count(),
            final(self).limit() == old(self).limit(),
            final(self).interval() == old(self).interval(),
            final(self).max_per_ip() == old(self).max_per_ip(),
            final(self).max_sessions_per_ip() == old(self).max_sessions_per_ip(),
    {
        let n = self.history.record(ip, now);
        let s = self.history.session_count(ip);
        n <= self.max_per_ip && s < self.max_sessions_per_ip
    }

    /// Counts a newly established session of `ip`.
    pub fn session_opened(&mut self, ip: u128)
        requires
            old(self).wf(),
        ensures
            final(self).wf(),
            final(self).history()@ == crate::ip_history::opened(
                old(self).history()@,
                old(self).history().capacity(),
                ip,
            ),
            final(self).history().capacity() == old(self).history().capacity(),
            final(self).history().window() == old(self).history().window(),
            final(self).window_id() == old(self).window_id(),
            final(self).count() == old(self).count(),
            final(self).limit() == old(self).limit(),
            final(self).interval() == old(self).interval(),
            final(self).max_per_ip() == old(self).max_per_ip(),
            final(self).max_sessions_per_ip() == old(self).max_sessions_per_ip(),
    {
        self.history.session_opened(ip);
    }

    /// Counts the end of a session of `ip`.
    pub fn session_closed(&mut self, ip: u128)
        requires
            old(self).wf(),
        ensures
            final(self).wf(),
            final(self).history()@ == crate::ip_history::closed(old(self).history()@, ip),
            final(self).history().capacity() == old(self).history().capacity(),
            final(self).history().window() == old(self).history().window(),
            final(self).window_id() == old(self).window_id(),
            final(self).count() == old(self).count(),
            final(self).limit() == old(self).limit(),
            final(self).interval() == old(self).interval(),
            final(self).max_per_ip() == old(self).max_per_ip(),
            final(self).max_sessions_per_ip() == old(self).max_sessions_per_ip(),
    {
        self.history.session_closed(ip);
    }

    /// Live sessions of `ip`.
    pub fn session_count(&self, ip: u128) -> (r: usize)
        requires
            self.wf(),
        ensures
            r as nat == sessions_of(self.history()@, ip),
    {
        self.history.session_count(ip)
    }
}

} // verus!
