//! Classification of each inbound handshake attempt as accepted,
//! challenged with a cookie, or dropped.

use vstd::prelude::*;
use crate::config::Config;
use crate::cookie::{CookieChallenge, CookieKey, token_of};
use crate::ip_history::{recorded, sessions_of, stamps_of};
use crate::rate_limiter::{RateLimiter, next_count};

verus! {

/// What becomes of a handshake attempt.
#[derive(Clone, Copy, PartialEq, Eq, Structural, Debug)]
pub enum Decision {
    /// Hand the attempt to the handshake cryptography.
    Accept,
    /// Answer with this cookie and do not process the attempt.
    Challenge(u64),
    /// Send nothing.
    Drop,
}

/// The decision for an attempt that passed the rate limits, by session-table
/// occupancy: below `low` every attempt is accepted; from `low` up to `high`
/// only one with a valid cookie is, and the others are challenged with
/// `token`; from `high` on every attempt is dropped.
pub open spec fn band(occupancy: nat, low: nat, high: nat, cookie_ok: bool, token: u64) -> Decision {
    if occupancy < low {
        Decision::Accept
    } else if occupancy < high {
        if cookie_ok {
            Decision::Accept
        } else {
            Decision::Challenge(token)
        }
    } else {
        Decision::Drop
    }
}

/// The decision of `band`, computed.
pub fn decide_band(occupancy: usize, low: usize, high: usize, cookie_ok: bool, token: u64) -> (r: Decision)
    ensures
        r == band(occupancy as nat, low as nat, high as nat, cookie_ok, token),
{
    if occupancy < low {
        Decision::Accept
    } else if occupancy < high {
        if cookie_ok {
            Decision::Accept
        } else {
            Decision::Challenge(token)
        }
    } else {
        Decision::Drop
    }
}

/// Admission monotonicity: with the rate limits passed, every attempt is
/// accepted below the low watermark; between the watermarks an attempt with
/// a valid cookie is accepted and one without is challenged; at or above the
/// high watermark every attempt is dropped, valid cookie or not.
pub proof fn lemma_admission_bands(occupancy: nat, low: nat, high: nat, cookie_ok: bool, token: u64)
    requires
        low < high,
    ensures
        occupancy < low ==> band(occupancy, low, high, cookie_ok, token) == Decision::Accept,
        low <= occupancy < high && cookie_ok ==> band(occupancy, low, high, cookie_ok, token)
            == Decision::Accept,
        low <= occupancy < high && !cookie_ok ==> band(occupancy, low, high, cookie_ok, token)
            == Decision::Challenge(token),
        high <= occupancy ==> band(occupancy, low, high, cookie_ok, token) == Decision::Drop,
{
}

/// Whether an echoed cookie, if any, is valid.
pub open spec fn cookie_valid(cookies: CookieChallenge, peer: Seq<u8>, cookie: Option<u64>, now: u64) -> bool {
    cookie matches Some(t) && cookies.accepts(peer, t, now)
}

/// The effect and result of `classify`: the global counter counts the
/// attempt; only if it passes is the attempt recorded in the address's
/// history; the attempt is dropped unless both the global limit and the
/// address's rate and session cap pass, and is otherwise decided by the
/// watermark bands. The cookie ring and watermarks do not change.
pub open spec fn classified(
    ctl: AdmissionController,
    after: AdmissionController,
    ip: u128,
    peer: Seq<u8>,
    cookie: Option<u64>,
    occupancy: nat,
    now: u64,
    r: Decision,
) -> bool {
    let o = ctl.limiter;
    let f = after.limiter;
    let global_ok = next_count(o.window_id(), o.count(), o.interval(), now) <= o.limit();
    let h = if global_ok {
        recorded(o.history()@, o.history().capacity(), o.history().window(), ip, now)
    } else {
        o.history()@
    };
    let ip_ok = stamps_of(h, ip).len() <= o.max_per_ip() && sessions_of(h, ip) < o.max_sessions_per_ip();
    &&& f.window_id() == now / o.interval()
    &&& f.count() == next_count(o.window_id(), o.count(), o.interval(), now)
    &&& f.history()@ == h
    &&& f.history().capacity() == o.history().capacity()
    &&& f.history().window() == o.history().window()
    &&& f.limit() == o.limit()
    &&& f.interval() == o.interval()
    &&& f.max_per_ip() == o.max_per_ip()
    &&& f.max_sessions_per_ip() == o.max_sessions_per_ip()
    &&& after.cookies == ctl.cookies
    &&& after.low_watermark == ctl.low_watermark
    &&& after.high_watermark == ctl.high_watermark
    &&& r == if !global_ok || !ip_ok {
        Decision::Drop
    } else {
        band(
            occupancy,
            ctl.low_watermark as nat,
            ctl.high_watermark as nat,
            cookie_valid(ctl.cookies, peer, cookie, now),
            token_of(ctl.cookies.current.key, peer),
        )
    }
}

/// Rate limits, cookie ring and watermarks together.
pub struct AdmissionController {
    pub limiter: RateLimiter,
    pub cookies: CookieChallenge,
    pub low_watermark: usize,
    pub high_watermark: usize,
}

impl AdmissionController {
    pub open spec fn wf(&self) -> bool {
        &&& self.limiter.wf()
        &&& self.cookies.wf()
        &&& self.low_watermark < self.high_watermark
    }

    /// A controller under the limits of `cfg`, with empty counters and the
    /// cookie secret `key` made at `now`.
    pub fn new(cfg: &Config, key: CookieKey, now: u64) -> (r: AdmissionController)
        requires
            cfg.is_valid(),
        ensures
            r.wf(),
            r.low_watermark == cfg.low_watermark_sessions,
            r.high_watermark == cfg.high_watermark_sessions,
            r.limiter.limit() == cfg.handshake_rate_limit,
            r.limiter.interval() == cfg.handshake_rate_reset_interval,
            r.limiter.max_per_ip() == cfg.max_requests_per_ip,
            r.limiter.max_sessions_per_ip() == cfg.max_sessions_per_ip,
            r.limiter.count() == 0,
            r.limiter.window_id() == 0,
            r.limiter.history()@.len() == 0,
            r.limiter.history().capacity() == cfg.ip_history_capacity,
            r.limiter.history().window() == cfg.ip_rate_limit_window,
            r.cookies.current.key == key,
            r.cookies.current.born == now,
            r.cookies.previous.is_none(),
            r.cookies.refresh == cfg.cookie_refresh_duration,
    {
        AdmissionController {
            limiter: RateLimiter::new(
                cfg.handshake_rate_limit,
                cfg.handshake_rate_reset_interval,
                cfg.max_requests_per_ip,
                cfg.max_sessions_per_ip,
                cfg.ip_history_capacity,
                cfg.ip_rate_limit_window,
            ),
            cookies: CookieChallenge::new(key, now, cfg.cookie_refresh_duration),
            low_watermark: cfg.low_watermark_sessions,
            high_watermark: cfg.high_watermark_sessions,
        }
    }

    /// Classifies an attempt from address `ip`, identified by the bytes
    /// `peer`, echoing `cookie`, while `occupancy` sessions are live. The
    /// global limit is checked first, then the address's rate and session
    /// cap (only if the global limit passed), then the watermark bands.
    pub fn classify(&mut self, ip: u128, peer: &[u8], cookie: Option<u64>, occupancy: usize, now: u64) -> (r:
        Decision)
        requires
            old(self).wf(),
        ensures
            final(self).wf(),
            classified(*old(self), *final(self), ip, peer@, cookie, occupancy as nat, now, r),
    {
        if !self.limiter.try_admit_global(now) {
            return Decision::Drop;
        }
        if !self.limiter.try_admit_ip(ip, now) {
            return Decision::Drop;
        }
        if occupancy < self.low_watermark {
            Decision::Accept
        } else if occupancy < self.high_watermark {
            let ok = match cookie {
                Some(t) => self.cookies.validate(peer, t, now),
                None => false,
            };
            if ok {
                Decision::Accept
            } else {
                Decision::Challenge(self.cookies.issue(peer))
            }
        } else {
            Decision::Drop
        }
    }

    /// Rotates the cookie secret to `fresh` if a refresh period has passed.
    pub fn rotate_cookie(&mut self, now: u64, fresh: CookieKey) -> (r: bool)
        requires
            old(self).wf(),
        ensures
            final(self).wf(),
            final(self).cookies == old(self).cookies.rotated(now, fresh),
            r == (now >= old(self).cookies.current.born + old(self).cookies.refresh),
            final(self).limiter == old(self).limiter,
            final(self).low_watermark == old(self).low_watermark,
            final(self).high_watermark == old(self).high_watermark,
    {
        self.cookies.rotate(now, fresh)
    }
}

} // verus!
