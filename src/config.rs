//! Tunable policy of the responder: timeouts, jitters, rate limits,
//! watermarks and the pre-shared key. All durations are in milliseconds of
//! a monotonic clock.

use vstd::prelude::*;
use crate::secret::SecureSecret;

verus! {

/// Retry count meaning "retry without bound".
pub const RETRY_ALWAYS: u64 = 0xffff_ffff_ffff_ffff;

/// Default number of retries.
pub const DEFAULT_RETRY_ATTEMPTS: u64 = 3;

/// Length of the pre-shared key in bytes.
pub const PSK_LEN: usize = 32;

pub struct Config {
    /// idle time before session expires (reset on any packet exchange)
    pub session_timeout: u64,
    /// randomization to prevent thundering herd on timeout
    pub session_timeout_jitter: u64,
    /// send empty packet after this idle time to maintain session
    pub keepalive_interval: u64,
    /// randomization to spread keepalive traffic
    pub keepalive_jitter: u64,
    /// time before initiating new handshake to rotate keys
    pub rekey_interval: u64,
    /// randomization to avoid synchronized rekey storms
    pub rekey_jitter: u64,
    /// absolute session lifetime regardless of activity (forces rekey)
    pub max_session_duration: u64,
    /// max handshake requests processed per reset interval (dos protection)
    pub handshake_rate_limit: u64,
    /// window for handshake rate limiting
    pub handshake_rate_reset_interval: u64,
    /// cookie validity period (responder rotates cookie key)
    pub cookie_refresh_duration: u64,
    /// below this threshold, accept all handshakes without cookie challenge
    pub low_watermark_sessions: usize,
    /// at this threshold, drop all incoming handshake requests
    pub high_watermark_sessions: usize,
    /// limit concurrent sessions from single ip (anti-amplification)
    pub max_sessions_per_ip: usize,
    /// time window for counting handshake requests per ip
    pub ip_rate_limit_window: u64,
    /// max handshake requests from single ip within rate limit window
    pub max_requests_per_ip: usize,
    /// lru cache size for tracking handshake request timestamps per ip
    pub ip_history_capacity: usize,
    /// optional pre-shared key mixed into handshake for additional auth
    pub psk: SecureSecret,
}

impl Config {
    /// The invariants that the rest of the engine relies on.
    pub open spec fn is_valid(&self) -> bool {
        &&& self.low_watermark_sessions < self.high_watermark_sessions
        &&& self.ip_history_capacity >= self.max_sessions_per_ip
        &&& self.ip_history_capacity > 0
        &&& self.handshake_rate_reset_interval > 0
        &&& self.cookie_refresh_duration > 0
    }

    /// Checks the invariants of `is_valid`.
    pub fn validate(&self) -> (r: bool)
        ensures
            r == self.is_valid(),
    {
        self.low_watermark_sessions < self.high_watermark_sessions
            && self.ip_history_capacity >= self.max_sessions_per_ip
            && self.ip_history_capacity > 0
            && self.handshake_rate_reset_interval > 0
            && self.cookie_refresh_duration > 0
    }
}

impl Default for Config {
    fn default() -> (c: Self)
        ensures
            c.session_timeout == 10_000,
            c.session_timeout_jitter == 1_000,
            c.keepalive_interval == 3_000,
            c.keepalive_jitter == 300,
            c.rekey_interval == 6 * 60 * 60 * 1000,
            c.rekey_jitter == 60_000,
            c.max_session_duration == 7 * 60 * 60 * 1000,
            c.handshake_rate_limit == 2000,
            c.handshake_rate_reset_interval == 1000,
            c.cookie_refresh_duration == 120_000,
            c.low_watermark_sessions == 10_000,
            c.high_watermark_sessions == 100_000,
            c.max_sessions_per_ip == 10,
            c.ip_rate_limit_window == 10_000,
            c.max_requests_per_ip == 10,
            c.ip_history_capacity == 1_000_000,
            c.psk@ == crate::secret::zeros(PSK_LEN as nat),
            !c.psk.is_consumed(),
            c.is_valid(),
    {
        let mut key: Vec<u8> = Vec::new();
        let mut i: usize = 0;
        while i < PSK_LEN
            invariant
                i <= PSK_LEN,
                key@ == crate::secret::zeros(i as nat),
            decreases PSK_LEN - i,
        {
            key.push(0u8);
            i = i + 1;
            proof {
                assert(key@ =~= crate::secret::zeros(i as nat));
            }
        }
        Config {
            session_timeout: 10_000,
            session_timeout_jitter: 1_000,
            keepalive_interval: 3_000,
            keepalive_jitter: 300,
            rekey_interval: 6 * 60 * 60 * 1000,
            rekey_jitter: 60_000,
            max_session_duration: 7 * 60 * 60 * 1000,
            handshake_rate_limit: 2000,
            handshake_rate_reset_interval: 1000,
            cookie_refresh_duration: 120_000,
            low_watermark_sessions: 10_000,
            high_watermark_sessions: 100_000,
            max_sessions_per_ip: 10,
            ip_rate_limit_window: 10_000,
            max_requests_per_ip: 10,
            ip_history_capacity: 1_000_000,
            psk: SecureSecret::new(key),
        }
    }
}

} // verus!
