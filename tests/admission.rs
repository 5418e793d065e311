use wireauth::admission::{decide_band, AdmissionController, Decision};
use wireauth::config::Config;
use wireauth::cookie::{CookieChallenge, CookieKey};
use wireauth::ip_history::IpHistory;
use wireauth::rate_limiter::RateLimiter;

fn key(n: u64) -> CookieKey {
    CookieKey { k0: n, k1: n.wrapping_mul(31) + 1 }
}

#[test]
fn default_config_values() {
    let c = Config::default();
    assert_eq!(c.session_timeout, 10_000);
    assert_eq!(c.keepalive_jitter, 300);
    assert_eq!(c.rekey_interval, 21_600_000);
    assert_eq!(c.max_session_duration, 25_200_000);
    assert_eq!(c.handshake_rate_limit, 2000);
    assert_eq!(c.low_watermark_sessions, 10_000);
    assert_eq!(c.high_watermark_sessions, 100_000);
    assert_eq!(c.ip_history_capacity, 1_000_000);
    assert_eq!(c.psk.len(), 32);
    assert!(c.psk.is_zeroized());
    assert!(c.validate());
}

#[test]
fn invalid_watermarks_rejected() {
    let mut c = Config::default();
    c.low_watermark_sessions = c.high_watermark_sessions;
    assert!(!c.validate());
}

#[test]
fn band_decisions_by_occupancy() {
    assert_eq!(decide_band(0, 5, 10, false, 77), Decision::Accept);
    assert_eq!(decide_band(4, 5, 10, false, 77), Decision::Accept);
    assert_eq!(decide_band(5, 5, 10, false, 77), Decision::Challenge(77));
    assert_eq!(decide_band(9, 5, 10, true, 77), Decision::Accept);
    assert_eq!(decide_band(10, 5, 10, true, 77), Decision::Drop);
    assert_eq!(decide_band(1000, 5, 10, false, 77), Decision::Drop);
}

#[test]
fn admission_bands_with_controller() {
    let mut cfg = Config::default();
    cfg.low_watermark_sessions = 2;
    cfg.high_watermark_sessions = 4;
    cfg.max_requests_per_ip = 100;
    let mut a = AdmissionController::new(&cfg, key(5), 0);
    let peer = [10u8, 0, 0, 1];
    assert_eq!(a.classify(1, &peer, None, 1, 10), Decision::Accept);
    let d = a.classify(1, &peer, None, 2, 10);
    let token = match d {
        Decision::Challenge(t) => t,
        other => panic!("expected a challenge, got {:?}", other),
    };
    assert_eq!(token, a.cookies.issue(&peer));
    assert_eq!(a.classify(1, &peer, Some(token), 3, 10), Decision::Accept);
    assert!(matches!(a.classify(1, &peer, Some(token ^ 1), 3, 10), Decision::Challenge(_)));
    assert_eq!(a.classify(1, &peer, Some(token), 4, 10), Decision::Drop);
    assert_eq!(a.classify(1, &peer, None, 4, 10), Decision::Drop);
}

#[test]
fn global_rate_limit_resets_each_window() {
    let mut r = RateLimiter::new(3, 1000, 100, 10, 16, 10_000);
    assert!(r.try_admit_global(0));
    assert!(r.try_admit_global(10));
    assert!(r.try_admit_global(999));
    assert!(!r.try_admit_global(999));
    assert!(r.try_admit_global(1000));
}

#[test]
fn global_limit_drops_before_ip_is_recorded() {
    let mut cfg = Config::default();
    cfg.handshake_rate_limit = 1;
    let mut a = AdmissionController::new(&cfg, key(1), 0);
    assert_eq!(a.classify(9, b"p", None, 0, 0), Decision::Accept);
    assert_eq!(a.classify(9, b"p", None, 0, 1), Decision::Drop);
    assert_eq!(a.limiter.session_count(9), 0);
}

#[test]
fn eleventh_attempt_from_one_ip_is_rejected() {
    let mut r = RateLimiter::new(1_000_000, 1000, 10, 10, 16, 5_000);
    for i in 0..10u64 {
        assert!(r.try_admit_ip(42, i), "attempt {} should pass", i + 1);
    }
    assert!(!r.try_admit_ip(42, 10));
    assert!(r.try_admit_ip(7, 10));
    assert!(r.try_admit_ip(42, 5_000 + 11));
}

#[test]
fn per_ip_rate_limit_through_controller() {
    let mut cfg = Config::default();
    cfg.ip_rate_limit_window = 5_000;
    let mut a = AdmissionController::new(&cfg, key(3), 0);
    for _ in 0..10 {
        assert_eq!(a.classify(8, b"x", None, 0, 100), Decision::Accept);
    }
    assert_eq!(a.classify(8, b"x", None, 0, 100), Decision::Drop);
    assert_eq!(a.classify(8, b"x", None, 0, 5_200), Decision::Accept);
}

#[test]
fn session_cap_per_ip() {
    let mut r = RateLimiter::new(1_000_000, 1000, 100, 2, 16, 5_000);
    assert!(r.try_admit_ip(3, 0));
    r.session_opened(3);
    assert!(r.try_admit_ip(3, 1));
    r.session_opened(3);
    assert_eq!(r.session_count(3), 2);
    assert!(!r.try_admit_ip(3, 2));
    r.session_closed(3);
    assert!(r.try_admit_ip(3, 3));
}

#[test]
fn ip_history_evicts_least_recently_used() {
    let mut h = IpHistory::new(2, 1000);
    assert_eq!(h.record(1, 0), 1);
    assert_eq!(h.record(2, 1), 1);
    assert_eq!(h.record(1, 2), 2);
    assert_eq!(h.record(3, 3), 1);
    assert_eq!(h.len(), 2);
    assert_eq!(h.record(1, 4), 3);
    assert_eq!(h.record(2, 5), 1);
}

#[test]
fn ip_history_drops_stale_stamps() {
    let mut h = IpHistory::new(4, 100);
    assert_eq!(h.record(1, 0), 1);
    assert_eq!(h.record(1, 50), 2);
    assert_eq!(h.record(1, 100), 3);
    assert_eq!(h.record(1, 151), 2);
}

#[test]
fn ip_history_session_counts() {
    let mut h = IpHistory::new(4, 100);
    assert_eq!(h.session_count(5), 0);
    h.session_opened(5);
    h.session_opened(5);
    assert_eq!(h.session_count(5), 2);
    h.session_closed(5);
    assert_eq!(h.session_count(5), 1);
    h.session_closed(5);
    h.session_closed(5);
    assert_eq!(h.session_count(5), 0);
}

#[test]
fn cookie_depends_on_peer_and_key() {
    let a = CookieChallenge::new(key(1), 0, 1000);
    let b = CookieChallenge::new(key(2), 0, 1000);
    assert_ne!(a.issue(b"peer-a"), a.issue(b"peer-b"));
    assert_ne!(a.issue(b"peer-a"), b.issue(b"peer-a"));
    assert_eq!(a.issue(b"peer-a"), a.issue(b"peer-a"));
    assert_ne!(a.issue(&[0u8; 8]), 0);
}

#[test]
fn cookie_valid_until_two_refresh_periods_after_rotation() {
    let mut c = CookieChallenge::new(key(1), 1_000, 120);
    let t = c.issue(b"peer");
    assert!(c.validate(b"peer", t, 1_000));
    assert!(!c.validate(b"other", t, 1_000));
    assert!(!c.rotate(1_100, key(2)));
    assert!(c.validate(b"peer", t, 1_100));
    assert!(c.rotate(1_120, key(2)));
    assert!(c.validate(b"peer", t, 1_239));
    assert!(!c.validate(b"peer", t, 1_240));
    assert!(c.rotate(1_240, key(3)));
    assert!(!c.validate(b"peer", t, 1_241));
    let t3 = c.issue(b"peer");
    assert!(c.validate(b"peer", t3, 1_241));
}

#[test]
fn cookie_expires_without_rotation() {
    let c = CookieChallenge::new(key(4), 0, 50);
    let t = c.issue(b"p");
    assert!(c.validate(b"p", t, 99));
    assert!(!c.validate(b"p", t, 100));
}

#[test]
fn cookie_token_is_siphash24_of_peer_bytes() {
    let c = CookieChallenge::new(CookieKey { k0: 0x0706050403020100, k1: 0x0f0e0d0c0b0a0908 }, 0, 10);
    assert_eq!(c.issue(&[]), 0x726fdb47dd0e0e31);
}
