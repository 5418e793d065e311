use wireauth::admission::Decision;
use wireauth::config::Config;
use wireauth::cookie::CookieKey;
use wireauth::engine::Engine;
use wireauth::secret::SecureSecret;
use wireauth::session::{CloseReason, Jitter, SessionEvent, SessionState};

fn small_cfg() -> Config {
    let mut c = Config::default();
    c.low_watermark_sessions = 1;
    c.high_watermark_sessions = 2;
    c.max_sessions_per_ip = 1;
    c
}

#[test]
fn engine_counts_sessions_per_ip() {
    let c = small_cfg();
    let mut e = Engine::new(&c, CookieKey { k0: 1, k1: 2 }, 0);
    assert_eq!(e.classify(5, b"a", None, 0), Decision::Accept);
    assert!(e.establish(100, 5, SecureSecret::new(vec![1u8; 32]), 0, &c, Jitter::none()));
    assert!(!e.establish(100, 5, SecureSecret::new(vec![1u8; 32]), 0, &c, Jitter::none()));
    assert_eq!(e.admission.limiter.session_count(5), 1);
    assert_eq!(e.classify(5, b"a", None, 1), Decision::Drop);
    assert!(e.close(100));
    assert!(!e.close(100));
    assert_eq!(e.admission.limiter.session_count(5), 0);
    assert_eq!(e.classify(5, b"a", None, 2), Decision::Accept);
}

#[test]
fn engine_challenges_under_load() {
    let c = small_cfg();
    let mut e = Engine::new(&c, CookieKey { k0: 1, k1: 2 }, 0);
    assert!(e.establish(1, 9, SecureSecret::new(vec![1u8; 32]), 0, &c, Jitter::none()));
    let d = e.classify(6, b"b", None, 0);
    let t = match d {
        Decision::Challenge(t) => t,
        other => panic!("expected a challenge, got {:?}", other),
    };
    assert_eq!(e.classify(6, b"b", Some(t), 1), Decision::Accept);
    assert!(e.establish(2, 6, SecureSecret::new(vec![2u8; 32]), 1, &c, Jitter::none()));
    assert_eq!(e.classify(7, b"c", Some(t), 2), Decision::Drop);
}

#[test]
fn engine_sweep_counts_off_closed_sessions() {
    let c = small_cfg();
    let mut e = Engine::new(&c, CookieKey { k0: 1, k1: 2 }, 0);
    assert!(e.establish(1, 9, SecureSecret::new(vec![1u8; 32]), 0, &c, Jitter::none()));
    assert_eq!(e.admission.limiter.session_count(9), 1);
    let ev = e.sweep(10_000);
    assert_eq!(ev.len(), 1);
    assert_eq!(ev[0].event, SessionEvent::Closed(CloseReason::Idle));
    assert_eq!(e.admission.limiter.session_count(9), 0);
    assert_eq!(e.sessions.state_of(1), None);
}

#[test]
fn engine_packet_and_rekey() {
    let mut c = small_cfg();
    c.rekey_interval = 5_000;
    let mut e = Engine::new(&c, CookieKey { k0: 1, k1: 2 }, 0);
    assert!(e.establish(1, 9, SecureSecret::new(vec![1u8; 32]), 0, &c, Jitter::none()));
    let ev = e.packet_received(1, 5_000, &c, Jitter::none());
    assert_eq!(ev.map(|x| x.event), Some(SessionEvent::InitiateRekey));
    assert_eq!(e.sessions.state_of(1), Some(SessionState::Rekeying));
    let mut k = SecureSecret::new(vec![3u8; 32]);
    assert!(e.complete_rekey(1, &mut k, 5_100, &c, Jitter::none()));
    assert!(k.is_zeroized());
    assert_eq!(e.sessions.state_of(1), Some(SessionState::Established));
}
