use wireauth::config::Config;
use wireauth::secret::SecureSecret;
use wireauth::session::{CloseReason, Jitter, Session, SessionEvent, SessionState, Timers};
use wireauth::session_table::SessionTable;

fn cfg() -> Config {
    let mut c = Config::default();
    c.session_timeout = 10_000;
    c.keepalive_interval = 3_000;
    c.rekey_interval = 60_000;
    c.max_session_duration = 100_000;
    c
}

fn fast_rekey_cfg() -> Config {
    let mut c = cfg();
    c.rekey_interval = 8_000;
    c
}

fn keys(b: u8) -> SecureSecret {
    SecureSecret::new(vec![b; 32])
}

#[test]
fn idle_session_closes_at_timeout() {
    let c = cfg();
    let t = Timers::establish(1_000, &c, Jitter::none());
    assert_eq!(t.idle_deadline, 11_000);
    let (t1, e1) = t.advance(10_999);
    assert_ne!(t1.state, SessionState::Closed);
    assert_eq!(e1, Some(SessionEvent::Keepalive));
    let (t2, e2) = t1.advance(11_000);
    assert_eq!(t2.state, SessionState::Closed);
    assert_eq!(e2, Some(SessionEvent::Closed(CloseReason::Idle)));
}

#[test]
fn packet_resets_idle_deadline() {
    let c = cfg();
    let t = Timers::establish(0, &c, Jitter::none());
    let (t1, _) = t.packet_received(9_999, &c, Jitter::none());
    assert_eq!(t1.idle_deadline, 19_999);
    let (t2, _) = t1.advance(10_000);
    assert_eq!(t2.state, SessionState::Established);
    let (t3, e3) = t2.advance(19_999);
    assert_eq!(t3.state, SessionState::Closed);
    assert_eq!(e3, Some(SessionEvent::Closed(CloseReason::Idle)));
}

#[test]
fn jitter_offsets_deadlines() {
    let c = cfg();
    let j = Jitter { idle: -500, rekey: 30_000, keepalive: 200 };
    let t = Timers::establish(0, &c, j);
    assert_eq!(t.idle_deadline, 9_500);
    assert_eq!(t.rekey_deadline, 90_000);
    assert_eq!(t.keepalive_deadline, 3_200);
    assert_eq!(t.absolute_deadline, 100_000);
}

#[test]
fn keepalive_once_per_quiet_period() {
    let c = cfg();
    let t = Timers::establish(0, &c, Jitter::none());
    let (t1, e1) = t.advance(3_000);
    assert_eq!(e1, Some(SessionEvent::Keepalive));
    let (t2, e2) = t1.advance(4_000);
    assert_eq!(e2, None);
    assert_eq!(t2.idle_deadline, 10_000);
    let (t3, _) = t2.packet_received(5_000, &c, Jitter::none());
    let (_, e4) = t3.advance(8_000);
    assert_eq!(e4, Some(SessionEvent::Keepalive));
}

#[test]
fn lifetime_ceiling_closes_busy_session() {
    let c = cfg();
    let mut s = Session::establish(1, 1, keys(3), 0, &c, Jitter::none());
    let mut now = 0u64;
    while now < 100_000 {
        now += 5_000;
        let ev = s.packet_received(now, &c, Jitter::none());
        if now == 60_000 {
            assert_eq!(ev, Some(SessionEvent::InitiateRekey));
        }
        if now < 100_000 {
            assert_ne!(s.timers().state, SessionState::Closed);
        } else {
            assert_eq!(ev, Some(SessionEvent::Closed(CloseReason::Lifetime)));
        }
    }
    assert_eq!(s.timers().state, SessionState::Closed);
    assert!(s.keys_zeroized());
}

#[test]
fn rekey_installs_new_keys_and_wipes_old() {
    let c = fast_rekey_cfg();
    let mut s = Session::establish(1, 1, keys(3), 0, &c, Jitter::none());
    assert_eq!(s.advance(8_000), Some(SessionEvent::InitiateRekey));
    assert_eq!(s.timers().state, SessionState::Rekeying);
    let mut fresh = keys(9);
    assert!(s.complete_rekey(&mut fresh, 8_500, &c, Jitter::none()));
    assert!(fresh.is_zeroized());
    assert!(!s.keys_zeroized());
    assert_eq!(s.timers().state, SessionState::Established);
    assert_eq!(s.timers().rekey_deadline, 16_500);
    assert_eq!(s.timers().idle_deadline, 18_500);
}

#[test]
fn rekey_after_teardown_is_discarded() {
    let c = fast_rekey_cfg();
    let mut s = Session::establish(1, 1, keys(3), 0, &c, Jitter::none());
    assert_eq!(s.advance(8_000), Some(SessionEvent::InitiateRekey));
    assert_eq!(s.close(), Some(SessionEvent::Closed(CloseReason::Teardown)));
    let mut fresh = keys(9);
    assert!(!s.complete_rekey(&mut fresh, 8_100, &c, Jitter::none()));
    assert_eq!(s.timers().state, SessionState::Closed);
    assert!(fresh.is_zeroized());
    assert!(s.keys_zeroized());
    assert_eq!(s.close(), None);
}

#[test]
fn table_rekey_race_discards_keys() {
    let c = fast_rekey_cfg();
    let mut t = SessionTable::new();
    assert!(t.insert(Session::establish(7, 70, keys(1), 0, &c, Jitter::none())));
    let ev = t.sweep(8_000);
    assert_eq!(ev.len(), 1);
    assert_eq!(ev[0].event, SessionEvent::InitiateRekey);
    assert_eq!(t.state_of(7), Some(SessionState::Rekeying));
    assert_eq!(t.close(7), Some(70));
    let mut fresh = keys(2);
    assert!(!t.complete_rekey(7, &mut fresh, 8_001, &c, Jitter::none()));
    assert!(fresh.is_zeroized());
    assert_eq!(t.state_of(7), None);
    assert_eq!(t.occupancy(), 0);
}

#[test]
fn table_sweep_removes_closed_in_order() {
    let c = cfg();
    let mut t = SessionTable::new();
    assert!(t.insert(Session::establish(1, 10, keys(1), 0, &c, Jitter::none())));
    assert!(t.insert(Session::establish(2, 20, keys(2), 5_000, &c, Jitter::none())));
    assert!(t.insert(Session::establish(3, 30, keys(3), 0, &c, Jitter::none())));
    assert!(!t.insert(Session::establish(3, 30, keys(3), 0, &c, Jitter::none())));
    assert_eq!(t.occupancy(), 3);
    let ev = t.sweep(10_000);
    assert_eq!(ev.len(), 3);
    assert_eq!((ev[0].peer, ev[0].event), (1, SessionEvent::Closed(CloseReason::Idle)));
    assert_eq!((ev[1].peer, ev[1].ip, ev[1].event), (2, 20, SessionEvent::Keepalive));
    assert_eq!((ev[2].peer, ev[2].event), (3, SessionEvent::Closed(CloseReason::Idle)));
    assert_eq!(t.occupancy(), 1);
    assert_eq!(t.state_of(2), Some(SessionState::Established));
}

#[test]
fn table_packet_keeps_session_alive() {
    let c = cfg();
    let mut t = SessionTable::new();
    assert!(t.insert(Session::establish(1, 10, keys(1), 0, &c, Jitter::none())));
    assert_eq!(t.packet_received(1, 9_000, &c, Jitter::none()), Some(wireauth::session_table::Emitted {
        peer: 1,
        ip: 10,
        event: SessionEvent::Keepalive,
    }));
    let ev = t.sweep(15_000);
    assert_eq!(ev.len(), 1);
    assert_eq!(ev[0].event, SessionEvent::Keepalive);
    assert!(t.sweep(16_000).is_empty());
    assert_eq!(t.packet_received(1, 19_000, &c, Jitter::none()).map(|e| e.event), Some(SessionEvent::Closed(CloseReason::Idle)));
    assert_eq!(t.occupancy(), 0);
    assert_eq!(t.packet_received(1, 19_001, &c, Jitter::none()), None);
}
