//! Session timers and the state machine that they drive: idle expiry,
//! keepalive, rekey and the absolute lifetime ceiling.

use vstd::prelude::*;
use crate::config::Config;
use crate::secret::{SecureSecret, zeros};

verus! {

/// Lifecycle state of a session.
#[derive(Clone, Copy, PartialEq, Eq, Structural, Debug)]
pub enum SessionState {
    /// Keys are in use; timers run.
    Established,
    /// A new handshake is under way; the old keys stay in use.
    Rekeying,
    /// Torn down; the keys are wiped.
    Closed,
}

/// Why a session was closed.
#[derive(Clone, Copy, PartialEq, Eq, Structural, Debug)]
pub enum CloseReason {
    /// No packet arrived within the idle timeout.
    Idle,
    /// The absolute lifetime ran out.
    Lifetime,
    /// Closed on request.
    Teardown,
}

/// What a timer step asks the transport to do.
#[derive(Clone, Copy, PartialEq, Eq, Structural, Debug)]
pub enum SessionEvent {
    /// Send an empty packet to keep the session alive.
    Keepalive,
    /// Start a new handshake to replace the keys.
    InitiateRekey,
    /// The session is gone.
    Closed(CloseReason),
}

/// Random offsets drawn for one deadline-setting event, one per jittered
/// timer.
#[derive(Clone, Copy, PartialEq, Eq, Structural, Debug)]
pub struct Jitter {
    pub idle: i64,
    pub rekey: i64,
    pub keepalive: i64,
}

impl Jitter {
    /// No offsets at all.
    pub fn none() -> (j: Jitter)
        ensures
            j == (Jitter { idle: 0, rekey: 0, keepalive: 0 }),
    {
        Jitter { idle: 0, rekey: 0, keepalive: 0 }
    }

    /// Each offset lies within the jitter bound that `cfg` sets for its timer.
    pub open spec fn within(&self, cfg: &Config) -> bool {
        &&& -(cfg.session_timeout_jitter as int) <= self.idle <= cfg.session_timeout_jitter
        &&& -(cfg.rekey_jitter as int) <= self.rekey <= cfg.rekey_jitter
        &&& -(cfg.keepalive_jitter as int) <= self.keepalive <= cfg.keepalive_jitter
    }
}

/// `now + span + jit`, held within the range of `u64`.
pub open spec fn deadline(now: u64, span: u64, jit: i64) -> u64 {
    let d = now + span + jit;
    if d < 0 {
        0
    } else if d > u64::MAX {
        u64::MAX
    } else {
        d as u64
    }
}

fn compute_deadline(now: u64, span: u64, jit: i64) -> (r: u64)
    ensures
        r == deadline(now, span, jit),
{
    let d: i128 = now as i128 + span as i128 + jit as i128;
    if d < 0 {
        0
    } else if d > u64::MAX as i128 {
        u64::MAX
    } else {
        d as u64
    }
}

/// The timers of one session.
#[derive(Clone, Copy, PartialEq, Eq, Structural, Debug)]
pub struct Timers {
    pub state: SessionState,
    pub created: u64,
    pub last_activity: u64,
    pub idle_deadline: u64,
    pub rekey_deadline: u64,
    pub absolute_deadline: u64,
    pub keepalive_deadline: u64,
    pub keepalive_sent: bool,
}

/// Timers of a session established at `now`. The absolute deadline is not
/// jittered.
pub open spec fn established(now: u64, cfg: &Config, jit: Jitter) -> Timers {
    Timers {
        state: SessionState::Established,
        created: now,
        last_activity: now,
        idle_deadline: deadline(now, cfg.session_timeout, jit.idle),
        rekey_deadline: deadline(now, cfg.rekey_interval, jit.rekey),
        absolute_deadline: deadline(now, cfg.max_session_duration, 0),
        keepalive_deadline: deadline(now, cfg.keepalive_interval, jit.keepalive),
        keepalive_sent: false,
    }
}

/// One step of the timers at `now`, and the event it emits. A closed session
/// stays as it is. The absolute deadline closes a session in any state;
/// then, for an established session, the idle deadline closes it, the rekey
/// deadline starts a rekey, and the keepalive deadline emits one keepalive
/// per quiet period.
pub open spec fn advanced(t: Timers, now: u64) -> (Timers, Option<SessionEvent>) {
    if t.state == SessionState::Closed {
        (t, None)
    } else if now >= t.absolute_deadline {
        (Timers { state: SessionState::Closed, ..t }, Some(SessionEvent::Closed(CloseReason::Lifetime)))
    } else if t.state == SessionState::Established && now >= t.idle_deadline {
        (Timers { state: SessionState::Closed, ..t }, Some(SessionEvent::Closed(CloseReason::Idle)))
    } else if t.state == SessionState::Established && now >= t.rekey_deadline {
        (Timers { state: SessionState::Rekeying, ..t }, Some(SessionEvent::InitiateRekey))
    } else if t.state == SessionState::Established && !t.keepalive_sent && now
        >= t.keepalive_deadline {
        (Timers { keepalive_sent: true, ..t }, Some(SessionEvent::Keepalive))
    } else {
        (t, None)
    }
}

/// The timers after a packet arrives at `now`: the step of `advanced` first;
/// a session still open then has its idle and keepalive deadlines slid
/// forward. The absolute deadline never moves.
pub open spec fn refreshed(t: Timers, now: u64, cfg: &Config, jit: Jitter) -> Timers {
    let s = advanced(t, now).0;
    if s.state == SessionState::Closed {
        s
    } else {
        Timers {
            last_activity: now,
            idle_deadline: deadline(now, cfg.session_timeout, jit.idle),
            keepalive_deadline: deadline(now, cfg.keepalive_interval, jit.keepalive),
            keepalive_sent: false,
            ..s
        }
    }
}

/// The timers after a rekey completes at `now` on a session that is
/// rekeying: back to established with fresh rekey, idle and keepalive
/// deadlines.
pub open spec fn rekeyed(t: Timers, now: u64, cfg: &Config, jit: Jitter) -> Timers {
    Timers {
        state: SessionState::Established,
        last_activity: now,
        idle_deadline: deadline(now, cfg.session_timeout, jit.idle),
        rekey_deadline: deadline(now, cfg.rekey_interval, jit.rekey),
        keepalive_deadline: deadline(now, cfg.keepalive_interval, jit.keepalive),
        keepalive_sent: false,
        ..t
    }
}

impl Timers {
    /// Timers of a session established at `now`.
    pub fn establish(now: u64, cfg: &Config, jit: Jitter) -> (r: Timers)
        requires
            jit.within(cfg),
        ensures
            r == established(now, cfg, jit),
    {
        Timers {
            state: SessionState::Established,
            created: now,
            last_activity: now,
            idle_deadline: compute_deadline(now, cfg.session_timeout, jit.idle),
            rekey_deadline: compute_deadline(now, cfg.rekey_interval, jit.rekey),
            absolute_deadline: compute_deadline(now, cfg.max_session_duration, 0),
            keepalive_deadline: compute_deadline(now, cfg.keepalive_interval, jit.keepalive),
            keepalive_sent: false,
        }
    }

    /// One step of the timers at `now`.
    pub fn advance(&self, now: u64) -> (r: (Timers, Option<SessionEvent>))
        ensures
            r == advanced(*self, now),
    {
        let t = *self;
        if t.state == SessionState::Closed {
            (t, None)
        } else if now >= t.absolute_deadline {
            (Timers { state: SessionState::Closed, ..t }, Some(SessionEvent::Closed(CloseReason::Lifetime)))
        } else if t.state == SessionState::Established && now >= t.idle_deadline {
            (Timers { state: SessionState::Closed, ..t }, Some(SessionEvent::Closed(CloseReason::Idle)))
        } else if t.state == SessionState::Established && now >= t.rekey_deadline {
            (Timers { state: SessionState::Rekeying, ..t }, Some(SessionEvent::InitiateRekey))
        } else if t.state == SessionState::Established && !t.keepalive_sent && now
            >= t.keepalive_deadline {
            (Timers { keepalive_sent: true, ..t }, Some(SessionEvent::Keepalive))
        } else {
            (t, None)
        }
    }

    /// The timers after a packet arrives at `now`, and the event of the step
    /// taken first.
    pub fn packet_received(&self, now: u64, cfg: &Config, jit: Jitter) -> (r: (Timers, Option<SessionEvent>))
        requires
            jit.within(cfg),
        ensures
            r.0 == refreshed(*self, now, cfg, jit),
            r.1 == advanced(*self, now).1,
    {
        let (s, ev) = self.advance(now);
        if s.state == SessionState::Closed {
            (s, ev)
        } else {
            (
                Timers {
                    last_activity: now,
                    idle_deadline: compute_deadline(now, cfg.session_timeout, jit.idle),
                    keepalive_deadline: compute_deadline(now, cfg.keepalive_interval, jit.keepalive),
                    keepalive_sent: false,
                    ..s
                },
                ev,
            )
        }
    }

    /// The timers after a rekey completes at `now`.
    pub fn complete_rekey(&self, now: u64, cfg: &Config, jit: Jitter) -> (r: Timers)
        requires
            jit.within(cfg),
        ensures
            r == rekeyed(*self, now, cfg, jit),
    {
        Timers {
            state: SessionState::Established,
            last_activity: now,
            idle_deadline: compute_deadline(now, cfg.session_timeout, jit.idle),
            rekey_deadline: compute_deadline(now, cfg.rekey_interval, jit.rekey),
            keepalive_deadline: compute_deadline(now, cfg.keepalive_interval, jit.keepalive),
            keepalive_sent: false,
            ..*self
        }
    }
}

/// Whether a rekey completing at `now` installs its keys: only into a
/// session that is rekeying and whose lifetime has not run out.
pub open spec fn rekey_installs(t: Timers, now: u64) -> bool {
    t.state == SessionState::Rekeying && now < t.absolute_deadline
}

/// The timers of a session torn down on request.
pub open spec fn torn_down(t: Timers) -> Timers {
    Timers { state: SessionState::Closed, ..t }
}

/// An established session with its keys.
pub struct Session {
    peer: u64,
    ip: u128,
    timers: Timers,
    keys: SecureSecret,
}

impl Session {
    pub closed spec fn spec_peer(&self) -> u64 {
        self.peer
    }

    pub closed spec fn spec_ip(&self) -> u128 {
        self.ip
    }

    pub closed spec fn spec_timers(&self) -> Timers {
        self.timers
    }

    /// Identity of the peer.
    #[verifier::when_used_as_spec(spec_peer)]
    pub fn peer(&self) -> (r: u64)
        ensures
            r == self.spec_peer(),
    {
        self.peer
    }

    /// Source address of the peer.
    #[verifier::when_used_as_spec(spec_ip)]
    pub fn ip(&self) -> (r: u128)
        ensures
            r == self.spec_ip(),
    {
        self.ip
    }

    /// The session's timers and state.
    #[verifier::when_used_as_spec(spec_timers)]
    pub fn timers(&self) -> (r: Timers)
        ensures
            r == self.spec_timers(),
    {
        self.timers
    }

    /// Whether every key byte is zero.
    pub fn keys_zeroized(&self) -> (r: bool)
        ensures
            r == (self.key_bytes() == zeros(self.key_bytes().len())),
    {
        self.keys.is_zeroized()
    }

    /// The key bytes the session holds.
    pub closed spec fn key_bytes(&self) -> Seq<u8> {
        self.keys@
    }

    /// A closed session holds no key material.
    pub closed spec fn wf(&self) -> bool {
        self.timers.state == SessionState::Closed ==> self.key_bytes() == zeros(
            self.key_bytes().len(),
        )
    }

    /// A session with `peer` at address `ip`, established at `now` with
    /// `keys`.
    pub fn establish(peer: u64, ip: u128, keys: SecureSecret, now: u64, cfg: &Config, jit: Jitter) -> (s:
        Session)
        requires
            jit.within(cfg),
        ensures
            s.wf(),
            s.peer() == peer,
            s.ip() == ip,
            s.timers() == established(now, cfg, jit),
            s.key_bytes() == keys@,
    {
        Session { peer, ip, timers: Timers::establish(now, cfg, jit), keys }
    }

    fn settle(&mut self, t: Timers)
        requires
            old(self).wf(),
        ensures
            final(self).wf(),
            final(self).timers() == t,
            final(self).peer() == old(self).peer(),
            final(self).ip() == old(self).ip(),
            t.state == SessionState::Closed ==> final(self).key_bytes() == zeros(
                old(self).key_bytes().len(),
            ),
            t.state != SessionState::Closed ==> final(self).key_bytes() == old(self).key_bytes(),
    {
        self.timers = t;
        if t.state == SessionState::Closed {
            self.keys.wipe();
        }
    }

    /// One timer step at `now`; a session that closes has its keys wiped.
    pub fn advance(&mut self, now: u64) -> (r: Option<SessionEvent>)
        requires
            old(self).wf(),
        ensures
            final(self).wf(),
            final(self).timers() == advanced(old(self).timers(), now).0,
            r == advanced(old(self).timers(), now).1,
            final(self).peer() == old(self).peer(),
            final(self).ip() == old(self).ip(),
            final(self).timers().state == SessionState::Closed ==> final(self).key_bytes() == zeros(
                old(self).key_bytes().len(),
            ),
            final(self).timers().state != SessionState::Closed ==> final(self).key_bytes() == old(
                self,
            ).key_bytes(),
    {
        let (t, ev) = self.timers.advance(now);
        self.settle(t);
        ev
    }

    /// A packet arrived at `now`: the timer step is taken, and a session
    /// still open has its idle deadline slid forward.
    pub fn packet_received(&mut self, now: u64, cfg: &Config, jit: Jitter) -> (r: Option<SessionEvent>)
        requires
            old(self).wf(),
            jit.within(cfg),
        ensures
            final(self).wf(),
            final(self).timers() == refreshed(old(self).timers(), now, cfg, jit),
            r == advanced(old(self).timers(), now).1,
            final(self).peer() == old(self).peer(),
            final(self).ip() == old(self).ip(),
            final(self).timers().state == SessionState::Closed ==> final(self).key_bytes() == zeros(
                old(self).key_bytes().len(),
            ),
            final(self).timers().state != SessionState::Closed ==> final(self).key_bytes() == old(
                self,
            ).key_bytes(),
    {
        let (t, ev) = self.timers.packet_received(now, cfg, jit);
        self.settle(t);
        ev
    }

    /// Tears the session down and wipes its keys; reports the closing unless
    /// the session was closed already.
    pub fn close(&mut self) -> (r: Option<SessionEvent>)
        requires
            old(self).wf(),
        ensures
            final(self).wf(),
            final(self).timers() == torn_down(old(self).timers()),
            final(self).key_bytes() == zeros(old(self).key_bytes().len()),
            r == if old(self).timers().state == SessionState::Closed {
                None
            } else {
                Some(SessionEvent::Closed(CloseReason::Teardown))
            },
            final(self).peer() == old(self).peer(),
            final(self).ip() == old(self).ip(),
    {
        let was_closed = self.timers.state == SessionState::Closed;
        self.settle(Timers { state: SessionState::Closed, ..self.timers });
        if was_closed {
            None
        } else {
            Some(SessionEvent::Closed(CloseReason::Teardown))
        }
    }

    /// A rekey derived `new_keys` at `now`. Into a session that is rekeying
    /// and still within its lifetime they are installed, and the old keys
    /// are wiped where `new_keys` held them; otherwise (the session was torn
    /// down meanwhile, say) the session is left as it is and `new_keys` is
    /// wiped. Either way `new_keys` ends all zero.
    pub fn complete_rekey(&mut self, new_keys: &mut SecureSecret, now: u64, cfg: &Config, jit: Jitter) -> (r:
        bool)
        requires
            old(self).wf(),
            jit.within(cfg),
        ensures
            final(self).wf(),
            r == rekey_installs(old(self).timers(), now),
            r ==> final(self).timers() == rekeyed(old(self).timers(), now, cfg, jit),
            r ==> final(self).key_bytes() == old(new_keys)@,
            r ==> final(new_keys)@ == zeros(old(self).key_bytes().len()),
            !r ==> final(self).timers() == old(self).timers(),
            !r ==> final(self).key_bytes() == old(self).key_bytes(),
            !r ==> final(new_keys)@ == zeros(old(new_keys)@.len()),
            final(self).peer() == old(self).peer(),
            final(self).ip() == old(self).ip(),
    {
        if self.timers.state == SessionState::Rekeying && now < self.timers.absolute_deadline {
            std::mem::swap(&mut self.keys, new_keys);
            new_keys.wipe();
            self.timers = self.timers.complete_rekey(now, cfg, jit);
            true
        } else {
            new_keys.wipe();
            false
        }
    }
}

/// Idle expiry: with no jitter, an established session whose last activity
/// was at `last` closes at `last` plus the session timeout, and not before;
/// a packet arriving before then slides the idle deadline to the timeout
/// after that packet.
pub proof fn lemma_idle_expiry(t: Timers, cfg: &Config, last: u64, now: u64)
    requires
        t.state == SessionState::Established,
        t.idle_deadline == last + cfg.session_timeout,
        now < t.absolute_deadline,
    ensures
        now >= last + cfg.session_timeout ==> advanced(t, now).0.state == SessionState::Closed
            && advanced(t, now).1 == Some(SessionEvent::Closed(CloseReason::Idle)),
        now < last + cfg.session_timeout ==> advanced(t, now).0.state != SessionState::Closed,
        now < last + cfg.session_timeout ==> refreshed(t, now, cfg, Jitter { idle: 0, rekey: 0, keepalive: 0 }).idle_deadline
            == deadline(now, cfg.session_timeout, 0),
        last + cfg.session_timeout <= u64::MAX ==> established(last, cfg, Jitter { idle: 0, rekey: 0, keepalive: 0 }).idle_deadline
            == last + cfg.session_timeout,
        now + cfg.session_timeout <= u64::MAX ==> deadline(now, cfg.session_timeout, 0) == now
            + cfg.session_timeout,
{
}

/// Absolute lifetime ceiling: packets never move the absolute deadline, a
/// session is created with it at the maximum duration after creation, and
/// once it is reached the session closes whatever its activity.
pub proof fn lemma_lifetime_ceiling(t: Timers, cfg: &Config, jit: Jitter, created: u64, now: u64)
    ensures
        refreshed(t, now, cfg, jit).absolute_deadline == t.absolute_deadline,
        created + cfg.max_session_duration <= u64::MAX ==> established(created, cfg, jit).absolute_deadline
            == created + cfg.max_session_duration,
        t.state != SessionState::Closed && now >= t.absolute_deadline ==> advanced(t, now) == (
        Timers { state: SessionState::Closed, ..t }, Some(SessionEvent::Closed(CloseReason::Lifetime))),
        t.state != SessionState::Closed && now >= t.absolute_deadline ==> refreshed(t, now, cfg, jit).state
            == SessionState::Closed,
{
}

/// Rekey race: once a session is torn down, a rekey that completes later
/// installs nothing, whatever the time.
pub proof fn lemma_rekey_after_teardown(t: Timers, now: u64)
    ensures
        !rekey_installs(torn_down(t), now),
        torn_down(t).state == SessionState::Closed,
{
}

} // verus!
