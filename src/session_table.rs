//! The table of live sessions, keyed by peer identity.

use vstd::prelude::*;
use crate::config::Config;
use crate::secret::{SecureSecret, zeros};
use crate::session::{
    Jitter, Session, SessionEvent, SessionState, Timers, advanced, refreshed, rekey_installs, rekeyed,
};

verus! {

/// What the table knows of one session.
pub struct SessionEntry {
    pub peer: u64,
    pub ip: u128,
    pub timers: Timers,
}

/// An event of a session, with the session's peer and address.
#[derive(Clone, Copy, PartialEq, Eq, Structural, Debug)]
pub struct Emitted {
    pub peer: u64,
    pub ip: u128,
    pub event: SessionEvent,
}

/// Position of the first session of `peer` in `v`, or -1.
pub open spec fn peer_index(v: Seq<SessionEntry>, peer: u64) -> int {
    if exists|i: int| 0 <= i < v.len() && v[i].peer == peer {
        choose|i: int|
            0 <= i < v.len() && v[i].peer == peer && forall|j: int| 0 <= j < i ==> v[j].peer != peer
    } else {
        -1
    }
}

/// The sessions left after a timer sweep at `now`: each takes its step, and
/// those that closed leave the table; the order is kept.
pub open spec fn swept(v: Seq<SessionEntry>, now: u64) -> Seq<SessionEntry>
    decreases v.len(),
{
    if v.len() == 0 {
        v
    } else {
        let rest = swept(v.drop_last(), now);
        let e = v.last();
        let t = advanced(e.timers, now).0;
        if t.state == SessionState::Closed {
            rest
        } else {
            rest.push(SessionEntry { timers: t, ..e })
        }
    }
}

/// The events of a timer sweep at `now`, in table order.
pub open spec fn sweep_events(v: Seq<SessionEntry>, now: u64) -> Seq<Emitted>
    decreases v.len(),
{
    if v.len() == 0 {
        Seq::empty()
    } else {
        let rest = sweep_events(v.drop_last(), now);
        let e = v.last();
        match advanced(e.timers, now).1 {
            Some(ev) => rest.push(Emitted { peer: e.peer, ip: e.ip, event: ev }),
            None => rest,
        }
    }
}

/// The table `after` and the event `r` of a packet from `peer` arriving at
/// `now` on the table `before`: the peer's session, if any, takes a timer
/// step and, if still open, has its idle deadline slid forward; one that
/// closed leaves the table.
pub open spec fn packet_effect(
    before: Seq<SessionEntry>,
    after: Seq<SessionEntry>,
    peer: u64,
    now: u64,
    cfg: &Config,
    jit: Jitter,
    r: Option<Emitted>,
) -> bool {
    let k = peer_index(before, peer);
    let e = before[k];
    let t = refreshed(e.timers, now, cfg, jit);
    &&& k < 0 ==> r.is_none() && after == before
    &&& k >= 0 ==> r == match advanced(e.timers, now).1 {
        Some(ev) => Some(Emitted { peer, ip: e.ip, event: ev }),
        None => None::<Emitted>,
    }
    &&& k >= 0 && t.state == SessionState::Closed ==> after == before.remove(k)
    &&& k >= 0 && t.state != SessionState::Closed ==> after == before.update(
        k,
        SessionEntry { timers: t, ..e },
    )
}

/// The table `after` a rekey of `peer` completes at `now` on the table
/// `before`, and whether its keys were installed (`r`): only into a session
/// of `peer` that is rekeying and within its lifetime.
pub open spec fn rekey_effect(
    before: Seq<SessionEntry>,
    after: Seq<SessionEntry>,
    peer: u64,
    now: u64,
    cfg: &Config,
    jit: Jitter,
    r: bool,
) -> bool {
    let k = peer_index(before, peer);
    let e = before[k];
    &&& r == (k >= 0 && rekey_installs(e.timers, now))
    &&& r ==> after == before.update(k, SessionEntry { timers: rekeyed(e.timers, now, cfg, jit), ..e })
    &&& !r ==> after == before
}

proof fn lemma_peer_index(v: Seq<SessionEntry>, peer: u64, k: int)
    requires
        0 <= k < v.len(),
        v[k].peer == peer,
        forall|j: int| 0 <= j < k ==> v[j].peer != peer,
    ensures
        peer_index(v, peer) == k,
{
    let c = peer_index(v, peer);
    if c < k {
        assert(v[c].peer != peer);
    } else if c > k {
        assert(v[k].peer != peer);
    }
}

/// Sessions that are open, each holding its keys.
pub struct SessionTable {
    sessions: Vec<Session>,
}

impl SessionTable {
    pub closed spec fn view(&self) -> Seq<SessionEntry> {
        self.sessions@.map_values(|s: Session| SessionEntry { peer: s.peer(), ip: s.ip(), timers: s.timers() })
    }

    pub closed spec fn wf(&self) -> bool {
        forall|i: int|
            0 <= i < self.sessions@.len() ==> (#[trigger] self.sessions@[i]).wf()
                && self.sessions@[i].timers().state != SessionState::Closed
    }

    /// An empty table.
    pub fn new() -> (t: SessionTable)
        ensures
            t.wf(),
            t@ == Seq::<SessionEntry>::empty(),
    {
        let t = SessionTable { sessions: Vec::new() };
        proof {
            assert(t@ =~= Seq::<SessionEntry>::empty());
        }
        t
    }

    /// Number of open sessions.
    pub fn occupancy(&self) -> (r: usize)
        ensures
            r == self@.len(),
    {
        self.sessions.len()
    }

    fn find(&self, peer: u64) -> (r: Option<usize>)
        ensures
            r.is_some() ==> r.unwrap() < self@.len() && peer_index(self@, peer) == r.unwrap() as int,
            r.is_none() ==> peer_index(self@, peer) == -1,
    {
        let mut i: usize = 0;
        while i < self.sessions.len()
            invariant
                i <= self@.len(),
                self@.len() == self.sessions@.len(),
                forall|j: int| 0 <= j < i ==> self@[j].peer != peer,
            decreases self.sessions@.len() - i,
        {
            if self.sessions[i].peer() == peer {
                proof {
                    lemma_peer_index(self@, peer, i as int);
                }
                return Some(i);
            }
            i = i + 1;
        }
        None
    }

    /// State of the session of `peer`, if it has one.
    pub fn state_of(&self, peer: u64) -> (r: Option<SessionState>)
        ensures
            r == if peer_index(self@, peer) >= 0 {
                Some(self@[peer_index(self@, peer)].timers.state)
            } else {
                None::<SessionState>
            },
    {
        match self.find(peer) {
            Some(i) => Some(self.sessions[i].timers().state),
            None => None,
        }
    }

    /// Adds an open session unless its peer has one already; a refused
    /// session is dropped, which wipes its keys.
    pub fn insert(&mut self, s: Session) -> (r: bool)
        requires
            old(self).wf(),
            s.wf(),
            s.timers().state != SessionState::Closed,
        ensures
            final(self).wf(),
            r == (peer_index(old(self)@, s.peer()) == -1),
            r ==> final(self)@ == old(self)@.push(SessionEntry { peer: s.peer(), ip: s.ip(), timers: s.timers() }),
            !r ==> final(self)@ == old(self)@,
    {
        let ghost before = self@;
        match self.find(s.peer()) {
            Some(_) => false,
            None => {
                self.sessions.push(s);
                proof {
                    assert(self@ =~= before.push(SessionEntry { peer: s.peer(), ip: s.ip(), timers: s.timers() }));
                }
                true
            },
        }
    }

    /// Tears down the session of `peer`, wiping its keys, and returns its
    /// address.
    pub fn close(&mut self, peer: u64) -> (r: Option<u128>)
        requires
            old(self).wf(),
        ensures
            final(self).wf(),
            ({
                let k = peer_index(old(self)@, peer);
                &&& k < 0 ==> r.is_none() && final(self)@ == old(self)@
                &&& k >= 0 ==> r == Some(old(self)@[k].ip) && final(self)@ == old(self)@.remove(k)
            }),
    {
        let ghost before = self@;
        match self.find(peer) {
            Some(i) => {
                let mut s = self.sessions.remove(i);
                s.close();
                proof {
                    assert(self@ =~= before.remove(i as int));
                }
                Some(s.ip())
            },
            None => None,
        }
    }

    /// A packet from `peer` arrived at `now`: its session takes a timer step
    /// and, if still open, has its idle deadline slid forward; a session
    /// that closed leaves the table.
    pub fn packet_received(&mut self, peer: u64, now: u64, cfg: &Config, jit: Jitter) -> (r: Option<Emitted>)
        requires
            old(self).wf(),
            jit.within(cfg),
        ensures
            final(self).wf(),
            packet_effect(old(self)@, final(self)@, peer, now, cfg, jit, r),
    {
        let ghost before = self@;
        match self.find(peer) {
            Some(i) => {
                let ev = self.sessions[i].packet_received(now, cfg, jit);
                let ip = self.sessions[i].ip();
                if self.sessions[i].timers().state == SessionState::Closed {
                    self.sessions.remove(i);
                    proof {
                        assert(self@ =~= before.remove(i as int));
                    }
                } else {
                    proof {
                        assert(self@ =~= before.update(
                            i as int,
                            SessionEntry { timers: refreshed(before[i as int].timers, now, cfg, jit), ..before[i as int] },
                        ));
                    }
                }
                match ev {
                    Some(e) => Some(Emitted { peer, ip, event: e }),
                    None => None,
                }
            },
            None => None,
        }
    }

    /// A rekey of `peer` derived `new_keys` at `now`. They are installed only
    /// into a session of `peer` that is rekeying and within its lifetime;
    /// otherwise (no such session, or it was torn down meanwhile) nothing
    /// changes. Either way `new_keys` ends all zero.
    #[verifier::rlimit(40)]
    pub fn complete_rekey(
        &mut self,
        peer: u64,
        new_keys: &mut SecureSecret,
        now: u64,
        cfg: &Config,
        jit: Jitter,
    ) -> (r: bool)
        requires
            old(self).wf(),
            jit.within(cfg),
        ensures
            final(self).wf(),
            final(new_keys)@ == zeros(final(new_keys)@.len()),
            rekey_effect(old(self)@, final(self)@, peer, now, cfg, jit, r),
            !r ==> final(new_keys)@.len() == old(new_keys)@.len(),
    {
        let ghost before = self@;
        match self.find(peer) {
            Some(i) => {
                let r = self.sessions[i].complete_rekey(new_keys, now, cfg, jit);
                proof {
                    if r {
                        assert(self@ =~= before.update(
                            i as int,
                            SessionEntry { timers: rekeyed(before[i as int].timers, now, cfg, jit), ..before[i as int] },
                        ));
                    } else {
                        assert(self@ =~= before);
                    }
                }
                r
            },
            None => {
                new_keys.wipe();
                false
            },
        }
    }

    /// Runs one timer step of every session at `now`, removes those that
    /// closed (their keys wiped) and returns the events in table order.
    pub fn sweep(&mut self, now: u64) -> (r: Vec<Emitted>)
        requires
            old(self).wf(),
        ensures
            final(self).wf(),
            final(self)@ == swept(old(self)@, now),
            r@ == sweep_events(old(self)@, now),
    {
        let ghost orig = self@;
        let mut events: Vec<Emitted> = Vec::new();
        let mut i: usize = 0;
        let ghost mut done: int = 0;
        while i < self.sessions.len()
            invariant
                self.wf(),
                0 <= done <= orig.len(),
                i <= self@.len(),
                self@ == swept(orig.subrange(0, done), now) + orig.subrange(done, orig.len() as int),
                i == swept(orig.subrange(0, done), now).len(),
                events@ == sweep_events(orig.subrange(0, done), now),
            decreases orig.len() - done,
        {
            proof {
                assert(orig.subrange(0, done + 1).drop_last() =~= orig.subrange(0, done));
                assert(self@[i as int] == orig[done]);
            }
            let ghost pre = self@;
            let ghost prev_swept = swept(orig.subrange(0, done), now);
            let ghost o = orig[done];
            let ghost a = advanced(o.timers, now).0;
            let ev = self.sessions[i].advance(now);
            proof {
                assert(pre =~= prev_swept + (seq![o] + orig.subrange(done + 1, orig.len() as int))) by {
                    assert(orig.subrange(done, orig.len() as int) =~= seq![o] + orig.subrange(
                        done + 1,
                        orig.len() as int,
                    ));
                }
                assert(self@ =~= pre.update(i as int, SessionEntry { timers: a, ..o }));
            }
            let ghost mid = self@;
            let peer = self.sessions[i].peer();
            let ip = self.sessions[i].ip();
            match ev {
                Some(e) => events.push(Emitted { peer, ip, event: e }),
                None => {},
            }
            if self.sessions[i].timers().state == SessionState::Closed {
                self.sessions.remove(i);
            } else {
                i = i + 1;
            }
            proof {
                assert(swept(orig.subrange(0, done + 1), now) == if a.state == SessionState::Closed {
                    prev_swept
                } else {
                    prev_swept.push(SessionEntry { timers: a, ..o })
                });
                let rest = orig.subrange(done + 1, orig.len() as int);
                assert(orig.subrange(done, orig.len() as int) =~= seq![o] + rest);
                if a.state == SessionState::Closed {
                    assert(self@ =~= mid.remove(i as int));
                    assert(self@ =~= prev_swept + rest);
                } else {
                    assert(self@ =~= prev_swept.push(SessionEntry { timers: a, ..o }) + rest);
                }
                done = done + 1;
                assert(self@ =~= swept(orig.subrange(0, done), now) + orig.subrange(done, orig.len() as int));
            }
        }
        proof {
            assert(orig.subrange(0, done) =~= orig);
        }
        events
    }
}

} // verus!
