//! The responder's admission and session engine: classifies attempts
//! against the current session-table load, and keeps the per-address
//! session counts in step with the sessions it opens and closes.

use vstd::prelude::*;
use crate::admission::{AdmissionController, Decision, classified};
use crate::config::Config;
use crate::cookie::CookieKey;
use crate::ip_history::{IpRecord, closed, opened};
use crate::secret::{SecureSecret, zeros};
use crate::session::{Jitter, Session, SessionEvent, established};
use crate::session_table::{
    Emitted, SessionEntry, SessionTable, packet_effect, peer_index, rekey_effect, sweep_events, swept,
};

verus! {

/// Whether `e` reports a closed session.
pub open spec fn is_close(e: Emitted) -> bool {
    e.event is Closed
}

/// The address records after the sessions that `events` report closed have
/// been counted off, in order.
pub open spec fn closed_by(recs: Seq<IpRecord>, events: Seq<Emitted>) -> Seq<IpRecord>
    decreases events.len(),
{
    if events.len() == 0 {
        recs
    } else {
        let before = closed_by(recs, events.drop_last());
        if is_close(events.last()) {
            closed(before, events.last().ip)
        } else {
            before
        }
    }
}

/// Admission control and the session table of one responder.
pub struct Engine {
    pub admission: AdmissionController,
    pub sessions: SessionTable,
}

impl Engine {
    pub open spec fn wf(&self) -> bool {
        &&& self.admission.wf()
        &&& self.sessions.wf()
    }

    /// An engine under `cfg` with no sessions, its first cookie secret
    /// `key` made at `now`.
    pub fn new(cfg: &Config, key: CookieKey, now: u64) -> (e: Engine)
        requires
            cfg.is_valid(),
        ensures
            e.wf(),
            e.sessions@ == Seq::<SessionEntry>::empty(),
            e.admission.limiter.history()@.len() == 0,
            e.admission.low_watermark == cfg.low_watermark_sessions,
            e.admission.high_watermark == cfg.high_watermark_sessions,
    {
        Engine { admission: AdmissionController::new(cfg, key, now), sessions: SessionTable::new() }
    }

    /// Classifies an attempt against the number of open sessions.
    pub fn classify(&mut self, ip: u128, peer: &[u8], cookie: Option<u64>, now: u64) -> (r: Decision)
        requires
            old(self).wf(),
        ensures
            final(self).wf(),
            classified(
                old(self).admission,
                final(self).admission,
                ip,
                peer@,
                cookie,
                old(self).sessions@.len(),
                now,
                r,
            ),
            final(self).sessions == old(self).sessions,
    {
        let occupancy = self.sessions.occupancy();
        self.admission.classify(ip, peer, cookie, occupancy, now)
    }

    /// Opens the session of a completed handshake with `peer` at `ip`,
    /// unless `peer` has one already (then `keys` are wiped and dropped),
    /// and counts it against the address.
    pub fn establish(&mut self, peer: u64, ip: u128, keys: SecureSecret, now: u64, cfg: &Config, jit: Jitter) -> (r:
        bool)
        requires
            old(self).wf(),
            jit.within(cfg),
        ensures
            final(self).wf(),
            r == (peer_index(old(self).sessions@, peer) == -1),
            r ==> final(self).sessions@ == old(self).sessions@.push(
                SessionEntry { peer, ip, timers: established(now, cfg, jit) },
            ),
            r ==> final(self).admission.limiter.history()@ == opened(
                old(self).admission.limiter.history()@,
                old(self).admission.limiter.history().capacity(),
                ip,
            ),
            !r ==> final(self).sessions@ == old(self).sessions@,
            !r ==> final(self).admission.limiter.history()@ == old(self).admission.limiter.history()@,
    {
        let s = Session::establish(peer, ip, keys, now, cfg, jit);
        let r = self.sessions.insert(s);
        if r {
            self.admission.limiter.session_opened(ip);
        }
        r
    }

    /// Tears down the session of `peer`, if any, wiping its keys and
    /// counting it off its address.
    pub fn close(&mut self, peer: u64) -> (r: bool)
        requires
            old(self).wf(),
        ensures
            final(self).wf(),
            ({
                let k = peer_index(old(self).sessions@, peer);
                &&& r == (k >= 0)
                &&& !r ==> final(self).sessions@ == old(self).sessions@
                    && final(self).admission.limiter.history()@ == old(self).admission.limiter.history()@
                &&& r ==> final(self).sessions@ == old(self).sessions@.remove(k)
                    && final(self).admission.limiter.history()@ == closed(
                    old(self).admission.limiter.history()@,
                    old(self).sessions@[k].ip,
                )
            }),
    {
        match self.sessions.close(peer) {
            Some(ip) => {
                self.admission.limiter.session_closed(ip);
                true
            },
            None => false,
        }
    }

    /// A packet from `peer` arrived at `now`; a session that closes on the
    /// step taken is counted off its address.
    pub fn packet_received(&mut self, peer: u64, now: u64, cfg: &Config, jit: Jitter) -> (r: Option<Emitted>)
        requires
            old(self).wf(),
            jit.within(cfg),
        ensures
            final(self).wf(),
            packet_effect(old(self).sessions@, final(self).sessions@, peer, now, cfg, jit, r),
            r.is_some() && is_close(r.unwrap()) ==> final(self).admission.limiter.history()@
                == closed(old(self).admission.limiter.history()@, r.unwrap().ip),
            !(r.is_some() && is_close(r.unwrap())) ==> final(self).admission.limiter.history()@
                == old(self).admission.limiter.history()@,
    {
        let r = self.sessions.packet_received(peer, now, cfg, jit);
        match r {
            Some(e) => {
                if let SessionEvent::Closed(_) = e.event {
                    self.admission.limiter.session_closed(e.ip);
                }
            },
            None => {},
        }
        r
    }

    /// A rekey of `peer` derived `new_keys` at `now`: installed only into a
    /// session of `peer` that is rekeying and within its lifetime; either
    /// way `new_keys` ends all zero.
    pub fn complete_rekey(&mut self, peer: u64, new_keys: &mut SecureSecret, now: u64, cfg: &Config, jit: Jitter) -> (r:
        bool)
        requires
            old(self).wf(),
            jit.within(cfg),
        ensures
            final(self).wf(),
            rekey_effect(old(self).sessions@, final(self).sessions@, peer, now, cfg, jit, r),
            final(new_keys)@ == zeros(final(new_keys)@.len()),
            final(self).admission == old(self).admission,
    {
        self.sessions.complete_rekey(peer, new_keys, now, cfg, jit)
    }

    /// Runs the timers of every session at `now`; the sessions that close
    /// are counted off their addresses. Returns the events in table order.
    pub fn sweep(&mut self, now: u64) -> (r: Vec<Emitted>)
        requires
            old(self).wf(),
        ensures
            final(self).wf(),
            final(self).sessions@ == swept(old(self).sessions@, now),
            r@ == sweep_events(old(self).sessions@, now),
            final(self).admission.limiter.history()@ == closed_by(
                old(self).admission.limiter.history()@,
                r@,
            ),
    {
        let ghost s0 = self.sessions@;
        let events = self.sessions.sweep(now);
        let ghost h0 = self.admission.limiter.history()@;
        let mut i: usize = 0;
        while i < events.len()
            invariant
                self.wf(),
                self.sessions@ == swept(s0, now),
                i <= events@.len(),
                self.admission.limiter.history()@ == closed_by(h0, events@.subrange(0, i as int)),
            decreases events@.len() - i,
        {
            proof {
                assert(events@.subrange(0, i + 1).drop_last() =~= events@.subrange(0, i as int));
            }
            let e = events[i];
            if let SessionEvent::Closed(_) = e.event {
                self.admission.limiter.session_closed(e.ip);
            }
            i = i + 1;
        }
        proof {
            assert(events@.subrange(0, events@.len() as int) =~= events@);
        }
        events
    }
}

} // verus!
