//! Bounded least-recently-used record of handshake attempts per source
//! address, with the number of live sessions of each address.

use vstd::prelude::*;

verus! {

/// A timestamp still counts at `now` if it lies within `window` of it.
pub open spec fn is_recent(t: u64, now: u64, window: u64) -> bool {
    now <= t + window
}

/// The timestamps of `s` that still count at `now`, in their order.
pub open spec fn recent_stamps(s: Seq<u64>, now: u64, window: u64) -> Seq<u64>
    decreases s.len(),
{
    if s.len() == 0 {
        s
    } else {
        let rest = recent_stamps(s.drop_last(), now, window);
        if is_recent(s.last(), now, window) {
            rest.push(s.last())
        } else {
            rest
        }
    }
}

/// What is known of one address.
pub struct IpRecord {
    pub ip: u128,
    pub stamps: Seq<u64>,
    pub sessions: nat,
}

/// Position of `ip` among `recs`, or -1.
pub open spec fn index_of(recs: Seq<IpRecord>, ip: u128) -> int {
    if exists|i: int| 0 <= i < recs.len() && recs[i].ip == ip {
        choose|i: int| 0 <= i < recs.len() && recs[i].ip == ip
    } else {
        -1
    }
}

/// No address appears twice.
pub open spec fn unique_ips(recs: Seq<IpRecord>) -> bool {
    forall|i: int, j: int| 0 <= i < j < recs.len() ==> recs[i].ip != recs[j].ip
}

/// The records after an attempt from `ip` at `now`: the address's entry moves
/// to the most recent end with `now` appended and stale stamps dropped; a new
/// address evicts the least recently used entry when the cache is full.
pub open spec fn recorded(recs: Seq<IpRecord>, cap: nat, window: u64, ip: u128, now: u64) -> Seq<IpRecord> {
    let k = index_of(recs, ip);
    if k >= 0 {
        let e = recs[k];
        recs.remove(k).push(
            IpRecord { ip, stamps: recent_stamps(e.stamps.push(now), now, window), sessions: e.sessions },
        )
    } else {
        let kept = if recs.len() >= cap { recs.drop_first() } else { recs };
        kept.push(IpRecord { ip, stamps: seq![now], sessions: 0 })
    }
}

/// The number of live sessions that `recs` holds for `ip`.
pub open spec fn sessions_of(recs: Seq<IpRecord>, ip: u128) -> nat {
    let k = index_of(recs, ip);
    if k >= 0 { recs[k].sessions } else { 0 }
}

/// The stamps that `recs` holds for `ip`.
pub open spec fn stamps_of(recs: Seq<IpRecord>, ip: u128) -> Seq<u64> {
    let k = index_of(recs, ip);
    if k >= 0 { recs[k].stamps } else { Seq::empty() }
}

/// The records after a session of `ip` is established: its count grows by
/// one (saturating); an address not held enters at the most recent end,
/// evicting the least recently used entry when the cache is full.
pub open spec fn opened(recs: Seq<IpRecord>, cap: nat, ip: u128) -> Seq<IpRecord> {
    let k = index_of(recs, ip);
    if k >= 0 {
        let e = recs[k];
        if e.sessions < usize::MAX {
            recs.update(k, IpRecord { sessions: e.sessions + 1, ..e })
        } else {
            recs
        }
    } else {
        let kept = if recs.len() >= cap { recs.drop_first() } else { recs };
        kept.push(IpRecord { ip, stamps: Seq::empty(), sessions: 1 })
    }
}

/// The records after a session of `ip` ends: its count shrinks by one, if
/// it is held and positive.
pub open spec fn closed(recs: Seq<IpRecord>, ip: u128) -> Seq<IpRecord> {
    let k = index_of(recs, ip);
    if k >= 0 && recs[k].sessions > 0 {
        let e = recs[k];
        recs.update(k, IpRecord { sessions: (e.sessions - 1) as nat, ..e })
    } else {
        recs
    }
}

proof fn lemma_recent_none(s: Seq<u64>, now: u64, window: u64)
    requires
        forall|i: int| 0 <= i < s.len() ==> !is_recent(#[trigger] s[i], now, window),
    ensures
        recent_stamps(s, now, window).len() == 0,
    decreases s.len(),
{
    if s.len() > 0 {
        lemma_recent_none(s.drop_last(), now, window);
    }
}

/// After an attempt, the entry of `ip` is the most recent one, and its stamps
/// are those of before with `now` appended, stale ones dropped.
pub proof fn lemma_recorded(recs: Seq<IpRecord>, cap: nat, window: u64, ip: u128, now: u64)
    requires
        unique_ips(recs),
        0 < cap,
        recs.len() <= cap,
    ensures
        unique_ips(recorded(recs, cap, window, ip, now)),
        index_of(recorded(recs, cap, window, ip, now), ip) == recorded(recs, cap, window, ip, now).len() - 1,
        stamps_of(recorded(recs, cap, window, ip, now), ip)
            == recent_stamps(stamps_of(recs, ip).push(now), now, window),
{
    let r = recorded(recs, cap, window, ip, now);
    let k = index_of(recs, ip);
    if k >= 0 {
        assert forall|a: int, b: int| 0 <= a < b < r.len() implies r[a].ip != r[b].ip by {
            if b == r.len() - 1 {
                if a < k {
                    assert(recs[a].ip != recs[k].ip);
                } else {
                    assert(recs[a + 1].ip != recs[k].ip);
                }
            }
        }
    } else {
        let kept = if recs.len() >= cap { recs.drop_first() } else { recs };
        assert forall|a: int, b: int| 0 <= a < b < r.len() implies r[a].ip != r[b].ip by {
            if b == r.len() - 1 {
                if recs.len() >= cap {
                    assert(recs[a + 1].ip == r[a].ip);
                } else {
                    assert(recs[a].ip == r[a].ip);
                }
            } else {
                if recs.len() >= cap {
                    assert(recs[a + 1].ip != recs[b + 1].ip);
                }
            }
        }
        assert(stamps_of(recs, ip).push(now).drop_last() =~= Seq::<u64>::empty());
        assert(recent_stamps(Seq::<u64>::empty(), now, window) == Seq::<u64>::empty());
        assert(recent_stamps(stamps_of(recs, ip).push(now), now, window) =~= seq![now]);
    }
    lemma_index_of(r, ip, r.len() - 1);
}

/// Per-address rate limit: an attempt from an address that already has
/// `max` attempts counting at `now` makes the count exceed `max`, so it is
/// refused; an attempt from an address whose earlier attempts all lie more
/// than the window before `now` is counted alone, so it is admitted whenever
/// `max` is at least one.
pub proof fn lemma_per_ip_rate_limit(
    recs: Seq<IpRecord>,
    cap: nat,
    window: u64,
    ip: u128,
    now: u64,
    max: nat,
)
    requires
        unique_ips(recs),
        0 < cap,
        recs.len() <= cap,
    ensures
        recent_stamps(stamps_of(recs, ip), now, window).len() >= max
            ==> stamps_of(recorded(recs, cap, window, ip, now), ip).len() > max,
        (forall|i: int| 0 <= i < stamps_of(recs, ip).len()
            ==> !is_recent(#[trigger] stamps_of(recs, ip)[i], now, window))
            ==> stamps_of(recorded(recs, cap, window, ip, now), ip).len() == 1,
{
    lemma_recorded(recs, cap, window, ip, now);
    let s = stamps_of(recs, ip);
    assert(s.push(now).drop_last() =~= s);
    if forall|i: int| 0 <= i < s.len() ==> !is_recent(#[trigger] s[i], now, window) {
        lemma_recent_none(s, now, window);
    }
}

struct IpEntry {
    ip: u128,
    stamps: Vec<u64>,
    sessions: usize,
}

impl IpEntry {
    spec fn view(&self) -> IpRecord {
        IpRecord { ip: self.ip, stamps: self.stamps@, sessions: self.sessions as nat }
    }
}

/// Per-address attempt history, least recently used entry first.
pub struct IpHistory {
    entries: Vec<IpEntry>,
    capacity: usize,
    window: u64,
}

proof fn lemma_index_of(recs: Seq<IpRecord>, ip: u128, k: int)
    requires
        unique_ips(recs),
        0 <= k < recs.len(),
        recs[k].ip == ip,
    ensures
        index_of(recs, ip) == k,
{
}

proof fn lemma_index_of_absent(recs: Seq<IpRecord>, ip: u128)
    requires
        forall|i: int| 0 <= i < recs.len() ==> recs[i].ip != ip,
    ensures
        index_of(recs, ip) == -1,
{
}

impl IpHistory {
    pub closed spec fn view(&self) -> Seq<IpRecord> {
        self.entries@.map_values(|e: IpEntry| e@)
    }

    /// Most entries kept.
    pub closed spec fn capacity(&self) -> nat {
        self.capacity as nat
    }

    /// How long an attempt counts.
    pub closed spec fn window(&self) -> u64 {
        self.window
    }

    pub closed spec fn wf(&self) -> bool {
        &&& self.capacity > 0
        &&& self.entries@.len() <= self.capacity
        &&& unique_ips(self@)
    }

    pub fn new(capacity: usize, window: u64) -> (h: IpHistory)
        requires
            capacity > 0,
        ensures
            h.wf(),
            h@ == Seq::<IpRecord>::empty(),
            h.capacity() == capacity,
            h.window() == window,
    {
        let h = IpHistory { entries: Vec::new(), capacity, window };
        proof {
            assert(h@ =~= Seq::<IpRecord>::empty());
        }
        h
    }

    /// Number of addresses held.
    pub fn len(&self) -> (r: usize)
        ensures
            r == self@.len(),
    {
        self.entries.len()
    }

    fn position(&self, ip: u128) -> (r: Option<usize>)
        requires
            self.wf(),
        ensures
            r.is_some() ==> r.unwrap() < self@.len() && index_of(self@, ip) == r.unwrap() as int,
            r.is_none() ==> index_of(self@, ip) == -1,
    {
        let mut i: usize = 0;
        while i < self.entries.len()
            invariant
                self.wf(),
                i <= self.entries@.len(),
                forall|j: int| 0 <= j < i ==> self@[j].ip != ip,
            decreases self.entries@.len() - i,
        {
            if self.entries[i].ip == ip {
                proof {
                    lemma_index_of(self@, ip, i as int);
                }
                return Some(i);
            }
            i = i + 1;
        }
        proof {
            lemma_index_of_absent(self@, ip);
        }
        None
    }

    /// Live sessions of `ip`.
    pub fn session_count(&self, ip: u128) -> (r: usize)
        requires
            self.wf(),
        ensures
            r as nat == sessions_of(self@, ip),
    {
        match self.position(ip) {
            Some(i) => self.entries[i].sessions,
            None => 0,
        }
    }

    /// Counts a newly established session of `ip`.
    pub fn session_opened(&mut self, ip: u128)
        requires
            old(self).wf(),
        ensures
            final(self).wf(),
            final(self)@ == opened(old(self)@, old(self).capacity(), ip),
            final(self).capacity() == old(self).capacity(),
            final(self).window() == old(self).window(),
    {
        let ghost before = self@;
        match self.position(ip) {
            Some(i) => {
                if self.entries[i].sessions < usize::MAX {
                    let e = self.entries.remove(i);
                    self.entries.insert(i, IpEntry { ip, stamps: e.stamps, sessions: e.sessions + 1 });
                    proof {
                        assert(self@ =~= opened(before, self.capacity as nat, ip));
                    }
                }
            },
            None => {
                if self.entries.len() >= self.capacity {
                    self.entries.remove(0);
                }
                self.entries.push(IpEntry { ip, stamps: Vec::new(), sessions: 1 });
                proof {
                    assert(self@ =~= opened(before, self.capacity as nat, ip));
                }
            },
        }
    }

    /// Counts the end of a session of `ip`.
    pub fn session_closed(&mut self, ip: u128)
        requires
            old(self).wf(),
        ensures
            final(self).wf(),
            final(self)@ == closed(old(self)@, ip),
            final(self).capacity() == old(self).capacity(),
            final(self).window() == old(self).window(),
    {
        let ghost before = self@;
        match self.position(ip) {
            Some(i) => {
                if self.entries[i].sessions > 0 {
                    let e = self.entries.remove(i);
                    self.entries.insert(i, IpEntry { ip, stamps: e.stamps, sessions: e.sessions - 1 });
                    proof {
                        assert(self@ =~= closed(before, ip));
                    }
                }
            },
            None => {},
        }
    }

    /// Records an attempt from `ip` at `now` and returns how many attempts of
    /// `ip` count at `now`, this one included.
    pub fn record(&mut self, ip: u128, now: u64) -> (r: usize)
        requires
            old(self).wf(),
        ensures
            final(self).wf(),
            final(self)@ == recorded(old(self)@, old(self).capacity(), old(self).window(), ip, now),
            final(self).capacity() == old(self).capacity(),
            final(self).window() == old(self).window(),
            r as nat == stamps_of(final(self)@, ip).len(),
    {
        let ghost before = self@;
        match self.position(ip) {
            Some(i) => {
                let mut e = self.entries.remove(i);
                e.stamps.push(now);
                let stamps = prune(&e.stamps, now, self.window);
                let e2 = IpEntry { ip, stamps, sessions: e.sessions };
                let r = e2.stamps.len();
                self.entries.push(e2);
                proof {
                    assert(self@ =~= recorded(before, self.capacity as nat, self.window, ip, now));
                    assert(unique_ips(self@)) by {
                        assert forall|a: int, b: int| 0 <= a < b < self@.len()
                            implies self@[a].ip != self@[b].ip by {
                            if b == self@.len() - 1 {
                                if a < i {
                                    assert(before[a].ip != before[i as int].ip);
                                } else {
                                    assert(before[a + 1].ip != before[i as int].ip);
                                }
                            }
                        }
                    }
                    lemma_index_of(self@, ip, self@.len() - 1);
                }
                r
            },
            None => {
                if self.entries.len() >= self.capacity {
                    self.entries.remove(0);
                }
                let mut stamps: Vec<u64> = Vec::new();
                stamps.push(now);
                self.entries.push(IpEntry { ip, stamps, sessions: 0 });
                proof {
                    assert(self@ =~= recorded(before, self.capacity as nat, self.window, ip, now));
                    lemma_index_of(self@, ip, self@.len() - 1);
                }
                1
            },
        }
    }
}

/// The stamps of `s` that still count at `now`.
fn prune(s: &Vec<u64>, now: u64, window: u64) -> (r: Vec<u64>)
    ensures
        r@ == recent_stamps(s@, now, window),
{
    let mut r: Vec<u64> = Vec::new();
    let mut i: usize = 0;
    while i < s.len()
        invariant
            i <= s@.len(),
            r@ == recent_stamps(s@.subrange(0, i as int), now, window),
        decreases s@.len() - i,
    {
        proof {
            assert(s@.subrange(0, i + 1).drop_last() =~= s@.subrange(0, i as int));
        }
        if (now as u128) <= (s[i] as u128) + (window as u128) {
            r.push(s[i]);
        }
        i = i + 1;
    }
    proof {
        assert(s@.subrange(0, s@.len() as int) =~= s@);
    }
    r
}

} // verus!
