//! Stateless cookie challenge: a token derived from a peer's identifying
//! bytes under a rotating secret, with two generations of secret live.

use vstd::prelude::*;
use std::hash::Hasher;

verus! {

/// What SipHash-2-4 under the key `(k0, k1)` gives for `data`.
pub uninterp spec fn siphash24(k0: u64, k1: u64, data: Seq<u8>) -> u64;

/// Relies on `std::hash::SipHasher::new_with_keys`, `Hasher::write` and
/// `Hasher::finish`: SipHash-2-4 of the bytes written, under the given key;
/// the result depends on the key and the bytes alone.
#[verifier::external_body]
#[allow(deprecated)]
fn keyed_hash(k0: u64, k1: u64, data: &[u8]) -> (r: u64)
    ensures
        r == siphash24(k0, k1, data@),
{
    let mut h = std::hash::SipHasher::new_with_keys(k0, k1);
    h.write(data);
    h.finish()
}

/// A cookie secret.
#[derive(Clone, Copy, PartialEq, Eq, Structural, Debug)]
pub struct CookieKey {
    pub k0: u64,
    pub k1: u64,
}

/// One generation of cookie secret, with the time it became current.
#[derive(Clone, Copy, PartialEq, Eq, Structural, Debug)]
pub struct Generation {
    pub key: CookieKey,
    pub born: u64,
}

/// The token of `peer` under `key`.
pub open spec fn token_of(key: CookieKey, peer: Seq<u8>) -> u64 {
    siphash24(key.k0, key.k1, peer)
}

/// Whether generation `g` accepts `token` from `peer` at `now`: the token is
/// the peer's under `g`'s secret, and `now` lies before two refresh periods
/// after `g` became current.
pub open spec fn gen_accepts(g: Generation, refresh: u64, peer: Seq<u8>, token: u64, now: u64) -> bool {
    &&& token == token_of(g.key, peer)
    &&& now < g.born + 2 * refresh
}

/// The ring of two live secrets.
pub struct CookieChallenge {
    pub current: Generation,
    pub previous: Option<Generation>,
    pub refresh: u64,
}

impl CookieChallenge {
    pub open spec fn wf(&self) -> bool {
        &&& self.refresh > 0
        &&& self.previous matches Some(p) ==> p.born + self.refresh <= self.current.born
    }

    /// Whether `token` from `peer` is valid at `now`.
    pub open spec fn accepts(&self, peer: Seq<u8>, token: u64, now: u64) -> bool {
        ||| gen_accepts(self.current, self.refresh, peer, token, now)
        ||| (self.previous matches Some(p) && gen_accepts(p, self.refresh, peer, token, now))
    }

    /// The ring after `rotate(now, fresh)`: once a refresh period has passed
    /// since the current secret was made, it becomes the previous one and
    /// `fresh` becomes current; the old previous one is forgotten.
    pub open spec fn rotated(&self, now: u64, fresh: CookieKey) -> CookieChallenge {
        if now >= self.current.born + self.refresh {
            CookieChallenge {
                current: Generation { key: fresh, born: now },
                previous: Some(self.current),
                refresh: self.refresh,
            }
        } else {
            *self
        }
    }

    /// A ring whose current secret is `key`, made at `now`.
    pub fn new(key: CookieKey, now: u64, refresh: u64) -> (r: CookieChallenge)
        requires
            refresh > 0,
        ensures
            r.wf(),
            r.current == (Generation { key, born: now }),
            r.previous.is_none(),
            r.refresh == refresh,
    {
        CookieChallenge { current: Generation { key, born: now }, previous: None, refresh }
    }

    /// Moves to a fresh secret if the current one is a refresh period old;
    /// says whether it did.
    pub fn rotate(&mut self, now: u64, fresh: CookieKey) -> (r: bool)
        requires
            old(self).wf(),
        ensures
            final(self).wf(),
            *final(self) == old(self).rotated(now, fresh),
            r == (now >= old(self).current.born + old(self).refresh),
    {
        if (now as u128) >= (self.current.born as u128) + (self.refresh as u128) {
            self.previous = Some(self.current);
            self.current = Generation { key: fresh, born: now };
            true
        } else {
            false
        }
    }

    /// The token that `peer` must echo, under the current secret.
    pub fn issue(&self, peer: &[u8]) -> (r: u64)
        ensures
            r == token_of(self.current.key, peer@),
    {
        keyed_hash(self.current.key.k0, self.current.key.k1, peer)
    }

    /// Whether `token` from `peer` is valid at `now`. Both generations are
    /// always checked, and the tokens are compared without branching on
    /// where they differ.
    pub fn validate(&self, peer: &[u8], token: u64, now: u64) -> (r: bool)
        ensures
            r == self.accepts(peer@, token, now),
    {
        let cur = gen_check(&self.current, self.refresh, peer, token, now);
        let prev = match self.previous {
            Some(p) => gen_check(&p, self.refresh, peer, token, now),
            None => false,
        };
        cur || prev
    }
}

/// `token` from `peer` matches a live generation made at `born`, and no
/// live generation made later.
pub open spec fn pinned(s: CookieChallenge, peer: Seq<u8>, token: u64, born: u64) -> bool {
    &&& ((token == token_of(s.current.key, peer) && s.current.born == born) || (s.previous matches Some(
        p,
    ) && token == token_of(p.key, peer) && p.born == born))
    &&& (token == token_of(s.current.key, peer) ==> s.current.born <= born)
    &&& (s.previous matches Some(p) ==> (token == token_of(p.key, peer) ==> p.born <= born))
}

/// `token` from `peer` matches no live generation.
pub open spec fn spent(s: CookieChallenge, peer: Seq<u8>, token: u64) -> bool {
    &&& token != token_of(s.current.key, peer)
    &&& (s.previous matches Some(p) ==> token != token_of(p.key, peer))
}

/// A token pinned to the generation made at `born` is valid exactly before
/// two refresh periods after `born`; a spent token is never valid.
pub proof fn lemma_pinned_validity(s: CookieChallenge, peer: Seq<u8>, token: u64, born: u64, now: u64)
    requires
        s.wf(),
    ensures
        pinned(s, peer, token, born) ==> (s.accepts(peer, token, now) == (now < born + 2 * s.refresh)),
        spent(s, peer, token) ==> !s.accepts(peer, token, now),
{
}

/// A token just issued is pinned to the current generation, so it is valid
/// at any time before two refresh periods after the current secret was made,
/// and invalid from then on, as long as the secrets stay as they are.
pub proof fn lemma_issued_cookie(s: CookieChallenge, peer: Seq<u8>, now: u64)
    requires
        s.wf(),
    ensures
        pinned(s, peer, token_of(s.current.key, peer), s.current.born),
        s.accepts(peer, token_of(s.current.key, peer), now) == (now < s.current.born + 2 * s.refresh),
{
    lemma_pinned_validity(s, peer, token_of(s.current.key, peer), s.current.born, now);
}

/// Cookie rotation continuity: a rotation whose fresh secret does not
/// reproduce the token keeps a token pinned to the generation made at
/// `born`, unless the rotation happens at or after `born` plus two refresh
/// periods, and then the token is spent. A spent token stays spent. With
/// `lemma_pinned_validity`, a cookie stays valid before `born` plus two
/// refresh periods and is invalid thereafter, across any rotations.
pub proof fn lemma_cookie_rotation_continuity(
    s: CookieChallenge,
    peer: Seq<u8>,
    token: u64,
    born: u64,
    t: u64,
    fresh: CookieKey,
)
    requires
        s.wf(),
        token != token_of(fresh, peer),
    ensures
        s.rotated(t, fresh).wf(),
        pinned(s, peer, token, born) ==> pinned(s.rotated(t, fresh), peer, token, born) || (spent(
            s.rotated(t, fresh),
            peer,
            token,
        ) && t >= born + 2 * s.refresh),
        spent(s, peer, token) ==> spent(s.rotated(t, fresh), peer, token),
{
}

/// Constant-time equality of two tokens.
fn tokens_equal(a: u64, b: u64) -> (r: bool)
    ensures
        r == (a == b),
{
    let d = a ^ b;
    proof {
        assert((a ^ b == 0u64) == (a == b)) by (bit_vector);
    }
    d == 0u64
}

fn gen_check(g: &Generation, refresh: u64, peer: &[u8], token: u64, now: u64) -> (r: bool)
    ensures
        r == gen_accepts(*g, refresh, peer@, token, now),
{
    let expected = keyed_hash(g.key.k0, g.key.k1, peer);
    let same = tokens_equal(expected, token);
    let fresh = (now as u128) < (g.born as u128) + 2 * (refresh as u128);
    same && fresh
}

} // verus!
