//! Session continuity: a session survives a transient network drop.
//!
//! When a session starts the client is handed an opaque resume token. If the
//! connection drops, the session is frozen for a grace period; a client that
//! reconnects with the token is re-attached to the same desktop. Frozen
//! entries whose grace period has elapsed are reaped.
use vstd::prelude::*;
use crate::text::{hex_fixed, hex16, string_from_str, append_str, str_eq};
use crate::clock::{unix_nanos, monotonic_now, monotonic_nanos_since};

verus! {

/// How long a dropped session stays resumable, in milliseconds (90 s).
pub const DEFAULT_GRACE_MILLIS: u64 = 90_000;

#[derive(Debug, Clone, Copy, PartialEq, Eq, Structural)]
pub enum ResumeState {
    /// A client is attached and streaming.
    Attached,
    /// The client dropped; the session is parked until its deadline.
    Frozen,
}

#[derive(Debug)]
struct Entry {
    token: String,
    session_id: String,
    state: ResumeState,
    /// Time (nanoseconds) at which a frozen entry may be reaped.
    frozen_until: Option<u64>,
}

/// An entry as plain values.
spec fn ev(e: Entry) -> (Seq<char>, Seq<char>, ResumeState, Option<u64>) {
    (e.token@, e.session_id@, e.state, e.frozen_until)
}

/// An entry as the registry reports it.
spec fn eview(e: Entry) -> (Seq<char>, ResumeState, Option<u64>) {
    (e.session_id@, e.state, e.frozen_until)
}

fn clone_entry(e: &Entry) -> (r: Entry)
    ensures
        ev(r) == ev(*e),
{
    Entry { token: e.token.clone(), session_id: e.session_id.clone(), state: e.state, frozen_until: e.frozen_until }
}

type FullEntry = (Seq<char>, Seq<char>, ResumeState, Option<u64>);

spec fn expired_full(e: FullEntry, now: u64) -> bool {
    expired((e.1, e.2, e.3), now)
}

/// The entries that survive reaping at `now`, in order.
spec fn keep_seq(s: Seq<FullEntry>, now: u64) -> Seq<FullEntry>
    decreases s.len(),
{
    if s.len() == 0 {
        Seq::empty()
    } else {
        let r = keep_seq(s.drop_last(), now);
        if expired_full(s.last(), now) { r } else { r.push(s.last()) }
    }
}

proof fn lemma_keep_seq(s: Seq<FullEntry>, now: u64)
    ensures
        forall|x: FullEntry| #[trigger] keep_seq(s, now).contains(x) <==> (s.contains(x) && !expired_full(x, now)),
        (forall|a: int, b: int| 0 <= a < b < s.len() ==> s[a].0 != s[b].0) ==>
            (forall|a: int, b: int| 0 <= a < b < keep_seq(s, now).len() ==> keep_seq(s, now)[a].0 != keep_seq(s, now)[b].0),
    decreases s.len(),
{
    if s.len() > 0 {
        let init = s.drop_last();
        lemma_keep_seq(init, now);
        let r = keep_seq(init, now);
        assert(s =~= init.push(s.last()));
        assert forall|x: FullEntry| #[trigger] keep_seq(s, now).contains(x) <==> (s.contains(x) && !expired_full(x, now)) by {
            if s.contains(x) && x != s.last() {
                let k = choose|k: int| 0 <= k < s.len() && s[k] == x;
                assert(init[k] == x);
            }
            if init.contains(x) {
                let k = choose|k: int| 0 <= k < init.len() && init[k] == x;
                assert(s[k] == x);
            }
            if !expired_full(s.last(), now) {
                if r.push(s.last()).contains(x) && x != s.last() {
                    let k = choose|k: int| 0 <= k < r.len() + 1 && r.push(s.last())[k] == x;
                    assert(r[k] == x);
                }
                if r.contains(x) {
                    let k = choose|k: int| 0 <= k < r.len() && r[k] == x;
                    assert(r.push(s.last())[k] == x);
                }
                assert(r.push(s.last())[r.len() as int] == s.last());
            }
        }
        if forall|a: int, b: int| 0 <= a < b < s.len() ==> s[a].0 != s[b].0 {
            assert forall|a: int, b: int| 0 <= a < b < init.len() implies init[a].0 != init[b].0 by {
                assert(init[a] == s[a] && init[b] == s[b]);
            }
            if !expired_full(s.last(), now) {
                assert forall|a: int| 0 <= a < r.len() implies r[a].0 != s.last().0 by {
                    assert(r.contains(r[a]));
                    let k = choose|k: int| 0 <= k < init.len() && init[k] == r[a];
                    assert(s[k] == init[k]);
                    assert(s[s.len() - 1] == s.last());
                }
                let r2 = r.push(s.last());
                assert forall|a: int, b: int| 0 <= a < b < r2.len() implies r2[a].0 != r2[b].0 by {
                    if b < r.len() {
                        assert(r2[a] == r[a] && r2[b] == r[b]);
                    } else {
                        assert(r2[a] == r[a] && r2[b] == s.last());
                    }
                }
            }
        }
    }
}

/// What the registry holds for one token: session id, state, deadline.
pub type EntryView = (Seq<char>, ResumeState, Option<u64>);

/// A grace period of `ms` milliseconds in nanoseconds, saturated to `u64`.
pub open spec fn grace_nanos_of(ms: u64) -> u64 {
    if ms * 1_000_000 > u64::MAX { u64::MAX } else { (ms * 1_000_000) as u64 }
}

/// Registry of resumable sessions keyed by resume token.
pub struct ResumeRegistry {
    grace_nanos: u64,
    entries: Vec<Entry>,
    /// Times are nanoseconds of the monotonic clock since this reading.
    origin: std::time::Instant,
}

/// The entries after `token` is frozen at `now` with `grace`: a tracked
/// token stays bound to its session, frozen until `now + grace` (saturating
/// at the clock's end); an untracked token changes nothing.
pub open spec fn frozen_at(m: Map<Seq<char>, EntryView>, token: Seq<char>, now: u64, grace: u64) -> Map<Seq<char>, EntryView> {
    if m.contains_key(token) {
        m.insert(token, (m[token].0, ResumeState::Frozen,
            Some(if now + grace > u64::MAX { u64::MAX } else { (now + grace) as u64 })))
    } else {
        m
    }
}

/// Whether an entry is a frozen one whose deadline has passed at `now`.
pub open spec fn expired(e: EntryView, now: u64) -> bool {
    &&& e.1 == ResumeState::Frozen
    &&& e.2 is Some
    &&& now >= e.2->0
}

/// The map left after reaping expired entries at `now`.
pub open spec fn reaped(m: Map<Seq<char>, EntryView>, now: u64) -> Map<Seq<char>, EntryView> {
    Map::new(|k: Seq<char>| m.contains_key(k) && !expired(m[k], now), |k: Seq<char>| m[k])
}

/// FNV-1a over `bytes`, starting from `h`.
pub open spec fn fnv1a(h: u64, bytes: Seq<u8>) -> u64
    decreases bytes.len(),
{
    if bytes.len() == 0 {
        h
    } else {
        fnv1a(vstd::wrapping::u64_specs::wrapping_mul(h ^ (bytes[0] as u64), 0x100000001b3), bytes.drop_first())
    }
}

/// The `n` little-endian bytes of `v`.
pub open spec fn le_bytes(v: nat, n: nat) -> Seq<u8>
    decreases n,
{
    if n == 0 { Seq::empty() } else { seq![(v % 256) as u8] + le_bytes(v / 256, (n - 1) as nat) }
}

/// The token issued for a session id at a given clock reading.
pub open spec fn token_for(session_id: Seq<char>, nanos: u128) -> Seq<char> {
    "rt_"@ + hex_fixed(
        fnv1a(0xcbf29ce484222325, vstd::utf8::encode_utf8(session_id) + le_bytes(nanos as nat, 16)) as nat,
        16,
    )
}

fn le_bytes_exec(v: u128, n: usize) -> (r: Vec<u8>)
    ensures
        r@ == le_bytes(v as nat, n as nat),
    decreases n,
{
    if n == 0 {
        Vec::new()
    } else {
        let rest = le_bytes_exec(v / 256, n - 1);
        let mut r = Vec::new();
        r.push((v % 256) as u8);
        let mut i: usize = 0;
        while i < rest.len()
            invariant
                i <= rest@.len(),
                r@ == seq![(v % 256) as u8] + rest@.subrange(0, i as int),
            decreases rest.len() - i,
        {
            r.push(rest[i]);
            i = i + 1;
            assert(r@ =~= seq![(v % 256) as u8] + rest@.subrange(0, i as int));
        }
        assert(rest@.subrange(0, rest@.len() as int) =~= rest@);
        r
    }
}

fn fnv1a_exec(h: u64, bytes: &[u8]) -> (r: u64)
    ensures
        r == fnv1a(h, bytes@),
{
    let mut hash = h;
    let mut i: usize = 0;
    assert(bytes@.subrange(0, bytes@.len() as int) =~= bytes@);
    while i < bytes.len()
        invariant
            i <= bytes@.len(),
            fnv1a(hash, bytes@.subrange(i as int, bytes@.len() as int)) == fnv1a(h, bytes@),
        decreases bytes.len() - i,
    {
        assert(bytes@.subrange(i as int, bytes@.len() as int).drop_first()
            =~= bytes@.subrange(i + 1, bytes@.len() as int));
        hash = (hash ^ bytes[i] as u64).wrapping_mul(0x100000001b3);
        i = i + 1;
    }
    assert(bytes@.subrange(i as int, bytes@.len() as int) =~= Seq::<u8>::empty());
    hash
}

/// The resume token for a session id at a clock reading of `nanos`.
pub fn token_at(session_id: &str, nanos: u128) -> (r: String)
    ensures
        r@ == token_for(session_id@, nanos),
{
    let mut data: Vec<u8> = Vec::new();
    let b = session_id.as_bytes();
    let mut i: usize = 0;
    while i < b.len()
        invariant
            i <= b@.len(),
            data@ == b@.subrange(0, i as int),
        decreases b.len() - i,
    {
        data.push(b[i]);
        i = i + 1;
        assert(data@ =~= b@.subrange(0, i as int));
    }
    let le = le_bytes_exec(nanos, 16);
    let mut j: usize = 0;
    while j < le.len()
        invariant
            j <= le@.len(),
            data@ == b@ + le@.subrange(0, j as int),
        decreases le.len() - j,
    {
        data.push(le[j]);
        j = j + 1;
        assert(data@ =~= b@ + le@.subrange(0, j as int));
    }
    assert(le@.subrange(0, le@.len() as int) =~= le@);
    assert(b@.subrange(0, b@.len() as int) =~= b@);
    let hash = fnv1a_exec(0xcbf29ce484222325, data.as_slice());
    let mut t = string_from_str("rt_");
    let hex = hex16(hash);
    append_str(&mut t, hex.as_str());
    t
}

impl ResumeRegistry {
    /// What the registry holds, by token.
    pub closed spec fn view_map(self) -> Map<Seq<char>, EntryView> {
        Map::new(
            |k: Seq<char>| exists|i: int| 0 <= i < self.entries@.len() && self.entries@[i].token@ == k,
            |k: Seq<char>| {
                let i = choose|i: int| 0 <= i < self.entries@.len() && self.entries@[i].token@ == k;
                (self.entries@[i].session_id@, self.entries@[i].state, self.entries@[i].frozen_until)
            },
        )
    }

    /// The grace period, in nanoseconds.
    pub closed spec fn grace(self) -> u64 {
        self.grace_nanos
    }

    /// No token occurs twice.
    pub closed spec fn wf(self) -> bool {
        forall|i: int, j: int| 0 <= i < j < self.entries@.len()
            ==> self.entries@[i].token@ != self.entries@[j].token@
    }

    proof fn lemma_lookup(self, i: int)
        requires
            self.wf(),
            0 <= i < self.entries@.len(),
        ensures
            self.view_map().contains_key(self.entries@[i].token@),
            self.view_map()[self.entries@[i].token@]
                == (self.entries@[i].session_id@, self.entries@[i].state, self.entries@[i].frozen_until),
    {
        let k = self.entries@[i].token@;
        let j = choose|j: int| 0 <= j < self.entries@.len() && self.entries@[j].token@ == k;
        if j != i {
            if j < i {
                assert(self.entries@[j].token@ != self.entries@[i].token@);
            } else {
                assert(self.entries@[i].token@ != self.entries@[j].token@);
            }
        }
    }

    pub fn new(grace_millis: u64) -> (r: ResumeRegistry)
        ensures
            r.wf(),
            r.view_map() == Map::<Seq<char>, EntryView>::empty(),
            r.grace() == grace_nanos_of(grace_millis),
    {
        let grace_nanos: u64 = if grace_millis > 18_446_744_073_709 {
            u64::MAX
        } else {
            assert(grace_millis * 1_000_000 <= u64::MAX) by (nonlinear_arith)
                requires
                    grace_millis <= 18_446_744_073_709u64;
            grace_millis * 1_000_000
        };
        assert(grace_millis > 18_446_744_073_709 ==> grace_millis * 1_000_000 > u64::MAX) by (nonlinear_arith);
        let r = ResumeRegistry { grace_nanos, entries: Vec::new(), origin: monotonic_now() };
        assert(r.view_map() =~= Map::<Seq<char>, EntryView>::empty());
        r
    }

    fn find(&self, token: &str) -> (r: Option<usize>)
        requires
            self.wf(),
        ensures
            match r {
                Some(i) => i < self.entries@.len() && self.entries@[i as int].token@ == token@,
                None => !self.view_map().contains_key(token@),
            },
    {
        let mut i: usize = 0;
        while i < self.entries.len()
            invariant
                i <= self.entries@.len(),
                forall|j: int| 0 <= j < i ==> self.entries@[j].token@ != token@,
            decreases self.entries.len() - i,
        {
            if str_eq(self.entries[i].token.as_str(), token) {
                return Some(i);
            }
            i = i + 1;
        }
        None
    }

    fn set_entry(&mut self, i: usize, e: Entry)
        requires
            old(self).wf(),
            i < old(self).entries@.len(),
            e.token@ == old(self).entries@[i as int].token@,
        ensures
            final(self).wf(),
            final(self).grace() == old(self).grace(),
            final(self).view_map() == old(self).view_map().insert(e.token@, (e.session_id@, e.state, e.frozen_until)),
    {
        let ghost old_self = *self;
        self.entries.set(i, e);
        proof {
            assert forall|k: Seq<char>| #![auto] self.view_map().contains_key(k)
                <==> old_self.view_map().insert(e.token@, (e.session_id@, e.state, e.frozen_until)).contains_key(k) by {
                if self.view_map().contains_key(k) {
                    let j = choose|j: int| 0 <= j < self.entries@.len() && self.entries@[j].token@ == k;
                    if j != i { old_self.lemma_lookup(j); }
                }
                if old_self.view_map().contains_key(k) {
                    let j = choose|j: int| 0 <= j < old_self.entries@.len() && old_self.entries@[j].token@ == k;
                    assert(self.entries@[j].token@ == k);
                }
            }
            assert forall|k: Seq<char>| #![auto] self.view_map().contains_key(k)
                implies self.view_map()[k] == old_self.view_map().insert(e.token@, (e.session_id@, e.state, e.frozen_until))[k] by {
                let j = choose|j: int| 0 <= j < self.entries@.len() && self.entries@[j].token@ == k;
                self.lemma_lookup(j);
                if j != i { old_self.lemma_lookup(j); }
            }
            assert(self.view_map() =~= old_self.view_map().insert(e.token@, (e.session_id@, e.state, e.frozen_until)));
        }
    }

    fn push_entry(&mut self, e: Entry)
        requires
            old(self).wf(),
            !old(self).view_map().contains_key(e.token@),
        ensures
            final(self).wf(),
            final(self).grace() == old(self).grace(),
            final(self).view_map() == old(self).view_map().insert(e.token@, (e.session_id@, e.state, e.frozen_until)),
    {
        let ghost old_self = *self;
        proof {
            assert forall|j: int| 0 <= j < old_self.entries@.len() implies old_self.entries@[j].token@ != e.token@ by {
                old_self.lemma_lookup(j);
            }
        }
        self.entries.push(e);
        let ghost n = old_self.entries@.len() as int;
        proof {
            assert forall|k: Seq<char>| #![auto] self.view_map().contains_key(k)
                <==> old_self.view_map().insert(e.token@, (e.session_id@, e.state, e.frozen_until)).contains_key(k) by {
                if self.view_map().contains_key(k) {
                    let j = choose|j: int| 0 <= j < self.entries@.len() && self.entries@[j].token@ == k;
                    if j != n { old_self.lemma_lookup(j); }
                }
                if old_self.view_map().contains_key(k) {
                    let j = choose|j: int| 0 <= j < old_self.entries@.len() && old_self.entries@[j].token@ == k;
                    assert(self.entries@[j].token@ == k);
                }
                if k == e.token@ {
                    assert(self.entries@[n].token@ == k);
                }
            }
            assert forall|k: Seq<char>| #![auto] self.view_map().contains_key(k)
                implies self.view_map()[k] == old_self.view_map().insert(e.token@, (e.session_id@, e.state, e.frozen_until))[k] by {
                let j = choose|j: int| 0 <= j < self.entries@.len() && self.entries@[j].token@ == k;
                self.lemma_lookup(j);
                if j != n { old_self.lemma_lookup(j); }
            }
            assert(self.view_map() =~= old_self.view_map().insert(e.token@, (e.session_id@, e.state, e.frozen_until)));
        }
    }

    /// Register a freshly started session under the token computed from its
    /// id and the clock reading `nanos`, replacing any entry with that token.
    pub fn register_at(&mut self, session_id: &str, nanos: u128) -> (token: String)
        requires
            old(self).wf(),
        ensures
            final(self).wf(),
            final(self).grace() == old(self).grace(),
            token@ == token_for(session_id@, nanos),
            final(self).view_map() == old(self).view_map().insert(token@, (session_id@, ResumeState::Attached, None::<u64>)),
    {
        let token = token_at(session_id, nanos);
        let e = Entry {
            token: token.clone(),
            session_id: string_from_str(session_id),
            state: ResumeState::Attached,
            frozen_until: None,
        };
        match self.find(token.as_str()) {
            Some(i) => self.set_entry(i, e),
            None => self.push_entry(e),
        }
        token
    }

    /// Register a freshly started session and return its resume token.
    pub fn register(&mut self, session_id: &str) -> (token: String)
        requires
            old(self).wf(),
        ensures
            final(self).wf(),
            final(self).grace() == old(self).grace(),
            exists|nanos: u128| token@ == token_for(session_id@, nanos),
            final(self).view_map() == old(self).view_map().insert(token@, (session_id@, ResumeState::Attached, None::<u64>)),
    {
        let nanos = unix_nanos();
        self.register_at(session_id, nanos)
    }

    /// Freeze the session behind `token` at time `now` (nanoseconds): it
    /// stays resumable until `now + grace` (saturating at the clock's end).
    pub fn freeze_at(&mut self, token: &str, now: u64)
        requires
            old(self).wf(),
        ensures
            final(self).wf(),
            final(self).grace() == old(self).grace(),
            final(self).view_map() == frozen_at(old(self).view_map(), token@, now, old(self).grace()),
    {
        match self.find(token) {
            Some(i) => {
                proof { self.lemma_lookup(i as int); }
                let until = now.saturating_add(self.grace_nanos);
                let e = Entry {
                    token: self.entries[i].token.clone(),
                    session_id: self.entries[i].session_id.clone(),
                    state: ResumeState::Frozen,
                    frozen_until: Some(until),
                };
                self.set_entry(i, e);
            },
            None => {},
        }
    }

    /// Freeze the session behind `token` now.
    pub fn freeze(&mut self, token: &str)
        requires
            old(self).wf(),
        ensures
            final(self).wf(),
            final(self).grace() == old(self).grace(),
            final(self).view_map().dom() == old(self).view_map().dom(),
            old(self).view_map().contains_key(token@) ==> final(self).view_map()[token@].1 == ResumeState::Frozen,
            forall|k: Seq<char>| k != token@ ==> #[trigger] final(self).view_map().get(k) == old(self).view_map().get(k),
            exists|now: u64| #![trigger frozen_at(old(self).view_map(), token@, now, old(self).grace())]
                final(self).view_map() == frozen_at(old(self).view_map(), token@, now, old(self).grace()),
    {
        let now = monotonic_nanos_since(&self.origin);
        self.freeze_at(token, now);
        proof {
            assert(final(self).view_map().dom() =~= old(self).view_map().dom());
        }
    }

    /// Remove every frozen entry whose deadline has passed at `now`.
    pub fn reap_at(&mut self, now: u64)
        requires
            old(self).wf(),
        ensures
            final(self).wf(),
            final(self).grace() == old(self).grace(),
            final(self).view_map() == reaped(old(self).view_map(), now),
    {
        let ghost old_self = *self;
        let ghost s = self.entries@.map_values(|e: Entry| ev(e));
        let mut kept: Vec<Entry> = Vec::new();
        let mut i: usize = 0;
        while i < self.entries.len()
            invariant
                *self == old_self,
                s == self.entries@.map_values(|e: Entry| ev(e)),
                i <= self.entries@.len(),
                kept@.map_values(|e: Entry| ev(e)) == keep_seq(s.take(i as int), now),
            decreases self.entries.len() - i,
        {
            let e = &self.entries[i];
            let is_expired = match (e.state, e.frozen_until) {
                (ResumeState::Frozen, Some(until)) => now >= until,
                _ => false,
            };
            assert(s.take(i + 1).drop_last() =~= s.take(i as int));
            assert(s.take(i + 1).last() == ev(*e));
            if !is_expired {
                let ghost prev = kept@;
                kept.push(clone_entry(e));
                assert(kept@.map_values(|e: Entry| ev(e)) =~= prev.map_values(|e: Entry| ev(e)).push(ev(*e)));
            }
            i = i + 1;
        }
        assert(s.take(s.len() as int) =~= s);
        self.entries = kept;
        proof {
            let ks = kept@.map_values(|e: Entry| ev(e));
            assert forall|a: int, b: int| 0 <= a < b < s.len() implies s[a].0 != s[b].0 by {
                assert(s[a] == ev(old_self.entries@[a]));
                assert(s[b] == ev(old_self.entries@[b]));
            }
            lemma_keep_seq(s, now);
            assert forall|a: int, b: int| 0 <= a < b < self.entries@.len() implies self.entries@[a].token@ != self.entries@[b].token@ by {
                assert(ks[a] == ev(self.entries@[a]));
                assert(ks[b] == ev(self.entries@[b]));
            }
            let m = old_self.view_map();
            let r = reaped(m, now);
            assert forall|k: Seq<char>| #![auto] self.view_map().contains_key(k) <==> r.contains_key(k) by {
                if self.view_map().contains_key(k) {
                    let a = choose|a: int| 0 <= a < self.entries@.len() && self.entries@[a].token@ == k;
                    assert(ks[a] == ev(self.entries@[a]));
                    assert(ks.contains(ks[a]));
                    let j = choose|j: int| 0 <= j < s.len() && s[j] == ks[a];
                    assert(s[j] == ev(old_self.entries@[j]));
                    old_self.lemma_lookup(j);
                }
                if r.contains_key(k) {
                    let j = choose|j: int| 0 <= j < old_self.entries@.len() && old_self.entries@[j].token@ == k;
                    old_self.lemma_lookup(j);
                    assert(s[j] == ev(old_self.entries@[j]));
                    assert(s.contains(s[j]));
                    assert(ks.contains(s[j]));
                    let a = choose|a: int| 0 <= a < ks.len() && ks[a] == s[j];
                    assert(ks[a] == ev(self.entries@[a]));
                    assert(self.entries@[a].token@ == k);
                }
            }
            assert forall|k: Seq<char>| #![auto] self.view_map().contains_key(k) implies self.view_map()[k] == r[k] by {
                let a = choose|a: int| 0 <= a < self.entries@.len() && self.entries@[a].token@ == k;
                self.lemma_lookup(a);
                assert(ks[a] == ev(self.entries@[a]));
                assert(ks.contains(ks[a]));
                let j = choose|j: int| 0 <= j < s.len() && s[j] == ks[a];
                assert(s[j] == ev(old_self.entries@[j]));
                old_self.lemma_lookup(j);
            }
            assert(self.view_map() =~= r);
        }
    }

    /// Resume the session behind `token` at time `now`: expired entries are
    /// reaped first; a known token is re-attached and its session id returned.
    pub fn resume_at(&mut self, token: &str, now: u64) -> (r: Option<String>)
        requires
            old(self).wf(),
        ensures
            final(self).wf(),
            final(self).grace() == old(self).grace(),
            ({
                let m = reaped(old(self).view_map(), now);
                match r {
                    Some(sid) => m.contains_key(token@) && sid@ == m[token@].0
                        && final(self).view_map() == m.insert(token@, (m[token@].0, ResumeState::Attached, None::<u64>)),
                    None => !m.contains_key(token@) && final(self).view_map() == m,
                }
            }),
    {
        self.reap_at(now);
        match self.find(token) {
            Some(i) => {
                proof { self.lemma_lookup(i as int); }
                let sid = self.entries[i].session_id.clone();
                let e = Entry {
                    token: self.entries[i].token.clone(),
                    session_id: self.entries[i].session_id.clone(),
                    state: ResumeState::Attached,
                    frozen_until: None,
                };
                self.set_entry(i, e);
                Some(sid)
            },
            None => None,
        }
    }

    /// Resume the session behind `token` now.
    pub fn resume(&mut self, token: &str) -> (r: Option<String>)
        requires
            old(self).wf(),
        ensures
            final(self).wf(),
            final(self).grace() == old(self).grace(),
            exists|now: u64| #![trigger reaped(old(self).view_map(), now)] {
                let m = reaped(old(self).view_map(), now);
                match r {
                    Some(sid) => m.contains_key(token@) && sid@ == m[token@].0
                        && final(self).view_map() == m.insert(token@, (m[token@].0, ResumeState::Attached, None::<u64>)),
                    None => !m.contains_key(token@) && final(self).view_map() == m,
                }
            },
    {
        let now = monotonic_nanos_since(&self.origin);
        self.resume_at(token, now)
    }

    /// Forget a session entirely (on a clean stop).
    pub fn forget(&mut self, token: &str)
        requires
            old(self).wf(),
        ensures
            final(self).wf(),
            final(self).grace() == old(self).grace(),
            final(self).view_map() == old(self).view_map().remove(token@),
    {
        let ghost old_self = *self;
        match self.find(token) {
            Some(i) => {
                self.entries.remove(i);
                proof {
                    let m = old_self.view_map().remove(token@);
                    assert forall|k: Seq<char>| #![auto] self.view_map().contains_key(k) <==> m.contains_key(k) by {
                        if self.view_map().contains_key(k) {
                            let a = choose|a: int| 0 <= a < self.entries@.len() && self.entries@[a].token@ == k;
                            let j = if a < i { a } else { a + 1 };
                            assert(old_self.entries@[j] == self.entries@[a]);
                            old_self.lemma_lookup(j);
                            if j != i {
                                if j < i { assert(old_self.entries@[j].token@ != old_self.entries@[i as int].token@); }
                                else { assert(old_self.entries@[i as int].token@ != old_self.entries@[j].token@); }
                            }
                        }
                        if m.contains_key(k) {
                            let j = choose|j: int| 0 <= j < old_self.entries@.len() && old_self.entries@[j].token@ == k;
                            let a = if j < i { j } else { j - 1 };
                            assert(self.entries@[a] == old_self.entries@[j]);
                        }
                    }
                    assert forall|k: Seq<char>| #![auto] self.view_map().contains_key(k) implies self.view_map()[k] == m[k] by {
                        let a = choose|a: int| 0 <= a < self.entries@.len() && self.entries@[a].token@ == k;
                        self.lemma_lookup(a);
                        let j = if a < i { a } else { a + 1 };
                        assert(old_self.entries@[j] == self.entries@[a]);
                        old_self.lemma_lookup(j);
                    }
                    assert(self.view_map() =~= m);
                }
            },
            None => {
                assert(old_self.view_map().remove(token@) =~= old_self.view_map());
            },
        }
    }

    /// The state of a token at time `now`, after reaping.
    pub fn state_at(&mut self, token: &str, now: u64) -> (r: Option<ResumeState>)
        requires
            old(self).wf(),
        ensures
            final(self).wf(),
            final(self).grace() == old(self).grace(),
            final(self).view_map() == reaped(old(self).view_map(), now),
            r == (if final(self).view_map().contains_key(token@) {
                Some(final(self).view_map()[token@].1)
            } else {
                None::<ResumeState>
            }),
    {
        self.reap_at(now);
        match self.find(token) {
            Some(i) => {
                proof { self.lemma_lookup(i as int); }
                Some(self.entries[i].state)
            },
            None => None,
        }
    }

    /// The current state of a token, if known.
    pub fn state(&mut self, token: &str) -> (r: Option<ResumeState>)
        requires
            old(self).wf(),
        ensures
            final(self).wf(),
            final(self).grace() == old(self).grace(),
            exists|now: u64| #![trigger reaped(old(self).view_map(), now)] final(self).view_map() == reaped(old(self).view_map(), now),
            r == (if final(self).view_map().contains_key(token@) {
                Some(final(self).view_map()[token@].1)
            } else {
                None::<ResumeState>
            }),
    {
        let now = monotonic_nanos_since(&self.origin);
        self.state_at(token, now)
    }

    /// Number of tokens tracked at time `now`, after reaping.
    pub fn len_at(&mut self, now: u64) -> (r: usize)
        requires
            old(self).wf(),
        ensures
            final(self).wf(),
            final(self).grace() == old(self).grace(),
            final(self).view_map() == reaped(old(self).view_map(), now),
            r == final(self).view_map().len(),
    {
        self.reap_at(now);
        proof { self.lemma_len(); }
        self.entries.len()
    }

    proof fn lemma_len(self)
        requires
            self.wf(),
        ensures
            self.view_map().dom().finite(),
            self.view_map().len() == self.entries@.len(),
    {
        let toks = self.entries@.map_values(|e: Entry| e.token@);
        assert forall|i: int, j: int| 0 <= i < j < toks.len() implies toks[i] != toks[j] by {}
        toks.unique_seq_to_set();
        assert(self.view_map().dom() =~= toks.to_set()) by {
            assert forall|k: Seq<char>| self.view_map().dom().contains(k) implies toks.to_set().contains(k) by {
                let a = choose|a: int| 0 <= a < self.entries@.len() && self.entries@[a].token@ == k;
                assert(toks[a] == k);
            }
            assert forall|k: Seq<char>| toks.to_set().contains(k) implies self.view_map().dom().contains(k) by {
                let a = choose|a: int| 0 <= a < toks.len() && toks[a] == k;
                assert(self.entries@[a].token@ == k);
            }
        }
    }

    /// Number of tokens currently tracked, after reaping.
    pub fn len(&mut self) -> (r: usize)
        requires
            old(self).wf(),
        ensures
            final(self).wf(),
            final(self).grace() == old(self).grace(),
            exists|now: u64| #![trigger reaped(old(self).view_map(), now)] final(self).view_map() == reaped(old(self).view_map(), now),
            r == final(self).view_map().len(),
    {
        let now = monotonic_nanos_since(&self.origin);
        self.len_at(now)
    }

    pub fn is_empty(&mut self) -> (r: bool)
        requires
            old(self).wf(),
        ensures
            final(self).wf(),
            final(self).grace() == old(self).grace(),
            exists|now: u64| #![trigger reaped(old(self).view_map(), now)] final(self).view_map() == reaped(old(self).view_map(), now),
            r == (final(self).view_map().len() == 0),
    {
        self.len() == 0
    }
}

impl Default for ResumeRegistry {
    fn default() -> (r: ResumeRegistry)
        ensures
            r.wf(),
            r.view_map() == Map::<Seq<char>, EntryView>::empty(),
            r.grace() == grace_nanos_of(DEFAULT_GRACE_MILLIS),
    {
        ResumeRegistry::new(DEFAULT_GRACE_MILLIS)
    }
}

/// An attached entry is never reaped, whatever the time.
pub proof fn lemma_attached_survives_reaping(m: Map<Seq<char>, EntryView>, token: Seq<char>, now: u64)
    requires
        m.contains_key(token),
        m[token].1 == ResumeState::Attached,
    ensures
        reaped(m, now).contains_key(token),
        reaped(m, now)[token] == m[token],
{
}

/// A session frozen at `t` is still resumable at any time before
/// `t + grace`, and gone at any time from then on.
pub proof fn lemma_frozen_window(m: Map<Seq<char>, EntryView>, token: Seq<char>, t: u64, grace: u64, now: u64)
    requires
        m.contains_key(token),
        m[token].1 == ResumeState::Frozen,
        t + grace <= u64::MAX,
        m[token].2 == Some((t + grace) as u64),
    ensures
        now < t + grace ==> reaped(m, now).contains_key(token),
        now >= t + grace ==> !reaped(m, now).contains_key(token),
{
}

/// Registering a session and then resuming with its token, with no freeze in
/// between, re-attaches that session at any time.
pub proof fn lemma_register_then_resume(m: Map<Seq<char>, EntryView>, token: Seq<char>, sid: Seq<char>, now: u64)
    ensures
        ({
            let r = reaped(m.insert(token, (sid, ResumeState::Attached, None::<u64>)), now);
            r.contains_key(token) && r[token].0 == sid
        }),
{
}

/// A token that was forgotten cannot be resumed.
pub proof fn lemma_forgotten_cannot_resume(m: Map<Seq<char>, EntryView>, token: Seq<char>, now: u64)
    ensures
        !reaped(m.remove(token), now).contains_key(token),
{
}

/// A tracked session frozen at `t` can be resumed, into the same session,
/// at any time before `t + grace`, and is gone at any time from then on;
/// freezing an untracked token changes nothing.
pub proof fn lemma_freeze_window(m: Map<Seq<char>, EntryView>, token: Seq<char>, t: u64, grace: u64, now: u64)
    requires
        t + grace <= u64::MAX,
    ensures
        m.contains_key(token) && now < t + grace ==> reaped(frozen_at(m, token, t, grace), now).contains_key(token)
            && reaped(frozen_at(m, token, t, grace), now)[token].0 == m[token].0,
        m.contains_key(token) && now >= t + grace ==> !reaped(frozen_at(m, token, t, grace), now).contains_key(token),
        !m.contains_key(token) ==> frozen_at(m, token, t, grace) == m,
{
    if m.contains_key(token) {
        lemma_frozen_window(frozen_at(m, token, t, grace), token, t, grace, now);
    }
}

}
