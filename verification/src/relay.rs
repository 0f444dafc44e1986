//! The relay between agents and clients: its configuration, the handshake
//! decision, and the registry that pairs the two ends of a session.
use vstd::prelude::*;
use crate::audit::AuditRecord;
use crate::keyed::KeyedStore;
use crate::text::{str_eq, string_from_str, concat, concat3, strings_view};

verus! {

/// The relay's configuration.
#[derive(Debug, Clone)]
pub struct RelayConfig {
    pub bind_address: String,
    pub port: u16,
    pub agent_token: String,
    pub client_token: String,
    pub heartbeat_timeout_secs: u64,
}

impl Default for RelayConfig {
    fn default() -> (r: Self)
        ensures
            r.bind_address@ == "127.0.0.1"@,
            r.port == 8080,
            r.agent_token@ == "agent_secret_pass"@,
            r.client_token@ == "client_secret_pass"@,
            r.heartbeat_timeout_secs == 5,
    {
        RelayConfig {
            bind_address: string_from_str("127.0.0.1"),
            port: 8080,
            agent_token: string_from_str("agent_secret_pass"),
            client_token: string_from_str("client_secret_pass"),
            heartbeat_timeout_secs: 5,
        }
    }
}

/// The first line a peer sends.
#[derive(Debug, Clone)]
pub struct HandshakeRequest {
    pub role: String,
    pub token: String,
    pub session_id: String,
}

/// The relay's answer to a handshake.
#[derive(Debug, Clone)]
pub struct HandshakeResponse {
    pub status: String,
    pub message: Option<String>,
}

/// Which end of a session a peer is.
#[derive(Debug, Clone, Copy, PartialEq, Eq, Structural)]
pub enum RelayRole {
    Agent,
    Client,
}

/// What the relay does with a handshake.
pub enum HandshakeOutcome {
    /// Answer with the response, then close: the handshake was not valid JSON.
    Malformed(HandshakeResponse),
    /// Close without an answer: the role is neither agent nor client.
    UnknownRole,
    /// Answer with the response, audit the refusal, then close: wrong token.
    Unauthorized(HandshakeResponse, AuditRecord),
    /// Answer with the response and start relaying for the session.
    Accepted(HandshakeResponse, RelayRole),
}

/// The role a handshake names, if it names one.
pub open spec fn role_of(role: Seq<char>) -> Option<RelayRole> {
    if role == "agent"@ {
        Some(RelayRole::Agent)
    } else if role == "client"@ {
        Some(RelayRole::Client)
    } else {
        None
    }
}

/// An error response carrying `message`.
pub open spec fn is_error_response(r: HandshakeResponse, message: Seq<char>) -> bool {
    &&& r.status@ == "error"@
    &&& r.message matches Some(m) && m@ == message
}

/// The relay's audit entries as plain values: event, user, address, action, details.
pub open spec fn relay_record(r: AuditRecord, t: u64, event: Seq<char>, action: Seq<char>, details: Seq<char>, user: Seq<char>) -> bool {
    &&& r.timestamp == t
    &&& r.event_type@ == event
    &&& r.username@ == user
    &&& r.ip_address@ == "127.0.0.1"@
    &&& r.action@ == action
    &&& r.details@ == details
}

fn error_response(message: &str) -> (r: HandshakeResponse)
    ensures
        is_error_response(r, message@),
{
    HandshakeResponse { status: string_from_str("error"), message: Some(string_from_str(message)) }
}

fn record(t: u64, event: &str, user: &str, action: String, details: String) -> (r: AuditRecord)
    ensures
        relay_record(r, t, event@, action@, details@, user@),
{
    AuditRecord {
        timestamp: t,
        event_type: string_from_str(event),
        username: string_from_str(user),
        ip_address: string_from_str("127.0.0.1"),
        action,
        details,
    }
}

/// Decide on a handshake (`None` when it could not be parsed) at time `now`:
/// a malformed one is answered "Invalid handshake"; an unknown role is
/// dropped; a token other than the role's is answered "Unauthorized" and
/// audited; otherwise the peer is accepted with status "ok".
pub fn decide_handshake(config: &RelayConfig, req: Option<&HandshakeRequest>, now: u64) -> (r: HandshakeOutcome)
    ensures
        match req {
            None => r matches HandshakeOutcome::Malformed(resp) && is_error_response(resp, "Invalid handshake"@),
            Some(q) => match role_of(q.role@) {
                None => r is UnknownRole,
                Some(role) => {
                    let expected = if role == RelayRole::Agent { config.agent_token@ } else { config.client_token@ };
                    if q.token@ != expected {
                        &&& r matches HandshakeOutcome::Unauthorized(resp, rec) && is_error_response(resp, "Unauthorized"@)
                            && relay_record(rec, now, "RELAY_AUTH"@, "handshake_failed"@,
                                "Handshake token mismatch for role: "@ + q.role@, "unknown"@)
                    } else {
                        &&& r matches HandshakeOutcome::Accepted(resp, rl) && rl == role && resp.status@ == "ok"@
                            && resp.message is None
                    }
                },
            },
        },
{
    let q = match req {
        None => return HandshakeOutcome::Malformed(error_response("Invalid handshake")),
        Some(q) => q,
    };
    let role = if str_eq(q.role.as_str(), "agent") {
        RelayRole::Agent
    } else if str_eq(q.role.as_str(), "client") {
        RelayRole::Client
    } else {
        return HandshakeOutcome::UnknownRole;
    };
    let expected = match role {
        RelayRole::Agent => config.agent_token.as_str(),
        RelayRole::Client => config.client_token.as_str(),
    };
    if !str_eq(q.token.as_str(), expected) {
        let details = concat("Handshake token mismatch for role: ", q.role.as_str());
        let rec = record(now, "RELAY_AUTH", "unknown", string_from_str("handshake_failed"), details);
        return HandshakeOutcome::Unauthorized(error_response("Unauthorized"), rec);
    }
    HandshakeOutcome::Accepted(HandshakeResponse { status: string_from_str("ok"), message: None }, role)
}

/// The audit entry for a peer that registered for a session.
pub fn register_record(role: &str, session_id: &str, now: u64) -> (r: AuditRecord)
    ensures
        relay_record(r, now, "RELAY_SESSION"@, "register_"@ + role@,
            "Registered "@ + role@ + " connection for session "@ + session_id@, "relay"@),
{
    let action = concat("register_", role);
    let mut details = concat3("Registered ", role, " connection for session ");
    crate::text::append_str(&mut details, session_id);
    record(now, "RELAY_SESSION", "relay", action, details)
}

/// The audit entry for a peer that went away.
pub fn unregister_record(role: &str, session_id: &str, now: u64) -> (r: AuditRecord)
    ensures
        relay_record(r, now, "RELAY_SESSION"@, "unregister_"@ + role@,
            "Unregistered "@ + role@ + " connection for session "@ + session_id@, "relay"@),
{
    let action = concat("unregister_", role);
    let mut details = concat3("Unregistered ", role, " connection for session ");
    crate::text::append_str(&mut details, session_id);
    record(now, "RELAY_SESSION", "relay", action, details)
}

/// The audit entry for a session dropped for lack of heartbeat.
pub fn timeout_record(session_id: &str, now: u64) -> (r: AuditRecord)
    ensures
        relay_record(r, now, "RELAY_SESSION"@, "heartbeat_timeout"@,
            "Terminated session "@ + session_id@ + " due to lack of heartbeat"@, "relay"@),
{
    let details = concat3("Terminated session ", session_id, " due to lack of heartbeat");
    record(now, "RELAY_SESSION", "relay", string_from_str("heartbeat_timeout"), details)
}

/// The two ends of each relayed session, and when each agent was last heard.
/// `T` is whatever carries data to a peer.
pub struct SessionRegistry<T> {
    agents: KeyedStore<T>,
    clients: KeyedStore<T>,
    heartbeats: KeyedStore<u64>,
}

/// Whether a heartbeat seen at `last` (nanoseconds) is at least `timeout_secs`
/// whole seconds old at `now`.
pub open spec fn expired(last: u64, now: u64, timeout_secs: u64) -> bool {
    (if now >= last { (now - last) as nat / 1_000_000_000 } else { 0nat }) >= timeout_secs
}

impl<T> SessionRegistry<T> {
    pub closed spec fn agents(&self) -> Map<Seq<char>, T> {
        self.agents.view_map()
    }

    pub closed spec fn clients(&self) -> Map<Seq<char>, T> {
        self.clients.view_map()
    }

    /// When each session's agent was last heard, in nanoseconds of a monotonic clock.
    pub closed spec fn heartbeats(&self) -> Map<Seq<char>, u64> {
        self.heartbeats.view_map()
    }

    pub closed spec fn wf(&self) -> bool {
        self.agents.wf() && self.clients.wf() && self.heartbeats.wf()
    }

    pub fn new() -> (r: SessionRegistry<T>)
        ensures
            r.wf(),
            r.agents() == Map::<Seq<char>, T>::empty(),
            r.clients() == Map::<Seq<char>, T>::empty(),
            r.heartbeats() == Map::<Seq<char>, u64>::empty(),
    {
        SessionRegistry { agents: KeyedStore::new(), clients: KeyedStore::new(), heartbeats: KeyedStore::new() }
    }

    /// Register the agent end of `session_id`, heard at `now`.
    pub fn register_agent(&mut self, session_id: &str, sender: T, now: u64)
        requires
            old(self).wf(),
        ensures
            final(self).wf(),
            final(self).agents() == old(self).agents().insert(session_id@, sender),
            final(self).clients() == old(self).clients(),
            final(self).heartbeats() == old(self).heartbeats().insert(session_id@, now),
    {
        self.agents.insert(string_from_str(session_id), sender);
        self.heartbeats.insert(string_from_str(session_id), now);
    }

    /// Register the client end of `session_id`.
    pub fn register_client(&mut self, session_id: &str, sender: T)
        requires
            old(self).wf(),
        ensures
            final(self).wf(),
            final(self).clients() == old(self).clients().insert(session_id@, sender),
            final(self).agents() == old(self).agents(),
            final(self).heartbeats() == old(self).heartbeats(),
    {
        self.clients.insert(string_from_str(session_id), sender);
    }

    fn drop_key<V>(store: &mut KeyedStore<V>, key: &str)
        requires
            old(store).wf(),
        ensures
            final(store).wf(),
            final(store).view_map() == old(store).view_map().remove(key@),
    {
        match store.find(key) {
            Some(i) => {
                store.remove_at(i);
            },
            None => {
                assert(old(store).view_map().remove(key@) =~= old(store).view_map());
            },
        }
    }

    /// Forget both ends of `session_id` and its heartbeat.
    pub fn unregister(&mut self, session_id: &str)
        requires
            old(self).wf(),
        ensures
            final(self).wf(),
            final(self).agents() == old(self).agents().remove(session_id@),
            final(self).clients() == old(self).clients().remove(session_id@),
            final(self).heartbeats() == old(self).heartbeats().remove(session_id@),
    {
        Self::drop_key(&mut self.agents, session_id);
        Self::drop_key(&mut self.clients, session_id);
        Self::drop_key(&mut self.heartbeats, session_id);
    }

    /// Record that the agent of `session_id` was heard at `now`.
    pub fn update_heartbeat(&mut self, session_id: &str, now: u64)
        requires
            old(self).wf(),
        ensures
            final(self).wf(),
            final(self).agents() == old(self).agents(),
            final(self).clients() == old(self).clients(),
            final(self).heartbeats() == old(self).heartbeats().insert(session_id@, now),
    {
        self.heartbeats.insert(string_from_str(session_id), now);
    }

    /// Drop every session whose agent was last heard `timeout_secs` or more
    /// whole seconds before `now`, and name them.
    pub fn check_heartbeats(&mut self, now: u64, timeout_secs: u64) -> (r: Vec<String>)
        requires
            old(self).wf(),
        ensures
            final(self).wf(),
            forall|k: Seq<char>| old(self).heartbeats().contains_key(k) && expired(old(self).heartbeats()[k], now, timeout_secs)
                <==> #[trigger] strings_view(r@).contains(k),
            strings_view(r@).no_duplicates(),
            final(self).heartbeats() == old(self).heartbeats().restrict(
                old(self).heartbeats().dom().filter(|k: Seq<char>| !expired(old(self).heartbeats()[k], now, timeout_secs))),
            forall|k: Seq<char>| #[trigger] final(self).agents().contains_key(k) <==>
                (old(self).agents().contains_key(k) && !strings_view(r@).contains(k)),
            forall|k: Seq<char>| #[trigger] final(self).clients().contains_key(k) <==>
                (old(self).clients().contains_key(k) && !strings_view(r@).contains(k)),
            forall|k: Seq<char>| #[trigger] final(self).agents().contains_key(k) ==> final(self).agents()[k] == old(self).agents()[k],
            forall|k: Seq<char>| #[trigger] final(self).clients().contains_key(k) ==> final(self).clients()[k] == old(self).clients()[k],
    {
        let ghost h0 = self.heartbeats.view_map();
        let ghost a0 = self.agents.view_map();
        let ghost c0 = self.clients.view_map();
        proof {
            self.heartbeats.lemma_sequences();
        }
        let ghost keys0 = self.heartbeats.key_seq();
        let ghost vals0 = self.heartbeats.value_seq();
        let n = self.heartbeats.len();
        let mut expired_ids: Vec<String> = Vec::new();
        let mut i: usize = 0;
        while i < n
            invariant
                self.heartbeats.wf(),
                self.heartbeats.key_seq() == keys0,
                self.heartbeats.value_seq() == vals0,
                n == keys0.len(),
                keys0.len() == vals0.len(),
                i <= n,
                forall|j: int| 0 <= j < keys0.len() ==> h0.contains_key(#[trigger] keys0[j]) && h0[keys0[j]] == vals0[j],
                forall|k: Seq<char>| #[trigger] h0.contains_key(k) ==> keys0.contains(k),
                forall|k: Seq<char>| #[trigger] strings_view(expired_ids@).contains(k) <==>
                    (exists|j: int| 0 <= j < i && keys0[j] == k && expired(vals0[j], now, timeout_secs)),
                keys0.no_duplicates(),
                strings_view(expired_ids@).no_duplicates(),
            decreases n - i,
        {
            let last = *self.heartbeats.value_at(i);
            let is_expired = if now >= last { (now - last) / 1_000_000_000 >= timeout_secs } else { timeout_secs == 0 };
            assert(is_expired == expired(last, now, timeout_secs));
            if is_expired {
                let k = self.heartbeats.key_at(i).clone();
                let ghost before = expired_ids@;
                expired_ids.push(k);
                proof {
                    assert(strings_view(expired_ids@) =~= strings_view(before).push(keys0[i as int]));
                    if strings_view(before).contains(keys0[i as int]) {
                        let j = choose|j: int| 0 <= j < i && keys0[j] == keys0[i as int] && expired(vals0[j], now, timeout_secs);
                        assert(keys0[j] != keys0[i as int]);
                    }
                    assert forall|a: int, b: int| 0 <= a < strings_view(expired_ids@).len() && 0 <= b < strings_view(expired_ids@).len()
                        && a != b implies strings_view(expired_ids@)[a] != strings_view(expired_ids@)[b] by {
                        if a == before.len() {
                            assert(strings_view(before)[b] == strings_view(expired_ids@)[b]);
                        } else if b == before.len() {
                            assert(strings_view(before)[a] == strings_view(expired_ids@)[a]);
                        } else {
                            assert(strings_view(before)[a] == strings_view(expired_ids@)[a]);
                            assert(strings_view(before)[b] == strings_view(expired_ids@)[b]);
                        }
                    }
                    assert forall|kk: Seq<char>| #[trigger] strings_view(expired_ids@).contains(kk) <==>
                        (exists|j: int| 0 <= j < i + 1 && keys0[j] == kk && expired(vals0[j], now, timeout_secs)) by {
                        if kk == keys0[i as int] {
                            assert(strings_view(expired_ids@)[before.len() as int] == kk);
                        }
                        if strings_view(before).contains(kk) {
                            let w = choose|w: int| 0 <= w < strings_view(before).len() && strings_view(before)[w] == kk;
                            assert(strings_view(expired_ids@)[w] == kk);
                        }
                        if strings_view(expired_ids@).contains(kk) {
                            let w = choose|w: int| 0 <= w < strings_view(expired_ids@).len() && strings_view(expired_ids@)[w] == kk;
                            if w < before.len() {
                                assert(strings_view(before)[w] == kk);
                            }
                        }
                    }
                }
            } else {
                proof {
                    assert forall|kk: Seq<char>| #[trigger] strings_view(expired_ids@).contains(kk) <==>
                        (exists|j: int| 0 <= j < i + 1 && keys0[j] == kk && expired(vals0[j], now, timeout_secs)) by {
                        if exists|j: int| 0 <= j < i + 1 && keys0[j] == kk && expired(vals0[j], now, timeout_secs) {
                            let j = choose|j: int| 0 <= j < i + 1 && keys0[j] == kk && expired(vals0[j], now, timeout_secs);
                            assert(j != i);
                        }
                    }
                }
            }
            i = i + 1;
        }
        proof {
            assert forall|k: Seq<char>| h0.contains_key(k) && expired(h0[k], now, timeout_secs)
                <==> #[trigger] strings_view(expired_ids@).contains(k) by {
                if h0.contains_key(k) {
                    assert(keys0.contains(k));
                    let j = choose|j: int| 0 <= j < keys0.len() && keys0[j] == k;
                    assert(h0[keys0[j]] == vals0[j]);
                }
                if strings_view(expired_ids@).contains(k) {
                    let j = choose|j: int| 0 <= j < i && keys0[j] == k && expired(vals0[j], now, timeout_secs);
                    assert(h0.contains_key(keys0[j]));
                }
            }
        }
        let mut e: usize = 0;
        while e < expired_ids.len()
            invariant
                self.wf(),
                e <= expired_ids@.len(),
                forall|k: Seq<char>| #[trigger] self.heartbeats.view_map().contains_key(k) <==>
                    (h0.contains_key(k) && !strings_view(expired_ids@.subrange(0, e as int)).contains(k)),
                forall|k: Seq<char>| #[trigger] self.agents.view_map().contains_key(k) <==>
                    (a0.contains_key(k) && !strings_view(expired_ids@.subrange(0, e as int)).contains(k)),
                forall|k: Seq<char>| #[trigger] self.clients.view_map().contains_key(k) <==>
                    (c0.contains_key(k) && !strings_view(expired_ids@.subrange(0, e as int)).contains(k)),
                forall|k: Seq<char>| #[trigger] self.heartbeats.view_map().contains_key(k) ==> self.heartbeats.view_map()[k] == h0[k],
                forall|k: Seq<char>| #[trigger] self.agents.view_map().contains_key(k) ==> self.agents.view_map()[k] == a0[k],
                forall|k: Seq<char>| #[trigger] self.clients.view_map().contains_key(k) ==> self.clients.view_map()[k] == c0[k],
                forall|k: Seq<char>| h0.contains_key(k) && expired(h0[k], now, timeout_secs)
                    <==> #[trigger] strings_view(expired_ids@).contains(k),
                strings_view(expired_ids@).no_duplicates(),
            decreases expired_ids.len() - e,
        {
            let id = expired_ids[e].as_str();
            let ghost sub = strings_view(expired_ids@.subrange(0, e as int));
            let ghost sub1 = strings_view(expired_ids@.subrange(0, e + 1));
            proof {
                assert(sub1 =~= sub.push(expired_ids@[e as int]@));
                assert forall|k: Seq<char>| sub1.contains(k) <==> (sub.contains(k) || k == expired_ids@[e as int]@) by {
                    if k == expired_ids@[e as int]@ {
                        assert(sub1[e as int] == k);
                    }
                    if sub.contains(k) {
                        let w = choose|w: int| 0 <= w < sub.len() && sub[w] == k;
                        assert(sub1[w] == k);
                    }
                    if sub1.contains(k) {
                        let w = choose|w: int| 0 <= w < sub1.len() && sub1[w] == k;
                        if w < e {
                            assert(sub[w] == k);
                        }
                    }
                }
            }
            Self::drop_key(&mut self.agents, id);
            Self::drop_key(&mut self.clients, id);
            Self::drop_key(&mut self.heartbeats, id);
            e = e + 1;
        }
        proof {
            assert(expired_ids@.subrange(0, expired_ids@.len() as int) =~= expired_ids@);
            let m = h0.restrict(h0.dom().filter(|k: Seq<char>| !expired(h0[k], now, timeout_secs)));
            assert(self.heartbeats.view_map() =~= m);
        }
        expired_ids
    }

    /// Where data for the client of `session_id` goes, if it is connected.
    pub fn route_to_client(&self, session_id: &str) -> (r: Option<&T>)
        requires
            self.wf(),
        ensures
            match r {
                Some(t) => self.clients().contains_key(session_id@) && *t == self.clients()[session_id@],
                None => !self.clients().contains_key(session_id@),
            },
    {
        match self.clients.find(session_id) {
            Some(i) => Some(self.clients.value_at(i)),
            None => None,
        }
    }

    /// Where data for the agent of `session_id` goes, if it is connected.
    pub fn route_to_agent(&self, session_id: &str) -> (r: Option<&T>)
        requires
            self.wf(),
        ensures
            match r {
                Some(t) => self.agents().contains_key(session_id@) && *t == self.agents()[session_id@],
                None => !self.agents().contains_key(session_id@),
            },
    {
        match self.agents.find(session_id) {
            Some(i) => Some(self.agents.value_at(i)),
            None => None,
        }
    }

    /// Whether the agent of `session_id` is connected.
    pub fn is_agent_present(&self, session_id: &str) -> (r: bool)
        requires
            self.wf(),
        ensures
            r == self.agents().contains_key(session_id@),
    {
        self.agents.find(session_id).is_some()
    }
}

} // verus!
