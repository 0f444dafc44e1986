//! The session manager: one active session per user, each on its own display.
use vstd::prelude::*;
use crate::config::AgentConfig;
use crate::keyed::KeyedStore;
use crate::shared_types::{SessionInfo, SessionInfoView, SessionKind, SessionStatus};
use crate::session::allocator::{LocalDisplayAllocator, first_free, lemma_first_free_is_free};
use crate::session::backends::AstraX11Backend;
use crate::session::traits::{DisplayAllocator, SessionBackend, SessionError, SessionManager, UserSession};
use crate::text::{chars_of, str_eq, string_from_str, string_from_chars, concat, decimal, decimal_string};
use crate::parse::{lines_spec, lines_chars, split_spec, split_chars, parse_unsigned_spec, parse_unsigned, views};
use crate::os_pal::{x11_display_number_spec, x11_display_number};

verus! {

/// A session together with the moment it was started.
pub struct ManagedSession<S> {
    pub session: S,
    pub start_time: u64,
}

/// What the manager reports of a session.
pub open spec fn info_of<S: UserSession>(m: ManagedSession<S>) -> SessionInfoView {
    SessionInfoView {
        id: m.session.id_spec(),
        username: m.session.username_spec(),
        display_id: m.session.display_id_spec(),
        start_time: m.start_time,
        session_kind: m.session.kind_spec(),
    }
}

/// The contents of a sequence of session descriptions.
pub open spec fn infos_view(v: Seq<SessionInfo>) -> Seq<SessionInfoView> {
    v.map_values(|s: SessionInfo| s@)
}

fn info_from<S: UserSession>(m: &ManagedSession<S>) -> (r: SessionInfo)
    ensures
        r@ == info_of(*m),
{
    SessionInfo {
        id: string_from_str(m.session.id()),
        username: string_from_str(m.session.username()),
        display_id: m.session.display_id(),
        start_time: m.start_time,
        session_kind: m.session.session_kind(),
    }
}

/// Starts and stops desktop sessions and keeps track of them.
pub struct LocalSessionManager<B: SessionBackend> {
    backend: B,
    allocator: LocalDisplayAllocator,
    sessions: KeyedStore<ManagedSession<B::Session>>,
}

impl<B: SessionBackend> LocalSessionManager<B> {
    /// The sessions by id.
    pub closed spec fn sessions(&self) -> Map<Seq<char>, ManagedSession<B::Session>> {
        self.sessions.view_map()
    }

    /// The sessions in the order they are listed.
    pub closed spec fn session_seq(&self) -> Seq<ManagedSession<B::Session>> {
        self.sessions.value_seq()
    }

    /// The backend sessions are started with.
    pub closed spec fn backend(&self) -> B {
        self.backend
    }

    /// The display numbers currently handed out.
    pub closed spec fn allocated(&self) -> Set<u8> {
        self.allocator.allocated()
    }

    pub closed spec fn display_min(&self) -> u8 {
        self.allocator.min()
    }

    pub closed spec fn display_max(&self) -> u8 {
        self.allocator.max()
    }

    /// Every session is stored under its own id, and the listing order holds
    /// exactly the stored sessions.
    pub closed spec fn wf(&self) -> bool {
        &&& self.sessions.wf()
        &&& forall|k: Seq<char>| #[trigger] self.sessions.view_map().contains_key(k)
            ==> self.sessions.view_map()[k].session.id_spec() == k
        &&& forall|i: int| 0 <= i < self.sessions.value_seq().len()
            ==> self.sessions.view_map().contains_key(#[trigger] self.sessions.value_seq()[i].session.id_spec())
    }

    /// Whether `username` has an active session.
    pub open spec fn has_active(&self, username: Seq<char>) -> bool {
        exists|k: Seq<char>| #[trigger] self.sessions().contains_key(k)
            && self.sessions()[k].session.username_spec() == username
            && self.sessions()[k].session.status_spec() == SessionStatus::Active
    }

    /// No user has two active sessions.
    pub open spec fn one_active_per_user(&self) -> bool {
        forall|k1: Seq<char>, k2: Seq<char>|
            #![trigger self.sessions().contains_key(k1), self.sessions().contains_key(k2)]
            self.sessions().contains_key(k1) && self.sessions().contains_key(k2) && k1 != k2
                && self.sessions()[k1].session.status_spec() == SessionStatus::Active
                && self.sessions()[k2].session.status_spec() == SessionStatus::Active
                ==> self.sessions()[k1].session.username_spec() != self.sessions()[k2].session.username_spec()
    }

    /// What starting a session for `username`, given the displays whose
    /// sockets exist, does: `before` becomes `after` and `r` is answered. A
    /// user with an active session is refused; with no free display the start
    /// is refused; otherwise the first free display is handed out and, when
    /// the backend starts the session, it is recorded as active (its start
    /// time is when it started); when the backend fails nothing changes.
    pub open spec fn start_effect(before: Self, after: Self, username: Seq<char>, existing: Seq<u8>,
        r: Result<SessionInfo, SessionError>) -> bool
    {
        &&& after.wf()
        &&& after.backend() == before.backend()
        &&& before.one_active_per_user() ==> after.one_active_per_user()
        &&& after.display_min() == before.display_min()
        &&& after.display_max() == before.display_max()
        &&& before.has_active(username) ==> {
            &&& r matches Err(SessionError::AlreadyActive(u)) && u@ == username
            &&& after.sessions() == before.sessions()
            &&& after.session_seq() == before.session_seq()
            &&& after.allocated() == before.allocated()
        }
        &&& !before.has_active(username) ==> match first_free(before.display_min() as int,
            before.display_max() as int, before.allocated(), existing) {
            None => {
                &&& r == Err::<SessionInfo, SessionError>(SessionError::NoDisplayAvailable {
                    min: before.display_min(),
                    max: before.display_max(),
                })
                &&& after.sessions() == before.sessions()
                &&& after.session_seq() == before.session_seq()
                &&& after.allocated() == before.allocated()
            },
            Some(d) => match before.backend().create_outcome(username, Some(d)) {
                None => {
                    &&& r matches Ok(info)
                    &&& info@.username == username
                    &&& info@.display_id == d
                    &&& after.sessions().contains_key(info@.id)
                    &&& info_of(after.sessions()[info@.id]) == info@
                    &&& after.sessions()[info@.id].session.status_spec() == SessionStatus::Active
                    &&& after.sessions() == before.sessions().insert(info@.id, after.sessions()[info@.id])
                    &&& after.allocated() == before.allocated().insert(d)
                    &&& after.has_active(username)
                    &&& before.display_min() <= d <= before.display_max()
                    &&& !before.allocated().contains(d)
                    &&& !existing.contains(d)
                },
                Some(e) => {
                    &&& r == Err::<SessionInfo, SessionError>(e)
                    &&& after.sessions() == before.sessions()
                    &&& after.session_seq() == before.session_seq()
                    &&& after.allocated() == before.allocated()
                },
            },
        }
    }

    /// What stopping the session `session_id` does: an unknown id is refused
    /// and nothing changes; a known session is no longer tracked, and its
    /// display is given back unless stopping it failed.
    pub open spec fn stop_effect(before: Self, after: Self, session_id: Seq<char>, r: Result<(), SessionError>) -> bool {
        &&& after.wf()
        &&& before.one_active_per_user() ==> after.one_active_per_user()
        &&& !before.sessions().contains_key(session_id) ==> {
            &&& r matches Err(SessionError::NotFound(id)) && id@ == session_id
            &&& after.sessions() == before.sessions()
            &&& after.allocated() == before.allocated()
        }
        &&& before.sessions().contains_key(session_id) ==> {
            &&& after.sessions() == before.sessions().remove(session_id)
            &&& r is Ok ==> after.allocated()
                == before.allocated().remove(before.sessions()[session_id].session.display_id_spec())
            &&& r is Err ==> after.allocated() == before.allocated()
        }
    }

    /// The answer about the session `session_id`: what is known of it, or
    /// that it is not tracked.
    pub open spec fn info_answer(&self, session_id: Seq<char>, r: Result<SessionInfo, SessionError>) -> bool {
        &&& self.sessions().contains_key(session_id) ==> (r matches Ok(info) && info@ == info_of(self.sessions()[session_id]))
        &&& !self.sessions().contains_key(session_id) ==> (r matches Err(SessionError::NotFound(id)) && id@ == session_id)
    }

    /// A manager with no sessions.
    pub fn new(backend: B, allocator: LocalDisplayAllocator) -> (r: LocalSessionManager<B>)
        ensures
            r.wf(),
            r.backend() == backend,
            r.one_active_per_user(),
            r.sessions() == Map::<Seq<char>, ManagedSession<B::Session>>::empty(),
            r.session_seq() == Seq::<ManagedSession<B::Session>>::empty(),
            r.allocated() == allocator.allocated(),
            r.display_min() == allocator.min(),
            r.display_max() == allocator.max(),
    {
        let sessions = KeyedStore::new();
        proof {
            sessions.lemma_sequences();
            assert(sessions.value_seq() =~= Seq::<ManagedSession<B::Session>>::empty());
        }
        LocalSessionManager { backend, allocator, sessions }
    }

    /// The manager the agent runs: the X11 backend set up from `cfg` (wrapped
    /// by `wrap`), displays 10 to 99.
    pub fn from_config<F: Fn(AstraX11Backend) -> B>(cfg: &AgentConfig, wrap: F) -> (r: LocalSessionManager<B>)
        requires
            forall|a: AstraX11Backend| call_requires(wrap, (a,)),
        ensures
            r.wf(),
            r.sessions() == Map::<Seq<char>, ManagedSession<B::Session>>::empty(),
            r.allocated() == Set::<u8>::empty(),
            r.display_min() == 10,
            r.display_max() == 99,
    {
        let astra = AstraX11Backend::from_config(cfg.connection_mode, cfg.desktop_session_type);
        let backend = wrap(astra);
        Self::new(backend, LocalDisplayAllocator::new(10, 99))
    }

    /// The manager with the default configuration.
    pub fn new_default<F: Fn(AstraX11Backend) -> B>(wrap: F) -> (r: LocalSessionManager<B>)
        requires
            forall|a: AstraX11Backend| call_requires(wrap, (a,)),
        ensures
            r.wf(),
            r.sessions() == Map::<Seq<char>, ManagedSession<B::Session>>::empty(),
            r.allocated() == Set::<u8>::empty(),
            r.display_min() == 10,
            r.display_max() == 99,
    {
        let cfg = AgentConfig::default();
        Self::from_config(&cfg, wrap)
    }

    fn find_active(&self, username: &str) -> (r: bool)
        requires
            self.wf(),
        ensures
            r == self.has_active(username@),
    {
        proof {
            self.sessions.lemma_sequences();
        }
        let n = self.sessions.len();
        let mut i: usize = 0;
        while i < n
            invariant
                self.wf(),
                n == self.sessions.value_seq().len(),
                i <= n,
                forall|j: int| 0 <= j < i ==> !(#[trigger] self.sessions.value_seq()[j].session.username_spec() == username@
                    && self.sessions.value_seq()[j].session.status_spec() == SessionStatus::Active),
            decreases n - i,
        {
            proof {
                self.sessions.lemma_sequences();
            }
            let m = self.sessions.value_at(i);
            if str_eq(m.session.username(), username) {
                if m.session.status() == SessionStatus::Active {
                    proof {
                        let k = self.sessions.value_seq()[i as int].session.id_spec();
                        assert(self.sessions().contains_key(k));
                        assert(self.sessions.key_seq()[i as int] == k) by {
                            assert(self.sessions().contains_key(self.sessions.key_seq()[i as int]));
                        }
                    }
                    return true;
                }
            }
            i = i + 1;
        }
        proof {
            if self.has_active(username@) {
                let k = choose|k: Seq<char>| #[trigger] self.sessions().contains_key(k)
                    && self.sessions()[k].session.username_spec() == username@
                    && self.sessions()[k].session.status_spec() == SessionStatus::Active;
                assert(self.sessions.key_seq().contains(k));
                let j = choose|j: int| 0 <= j < self.sessions.key_seq().len() && self.sessions.key_seq()[j] == k;
                assert(self.sessions.value_seq()[j] == self.sessions()[k]);
            }
        }
        false
    }

    /// Start a session for `username` at time `now`, given the displays whose
    /// sockets exist. Refused when the user already has an active session, and
    /// when no display is free; otherwise the first free display is handed
    /// out and the backend asked for the session. When the backend fails the
    /// display is given back; when it succeeds the session is recorded.
    pub fn start_session_at(&mut self, username: &str, existing: &Vec<u8>, now: u64) -> (r: Result<SessionInfo, SessionError>)
        requires
            old(self).wf(),
        ensures
            final(self).wf(),
            final(self).backend() == old(self).backend(),
            old(self).one_active_per_user() ==> final(self).one_active_per_user(),
            final(self).display_min() == old(self).display_min(),
            final(self).display_max() == old(self).display_max(),
            old(self).has_active(username@) ==> {
                &&& r matches Err(SessionError::AlreadyActive(u)) && u@ == username@
                &&& final(self).sessions() == old(self).sessions()
                &&& final(self).session_seq() == old(self).session_seq()
                &&& final(self).allocated() == old(self).allocated()
            },
            !old(self).has_active(username@) ==> match first_free(old(self).display_min() as int,
                old(self).display_max() as int, old(self).allocated(), existing@) {
                None => {
                    &&& r == Err::<SessionInfo, SessionError>(SessionError::NoDisplayAvailable {
                        min: old(self).display_min(),
                        max: old(self).display_max(),
                    })
                    &&& final(self).sessions() == old(self).sessions()
                    &&& final(self).session_seq() == old(self).session_seq()
                    &&& final(self).allocated() == old(self).allocated()
                },
                Some(d) => match old(self).backend().create_outcome(username@, Some(d)) {
                    None => {
                        &&& r matches Ok(info)
                        &&& info@.username == username@
                        &&& info@.display_id == d
                        &&& info@.start_time == now
                        &&& final(self).sessions().contains_key(info@.id)
                        &&& info_of(final(self).sessions()[info@.id]) == info@
                        &&& final(self).sessions()[info@.id].session.status_spec() == SessionStatus::Active
                        &&& final(self).sessions() == old(self).sessions().insert(info@.id, final(self).sessions()[info@.id])
                        &&& final(self).allocated() == old(self).allocated().insert(d)
                        &&& final(self).has_active(username@)
                        &&& old(self).display_min() <= d <= old(self).display_max()
                        &&& !old(self).allocated().contains(d)
                        &&& !existing@.contains(d)
                    },
                    Some(e) => {
                        &&& r == Err::<SessionInfo, SessionError>(e)
                        &&& final(self).sessions() == old(self).sessions()
                        &&& final(self).session_seq() == old(self).session_seq()
                        &&& final(self).allocated() == old(self).allocated()
                    },
                },
            },
    {
        if self.find_active(username) {
            return Err(SessionError::AlreadyActive(string_from_str(username)));
        }
        let d = match self.allocator.allocate(existing) {
            Ok(d) => d,
            Err(e) => return Err(e),
        };
        let session = match self.backend.create_session(username, Some(d)) {
            Ok(s) => s,
            Err(e) => {
                self.allocator.release(d);
                proof {
                    lemma_first_free_is_free(old(self).display_min() as int, old(self).display_max() as int,
                        old(self).allocated(), existing@);
                    assert(old(self).allocated().insert(d).remove(d) =~= old(self).allocated());
                }
                return Err(e);
            },
        };
        proof {
            lemma_first_free_is_free(old(self).display_min() as int, old(self).display_max() as int,
                old(self).allocated(), existing@);
        }
        let managed = ManagedSession { session, start_time: now };
        let info = info_from(&managed);
        let key = string_from_str(managed.session.id());
        let ghost old_store = self.sessions;
        self.sessions.insert(key, managed);
        proof {
            old_store.lemma_sequences();
            self.sessions.lemma_sequences();
            let k0 = info@.id;
            assert forall|k: Seq<char>| #[trigger] self.sessions.view_map().contains_key(k)
                implies self.sessions.view_map()[k].session.id_spec() == k by {
                if k != k0 {
                    assert(old_store.view_map().contains_key(k));
                }
            }
            assert forall|i: int| 0 <= i < self.sessions.value_seq().len()
                implies self.sessions.view_map().contains_key(#[trigger] self.sessions.value_seq()[i].session.id_spec()) by {
                assert(self.sessions.view_map().contains_key(self.sessions.key_seq()[i]));
            }
            assert(self.sessions().contains_key(k0));
            if old(self).one_active_per_user() {
                assert forall|k1: Seq<char>, k2: Seq<char>|
                    #![trigger self.sessions().contains_key(k1), self.sessions().contains_key(k2)]
                    self.sessions().contains_key(k1) && self.sessions().contains_key(k2) && k1 != k2
                        && self.sessions()[k1].session.status_spec() == SessionStatus::Active
                        && self.sessions()[k2].session.status_spec() == SessionStatus::Active
                    implies self.sessions()[k1].session.username_spec() != self.sessions()[k2].session.username_spec() by {
                    if k1 != k0 && k2 != k0 {
                        assert(old(self).sessions().contains_key(k1));
                        assert(old(self).sessions().contains_key(k2));
                    } else if k1 == k0 {
                        assert(old(self).sessions().contains_key(k2));
                        if self.sessions()[k2].session.username_spec() == username@ {
                            assert(old(self).has_active(username@));
                        }
                    } else {
                        assert(old(self).sessions().contains_key(k1));
                        if self.sessions()[k1].session.username_spec() == username@ {
                            assert(old(self).has_active(username@));
                        }
                    }
                }
            }
        }
        Ok(info)
    }

    /// Start a session for `username` now.
    pub fn start_session(&mut self, username: &str, existing: &Vec<u8>) -> (r: Result<SessionInfo, SessionError>)
        requires
            old(self).wf(),
        ensures
            Self::start_effect(*old(self), *final(self), username@, existing@, r),
    {
        let now = crate::clock::unix_secs();
        self.start_session_at(username, existing, now)
    }

    /// Stop the session `session_id`: it is no longer tracked; unless stopping
    /// it failed, its display is given back.
    pub fn stop_session(&mut self, session_id: &str) -> (r: Result<(), SessionError>)
        requires
            old(self).wf(),
        ensures
            final(self).wf(),
            old(self).one_active_per_user() ==> final(self).one_active_per_user(),
            !old(self).sessions().contains_key(session_id@) ==> {
                &&& r matches Err(SessionError::NotFound(id)) && id@ == session_id@
                &&& final(self).sessions() == old(self).sessions()
                &&& final(self).allocated() == old(self).allocated()
            },
            old(self).sessions().contains_key(session_id@) ==> {
                &&& final(self).sessions() == old(self).sessions().remove(session_id@)
                &&& r is Ok ==> final(self).allocated()
                    == old(self).allocated().remove(old(self).sessions()[session_id@].session.display_id_spec())
                &&& r is Err ==> final(self).allocated() == old(self).allocated()
            },
    {
        match self.sessions.find(session_id) {
            None => Err(SessionError::NotFound(string_from_str(session_id))),
            Some(i) => {
                let ghost old_store = self.sessions;
                proof {
                    old_store.lemma_sequences();
                }
                let mut managed = self.sessions.remove_at(i);
                proof {
                    self.sessions.lemma_sequences();
                    assert forall|k: Seq<char>| #[trigger] self.sessions.view_map().contains_key(k)
                        implies self.sessions.view_map()[k].session.id_spec() == k by {
                        assert(old_store.view_map().contains_key(k));
                    }
                    assert forall|j: int| 0 <= j < self.sessions.value_seq().len()
                        implies self.sessions.view_map().contains_key(#[trigger] self.sessions.value_seq()[j].session.id_spec()) by {
                        assert(self.sessions.view_map().contains_key(self.sessions.key_seq()[j]));
                    }
                }
                let display_id = managed.session.display_id();
                match managed.session.stop() {
                    Ok(()) => {
                        self.allocator.release(display_id);
                        Ok(())
                    },
                    Err(e) => Err(e),
                }
            },
        }
    }

    /// What is known of the session `session_id`.
    pub fn get_session_info(&self, session_id: &str) -> (r: Result<SessionInfo, SessionError>)
        requires
            self.wf(),
        ensures
            self.sessions().contains_key(session_id@) ==> (r matches Ok(info) && info@ == info_of(self.sessions()[session_id@])),
            !self.sessions().contains_key(session_id@) ==> (r matches Err(SessionError::NotFound(id)) && id@ == session_id@),
    {
        match self.sessions.find(session_id) {
            Some(i) => Ok(info_from(self.sessions.value_at(i))),
            None => Err(SessionError::NotFound(string_from_str(session_id))),
        }
    }

    /// The sessions this manager started, in listing order.
    pub fn managed_sessions(&self) -> (r: Vec<SessionInfo>)
        requires
            self.wf(),
        ensures
            infos_view(r@) == self.session_seq().map_values(|m: ManagedSession<B::Session>| info_of(m)),
    {
        proof {
            self.sessions.lemma_sequences();
        }
        let n = self.sessions.len();
        let mut out: Vec<SessionInfo> = Vec::new();
        let mut i: usize = 0;
        while i < n
            invariant
                self.wf(),
                n == self.sessions.value_seq().len(),
                i <= n,
                infos_view(out@) == self.session_seq().subrange(0, i as int)
                    .map_values(|m: ManagedSession<B::Session>| info_of(m)),
            decreases n - i,
        {
            let info = info_from(self.sessions.value_at(i));
            proof {
                assert(infos_view(out@.push(info)) =~= infos_view(out@).push(info@));
            }
            out.push(info);
            i = i + 1;
            assert(infos_view(out@) =~= self.session_seq().subrange(0, i as int)
                .map_values(|m: ManagedSession<B::Session>| info_of(m)));
        }
        assert(self.session_seq().subrange(0, n as int) =~= self.session_seq());
        out
    }
}

impl<B: SessionBackend> SessionManager for LocalSessionManager<B> {
    open spec fn manager_wf(&self) -> bool {
        self.wf()
    }

    fn start_session(&mut self, username: &str, existing: &Vec<u8>) -> (r: Result<SessionInfo, SessionError>)
        ensures
            Self::start_effect(*old(self), *final(self), username@, existing@, r),
    {
        LocalSessionManager::start_session(self, username, existing)
    }

    fn stop_session(&mut self, session_id: &str) -> (r: Result<(), SessionError>)
        ensures
            Self::stop_effect(*old(self), *final(self), session_id@, r),
    {
        LocalSessionManager::stop_session(self, session_id)
    }

    fn get_session_info(&self, session_id: &str) -> (r: Result<SessionInfo, SessionError>)
        ensures
            self.info_answer(session_id@, r),
    {
        LocalSessionManager::get_session_info(self, session_id)
    }
}

} // verus!
