//! The parts a session manager is assembled from.
use vstd::prelude::*;
use crate::shared_types::{SessionInfo, SessionKind, SessionStatus};
use crate::text::{string_from_str, concat, concat3, decimal, decimal_string};

verus! {

/// Why a session operation failed.
#[derive(Debug, Clone, PartialEq, Eq)]
pub enum SessionError {
    /// The user already has an active session.
    AlreadyActive(String),
    /// Every display of the allocator's range is taken.
    NoDisplayAvailable { min: u8, max: u8 },
    /// No session has this id.
    NotFound(String),
    /// The backend could not start or stop the session.
    Backend(String),
}

impl SessionError {
    pub open spec fn message_spec(self) -> Seq<char> {
        match self {
            SessionError::AlreadyActive(u) => "User "@ + u@ + " already has an active session"@,
            SessionError::NoDisplayAvailable { min, max } =>
                "No available displays in range "@ + decimal(min as nat) + "-"@ + decimal(max as nat),
            SessionError::NotFound(id) => "Session not found: "@ + id@,
            SessionError::Backend(m) => m@,
        }
    }

    /// The human-readable text of the error.
    pub fn message(&self) -> (r: String)
        ensures
            r@ == self.message_spec(),
    {
        match self {
            SessionError::AlreadyActive(u) => concat3("User ", u.as_str(), " already has an active session"),
            SessionError::NoDisplayAvailable { min, max } => {
                let a = decimal_string(*min as u64);
                let b = decimal_string(*max as u64);
                let mut r = concat("No available displays in range ", a.as_str());
                let tail = concat("-", b.as_str());
                crate::text::append_str(&mut r, tail.as_str());
                r
            },
            SessionError::NotFound(id) => concat("Session not found: ", id.as_str()),
            SessionError::Backend(m) => m.clone(),
        }
    }
}

/// How a backend provides a desktop for a user.
#[derive(Debug, Clone, Copy, PartialEq, Eq, Structural)]
pub enum SessionProvisioning {
    /// Attach to the graphical session already running.
    AttachExisting,
    /// Start a virtual desktop.
    VirtualDesktop,
}

/// A running desktop session of one user.
pub trait UserSession {
    spec fn id_spec(&self) -> Seq<char>;

    spec fn username_spec(&self) -> Seq<char>;

    spec fn display_id_spec(&self) -> u8;

    spec fn kind_spec(&self) -> SessionKind;

    spec fn status_spec(&self) -> SessionStatus;

    fn id(&self) -> (r: &str)
        ensures
            r@ == self.id_spec();

    fn username(&self) -> (r: &str)
        ensures
            r@ == self.username_spec();

    fn display_id(&self) -> (r: u8)
        ensures
            r == self.display_id_spec();

    fn session_kind(&self) -> (r: SessionKind)
        ensures
            r == self.kind_spec();

    fn status(&self) -> (r: SessionStatus)
        ensures
            r == self.status_spec();

    /// Stop the session; on success it is disconnected. Identity is kept.
    fn stop(&mut self) -> (r: Result<(), SessionError>)
        ensures
            final(self).id_spec() == old(self).id_spec(),
            final(self).username_spec() == old(self).username_spec(),
            final(self).display_id_spec() == old(self).display_id_spec(),
            final(self).kind_spec() == old(self).kind_spec(),
            r is Ok ==> final(self).status_spec() == SessionStatus::Disconnected;
}

/// Creates sessions.
pub trait SessionBackend {
    type Session: UserSession;

    /// How this backend gives `username` a desktop.
    fn provisioning(&self, username: &str) -> SessionProvisioning;

    /// The error starting a session for `username` on `display_id` ends
    /// in, if it fails.
    spec fn create_outcome(&self, username: Seq<char>, display_id: Option<u8>) -> Option<SessionError>;

    /// Start a session for `username` on `display_id`, or hand back the
    /// error; a started session belongs to that user, runs on that display
    /// and is active.
    fn create_session(&self, username: &str, display_id: Option<u8>) -> (r: Result<Self::Session, SessionError>)
        ensures
            match self.create_outcome(username@, display_id) {
                Some(e) => r == Err::<Self::Session, SessionError>(e),
                None => r matches Ok(s) && s.username_spec() == username@ && s.status_spec() == SessionStatus::Active
                    && (display_id matches Some(d) ==> s.display_id_spec() == d),
            };
}

/// Hands out display numbers.
pub trait DisplayAllocator {
    /// A free display number, given the displays whose sockets exist.
    fn allocate(&mut self, existing: &Vec<u8>) -> Result<u8, SessionError>;

    /// Give a display number back.
    fn release(&mut self, display_id: u8);
}

/// Hooks run when the agent starts and stops.
pub trait SessionLifecycle {
    fn on_startup(&self) -> Result<(), SessionError>;

    fn on_shutdown(&self) -> Result<(), SessionError>;
}

/// Receives session audit events.
pub trait SessionAuditSink {
    fn log_start(&mut self, session_id: &str, username: &str, display_id: u8);

    fn log_stop(&mut self, session_id: &str, username: &str, reason: &str);
}

/// Starts, stops and describes sessions.
pub trait SessionManager {
    /// The manager's own consistency condition.
    spec fn manager_wf(&self) -> bool;

    fn start_session(&mut self, username: &str, existing: &Vec<u8>) -> (r: Result<SessionInfo, SessionError>)
        requires
            old(self).manager_wf(),
        ensures
            final(self).manager_wf();

    fn stop_session(&mut self, session_id: &str) -> (r: Result<(), SessionError>)
        requires
            old(self).manager_wf(),
        ensures
            final(self).manager_wf();

    fn get_session_info(&self, session_id: &str) -> (r: Result<SessionInfo, SessionError>)
        requires
            self.manager_wf();
}

} // verus!
