//! Plain data shared by the agent, the relay and the clients.
use vstd::prelude::*;

verus! {

#[derive(Debug, Clone, Copy, PartialEq, Eq, Structural)]
pub enum SessionKind {
    X11,
    Wayland,
    Virtual,
    Unknown,
}

#[derive(Debug, Clone)]
pub struct ConnectionConfig {
    pub host: String,
    pub port: u16,
    pub username: String,
    pub auth_method: AuthMethod,
}

#[derive(Debug, Clone)]
pub enum AuthMethod {
    Password(String),
    PrivateKeyPath(String),
    Agent,
}

#[derive(Debug)]
pub struct SessionInfo {
    pub id: String,
    pub username: String,
    pub display_id: u8,
    pub start_time: u64,
    pub session_kind: SessionKind,
}

/// The contents of a `SessionInfo`.
pub struct SessionInfoView {
    pub id: Seq<char>,
    pub username: Seq<char>,
    pub display_id: u8,
    pub start_time: u64,
    pub session_kind: SessionKind,
}

impl View for SessionInfo {
    type V = SessionInfoView;

    open spec fn view(&self) -> SessionInfoView {
        SessionInfoView {
            id: self.id@,
            username: self.username@,
            display_id: self.display_id,
            start_time: self.start_time,
            session_kind: self.session_kind,
        }
    }
}

impl Clone for SessionInfo {
    fn clone(&self) -> (r: Self)
        ensures
            r@ == self@,
    {
        SessionInfo {
            id: self.id.clone(),
            username: self.username.clone(),
            display_id: self.display_id,
            start_time: self.start_time,
            session_kind: self.session_kind,
        }
    }
}

#[derive(Debug, Clone, Copy, PartialEq, Eq, Structural)]
pub enum SessionStatus {
    Active,
    Idle,
    Disconnected,
}

#[derive(Debug, Clone, Copy, PartialEq, Eq, Structural)]
pub struct VideoSettings {
    pub width: u16,
    pub height: u16,
    pub fps: u8,
    pub target_bitrate_kbps: u32,
}

#[derive(Debug, Clone, Copy, PartialEq, Eq, Structural)]
pub enum MouseButton {
    NoButton,
    Left,
    Right,
    Middle,
}

}
