//! Control-channel messages exchanged as JSON between client and agent.
use vstd::prelude::*;

verus! {

#[derive(Debug, Clone, PartialEq, Eq)]
pub enum ControlMessage {
    ClientHello(ClientHello),
    ServerHello(ServerHello),
    StartSessionRequest(StartSessionRequest),
    StopSessionRequest,
    SessionStarted(SessionStarted),
    ErrorMessage(ErrorMessage),
    /// The client asks which monitors can be streamed.
    ListMonitorsRequest,
    /// The monitors the agent can stream.
    MonitorList(MonitorList),
    /// Switch the stream to one monitor.
    SelectMonitor(SelectMonitor),
    /// The client asks for interactive access.
    AccessRequest(AccessRequest),
    /// The agent's answer to an access request.
    AccessDecision(AccessDecision),
    /// Re-attach to a frozen session with a resume token.
    ResumeSessionRequest(ResumeSessionRequest),
    /// The agent's answer to a resume attempt.
    ResumeSessionResponse(ResumeSessionResponse),
}

#[derive(Debug, Clone, PartialEq, Eq)]
pub struct ClientHello {
    pub client_version: String,
    pub supported_capabilities: Vec<String>,
}

#[derive(Debug, Clone, PartialEq, Eq)]
pub struct ServerHello {
    pub server_version: String,
    pub negotiated_capabilities: Vec<String>,
}

#[derive(Debug, Clone, PartialEq, Eq)]
pub struct StartSessionRequest {
    pub width: u16,
    pub height: u16,
    pub fps: u8,
    /// The monitor to stream; 0 is the primary one.
    pub monitor_index: u32,
    /// The preferred video codec token; empty lets the agent decide.
    pub preferred_codec: String,
}

#[derive(Debug, Clone, PartialEq, Eq)]
pub struct SessionStarted {
    pub session_id: String,
    pub display: String,
    /// The token to present to resume this session; empty without resume.
    pub resume_token: String,
}

#[derive(Debug, Clone, PartialEq, Eq)]
pub struct ErrorMessage {
    pub code: u16,
    pub message: String,
}

/// A physical monitor of the host.
#[derive(Debug, Clone, PartialEq, Eq)]
pub struct MonitorInfo {
    /// Zero-based; 0 is the primary monitor.
    pub index: u32,
    pub name: String,
    pub width: u32,
    pub height: u32,
    /// Offset of the monitor's top-left corner on the virtual desktop.
    pub x: i32,
    pub y: i32,
    pub is_primary: bool,
}

#[derive(Debug, Clone, PartialEq, Eq)]
pub struct MonitorList {
    pub monitors: Vec<MonitorInfo>,
}

#[derive(Debug, Clone, Copy, PartialEq, Eq, Structural)]
pub struct SelectMonitor {
    pub index: u32,
}

/// How access is granted.
#[derive(Debug, Clone, Copy, PartialEq, Eq, Structural)]
pub enum AccessMode {
    /// Grant on policy and credentials alone.
    Unattended,
    /// The user at the console must approve.
    AskUser,
}

#[derive(Debug, Clone, PartialEq, Eq)]
pub struct AccessRequest {
    /// Shown to the local user.
    pub operator: String,
    pub reason: String,
    pub mode: AccessMode,
}

#[derive(Debug, Clone, PartialEq, Eq)]
pub struct AccessDecision {
    pub granted: bool,
    /// Why access was refused, when it was.
    pub message: String,
}

#[derive(Debug, Clone, PartialEq, Eq)]
pub struct ResumeSessionRequest {
    pub resume_token: String,
}

#[derive(Debug, Clone, PartialEq, Eq)]
pub struct ResumeSessionResponse {
    pub resumed: bool,
    /// The session id when resumed; empty otherwise.
    pub session_id: String,
    pub message: String,
}

} // verus!
