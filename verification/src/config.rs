//! Agent configuration: its shape, its secure defaults, and where it is looked for.
use vstd::prelude::*;
use crate::text::{string_from_str, str_eq};

verus! {

/// The agent's configuration.
#[derive(Debug, Clone, PartialEq, Eq)]
pub struct AgentConfig {
    pub bind_address: String,
    pub port: u16,
    pub connection_mode: ConnectionMode,
    pub desktop_session_type: DesktopSessionType,
    pub session_limits: SessionLimits,
    pub security_policy: SecurityPolicy,
}

/// Whether a connection gets a whole desktop or a single application.
#[derive(Debug, Clone, Copy, PartialEq, Eq, Structural)]
pub enum ConnectionMode {
    Desktop,
    App,
}

/// How a desktop connection finds its graphical session.
#[derive(Debug, Clone, Copy, PartialEq, Eq, Structural)]
pub enum DesktopSessionType {
    /// Attach to an existing session when there is one, else start one.
    Auto,
    /// Always attach to the existing session.
    Attach,
    /// Always start a new virtual session.
    Virtual,
}

/// Limits on concurrent and long-running sessions.
#[derive(Debug, Clone, Copy, PartialEq, Eq, Structural)]
pub struct SessionLimits {
    pub max_concurrent_sessions: u32,
    pub session_timeout_seconds: u32,
}

/// Authentication and auditing switches.
#[derive(Debug, Clone, PartialEq, Eq)]
pub struct SecurityPolicy {
    pub allow_password_auth: bool,
    pub enable_audit_logs: bool,
    pub connection_token: Option<String>,
}

impl Default for ConnectionMode {
    fn default() -> (r: Self)
        ensures
            r == ConnectionMode::Desktop,
    {
        ConnectionMode::Desktop
    }
}

impl Default for DesktopSessionType {
    fn default() -> (r: Self)
        ensures
            r == DesktopSessionType::Auto,
    {
        DesktopSessionType::Auto
    }
}

impl Default for SessionLimits {
    fn default() -> (r: Self)
        ensures
            r.max_concurrent_sessions == 5,
            r.session_timeout_seconds == 3600,
    {
        SessionLimits { max_concurrent_sessions: 5, session_timeout_seconds: 3600 }
    }
}

impl Default for SecurityPolicy {
    fn default() -> (r: Self)
        ensures
            r.allow_password_auth,
            r.enable_audit_logs,
            r.connection_token is None,
    {
        SecurityPolicy { allow_password_auth: true, enable_audit_logs: true, connection_token: None }
    }
}

impl AgentConfig {
    /// The secure defaults: loopback only, port 22, desktop mode with
    /// automatic session choice, default limits and policy.
    pub open spec fn is_default(self) -> bool {
        &&& self.bind_address@ == "127.0.0.1"@
        &&& self.port == 22
        &&& self.connection_mode == ConnectionMode::Desktop
        &&& self.desktop_session_type == DesktopSessionType::Auto
        &&& self.session_limits.max_concurrent_sessions == 5
        &&& self.session_limits.session_timeout_seconds == 3600
        &&& self.security_policy.allow_password_auth
        &&& self.security_policy.enable_audit_logs
        &&& self.security_policy.connection_token is None
    }
}

impl Default for AgentConfig {
    fn default() -> (r: Self)
        ensures
            r.is_default(),
    {
        AgentConfig {
            bind_address: string_from_str("127.0.0.1"),
            port: 22,
            connection_mode: ConnectionMode::Desktop,
            desktop_session_type: DesktopSessionType::Auto,
            session_limits: SessionLimits::default(),
            security_policy: SecurityPolicy::default(),
        }
    }
}

/// How a configuration file is parsed.
#[derive(Debug, Clone, Copy, PartialEq, Eq, Structural)]
pub enum ConfigFormat {
    Toml,
    Json,
    /// Try TOML, and JSON when TOML fails.
    TomlThenJson,
}

/// The format a configuration file is read in, chosen by its extension.
pub open spec fn format_for_extension(ext: Seq<char>) -> ConfigFormat {
    if ext == "toml"@ {
        ConfigFormat::Toml
    } else if ext == "json"@ {
        ConfigFormat::Json
    } else {
        ConfigFormat::TomlThenJson
    }
}

/// The format for a file with extension `ext` (empty when it has none).
pub fn config_format(ext: &str) -> (r: ConfigFormat)
    ensures
        r == format_for_extension(ext@),
{
    if str_eq(ext, "toml") {
        ConfigFormat::Toml
    } else if str_eq(ext, "json") {
        ConfigFormat::Json
    } else {
        ConfigFormat::TomlThenJson
    }
}

/// The files searched for a configuration, in priority order, after the one
/// named by the environment.
pub open spec fn search_paths_spec() -> Seq<Seq<char>> {
    seq![
        "/etc/ttgtiso-desk/agent.toml"@,
        "/etc/ttgtiso-desk/agent.json"@,
        "agent.toml"@,
        "config/agent.toml"@,
    ]
}

/// The configuration files looked for, in priority order.
pub fn config_search_paths() -> (r: Vec<&'static str>)
    ensures
        r@.len() == search_paths_spec().len(),
        forall|i: int| 0 <= i < r@.len() ==> r@[i]@ == search_paths_spec()[i],
{
    let v: Vec<&'static str> = vec![
        "/etc/ttgtiso-desk/agent.toml",
        "/etc/ttgtiso-desk/agent.json",
        "agent.toml",
        "config/agent.toml",
    ];
    v
}

/// The first existing file among the search paths, given which of them exist;
/// `None` means the defaults apply.
pub fn choose_config_path(exists: &Vec<bool>) -> (r: Option<usize>)
    requires
        exists@.len() == search_paths_spec().len(),
    ensures
        match r {
            Some(i) => i < exists@.len() && exists@[i as int] && forall|j: int| 0 <= j < i ==> !exists@[j],
            None => forall|j: int| 0 <= j < exists@.len() ==> !exists@[j],
        },
{
    let mut i: usize = 0;
    while i < exists.len()
        invariant
            i <= exists@.len(),
            forall|j: int| 0 <= j < i ==> !exists@[j],
        decreases exists.len() - i,
    {
        if exists[i] {
            return Some(i);
        }
        i = i + 1;
    }
    None
}

} // verus!
