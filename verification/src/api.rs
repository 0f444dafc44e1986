//! The management API's model and its decisions: the host registry, the
//! hosts file, login answers, how agent replies are read, and where a VNC
//! proxy connects.
use vstd::prelude::*;
use crate::security::UserRole;
use crate::text::{
    chars_of, str_eq, string_from_str, string_from_chars, concat, concat3, decimal, decimal_string,
    append_str, push_char, strings_view, push_str, chars_lt, chars_less, lemma_chars_lt_irreflexive,
    lemma_chars_lt_transitive,
};
use crate::parse::{lines_spec, lines_chars, starts_with_spec, starts_with_chars, views, suffix_from};

verus! {

#[derive(Debug, Clone)]
pub struct LoginRequest {
    pub host: String,
    pub port: u16,
    pub username: String,
    pub password: String,
}

#[derive(Debug, Clone)]
pub struct UserInfo {
    pub username: String,
    pub role: String,
    pub token: String,
}

#[derive(Debug, Clone)]
pub struct LoginResponse {
    pub success: bool,
    pub message: String,
    pub user: Option<UserInfo>,
}

/// Whether a host answers, and whether it runs sessions.
#[derive(Debug, Clone, Copy, PartialEq, Eq, Structural)]
pub enum HostStatus {
    Online,
    Offline,
    Busy,
}

/// A managed host.
#[derive(Debug, Clone)]
pub struct Host {
    pub id: String,
    pub name: String,
    pub ip: String,
    pub port: u16,
    pub status: HostStatus,
    pub active_sessions: u32,
    pub operating_system: String,
    pub ssh_public_key: Option<String>,
    pub ssh_public_key_path: Option<String>,
    pub ssh_private_key_path: Option<String>,
}

#[derive(Debug, Clone, Copy, PartialEq, Eq, Structural)]
pub enum LogLevel {
    Info,
    Warn,
    Error,
    Audit,
}

#[derive(Debug, Clone)]
pub struct LogEntry {
    pub timestamp: String,
    pub level: LogLevel,
    pub message: String,
}

/// Streaming settings.
#[derive(Debug, Clone)]
pub struct Settings {
    pub quality: String,
    pub encoder: String,
    pub fps: u32,
    pub audio: bool,
}

impl Default for Settings {
    fn default() -> (r: Self)
        ensures
            r.quality@ == "auto"@,
            r.encoder@ == "vaapi"@,
            r.fps == 30,
            !r.audio,
    {
        Settings { quality: string_from_str("auto"), encoder: string_from_str("vaapi"), fps: 30, audio: false }
    }
}

#[derive(Debug, Clone)]
pub struct AddHostRequest {
    pub name: String,
    pub ip: String,
    pub port: u16,
    pub ssh_public_key: Option<String>,
    pub ssh_public_key_path: Option<String>,
    pub ssh_private_key_path: Option<String>,
}

#[derive(Debug, Clone)]
pub struct UpdateHostRequest {
    pub name: String,
    pub ip: String,
    pub port: u16,
    pub ssh_public_key: Option<String>,
    pub ssh_public_key_path: Option<String>,
    pub ssh_private_key_path: Option<String>,
}

#[derive(Debug, Clone)]
pub struct LaunchRequest {
    pub command: String,
}

#[derive(Debug, Clone)]
pub struct VncQueryParams {
    pub host: String,
    pub display: u32,
    pub monitor: u32,
    pub token: String,
}

#[derive(Debug, Clone)]
pub struct PowerRequest {
    pub action: String,
}

/// A host of the hosts file.
#[derive(Debug, Clone)]
pub struct HostConfig {
    pub name: String,
    pub ip: String,
    pub ssh_port: u16,
    pub ssh_public_key: Option<String>,
    pub ssh_public_key_path: Option<String>,
    pub ssh_private_key_path: Option<String>,
}

/// The characters of an optional string.
pub open spec fn opt_chars(o: Option<String>) -> Option<Seq<char>> {
    match o {
        Some(s) => Some(s@),
        None => None,
    }
}

fn clone_opt(o: &Option<String>) -> (r: Option<String>)
    ensures
        opt_chars(r) == opt_chars(*o),
{
    match o {
        Some(s) => Some(s.clone()),
        None => None,
    }
}

/// The hosts the management API knows of.
pub struct HostDiscovery {
    config_hosts: Vec<HostConfig>,
}

impl HostDiscovery {
    pub closed spec fn hosts(&self) -> Seq<HostConfig> {
        self.config_hosts@
    }

    /// The hosts of the hosts file, or, when it could not be read, the local
    /// test host `127.0.0.1` on port 22.
    pub fn new(loaded: Option<Vec<HostConfig>>) -> (r: HostDiscovery)
        ensures
            match loaded {
                Some(v) => r.hosts() == v@,
                None => r.hosts().len() == 1 && r.hosts()[0].name@ == "localhost-test"@
                    && r.hosts()[0].ip@ == "127.0.0.1"@ && r.hosts()[0].ssh_port == 22
                    && r.hosts()[0].ssh_public_key is None && r.hosts()[0].ssh_public_key_path is None
                    && r.hosts()[0].ssh_private_key_path is None,
            },
    {
        match loaded {
            Some(v) => HostDiscovery { config_hosts: v },
            None => {
                let mut v: Vec<HostConfig> = Vec::new();
                v.push(HostConfig {
                    name: string_from_str("localhost-test"),
                    ip: string_from_str("127.0.0.1"),
                    ssh_port: 22,
                    ssh_public_key: None,
                    ssh_public_key_path: None,
                    ssh_private_key_path: None,
                });
                HostDiscovery { config_hosts: v }
            },
        }
    }

    /// The SSH port of the first configured host with this address, else 22.
    pub fn get_port_for_host(&self, ip: &str) -> (r: u16)
        ensures
            r == port_for(self.hosts(), ip@),
    {
        let mut i: usize = 0;
        assert(self.hosts().subrange(0, self.hosts().len() as int) =~= self.hosts());
        while i < self.config_hosts.len()
            invariant
                i <= self.config_hosts@.len(),
                port_for(self.hosts(), ip@) == port_for(self.hosts().subrange(i as int, self.hosts().len() as int), ip@),
            decreases self.config_hosts.len() - i,
        {
            proof {
                let rest = self.hosts().subrange(i as int, self.hosts().len() as int);
                assert(rest[0] == self.hosts()[i as int]);
                assert(rest.drop_first() =~= self.hosts().subrange(i + 1, self.hosts().len() as int));
            }
            if str_eq(self.config_hosts[i].ip.as_str(), ip) {
                return self.config_hosts[i].ssh_port;
            }
            i = i + 1;
        }
        22
    }
}

/// The SSH port of the first host with address `ip`, else 22.
pub open spec fn port_for(hosts: Seq<HostConfig>, ip: Seq<char>) -> u16
    decreases hosts.len(),
{
    if hosts.len() == 0 {
        22
    } else if hosts[0].ip@ == ip {
        hosts[0].ssh_port
    } else {
        port_for(hosts.drop_first(), ip)
    }
}

/// A new, offline host from an add request.
pub fn build_host_from_request(id: String, payload: &AddHostRequest) -> (r: Host)
    ensures
        r.id == id,
        r.name@ == payload.name@,
        r.ip@ == payload.ip@,
        r.port == payload.port,
        r.status == HostStatus::Offline,
        r.active_sessions == 0,
        r.operating_system@ == "Unknown"@,
        opt_chars(r.ssh_public_key) == opt_chars(payload.ssh_public_key),
        opt_chars(r.ssh_public_key_path) == opt_chars(payload.ssh_public_key_path),
        opt_chars(r.ssh_private_key_path) == opt_chars(payload.ssh_private_key_path),
{
    Host {
        id,
        name: payload.name.clone(),
        ip: payload.ip.clone(),
        port: payload.port,
        status: HostStatus::Offline,
        active_sessions: 0,
        operating_system: string_from_str("Unknown"),
        ssh_public_key: clone_opt(&payload.ssh_public_key),
        ssh_public_key_path: clone_opt(&payload.ssh_public_key_path),
        ssh_private_key_path: clone_opt(&payload.ssh_private_key_path),
    }
}

/// The addresses of the hosts, in order.
pub open spec fn host_ips(hosts: Seq<Host>) -> Seq<Seq<char>> {
    hosts.map_values(|h: Host| h.ip@)
}

/// Why a host could not be added.
#[derive(Debug, Clone, Copy, PartialEq, Eq, Structural)]
pub enum AddHostError {
    /// A host with this address is registered already.
    DuplicateIp,
}

impl AddHostError {
    pub fn message(&self) -> (r: String)
        ensures
            r@ == "Host with this IP already exists in registry"@,
    {
        string_from_str("Host with this IP already exists in registry")
    }
}

/// Register a host: refused when its address is registered already;
/// otherwise appended with the next number as its id.
pub fn add_host(hosts: &mut Vec<Host>, payload: &AddHostRequest) -> (r: Result<(), AddHostError>)
    requires
        old(hosts)@.len() < u64::MAX,
    ensures
        host_ips(old(hosts)@).contains(payload.ip@) ==> r == Err::<(), AddHostError>(AddHostError::DuplicateIp)
            && final(hosts)@ == old(hosts)@,
        !host_ips(old(hosts)@).contains(payload.ip@) ==> r is Ok && final(hosts)@.len() == old(hosts)@.len() + 1
            && final(hosts)@.drop_last() == old(hosts)@
            && final(hosts)@.last().id@ == decimal((old(hosts)@.len() + 1) as nat)
            && final(hosts)@.last().ip@ == payload.ip@ && final(hosts)@.last().name@ == payload.name@
            && final(hosts)@.last().port == payload.port && final(hosts)@.last().status == HostStatus::Offline,
{
    let mut i: usize = 0;
    while i < hosts.len()
        invariant
            i <= hosts@.len(),
            hosts@ == old(hosts)@,
            forall|j: int| 0 <= j < i ==> hosts@[j].ip@ != payload.ip@,
        decreases hosts.len() - i,
    {
        if str_eq(hosts[i].ip.as_str(), payload.ip.as_str()) {
            assert(host_ips(hosts@)[i as int] == payload.ip@);
            return Err(AddHostError::DuplicateIp);
        }
        i = i + 1;
    }
    proof {
        if host_ips(hosts@).contains(payload.ip@) {
            let k = choose|k: int| 0 <= k < host_ips(hosts@).len() && host_ips(hosts@)[k] == payload.ip@;
            assert(hosts@[k].ip@ == payload.ip@);
        }
    }
    let next = decimal_string((hosts.len() as u64) + 1);
    let h = build_host_from_request(next, payload);
    hosts.push(h);
    assert(hosts@.drop_last() =~= old(hosts)@);
    Ok(())
}

/// Change the first host with address `ip`; false when there is none.
pub fn update_host(hosts: &mut Vec<Host>, ip: &str, payload: &UpdateHostRequest) -> (r: bool)
    ensures
        r == host_ips(old(hosts)@).contains(ip@),
        !r ==> final(hosts)@ == old(hosts)@,
        r ==> exists|k: int| 0 <= k < old(hosts)@.len() && old(hosts)@[k].ip@ == ip@
            && (forall|j: int| 0 <= j < k ==> old(hosts)@[j].ip@ != ip@)
            && final(hosts)@.len() == old(hosts)@.len()
            && (forall|j: int| 0 <= j < old(hosts)@.len() && j != k ==> final(hosts)@[j] == old(hosts)@[j])
            && final(hosts)@[k].name@ == payload.name@ && final(hosts)@[k].ip@ == payload.ip@
            && final(hosts)@[k].port == payload.port
            && opt_chars(final(hosts)@[k].ssh_public_key) == opt_chars(payload.ssh_public_key)
            && opt_chars(final(hosts)@[k].ssh_public_key_path) == opt_chars(payload.ssh_public_key_path)
            && opt_chars(final(hosts)@[k].ssh_private_key_path) == opt_chars(payload.ssh_private_key_path)
            && final(hosts)@[k].id@ == old(hosts)@[k].id@ && final(hosts)@[k].status == old(hosts)@[k].status
            && final(hosts)@[k].active_sessions == old(hosts)@[k].active_sessions,
{
    let mut i: usize = 0;
    while i < hosts.len()
        invariant
            i <= hosts@.len(),
            hosts@ == old(hosts)@,
            forall|j: int| 0 <= j < i ==> hosts@[j].ip@ != ip@,
        decreases hosts.len() - i,
    {
        if str_eq(hosts[i].ip.as_str(), ip) {
            assert(host_ips(hosts@)[i as int] == ip@);
            let h = Host {
                id: hosts[i].id.clone(),
                name: payload.name.clone(),
                ip: payload.ip.clone(),
                port: payload.port,
                status: hosts[i].status,
                active_sessions: hosts[i].active_sessions,
                operating_system: hosts[i].operating_system.clone(),
                ssh_public_key: clone_opt(&payload.ssh_public_key),
                ssh_public_key_path: clone_opt(&payload.ssh_public_key_path),
                ssh_private_key_path: clone_opt(&payload.ssh_private_key_path),
            };
            hosts.set(i, h);
            assert(old(hosts)@[i as int].ip@ == ip@);
            return true;
        }
        i = i + 1;
    }
    proof {
        if host_ips(hosts@).contains(ip@) {
            let k = choose|k: int| 0 <= k < host_ips(hosts@).len() && host_ips(hosts@)[k] == ip@;
            assert(hosts@[k].ip@ == ip@);
        }
    }
    false
}

/// `s` with each double quote preceded by a backslash.
pub open spec fn escape_quotes(s: Seq<char>) -> Seq<char>
    decreases s.len(),
{
    if s.len() == 0 {
        Seq::empty()
    } else {
        escape_quotes(s.drop_last()) + (if s.last() == '"' { seq!['\\', '"'] } else { seq![s.last()] })
    }
}

fn escaped(s: &str) -> (r: String)
    ensures
        r@ == escape_quotes(s@),
{
    let c = chars_of(s);
    let mut r = String::new();
    let mut i: usize = 0;
    while i < c.len()
        invariant
            i <= c@.len(),
            c@ == s@,
            r@ == escape_quotes(c@.subrange(0, i as int)),
        decreases c.len() - i,
    {
        assert(c@.subrange(0, i + 1).drop_last() =~= c@.subrange(0, i as int));
        let ghost before = r@;
        if c[i] == '"' {
            push_char(&mut r, '\\');
            push_char(&mut r, '"');
            assert(r@ =~= before + seq!['\\', '"']);
        } else {
            push_char(&mut r, c[i]);
            assert(r@ =~= before + seq![c@[i as int]]);
        }
        i = i + 1;
    }
    assert(c@.subrange(0, c@.len() as int) =~= c@);
    r
}

/// The comment that opens the hosts file.
pub open spec fn hosts_file_header() -> Seq<char> {
    "# Конфигурация хостов TTGTiSO-Desk\n# Список серверов, на которых развёрнут server-agent\n\n"@
}

/// An optional quoted key line of the hosts file.
pub open spec fn key_line(key: Seq<char>, value: Option<String>) -> Seq<char> {
    match value {
        Some(v) => key + " = \""@ + escape_quotes(v@) + "\"\n"@,
        None => Seq::empty(),
    }
}

/// The entry of one host in the hosts file.
pub open spec fn host_entry(h: Host) -> Seq<char> {
    "[[hosts]]\n"@ + "name = \""@ + h.name@ + "\"\n"@ + "ip = \""@ + h.ip@ + "\"\n"@ + "ssh_port = "@
        + decimal(h.port as nat) + "\n"@ + key_line("ssh_public_key"@, h.ssh_public_key)
        + key_line("ssh_public_key_path"@, h.ssh_public_key_path)
        + key_line("ssh_private_key_path"@, h.ssh_private_key_path) + "\n"@
}

/// The hosts file text for the hosts, in order.
pub open spec fn hosts_file_spec(hosts: Seq<Host>) -> Seq<char>
    decreases hosts.len(),
{
    if hosts.len() == 0 {
        hosts_file_header()
    } else {
        hosts_file_spec(hosts.drop_last()) + host_entry(hosts.last())
    }
}

fn append_key(text: &mut String, key: &str, value: &Option<String>)
    ensures
        final(text)@ == old(text)@ + key_line(key@, *value),
{
    match value {
        Some(v) => {
            let e = escaped(v.as_str());
            append_str(text, key);
            append_str(text, " = \"");
            append_str(text, e.as_str());
            append_str(text, "\"\n");
        },
        None => {
            assert(old(text)@ + Seq::<char>::empty() =~= old(text)@);
        },
    }
}

/// The text of the hosts file that lists `hosts`.
pub fn hosts_file_text(hosts: &Vec<Host>) -> (r: String)
    ensures
        r@ == hosts_file_spec(hosts@),
{
    let mut text = string_from_str("# Конфигурация хостов TTGTiSO-Desk\n# Список серверов, на которых развёрнут server-agent\n\n");
    let mut i: usize = 0;
    while i < hosts.len()
        invariant
            i <= hosts@.len(),
            text@ == hosts_file_spec(hosts@.subrange(0, i as int)),
        decreases hosts.len() - i,
    {
        let h = &hosts[i];
        assert(hosts@.subrange(0, i + 1).drop_last() =~= hosts@.subrange(0, i as int));
        assert(hosts@.subrange(0, i + 1).last() == hosts@[i as int]);
        let ghost before = text@;
        append_str(&mut text, "[[hosts]]\n");
        append_str(&mut text, "name = \"");
        append_str(&mut text, h.name.as_str());
        append_str(&mut text, "\"\n");
        append_str(&mut text, "ip = \"");
        append_str(&mut text, h.ip.as_str());
        append_str(&mut text, "\"\n");
        append_str(&mut text, "ssh_port = ");
        let p = decimal_string(h.port as u64);
        append_str(&mut text, p.as_str());
        append_str(&mut text, "\n");
        append_key(&mut text, "ssh_public_key", &h.ssh_public_key);
        append_key(&mut text, "ssh_public_key_path", &h.ssh_public_key_path);
        append_key(&mut text, "ssh_private_key_path", &h.ssh_private_key_path);
        append_str(&mut text, "\n");
        assert(text@ =~= before + host_entry(hosts@[i as int]));
        i = i + 1;
    }
    assert(hosts@.subrange(0, hosts@.len() as int) =~= hosts@);
    text
}

/// How a role is shown to an administrator.
pub open spec fn role_label_spec(role: UserRole) -> Seq<char> {
    match role {
        UserRole::Admin => "Administrator"@,
        UserRole::SupportOperator => "Operator"@,
        UserRole::Auditor => "Auditor"@,
        UserRole::User => "User"@,
    }
}

/// The label of a role.
pub fn role_label(role: UserRole) -> (r: String)
    ensures
        r@ == role_label_spec(role),
{
    match role {
        UserRole::Admin => string_from_str("Administrator"),
        UserRole::SupportOperator => string_from_str("Operator"),
        UserRole::Auditor => string_from_str("Auditor"),
        UserRole::User => string_from_str("User"),
    }
}

/// The answer to a successful login, carrying the session token.
pub fn login_success(username: String, role: UserRole, token: String) -> (r: LoginResponse)
    ensures
        r.success,
        r.message@ == "Authentication successful"@,
        r.user matches Some(u) && u.username == username && u.role@ == role_label_spec(role) && u.token == token,
{
    LoginResponse {
        success: true,
        message: string_from_str("Authentication successful"),
        user: Some(UserInfo { username, role: role_label(role), token }),
    }
}

/// The answer to a refused login.
pub fn login_failure(reason: &str) -> (r: LoginResponse)
    ensures
        !r.success,
        r.message@ == "Authentication failed: "@ + reason@,
        r.user is None,
{
    LoginResponse { success: false, message: concat("Authentication failed: ", reason), user: None }
}

/// The answer to a session request: refused when the user or host is
/// missing; the session when it started; "already active" when starting
/// failed but one runs for that user on that host; the failure otherwise.
pub fn session_start_response(payload: &LoginRequest, started: Result<(), &str>, already_active: bool) -> (r: LoginResponse)
    ensures
        (payload.username@.len() == 0 || payload.host@.len() == 0) ==> !r.success && r.message@ == "Invalid payload"@
            && r.user is None,
        (payload.username@.len() > 0 && payload.host@.len() > 0) ==> match started {
            Ok(()) => {
                &&& r.success
                &&& r.message@ == "Session started"@
                &&& r.user matches Some(u) && u.username@ == payload.username@ && u.role@ == "Operator"@ && u.token@.len() == 0
            },
            Err(e) => if already_active {
                &&& r.success
                &&& r.message@ == "Session already active"@
                &&& r.user matches Some(u) && u.username@ == payload.username@ && u.role@ == "Operator"@ && u.token@.len() == 0
            } else {
                !r.success && r.message@ == "Failed to establish session: "@ + e@ && r.user is None
            },
        },
{
    if payload.username.as_str().is_empty() || payload.host.as_str().is_empty() {
        return LoginResponse { success: false, message: string_from_str("Invalid payload"), user: None };
    }
    proof {
        reveal_strlit("");
    }
    let operator = UserInfo {
        username: payload.username.clone(),
        role: string_from_str("Operator"),
        token: string_from_str(""),
    };
    match started {
        Ok(()) => LoginResponse { success: true, message: string_from_str("Session started"), user: Some(operator) },
        Err(e) => if already_active {
            LoginResponse { success: true, message: string_from_str("Session already active"), user: Some(operator) }
        } else {
            LoginResponse { success: false, message: concat("Failed to establish session: ", e), user: None }
        },
    }
}

/// The log level of an audit event type.
pub open spec fn log_level_spec(event_type: Seq<char>) -> LogLevel {
    if event_type == "AUTHENTICATION"@ {
        LogLevel::Audit
    } else if event_type == "ERROR"@ {
        LogLevel::Error
    } else if event_type == "WARN"@ {
        LogLevel::Warn
    } else {
        LogLevel::Info
    }
}

/// The log entry for an audit record read from host `ip`.
pub fn log_entry(ip: &str, timestamp: u64, event_type: &str, username: &str, details: &str) -> (r: LogEntry)
    ensures
        r.timestamp@ == decimal(timestamp as nat),
        r.level == log_level_spec(event_type@),
        r.message@ == "["@ + ip@ + "] "@ + username@ + ": "@ + details@,
{
    let level = if str_eq(event_type, "AUTHENTICATION") {
        LogLevel::Audit
    } else if str_eq(event_type, "ERROR") {
        LogLevel::Error
    } else if str_eq(event_type, "WARN") {
        LogLevel::Warn
    } else {
        LogLevel::Info
    };
    let mut m = concat3("[", ip, "] ");
    append_str(&mut m, username);
    append_str(&mut m, ": ");
    append_str(&mut m, details);
    LogEntry { timestamp: decimal_string(timestamp), level, message: m }
}

/// The operating system label of a host: the agent's `os` field, with
/// `windows` and `linux` capitalised; when the agent names none, the local
/// system's name for the local host and `Linux` for others.
pub open spec fn os_label_spec(agent_os: Option<Seq<char>>, is_local: bool, local_os: Seq<char>) -> Seq<char> {
    let named = match agent_os {
        Some(o) => if o == "windows"@ { "Windows"@ } else if o == "linux"@ { "Linux"@ } else { o },
        None => "Unknown / Offline"@,
    };
    if named == "Unknown / Offline"@ || named.len() == 0 {
        if is_local { local_os } else { "Linux"@ }
    } else {
        named
    }
}

/// The operating system label of an online host.
pub fn os_label(agent_os: Option<&str>, is_local: bool, local_os: &str) -> (r: String)
    ensures
        r@ == os_label_spec(match agent_os { Some(o) => Some(o@), None => None }, is_local, local_os@),
{
    let named = match agent_os {
        Some(o) => if str_eq(o, "windows") {
            string_from_str("Windows")
        } else if str_eq(o, "linux") {
            string_from_str("Linux")
        } else {
            string_from_str(o)
        },
        None => string_from_str("Unknown / Offline"),
    };
    if str_eq(named.as_str(), "Unknown / Offline") || named.as_str().is_empty() {
        if is_local { string_from_str(local_os) } else { string_from_str("Linux") }
    } else {
        named
    }
}

/// The distribution name from the os-release text: the first
/// `PRETTY_NAME=` line without its key and surrounding quotes; else Astra Linux.
pub open spec fn local_os_spec(lines: Seq<Seq<char>>) -> Seq<char>
    decreases lines.len(),
{
    if lines.len() == 0 {
        "Astra Linux"@
    } else if starts_with_spec(lines[0], "PRETTY_NAME="@) {
        strip_quotes(strip_key(lines[0]))
    } else {
        local_os_spec(lines.drop_first())
    }
}

/// `s` without every leading repetition of `PRETTY_NAME=`.
pub open spec fn strip_key(s: Seq<char>) -> Seq<char>
    decreases s.len(),
{
    if starts_with_spec(s, "PRETTY_NAME="@) && s.len() >= 12 {
        strip_key(s.subrange(12, s.len() as int))
    } else {
        s
    }
}

/// `s` without leading and trailing double quotes.
pub open spec fn strip_quotes(s: Seq<char>) -> Seq<char>
    decreases s.len(),
{
    if s.len() > 0 && s[0] == '"' {
        strip_quotes(s.drop_first())
    } else if s.len() > 0 && s.last() == '"' {
        strip_quotes(s.drop_last())
    } else {
        s
    }
}

fn strip_key_exec(v: &Vec<char>, key: &Vec<char>) -> (r: Vec<char>)
    requires
        key@ == "PRETTY_NAME="@,
    ensures
        r@ == strip_key(v@),
    decreases v@.len(),
{
    proof {
        reveal_strlit("PRETTY_NAME=");
    }
    if starts_with_chars(v, key) && v.len() >= 12 {
        let rest = suffix_from(v, 12);
        strip_key_exec(&rest, key)
    } else {
        v.clone()
    }
}

fn strip_quotes_exec(v: &Vec<char>) -> (r: Vec<char>)
    ensures
        r@ == strip_quotes(v@),
{
    let n = v.len();
    let mut a: usize = 0;
    let mut b: usize = n;
    assert(v@.subrange(0, n as int) =~= v@);
    while a < b && v[a] == '"'
        invariant
            n == v@.len(),
            a <= b <= n,
            b == n,
            strip_quotes(v@) == strip_quotes(v@.subrange(a as int, b as int)),
        decreases b - a,
    {
        assert(v@.subrange(a as int, b as int).drop_first() =~= v@.subrange(a + 1, b as int));
        a = a + 1;
    }
    while a < b && v[b - 1] == '"'
        invariant
            n == v@.len(),
            a <= b <= n,
            strip_quotes(v@) == strip_quotes(v@.subrange(a as int, b as int)),
            a < b ==> v@[a as int] != '"',
        decreases b - a,
    {
        assert(v@.subrange(a as int, b as int).drop_last() =~= v@.subrange(a as int, b - 1));
        b = b - 1;
    }
    let mut r: Vec<char> = Vec::new();
    let mut i: usize = a;
    while i < b
        invariant
            a <= i <= b <= n,
            n == v@.len(),
            r@ == v@.subrange(a as int, i as int),
        decreases b - i,
    {
        r.push(v[i]);
        i = i + 1;
        assert(r@ =~= v@.subrange(a as int, i as int));
    }
    r
}

/// The distribution's name, from the text of the os-release file.
pub fn detect_local_os(os_release: &str) -> (r: String)
    ensures
        r@ == local_os_spec(lines_spec(os_release@)),
{
    let c = chars_of(os_release);
    let lines = lines_chars(&c);
    let ghost ls = lines_spec(os_release@);
    let key = chars_of("PRETTY_NAME=");
    let mut i: usize = 0;
    assert(ls.subrange(0, ls.len() as int) =~= ls);
    while i < lines.len()
        invariant
            views(lines@) == ls,
            ls == lines_spec(os_release@),
            key@ == "PRETTY_NAME="@,
            i <= lines@.len(),
            local_os_spec(ls) == local_os_spec(ls.subrange(i as int, ls.len() as int)),
        decreases lines.len() - i,
    {
        proof {
            let rest = ls.subrange(i as int, ls.len() as int);
            assert(rest[0] == ls[i as int]);
            assert(ls[i as int] == lines@[i as int]@);
            assert(rest.drop_first() =~= ls.subrange(i + 1, ls.len() as int));
        }
        if starts_with_chars(&lines[i], &key) {
            let k = strip_key_exec(&lines[i], &key);
            let q = strip_quotes_exec(&k);
            return string_from_chars(q.as_slice());
        }
        i = i + 1;
    }
    string_from_str("Astra Linux")
}

/// The command the API sends to an agent for a session operation.
pub fn agent_command(verb: &str, argument: &str) -> (r: String)
    ensures
        r@ == verb@ + " "@ + argument@,
{
    concat3(verb, " ", argument)
}

/// The answer when a host cannot be reached.
pub fn host_offline_message(ip: &str) -> (r: String)
    ensures
        r@ == "Host "@ + ip@ + " is offline or unreachable."@,
{
    concat3("Host ", ip, " is offline or unreachable.")
}

/// The arguments of the `ssh` call that hands `payload` to the agent's
/// control socket on a remote host.
pub open spec fn ssh_agent_args_spec(port: u16, ip: Seq<char>, payload: Seq<char>) -> Seq<Seq<char>> {
    let sock = "/var/lib/ttgtiso-desk/agent.sock"@;
    seq![
        "-o"@, "StrictHostKeyChecking=no"@, "-o"@, "BatchMode=yes"@, "-p"@, decimal(port as nat), ip,
        "echo '"@ + payload + "' | socat - UNIX-CONNECT:"@ + sock + " || echo '"@ + payload + "' | nc -U "@ + sock,
    ]
}

/// The `ssh` arguments that run an agent command on a remote host.
pub fn ssh_agent_args(port: u16, ip: &str, payload: &str) -> (r: Vec<String>)
    ensures
        strings_view(r@) == ssh_agent_args_spec(port, ip@, payload@),
{
    let mut v: Vec<String> = Vec::new();
    push_str(&mut v, "-o");
    push_str(&mut v, "StrictHostKeyChecking=no");
    push_str(&mut v, "-o");
    push_str(&mut v, "BatchMode=yes");
    push_str(&mut v, "-p");
    let p = decimal_string(port as u64);
    push_str(&mut v, p.as_str());
    push_str(&mut v, ip);
    let sock = "/var/lib/ttgtiso-desk/agent.sock";
    let mut cmd = concat3("echo '", payload, "' | socat - UNIX-CONNECT:");
    append_str(&mut cmd, sock);
    append_str(&mut cmd, " || echo '");
    append_str(&mut cmd, payload);
    append_str(&mut cmd, "' | nc -U ");
    append_str(&mut cmd, sock);
    push_str(&mut v, cmd.as_str());
    assert(strings_view(v@) =~= ssh_agent_args_spec(port, ip@, payload@));
    v
}

/// How an agent's answer to a command is read: success when it says so;
/// otherwise its error text, or "Unknown error".
pub fn agent_reply_result(success: Option<bool>, error: Option<&str>) -> (r: Result<(), String>)
    ensures
        success == Some(true) ==> r is Ok,
        success != Some(true) ==> (r matches Err(m) && m@ == match error { Some(e) => e@, None => "Unknown error"@ }),
{
    if success == Some(true) {
        Ok(())
    } else {
        match error {
            Some(e) => Err(string_from_str(e)),
            None => Err(string_from_str("Unknown error")),
        }
    }
}

/// A session running on a host, as the API lists it. Its processor load is
/// not measured and is presented as zero.
#[derive(Debug, Clone, PartialEq, Eq)]
pub struct ActiveSession {
    pub id: String,
    pub username: String,
    pub display_id: u32,
    pub start_time: String,
    pub mem_usage: u32,
    pub host_ip: String,
}

/// `v`, or `unknown` when it is missing.
pub open spec fn or_unknown(v: Option<Seq<char>>) -> Seq<char> {
    match v {
        Some(s) => s,
        None => "unknown"@,
    }
}

fn string_or_unknown(v: Option<&str>) -> (r: String)
    ensures
        r@ == or_unknown(match v { Some(s) => Some(s@), None => None }),
{
    match v {
        Some(s) => string_from_str(s),
        None => string_from_str("unknown"),
    }
}

/// The session an agent's answer describes on host `host_ip`: its id and
/// user, `unknown` where missing; its display, 0 where missing, cut to 32
/// bits; started at `start_time`.
pub fn active_session(id: Option<&str>, username: Option<&str>, display_id: Option<u64>, start_time: String, host_ip: &str)
    -> (r: ActiveSession)
    ensures
        r.id@ == or_unknown(match id { Some(s) => Some(s@), None => None }),
        r.username@ == or_unknown(match username { Some(s) => Some(s@), None => None }),
        r.display_id == (match display_id { Some(d) => d, None => 0 }) as u32,
        r.start_time@ == start_time@,
        r.mem_usage == 0,
        r.host_ip@ == host_ip@,
{
    let d: u64 = match display_id {
        Some(d) => d,
        None => 0,
    };
    ActiveSession {
        id: string_or_unknown(id),
        username: string_or_unknown(username),
        display_id: d as u32,
        start_time,
        mem_usage: 0,
        host_ip: string_from_str(host_ip),
    }
}

/// `Ns ago` for a `duration_seconds` field of value N (0 when it is no
/// unsigned number), `unknown` when the field is missing.
pub open spec fn listed_start_spec(duration_field: Option<Option<u64>>) -> Seq<char> {
    match duration_field {
        None => "unknown"@,
        Some(v) => decimal(match v { Some(n) => n as nat, None => 0 }) + "s ago"@,
    }
}

/// When a listed session started, from its `duration_seconds` field: `Ns ago`
/// when the field is there (N its unsigned value, 0 when it has none),
/// `unknown` when it is missing.
pub fn listed_start_time(duration_field: Option<Option<u64>>) -> (r: String)
    ensures
        r@ == listed_start_spec(duration_field),
{
    match duration_field {
        None => string_from_str("unknown"),
        Some(v) => {
            let n: u64 = match v {
                Some(n) => n,
                None => 0,
            };
            let d = decimal_string(n);
            concat(d.as_str(), "s ago")
        },
    }
}

/// The session a host reports having just started for a user.
pub fn started_session(id: Option<&str>, username: Option<&str>, display_id: Option<u64>, host_ip: &str)
    -> (r: ActiveSession)
    ensures
        r.id@ == or_unknown(match id { Some(s) => Some(s@), None => None }),
        r.username@ == or_unknown(match username { Some(s) => Some(s@), None => None }),
        r.display_id == (match display_id { Some(d) => d, None => 0 }) as u32,
        r.start_time@ == "just now"@,
        r.mem_usage == 0,
        r.host_ip@ == host_ip@,
{
    active_session(id, username, display_id, string_from_str("just now"), host_ip)
}

/// Where the VNC proxy goes, or how it closes the browser's socket.
#[derive(Debug, Clone, PartialEq, Eq)]
pub enum VncTarget {
    /// Connect to this port of the host.
    Port(u16),
    /// Close the web socket with this code and reason.
    Close(u16, String),
}

/// Decide where to proxy a VNC session for `display`: when the agent could
/// not be asked, close with 4001; when it refused, close with 4000 and its
/// reason; else its port (cut to 16 bits), or 5900 plus the display.
pub fn vnc_target(reply: Result<(Option<&str>, Option<u64>), &str>, display: u32) -> (r: VncTarget)
    requires
        reply matches Ok((None, None)) ==> display as u16 + 5900 <= u16::MAX,
    ensures
        match reply {
            Err(e) => r matches VncTarget::Close(code, reason) && code == 4001
                && reason@ == "Agent communication error: "@ + e@,
            Ok((Some(err), _)) => r matches VncTarget::Close(code, reason) && code == 4000 && reason@ == err@,
            Ok((None, Some(p))) => r == VncTarget::Port(p as u16),
            Ok((None, None)) => r == VncTarget::Port((5900 + display as u16) as u16),
        },
{
    match reply {
        Err(e) => VncTarget::Close(4001, concat("Agent communication error: ", e)),
        Ok((Some(err), _)) => VncTarget::Close(4000, string_from_str(err)),
        Ok((None, Some(p))) => VncTarget::Port(p as u16),
        Ok((None, None)) => VncTarget::Port(5900 + display as u16),
    }
}

/// The port of the registered host `ip`, or `default`.
pub fn registered_port(hosts: &Vec<Host>, ip: &str, default: u16) -> (r: u16)
    ensures
        (exists|k: int| 0 <= k < hosts@.len() && hosts@[k].ip@ == ip@ && r == hosts@[k].port
            && forall|j: int| 0 <= j < k ==> hosts@[j].ip@ != ip@)
        || (r == default && forall|j: int| 0 <= j < hosts@.len() ==> hosts@[j].ip@ != ip@),
{
    let mut i: usize = 0;
    while i < hosts.len()
        invariant
            i <= hosts@.len(),
            forall|j: int| 0 <= j < i ==> hosts@[j].ip@ != ip@,
        decreases hosts.len() - i,
    {
        if str_eq(hosts[i].ip.as_str(), ip) {
            return hosts[i].port;
        }
        i = i + 1;
    }
    default
}

/// The status of an online host running `sessions` sessions: busy when it
/// runs any.
pub fn online_status(sessions: usize) -> (r: HostStatus)
    ensures
        r == (if sessions == 0 { HostStatus::Online } else { HostStatus::Busy }),
{
    if sessions == 0 { HostStatus::Online } else { HostStatus::Busy }
}

/// A log entry as plain values.
pub type LogView = (Seq<char>, LogLevel, Seq<char>);

pub open spec fn logs_view(v: Seq<LogEntry>) -> Seq<LogView> {
    v.map_values(|e: LogEntry| (e.timestamp@, e.level, e.message@))
}

/// Where an entry stamped `k` joins a list ordered newest first: after
/// every entry whose stamp is not older, so equal stamps keep their order.
pub open spec fn newest_first_pos(s: Seq<LogView>, k: Seq<char>) -> int
    decreases s.len(),
{
    if s.len() == 0 || chars_lt(s[0].0, k) {
        0
    } else {
        1 + newest_first_pos(s.drop_first(), k)
    }
}

/// The entries ordered newest first by their time stamps as text, a stable
/// sort: each joins the ordered list of those before it at its place.
pub open spec fn sort_newest_first(s: Seq<LogView>) -> Seq<LogView>
    decreases s.len(),
{
    if s.len() == 0 {
        s
    } else {
        let t = sort_newest_first(s.drop_last());
        t.insert(newest_first_pos(t, s.last().0), s.last())
    }
}

/// The most recent entries of all hosts: newest first, at most 100.
pub open spec fn recent_logs_spec(s: Seq<LogView>) -> Seq<LogView> {
    let t = sort_newest_first(s);
    if t.len() > 100 { t.take(100) } else { t }
}

fn clone_entry(e: &LogEntry) -> (r: LogEntry)
    ensures
        (r.timestamp@, r.level, r.message@) == (e.timestamp@, e.level, e.message@),
{
    LogEntry { timestamp: e.timestamp.clone(), level: e.level, message: e.message.clone() }
}

/// The most recent entries of the logs gathered from all hosts: newest
/// first by time stamp, at most 100.
pub fn recent_logs(logs: &Vec<LogEntry>) -> (r: Vec<LogEntry>)
    ensures
        logs_view(r@) == recent_logs_spec(logs_view(logs@)),
{
    let ghost a = logs_view(logs@);
    let mut out: Vec<LogEntry> = Vec::new();
    let mut keys: Vec<Vec<char>> = Vec::new();
    let mut i: usize = 0;
    assert(a.subrange(0, 0) =~= Seq::<LogView>::empty());
    assert(logs_view(out@) =~= Seq::<LogView>::empty());
    while i < logs.len()
        invariant
            a == logs_view(logs@),
            i <= logs@.len(),
            keys@.len() == out@.len(),
            forall|j: int| 0 <= j < keys@.len() ==> #[trigger] keys@[j]@ == logs_view(out@)[j].0,
            logs_view(out@) == sort_newest_first(a.subrange(0, i as int)),
        decreases logs.len() - i,
    {
        let entry = clone_entry(&logs[i]);
        let k = chars_of(entry.timestamp.as_str());
        let ghost t = logs_view(out@);
        let ghost x: LogView = (entry.timestamp@, entry.level, entry.message@);
        let mut p: usize = 0;
        assert(t.subrange(0, t.len() as int) =~= t);
        while p < keys.len() && !chars_less(&keys[p], &k)
            invariant
                keys@.len() == out@.len(),
                t == logs_view(out@),
                forall|m: int| 0 <= m < keys@.len() ==> #[trigger] keys@[m]@ == logs_view(out@)[m].0,
                p <= keys@.len(),
                newest_first_pos(t, k@) == p + newest_first_pos(t.subrange(p as int, t.len() as int), k@),
            decreases keys.len() - p,
        {
            let ghost u = t.subrange(p as int, t.len() as int);
            assert(keys@[p as int]@ == t[p as int].0);
            assert(u[0] == t[p as int]);
            assert(u.drop_first() =~= t.subrange(p + 1, t.len() as int));
            p = p + 1;
        }
        proof {
            let u = t.subrange(p as int, t.len() as int);
            if p < keys@.len() {
                assert(keys@[p as int]@ == t[p as int].0);
                assert(u[0] == t[p as int]);
            }
            assert(a[i as int] == x);
            assert(a.subrange(0, i + 1).drop_last() =~= a.subrange(0, i as int));
            assert(a.subrange(0, i + 1).last() == x);
        }
        let ghost before_keys = keys@;
        out.insert(p, entry);
        keys.insert(p, k);
        proof {
            assert(logs_view(out@) =~= t.insert(p as int, x));
            assert forall|j: int| 0 <= j < keys@.len() implies #[trigger] keys@[j]@ == logs_view(out@)[j].0 by {
                if j < p {
                    assert(keys@[j] == before_keys[j]);
                } else if j > p {
                    assert(keys@[j] == before_keys[j - 1]);
                }
            }
        }
        i = i + 1;
    }
    proof {
        assert(a.subrange(0, a.len() as int) =~= a);
    }
    let ghost sorted = logs_view(out@);
    if out.len() > 100 {
        out.truncate(100);
        assert(logs_view(out@) =~= sorted.take(100));
    }
    out
}

/// The most recent entries come newest first, and there are at most 100.
pub proof fn lemma_recent_logs_newest_first(s: Seq<LogView>)
    ensures
        recent_logs_spec(s).len() <= 100,
        forall|i: int, j: int| 0 <= i < j < recent_logs_spec(s).len()
            ==> !chars_lt(#[trigger] recent_logs_spec(s)[i].0, #[trigger] recent_logs_spec(s)[j].0),
{
    lemma_sort_newest_first_ordered(s);
    let t = sort_newest_first(s);
    let r = recent_logs_spec(s);
    assert forall|i: int, j: int| 0 <= i < j < r.len() implies !chars_lt(#[trigger] r[i].0, #[trigger] r[j].0) by {
        assert(r[i] == t[i] && r[j] == t[j]);
    }
}

proof fn lemma_newest_first_pos(t: Seq<LogView>, k: Seq<char>)
    ensures
        0 <= newest_first_pos(t, k) <= t.len(),
        forall|m: int| 0 <= m < newest_first_pos(t, k) ==> !chars_lt(#[trigger] t[m].0, k),
        newest_first_pos(t, k) < t.len() ==> chars_lt(t[newest_first_pos(t, k)].0, k),
    decreases t.len(),
{
    if t.len() > 0 && !chars_lt(t[0].0, k) {
        let u = t.drop_first();
        lemma_newest_first_pos(u, k);
        assert forall|m: int| 0 <= m < newest_first_pos(t, k) implies !chars_lt(#[trigger] t[m].0, k) by {
            if m > 0 {
                assert(t[m] == u[m - 1]);
            }
        }
        if newest_first_pos(t, k) < t.len() {
            assert(t[newest_first_pos(t, k)] == u[newest_first_pos(u, k)]);
        }
    }
}

proof fn lemma_sort_newest_first_ordered(s: Seq<LogView>)
    ensures
        forall|i: int, j: int| 0 <= i < j < sort_newest_first(s).len()
            ==> !chars_lt(#[trigger] sort_newest_first(s)[i].0, #[trigger] sort_newest_first(s)[j].0),
        sort_newest_first(s).len() == s.len(),
    decreases s.len(),
{
    if s.len() > 0 {
        let t = sort_newest_first(s.drop_last());
        lemma_sort_newest_first_ordered(s.drop_last());
        let x = s.last();
        let k = x.0;
        let p = newest_first_pos(t, k);
        lemma_newest_first_pos(t, k);
        let r = t.insert(p, x);
        assert(r == sort_newest_first(s));
        assert forall|i: int, j: int| 0 <= i < j < r.len() implies !chars_lt(#[trigger] r[i].0, #[trigger] r[j].0) by {
            if j < p {
                assert(r[i] == t[i] && r[j] == t[j]);
            } else if j == p {
                assert(r[i] == t[i] && r[j] == x);
            } else if i < p {
                assert(r[i] == t[i] && r[j] == t[j - 1]);
            } else if i == p {
                assert(r[i] == x && r[j] == t[j - 1]);
                if j - 1 > p {
                    assert(!chars_lt(t[p].0, t[j - 1].0));
                    if chars_lt(k, t[j - 1].0) {
                        lemma_chars_lt_transitive(t[p].0, k, t[j - 1].0);
                    }
                } else if chars_lt(k, t[p].0) {
                    lemma_chars_lt_transitive(k, t[p].0, k);
                    lemma_chars_lt_irreflexive(k);
                }
            } else {
                assert(r[i] == t[i - 1] && r[j] == t[j - 1]);
            }
        }
    }
}

} // verus!
