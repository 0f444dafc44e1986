//! The server agent's JSON answers as the management API reads them: a
//! started or stopped session, the session list, where VNC listens, the
//! system users, the agent's status, and the lines of its audit log.
use vstd::prelude::*;
use crate::json::{
    json_syntax_error, json_str_at, json_u64_at, json_bool_at, json_has_at, json_array_len_at, syntax_error, str_at,
    u64_at, bool_at, has_at, array_len_at,
};
use crate::api::{
    ActiveSession, Host, HostConfig, HostStatus, LogEntry, LogView, VncTarget, active_session, agent_reply_result,
    listed_start_spec, listed_start_time, log_entry, log_level_spec, logs_view, opt_chars, or_unknown, os_label,
    os_label_spec, started_session, vnc_target,
};
use crate::text::{append_str, concat, decimal, decimal_string, lemma_strings_view_push, string_from_str, strings_view};
use crate::parse::{lines_spec, lines_chars, views};

verus! {

fn as_opt_str(o: &Option<String>) -> (r: Option<&str>)
    ensures
        match r { Some(s) => Some(s@), None => None } == opt_chars(*o),
{
    match o {
        Some(s) => Some(s.as_str()),
        None => None,
    }
}

/// The error an answer names, or `Unknown error`.
pub open spec fn error_text(e: Option<Seq<char>>) -> Seq<char> {
    match e {
        Some(m) => m,
        None => "Unknown error"@,
    }
}

/// What an answer to a session command means: its syntax error when it is
/// not JSON; success when its `success` field is `true`; else its `error`
/// field, or `Unknown error`.
pub open spec fn reply_outcome(text: Seq<char>) -> Result<(), Seq<char>> {
    match json_syntax_error(text) {
        Some(e) => Err(e),
        None => if json_bool_at(text, "/success"@) == Some(true) {
            Ok(())
        } else {
            Err(error_text(json_str_at(text, "/error"@)))
        },
    }
}

/// Whether the agent stopped the session, from its answer to `stop_session`.
pub fn stop_result_from_reply(reply: &str) -> (r: Result<(), String>)
    ensures
        match reply_outcome(reply@) {
            Ok(()) => r is Ok,
            Err(m) => r matches Err(e) && e@ == m,
        },
{
    if let Some(e) = syntax_error(reply) {
        return Err(e);
    }
    let success = bool_at(reply, "/success");
    let error = str_at(reply, "/error");
    agent_reply_result(success, as_opt_str(&error))
}

/// `s` is the session the answer `text` from host `host_ip` reports having
/// started: its fields from the answer's `session`, `unknown` or 0 where
/// missing, started just now.
pub open spec fn started_fields_match(s: ActiveSession, text: Seq<char>, host_ip: Seq<char>) -> bool {
    &&& s.id@ == or_unknown(json_str_at(text, "/session/id"@))
    &&& s.username@ == or_unknown(json_str_at(text, "/session/username"@))
    &&& s.display_id == (match json_u64_at(text, "/session/display_id"@) { Some(d) => d, None => 0 }) as u32
    &&& s.start_time@ == "just now"@
    &&& s.mem_usage == 0
    &&& s.host_ip@ == host_ip
}

/// The session the agent of `host_ip` started, from its answer to
/// `start_session`; why not, when it started none.
pub fn started_session_from_reply(reply: &str, host_ip: &str) -> (r: Result<ActiveSession, String>)
    ensures
        match json_syntax_error(reply@) {
            Some(e) => r matches Err(m) && m@ == e,
            None => if json_bool_at(reply@, "/success"@) == Some(true) {
                if json_has_at(reply@, "/session"@) {
                    r matches Ok(s) && started_fields_match(s, reply@, host_ip@)
                } else {
                    r matches Err(m) && m@ == "Missing session in response"@
                }
            } else {
                r matches Err(m) && m@ == error_text(json_str_at(reply@, "/error"@))
            },
        },
{
    if let Some(e) = syntax_error(reply) {
        return Err(e);
    }
    if bool_at(reply, "/success") == Some(true) {
        if !has_at(reply, "/session") {
            return Err(string_from_str("Missing session in response"));
        }
        let id = str_at(reply, "/session/id");
        let username = str_at(reply, "/session/username");
        let display = u64_at(reply, "/session/display_id");
        Ok(started_session(as_opt_str(&id), as_opt_str(&username), display, host_ip))
    } else {
        match str_at(reply, "/error") {
            Some(e) => Err(e),
            None => Err(string_from_str("Unknown error")),
        }
    }
}

/// The pointer to `field` of the `i`th listed session.
pub open spec fn session_pointer(i: nat, field: Seq<char>) -> Seq<char> {
    "/sessions"@ + "/"@ + decimal(i) + field
}

fn element_pointer(array: &str, i: usize) -> (r: String)
    ensures
        r@ == array@ + "/"@ + decimal(i as nat),
{
    let d = decimal_string(i as u64);
    let mut r = concat(array, "/");
    append_str(&mut r, d.as_str());
    r
}

fn pointer_into(array: &str, i: usize, field: &str) -> (r: String)
    ensures
        r@ == array@ + "/"@ + decimal(i as nat) + field@,
{
    let d = decimal_string(i as u64);
    let mut r = concat(array, "/");
    append_str(&mut r, d.as_str());
    append_str(&mut r, field);
    r
}

/// `s` is the `i`th session the list answer `text` from host `host_ip`
/// describes: its fields, `unknown` or 0 where missing; its start from its
/// `duration_seconds` field.
pub open spec fn listed_fields_match(s: ActiveSession, text: Seq<char>, host_ip: Seq<char>, i: nat) -> bool {
    let dur = session_pointer(i, "/duration_seconds"@);
    &&& s.id@ == or_unknown(json_str_at(text, session_pointer(i, "/id"@)))
    &&& s.username@ == or_unknown(json_str_at(text, session_pointer(i, "/username"@)))
    &&& s.display_id == (match json_u64_at(text, session_pointer(i, "/display_id"@)) { Some(d) => d, None => 0 }) as u32
    &&& s.start_time@ == listed_start_spec(if json_has_at(text, dur) { Some(json_u64_at(text, dur)) } else { None })
    &&& s.mem_usage == 0
    &&& s.host_ip@ == host_ip
}

/// How many entries the array at `pointer` has, none counting as 0.
pub open spec fn listed_count(text: Seq<char>, pointer: Seq<char>) -> nat {
    match json_array_len_at(text, pointer) {
        Some(n) => n,
        None => 0,
    }
}

/// The sessions the agent of `host_ip` lists in its answer to `sessions`: one
/// per entry of its `sessions` array (none without one).
pub fn listed_sessions_from_reply(reply: &str, host_ip: &str) -> (r: Result<Vec<ActiveSession>, String>)
    ensures
        match json_syntax_error(reply@) {
            Some(e) => r matches Err(m) && m@ == e,
            None => r matches Ok(v) && v@.len() == listed_count(reply@, "/sessions"@)
                && forall|i: int| 0 <= i < v@.len() ==> listed_fields_match(#[trigger] v@[i], reply@, host_ip@, i as nat),
        },
{
    if let Some(e) = syntax_error(reply) {
        return Err(e);
    }
    let n: usize = match array_len_at(reply, "/sessions") {
        Some(n) => n,
        None => 0,
    };
    let mut out: Vec<ActiveSession> = Vec::new();
    let mut i: usize = 0;
    while i < n
        invariant
            n == listed_count(reply@, "/sessions"@),
            i <= n,
            out@.len() == i,
            forall|j: int| 0 <= j < i ==> listed_fields_match(#[trigger] out@[j], reply@, host_ip@, j as nat),
        decreases n - i,
    {
        let p_id = pointer_into("/sessions", i, "/id");
        let p_user = pointer_into("/sessions", i, "/username");
        let p_display = pointer_into("/sessions", i, "/display_id");
        let p_dur = pointer_into("/sessions", i, "/duration_seconds");
        let id = str_at(reply, p_id.as_str());
        let username = str_at(reply, p_user.as_str());
        let display = u64_at(reply, p_display.as_str());
        let dur = if has_at(reply, p_dur.as_str()) { Some(u64_at(reply, p_dur.as_str())) } else { None };
        let s = active_session(as_opt_str(&id), as_opt_str(&username), display, listed_start_time(dur), host_ip);
        out.push(s);
        i = i + 1;
    }
    Ok(out)
}

/// The view of a reply that may not have been had.
pub open spec fn reply_view(reply: Result<&str, &str>) -> Result<Seq<char>, Seq<char>> {
    match reply {
        Ok(t) => Ok(t@),
        Err(e) => Err(e@),
    }
}

/// Whether the answer to `ensure_vnc` names neither an error nor a port, so
/// that the proxy falls back on 5900 plus the display.
pub open spec fn vnc_reply_defaults(reply: Result<Seq<char>, Seq<char>>) -> bool {
    reply matches Ok(t) && json_syntax_error(t) is None && json_str_at(t, "/error"@) is None
        && json_u64_at(t, "/port"@) is None
}

/// `r` is where the VNC proxy for `display` goes given the agent's answer to
/// `ensure_vnc`: when the answer could not be had or read, close with 4001
/// and why; when the agent refused, close with 4000 and its reason; else the
/// port it names (cut to 16 bits), or 5900 plus the display.
pub open spec fn vnc_target_answers(r: VncTarget, reply: Result<Seq<char>, Seq<char>>, display: u32) -> bool {
    match reply {
        Err(e) => r matches VncTarget::Close(code, reason) && code == 4001 && reason@ == "Agent communication error: "@ + e,
        Ok(t) => match json_syntax_error(t) {
            Some(e) => r matches VncTarget::Close(code, reason) && code == 4001
                && reason@ == "Agent communication error: "@ + e,
            None => match json_str_at(t, "/error"@) {
                Some(m) => r matches VncTarget::Close(code, reason) && code == 4000 && reason@ == m,
                None => match json_u64_at(t, "/port"@) {
                    Some(p) => r == VncTarget::Port(p as u16),
                    None => r == VncTarget::Port((5900 + display as u16) as u16),
                },
            },
        },
    }
}

/// Where the VNC proxy for `display` goes, given the agent's answer to
/// `ensure_vnc` or why it could not be had.
pub fn vnc_target_from_reply(reply: Result<&str, &str>, display: u32) -> (r: VncTarget)
    requires
        vnc_reply_defaults(reply_view(reply)) ==> display as u16 + 5900 <= u16::MAX,
    ensures
        vnc_target_answers(r, reply_view(reply), display),
{
    match reply {
        Err(e) => vnc_target(Err(e), display),
        Ok(t) => match syntax_error(t) {
            Some(e) => vnc_target(Err(e.as_str()), display),
            None => {
                let error = str_at(t, "/error");
                let port = u64_at(t, "/port");
                vnc_target(Ok((as_opt_str(&error), port)), display)
            },
        },
    }
}

/// Where the VNC proxy for `display` goes, as `vnc_target_from_reply` says;
/// none where the answer names no port and 5900 plus the display does not
/// fit in 16 bits.
pub fn checked_vnc_target_from_reply(reply: Result<&str, &str>, display: u32) -> (r: Option<VncTarget>)
    ensures
        match r {
            Some(t) => vnc_target_answers(t, reply_view(reply), display),
            None => vnc_reply_defaults(reply_view(reply)) && display as u16 + 5900 > u16::MAX,
        },
{
    let low = display as u16;
    if low <= 65535 - 5900 {
        return Some(vnc_target_from_reply(reply, display));
    }
    match reply {
        Err(_) => Some(vnc_target_from_reply(reply, display)),
        Ok(t) => {
            if syntax_error(t).is_some() || str_at(t, "/error").is_some() || u64_at(t, "/port").is_some() {
                Some(vnc_target_from_reply(reply, display))
            } else {
                None
            }
        },
    }
}

/// The pointer to the `i`th listed user.
pub open spec fn user_pointer(i: nat) -> Seq<char> {
    "/users"@ + "/"@ + decimal(i)
}

/// The names among the first `k` entries of the `users` array that are
/// strings, in order.
pub open spec fn users_upto(text: Seq<char>, k: nat) -> Seq<Seq<char>>
    decreases k,
{
    if k == 0 {
        Seq::empty()
    } else {
        let rest = users_upto(text, (k - 1) as nat);
        match json_str_at(text, user_pointer((k - 1) as nat)) {
            Some(u) => rest.push(u),
            None => rest,
        }
    }
}

/// The system users the agent lists in its answer to `users`: the string
/// entries of its `users` array (none without one).
pub fn system_users_from_reply(reply: &str) -> (r: Result<Vec<String>, String>)
    ensures
        match json_syntax_error(reply@) {
            Some(e) => r matches Err(m) && m@ == e,
            None => r matches Ok(v) && strings_view(v@) == users_upto(reply@, listed_count(reply@, "/users"@)),
        },
{
    if let Some(e) = syntax_error(reply) {
        return Err(e);
    }
    let n: usize = match array_len_at(reply, "/users") {
        Some(n) => n,
        None => 0,
    };
    let mut out: Vec<String> = Vec::new();
    let mut i: usize = 0;
    assert(strings_view(out@) =~= Seq::<Seq<char>>::empty());
    while i < n
        invariant
            n == listed_count(reply@, "/users"@),
            i <= n,
            strings_view(out@) == users_upto(reply@, i as nat),
        decreases n - i,
    {
        let p = element_pointer("/users", i);
        match str_at(reply, p.as_str()) {
            Some(u) => {
                proof { lemma_strings_view_push(out@, u); }
                out.push(u);
            },
            None => {},
        }
        i = i + 1;
    }
    Ok(out)
}

/// An answer the API hands on as it is (applications, metrics, a power
/// action, a launched application): the answer when it is JSON, else its
/// syntax error.
pub fn forwarded_reply(reply: &str) -> (r: Result<String, String>)
    ensures
        match json_syntax_error(reply@) {
            Some(e) => r matches Err(m) && m@ == e,
            None => r matches Ok(t) && t@ == reply@,
        },
{
    match syntax_error(reply) {
        Some(e) => Err(e),
        None => Ok(string_from_str(reply)),
    }
}

/// What the agent says of itself in its answer to `status`.
#[derive(Debug, Clone)]
pub struct AgentStatus {
    pub status: Option<String>,
    pub active_sessions: Option<u64>,
    pub os: Option<String>,
}

/// The agent's status answer: its `status`, `active_sessions` and
/// `system.os` fields.
pub fn agent_status_from_reply(reply: &str) -> (r: Result<AgentStatus, String>)
    ensures
        match json_syntax_error(reply@) {
            Some(e) => r matches Err(m) && m@ == e,
            None => r matches Ok(st) && opt_chars(st.status) == json_str_at(reply@, "/status"@)
                && st.active_sessions == json_u64_at(reply@, "/active_sessions"@)
                && opt_chars(st.os) == json_str_at(reply@, "/system/os"@),
        },
{
    if let Some(e) = syntax_error(reply) {
        return Err(e);
    }
    Ok(AgentStatus {
        status: str_at(reply, "/status"),
        active_sessions: u64_at(reply, "/active_sessions"),
        os: str_at(reply, "/system/os"),
    })
}

/// Whether the agent reports itself healthy: its status answer is JSON whose
/// `status` is `OK`.
pub fn agent_reports_ok(reply: &str) -> (r: bool)
    ensures
        r == (json_syntax_error(reply@) is None && json_str_at(reply@, "/status"@) == Some("OK"@)),
{
    if syntax_error(reply).is_some() {
        return false;
    }
    match str_at(reply, "/status") {
        Some(s) => crate::text::str_eq(s.as_str(), "OK"),
        None => false,
    }
}

/// The host a configured one is found to be, numbered `id`: online or not;
/// when online, its session count and operating system from the agent's
/// status if it gave one (the session count cut to 32 bits).
pub fn discovered_host(id: String, config: &HostConfig, online: bool, status: Option<&AgentStatus>, is_local: bool, local_os: &str)
    -> (r: Host)
    ensures
        r.id == id,
        r.name@ == config.name@,
        r.ip@ == config.ip@,
        r.port == config.ssh_port,
        r.status == (if online { HostStatus::Online } else { HostStatus::Offline }),
        r.active_sessions == (if online { match status {
            Some(st) => match st.active_sessions { Some(n) => n as u32, None => 0u32 },
            None => 0u32,
        } } else { 0u32 }),
        r.operating_system@ == (if online {
            os_label_spec(match status { Some(st) => opt_chars(st.os), None => None }, is_local, local_os@)
        } else {
            "Unknown / Offline"@
        }),
        opt_chars(r.ssh_public_key) == opt_chars(config.ssh_public_key),
        opt_chars(r.ssh_public_key_path) == opt_chars(config.ssh_public_key_path),
        opt_chars(r.ssh_private_key_path) == opt_chars(config.ssh_private_key_path),
{
    let mut active: u32 = 0;
    let os = if online {
        let agent_os: Option<&str> = match status {
            Some(st) => {
                if let Some(n) = st.active_sessions {
                    active = n as u32;
                }
                as_opt_str(&st.os)
            },
            None => None,
        };
        os_label(agent_os, is_local, local_os)
    } else {
        string_from_str("Unknown / Offline")
    };
    Host {
        id,
        name: config.name.clone(),
        ip: config.ip.clone(),
        port: config.ssh_port,
        status: if online { HostStatus::Online } else { HostStatus::Offline },
        active_sessions: active,
        operating_system: os,
        ssh_public_key: clone_opt(&config.ssh_public_key),
        ssh_public_key_path: clone_opt(&config.ssh_public_key_path),
        ssh_private_key_path: clone_opt(&config.ssh_private_key_path),
    }
}

fn clone_opt(o: &Option<String>) -> (r: Option<String>)
    ensures
        opt_chars(r) == opt_chars(*o),
{
    match o {
        Some(s) => Some(s.clone()),
        None => None,
    }
}

/// The log entry of one audit journal line of host `ip`: none unless the
/// line is JSON; its time stamp, event type, user and details, with 0,
/// `UNKNOWN` and empty text where missing.
pub open spec fn log_of_line(line: Seq<char>, ip: Seq<char>) -> Option<LogView> {
    if json_syntax_error(line) is None {
        let ts = match json_u64_at(line, "/timestamp"@) { Some(t) => t, None => 0 };
        let event_type = match json_str_at(line, "/event_type"@) { Some(e) => e, None => "UNKNOWN"@ };
        let details = match json_str_at(line, "/details"@) { Some(d) => d, None => ""@ };
        let username = match json_str_at(line, "/username"@) { Some(u) => u, None => ""@ };
        Some((decimal(ts as nat), log_level_spec(event_type), "["@ + ip + "] "@ + username + ": "@ + details))
    } else {
        None
    }
}

/// The log entries of journal lines, in order, skipping those that are not
/// JSON.
pub open spec fn logs_of_lines(lines: Seq<Seq<char>>, ip: Seq<char>) -> Seq<LogView>
    decreases lines.len(),
{
    if lines.len() == 0 {
        Seq::empty()
    } else {
        let rest = logs_of_lines(lines.drop_last(), ip);
        match log_of_line(lines.last(), ip) {
            Some(e) => rest.push(e),
            None => rest,
        }
    }
}

fn or_text(o: &Option<String>, default: &str) -> (r: String)
    ensures
        r@ == match opt_chars(*o) { Some(s) => s, None => default@ },
{
    match o {
        Some(s) => s.clone(),
        None => string_from_str(default),
    }
}

/// The log entries of host `ip` read from the last lines of its audit
/// journal: one per line that is JSON, in order.
pub fn log_entries_from_output(output: &str, ip: &str) -> (r: Vec<LogEntry>)
    ensures
        logs_view(r@) == logs_of_lines(lines_spec(output@), ip@),
{
    let text = crate::text::chars_of(output);
    let lines = lines_chars(&text);
    let ghost ls = lines_spec(output@);
    let mut out: Vec<LogEntry> = Vec::new();
    let mut i: usize = 0;
    assert(ls.subrange(0, 0) =~= Seq::<Seq<char>>::empty());
    assert(logs_view(out@) =~= Seq::<LogView>::empty());
    while i < lines.len()
        invariant
            views(lines@) == ls,
            i <= lines@.len(),
            logs_view(out@) == logs_of_lines(ls.subrange(0, i as int), ip@),
        decreases lines.len() - i,
    {
        let line = crate::text::string_from_chars(lines[i].as_slice());
        proof {
            assert(ls[i as int] == lines@[i as int]@);
            assert(ls.subrange(0, i + 1).drop_last() =~= ls.subrange(0, i as int));
            assert(ls.subrange(0, i + 1).last() == ls[i as int]);
        }
        if syntax_error(line.as_str()).is_none() {
            let ts: u64 = match u64_at(line.as_str(), "/timestamp") {
                Some(t) => t,
                None => 0,
            };
            let event_type = or_text(&str_at(line.as_str(), "/event_type"), "UNKNOWN");
            let details = or_text(&str_at(line.as_str(), "/details"), "");
            let username = or_text(&str_at(line.as_str(), "/username"), "");
            let e = log_entry(ip, ts, event_type.as_str(), username.as_str(), details.as_str());
            let ghost before = out@;
            out.push(e);
            assert(logs_view(out@) =~= logs_view(before).push((e.timestamp@, e.level, e.message@)));
        }
        i = i + 1;
    }
    assert(ls.subrange(0, ls.len() as int) =~= ls);
    out
}

} // verus!
