use ttgtiso_desk::api::{
    online_status, recent_logs, LogEntry, active_session, listed_start_time, started_session,
    add_host, agent_command, agent_reply_result, build_host_from_request, detect_local_os, host_offline_message,
    hosts_file_text, log_entry, login_failure, login_success, os_label, registered_port, role_label,
    session_start_response, ssh_agent_args, update_host, vnc_target, AddHostError, AddHostRequest, HostConfig,
    HostDiscovery, HostStatus, LogLevel, LoginRequest, Settings, UpdateHostRequest, VncTarget,
};
use ttgtiso_desk::security::UserRole;

fn add_req(name: &str, ip: &str, port: u16) -> AddHostRequest {
    AddHostRequest {
        name: name.to_string(),
        ip: ip.to_string(),
        port,
        ssh_public_key: Some("ssh-ed25519 \"k\"".to_string()),
        ssh_public_key_path: None,
        ssh_private_key_path: None,
    }
}

#[test]
fn host_registry() {
    let mut hosts = Vec::new();
    assert_eq!(add_host(&mut hosts, &add_req("a", "10.0.0.1", 22)), Ok(()));
    assert_eq!(add_host(&mut hosts, &add_req("b", "10.0.0.2", 2222)), Ok(()));
    assert_eq!(add_host(&mut hosts, &add_req("c", "10.0.0.1", 22)), Err(AddHostError::DuplicateIp));
    assert_eq!(hosts.len(), 2);
    assert_eq!(hosts[1].id, "2");
    assert_eq!(hosts[1].status, HostStatus::Offline);
    assert_eq!(registered_port(&hosts, "10.0.0.2", 22), 2222);
    assert_eq!(registered_port(&hosts, "10.9.9.9", 2222), 2222);
    let upd = UpdateHostRequest {
        name: "b2".to_string(),
        ip: "10.0.0.3".to_string(),
        port: 23,
        ssh_public_key: None,
        ssh_public_key_path: None,
        ssh_private_key_path: None,
    };
    assert!(update_host(&mut hosts, "10.0.0.2", &upd));
    assert_eq!(hosts[1].ip, "10.0.0.3");
    assert_eq!(hosts[1].id, "2");
    assert!(!update_host(&mut hosts, "10.0.0.2", &upd));
    let text = hosts_file_text(&hosts);
    assert!(text.starts_with("# "));
    assert!(text.contains("[[hosts]]\nname = \"a\"\nip = \"10.0.0.1\"\nssh_port = 22\nssh_public_key = \"ssh-ed25519 \\\"k\\\"\"\n\n"));
    assert!(text.ends_with("ssh_port = 23\n\n"));
    let h = build_host_from_request("7".to_string(), &add_req("x", "1.2.3.4", 1));
    assert_eq!(h.operating_system, "Unknown");
    assert_eq!(h.active_sessions, 0);
}

#[test]
fn discovery_ports() {
    let d = HostDiscovery::new(None);
    assert_eq!(d.get_port_for_host("127.0.0.1"), 22);
    let hosts = vec![HostConfig {
        name: "n".to_string(),
        ip: "192.168.1.5".to_string(),
        ssh_port: 2200,
        ssh_public_key: None,
        ssh_public_key_path: None,
        ssh_private_key_path: None,
    }];
    let d2 = HostDiscovery::new(Some(hosts));
    assert_eq!(d2.get_port_for_host("192.168.1.5"), 2200);
    assert_eq!(d2.get_port_for_host("192.168.1.6"), 22);
}

#[test]
fn login_answers() {
    assert_eq!(role_label(UserRole::SupportOperator), "Operator");
    let ok = login_success("admin".to_string(), UserRole::Admin, "tok".to_string());
    assert!(ok.success);
    assert_eq!(ok.user.unwrap().role, "Administrator");
    let bad = login_failure("Authentication failed: Empty password");
    assert_eq!(bad.message, "Authentication failed: Authentication failed: Empty password");
    let payload = LoginRequest { host: "h".to_string(), port: 22, username: "u".to_string(), password: String::new() };
    assert_eq!(session_start_response(&payload, Ok(()), false).message, "Session started");
    assert_eq!(session_start_response(&payload, Err("boom"), true).message, "Session already active");
    let failed = session_start_response(&payload, Err("boom"), false);
    assert!(!failed.success);
    assert_eq!(failed.message, "Failed to establish session: boom");
    let empty = LoginRequest { host: String::new(), port: 22, username: "u".to_string(), password: String::new() };
    assert_eq!(session_start_response(&empty, Ok(()), false).message, "Invalid payload");
}

#[test]
fn agent_interaction() {
    assert_eq!(agent_command("start_session", "ann"), "start_session ann");
    assert_eq!(host_offline_message("1.2.3.4"), "Host 1.2.3.4 is offline or unreachable.");
    let args = ssh_agent_args(2222, "10.0.0.1", "status");
    assert_eq!(args[5], "2222");
    assert_eq!(
        args[7],
        "echo 'status' | socat - UNIX-CONNECT:/var/lib/ttgtiso-desk/agent.sock || echo 'status' | nc -U /var/lib/ttgtiso-desk/agent.sock"
    );
    assert_eq!(agent_reply_result(Some(true), None), Ok(()));
    assert_eq!(agent_reply_result(Some(false), Some("bad")), Err("bad".to_string()));
    assert_eq!(agent_reply_result(None, None), Err("Unknown error".to_string()));
    assert_eq!(vnc_target(Ok((None, Some(5901))), 1), VncTarget::Port(5901));
    assert_eq!(vnc_target(Ok((None, None)), 2), VncTarget::Port(5902));
    assert_eq!(vnc_target(Ok((Some("no"), Some(1))), 2), VncTarget::Close(4000, "no".to_string()));
    assert_eq!(vnc_target(Err("down"), 2), VncTarget::Close(4001, "Agent communication error: down".to_string()));
}

#[test]
fn logs_and_os_names() {
    let e = log_entry("10.0.0.1", 1234, "AUTHENTICATION", "ann", "ok");
    assert_eq!(e.level, LogLevel::Audit);
    assert_eq!(e.message, "[10.0.0.1] ann: ok");
    assert_eq!(e.timestamp, "1234");
    assert_eq!(log_entry("h", 0, "SESSION", "", "").level, LogLevel::Info);
    assert_eq!(os_label(Some("windows"), false, "X"), "Windows");
    assert_eq!(os_label(None, true, "Astra Linux 1.8"), "Astra Linux 1.8");
    assert_eq!(os_label(Some(""), false, "X"), "Linux");
    assert_eq!(detect_local_os("NAME=x\nPRETTY_NAME=\"Astra Linux 1.7\"\n"), "Astra Linux 1.7");
    assert_eq!(detect_local_os("NAME=x\n"), "Astra Linux");
    let s = Settings::default();
    assert_eq!(s.fps, 30);
    assert_eq!(s.encoder, "vaapi");
}

#[test]
fn hosts_with_sessions_are_busy() {
    assert_eq!(online_status(0), HostStatus::Online);
    assert_eq!(online_status(2), HostStatus::Busy);
}

fn entry(stamp: &str, message: &str) -> LogEntry {
    LogEntry { timestamp: stamp.to_string(), level: LogLevel::Info, message: message.to_string() }
}

#[test]
fn recent_logs_come_newest_first_and_keep_order_among_equals() {
    let logs = vec![entry("1", "a"), entry("3", "b"), entry("2", "c"), entry("3", "d")];
    let recent = recent_logs(&logs);
    let messages: Vec<&str> = recent.iter().map(|e| e.message.as_str()).collect();
    assert_eq!(messages, vec!["b", "d", "c", "a"]);
    // Time stamps are compared as text.
    let text_order = recent_logs(&vec![entry("10", "ten"), entry("9", "nine")]);
    assert_eq!(text_order[0].message, "nine");
}

#[test]
fn at_most_a_hundred_recent_logs_are_kept() {
    let logs: Vec<LogEntry> = (0..150u32).map(|i| entry(&format!("{:03}", i), "m")).collect();
    let recent = recent_logs(&logs);
    assert_eq!(recent.len(), 100);
    assert_eq!(recent[0].timestamp, "149");
    assert_eq!(recent[99].timestamp, "050");
}

#[test]
fn listed_sessions_fill_in_what_the_agent_left_out() {
    let full = active_session(Some("s1"), Some("alice"), Some(11), listed_start_time(Some(Some(42))), "10.0.0.5");
    assert_eq!(full.id, "s1");
    assert_eq!(full.username, "alice");
    assert_eq!(full.display_id, 11);
    assert_eq!(full.start_time, "42s ago");
    assert_eq!(full.mem_usage, 0);
    assert_eq!(full.host_ip, "10.0.0.5");
    let bare = active_session(None, None, None, listed_start_time(None), "h");
    assert_eq!(bare.id, "unknown");
    assert_eq!(bare.username, "unknown");
    assert_eq!(bare.display_id, 0);
    assert_eq!(bare.start_time, "unknown");
    assert_eq!(listed_start_time(Some(None)), "0s ago");
    // The display is cut to 32 bits.
    assert_eq!(active_session(None, None, Some((1u64 << 32) + 7), String::new(), "h").display_id, 7);
}

#[test]
fn a_started_session_is_reported_as_just_started() {
    let s = started_session(Some("abc"), None, Some(12), "127.0.0.1");
    assert_eq!(s.id, "abc");
    assert_eq!(s.username, "unknown");
    assert_eq!(s.display_id, 12);
    assert_eq!(s.start_time, "just now");
    assert_eq!(s.host_ip, "127.0.0.1");
}

#[test]
fn the_default_vnc_port_is_only_computed_without_an_agent_port() {
    // A reported port is taken as is, whatever the display number.
    assert_eq!(vnc_target(Ok((None, Some(5905))), 70000), VncTarget::Port(5905));
    assert_eq!(vnc_target(Err("x"), 70000), VncTarget::Close(4001, "Agent communication error: x".to_string()));
}
