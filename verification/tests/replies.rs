use ttgtiso_desk::api::{HostConfig, HostStatus, LogLevel, VncTarget};
use ttgtiso_desk::replies::{
    agent_reports_ok, agent_status_from_reply, checked_vnc_target_from_reply, discovered_host, forwarded_reply,
    listed_sessions_from_reply, log_entries_from_output, started_session_from_reply, stop_result_from_reply,
    system_users_from_reply, vnc_target_from_reply,
};

#[test]
fn a_started_session_is_read_from_the_agents_answer() {
    let reply = r#"{"success":true,"session":{"id":"s1","username":"alice","display_id":11,"start_time":5}}"#;
    let s = started_session_from_reply(reply, "10.0.0.2").unwrap();
    assert_eq!(s.id, "s1");
    assert_eq!(s.username, "alice");
    assert_eq!(s.display_id, 11);
    assert_eq!(s.start_time, "just now");
    assert_eq!(s.host_ip, "10.0.0.2");
    let bare = started_session_from_reply(r#"{"success":true,"session":{}}"#, "h").unwrap();
    assert_eq!(bare.id, "unknown");
    assert_eq!(bare.display_id, 0);
}

#[test]
fn a_failed_start_says_why() {
    assert_eq!(
        started_session_from_reply(r#"{"success":true}"#, "h").unwrap_err(),
        "Missing session in response"
    );
    assert_eq!(
        started_session_from_reply(r#"{"error":"Failed to start session: busy"}"#, "h").unwrap_err(),
        "Failed to start session: busy"
    );
    assert_eq!(started_session_from_reply(r#"{"success":false}"#, "h").unwrap_err(), "Unknown error");
    assert!(started_session_from_reply("not json", "h").is_err());
}

#[test]
fn a_stop_answer_is_success_or_its_error() {
    assert_eq!(stop_result_from_reply(r#"{"success":true,"message":"Session s stopped"}"#), Ok(()));
    assert_eq!(stop_result_from_reply(r#"{"error":"Failed to stop session: x"}"#), Err("Failed to stop session: x".to_string()));
    assert_eq!(stop_result_from_reply("{}"), Err("Unknown error".to_string()));
    assert!(stop_result_from_reply("").is_err());
}

#[test]
fn the_session_list_gives_one_session_per_entry() {
    let reply = r#"{"count":3,"sessions":[
        {"id":"a","username":"u","display_id":10,"duration_seconds":5},
        {"id":"b"},
        {"duration_seconds":"soon"}]}"#;
    let v = listed_sessions_from_reply(reply, "1.2.3.4").unwrap();
    assert_eq!(v.len(), 3);
    assert_eq!(v[0].id, "a");
    assert_eq!(v[0].username, "u");
    assert_eq!(v[0].display_id, 10);
    assert_eq!(v[0].start_time, "5s ago");
    assert_eq!(v[1].username, "unknown");
    assert_eq!(v[1].start_time, "unknown");
    assert_eq!(v[2].start_time, "0s ago");
    assert_eq!(v[2].host_ip, "1.2.3.4");
    assert!(listed_sessions_from_reply(r#"{"count":0}"#, "h").unwrap().is_empty());
    assert!(listed_sessions_from_reply("[", "h").is_err());
}

#[test]
fn the_vnc_target_follows_the_agents_answer() {
    assert_eq!(vnc_target_from_reply(Ok(r#"{"success":true,"port":5907}"#), 1), VncTarget::Port(5907));
    assert_eq!(vnc_target_from_reply(Ok(r#"{"success":true}"#), 2), VncTarget::Port(5902));
    assert_eq!(vnc_target_from_reply(Ok(r#"{"error":"no x11vnc"}"#), 2), VncTarget::Close(4000, "no x11vnc".to_string()));
    assert_eq!(
        vnc_target_from_reply(Err("timed out"), 2),
        VncTarget::Close(4001, "Agent communication error: timed out".to_string())
    );
    match vnc_target_from_reply(Ok("garbage"), 2) {
        VncTarget::Close(code, reason) => {
            assert_eq!(code, 4001);
            assert!(reason.starts_with("Agent communication error: "));
        }
        other => panic!("unexpected {:?}", other),
    }
    assert_eq!(checked_vnc_target_from_reply(Ok("{}"), 65000), None);
    assert_eq!(checked_vnc_target_from_reply(Ok(r#"{"port":1}"#), 65000), Some(VncTarget::Port(1)));
    assert_eq!(checked_vnc_target_from_reply(Ok("{}"), 3), Some(VncTarget::Port(5903)));
}

#[test]
fn system_users_are_the_names_the_agent_lists() {
    assert_eq!(
        system_users_from_reply(r#"{"users":["root","alice",5]}"#).unwrap(),
        vec!["root".to_string(), "alice".to_string()]
    );
    assert!(system_users_from_reply("{}").unwrap().is_empty());
    assert!(system_users_from_reply("users").is_err());
}

#[test]
fn other_answers_are_handed_on_when_they_are_json() {
    assert_eq!(forwarded_reply(r#"{"cpu":1}"#), Ok(r#"{"cpu":1}"#.to_string()));
    assert!(forwarded_reply("oops").is_err());
}

#[test]
fn the_agent_status_names_its_sessions_and_system() {
    let st = agent_status_from_reply(r#"{"status":"OK","active_sessions":3,"system":{"os":"linux"}}"#).unwrap();
    assert_eq!(st.status.as_deref(), Some("OK"));
    assert_eq!(st.active_sessions, Some(3));
    assert_eq!(st.os.as_deref(), Some("linux"));
    assert!(agent_reports_ok(r#"{"status":"OK"}"#));
    assert!(!agent_reports_ok(r#"{"status":"degraded"}"#));
    assert!(!agent_reports_ok("OK"));

    let cfg = HostConfig {
        name: "lab".to_string(),
        ip: "10.0.0.9".to_string(),
        ssh_port: 2222,
        ssh_public_key: None,
        ssh_public_key_path: None,
        ssh_private_key_path: Some("/k".to_string()),
    };
    let h = discovered_host("1".to_string(), &cfg, true, Some(&st), false, "Astra");
    assert_eq!(h.status, HostStatus::Online);
    assert_eq!(h.active_sessions, 3);
    assert_eq!(h.operating_system, "Linux");
    assert_eq!(h.port, 2222);
    assert_eq!(h.ssh_private_key_path.as_deref(), Some("/k"));
    let off = discovered_host("2".to_string(), &cfg, false, None, true, "Astra");
    assert_eq!(off.status, HostStatus::Offline);
    assert_eq!(off.operating_system, "Unknown / Offline");
    let no_agent = discovered_host("3".to_string(), &cfg, true, None, true, "Astra Linux 1.7");
    assert_eq!(no_agent.operating_system, "Astra Linux 1.7");
}

#[test]
fn journal_lines_become_log_entries() {
    let output = "{\"timestamp\":5,\"event_type\":\"AUTHENTICATION\",\"username\":\"bob\",\"details\":\"login\"}\nnot json\n{}\n";
    let logs = log_entries_from_output(output, "1.2.3.4");
    assert_eq!(logs.len(), 2);
    assert_eq!(logs[0].timestamp, "5");
    assert_eq!(logs[0].level, LogLevel::Audit);
    assert_eq!(logs[0].message, "[1.2.3.4] bob: login");
    assert_eq!(logs[1].timestamp, "0");
    assert_eq!(logs[1].level, LogLevel::Info);
    assert_eq!(logs[1].message, "[1.2.3.4] : ");
}
