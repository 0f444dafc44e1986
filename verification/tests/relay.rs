use ttgtiso_desk::relay::{
    decide_handshake, register_record, timeout_record, unregister_record, HandshakeOutcome, HandshakeRequest,
    RelayConfig, RelayRole, SessionRegistry,
};

fn test_config() -> RelayConfig {
    RelayConfig {
        bind_address: "127.0.0.1".to_string(),
        port: 0,
        agent_token: "agent_secret".to_string(),
        client_token: "client_secret".to_string(),
        heartbeat_timeout_secs: 1,
    }
}

fn req(role: &str, token: &str, sid: &str) -> HandshakeRequest {
    HandshakeRequest { role: role.to_string(), token: token.to_string(), session_id: sid.to_string() }
}

#[test]
fn wrong_token_is_unauthorized() {
    let r = req("client", "wrong_secret", "session-1");
    match decide_handshake(&test_config(), Some(&r), 9) {
        HandshakeOutcome::Unauthorized(resp, rec) => {
            assert_eq!(resp.status, "error");
            assert_eq!(resp.message.as_deref(), Some("Unauthorized"));
            assert_eq!(rec.action, "handshake_failed");
            assert_eq!(rec.details, "Handshake token mismatch for role: client");
            assert_eq!(rec.timestamp, 9);
        },
        _ => panic!("expected refusal"),
    }
}

#[test]
fn handshake_outcomes() {
    let cfg = test_config();
    assert!(matches!(decide_handshake(&cfg, Some(&req("agent", "agent_secret", "s")), 0), HandshakeOutcome::Accepted(_, RelayRole::Agent)));
    assert!(matches!(decide_handshake(&cfg, Some(&req("client", "client_secret", "s")), 0), HandshakeOutcome::Accepted(_, RelayRole::Client)));
    assert!(matches!(decide_handshake(&cfg, Some(&req("agent", "client_secret", "s")), 0), HandshakeOutcome::Unauthorized(_, _)));
    assert!(matches!(decide_handshake(&cfg, Some(&req("admin", "x", "s")), 0), HandshakeOutcome::UnknownRole));
    match decide_handshake(&cfg, None, 0) {
        HandshakeOutcome::Malformed(resp) => assert_eq!(resp.message.as_deref(), Some("Invalid handshake")),
        _ => panic!("expected malformed"),
    }
}

#[test]
fn registry_routes_and_times_out() {
    let mut reg: SessionRegistry<u32> = SessionRegistry::new();
    reg.register_agent("s1", 1, 0);
    reg.register_client("s1", 2);
    reg.register_agent("s2", 3, 1_500_000_000);
    assert_eq!(reg.route_to_client("s1"), Some(&2));
    assert_eq!(reg.route_to_agent("s1"), Some(&1));
    assert!(reg.is_agent_present("s2"));
    let expired = reg.check_heartbeats(2_000_000_000, 2);
    assert_eq!(expired, vec!["s1".to_string()]);
    assert!(!reg.is_agent_present("s1"));
    assert_eq!(reg.route_to_client("s1"), None);
    assert!(reg.is_agent_present("s2"));
    reg.update_heartbeat("s2", 10_000_000_000);
    assert!(reg.check_heartbeats(11_999_000_000, 2).is_empty());
    reg.unregister("s2");
    assert!(!reg.is_agent_present("s2"));
}

#[test]
fn relay_audit_records() {
    let r = register_record("agent", "s", 5);
    assert_eq!(r.action, "register_agent");
    assert_eq!(r.details, "Registered agent connection for session s");
    assert_eq!(unregister_record("client", "s", 5).action, "unregister_client");
    assert_eq!(timeout_record("s", 5).details, "Terminated session s due to lack of heartbeat");
    let d = RelayConfig::default();
    assert_eq!(d.port, 8080);
    assert_eq!(d.heartbeat_timeout_secs, 5);
}

#[test]
fn an_agent_can_reconnect_after_leaving() {
    let cfg = test_config();
    let hello = req("agent", "agent_secret", "session-reconnect-1");
    let mut reg: SessionRegistry<u32> = SessionRegistry::new();
    assert!(matches!(decide_handshake(&cfg, Some(&hello), 0), HandshakeOutcome::Accepted(_, RelayRole::Agent)));
    reg.register_agent("session-reconnect-1", 1, 0);
    assert!(reg.is_agent_present("session-reconnect-1"));
    reg.unregister("session-reconnect-1");
    assert!(!reg.is_agent_present("session-reconnect-1"));
    assert!(matches!(decide_handshake(&cfg, Some(&hello), 150), HandshakeOutcome::Accepted(_, RelayRole::Agent)));
    reg.register_agent("session-reconnect-1", 2, 150_000_000);
    assert!(reg.is_agent_present("session-reconnect-1"));
    assert_eq!(reg.route_to_agent("session-reconnect-1"), Some(&2));
}

#[test]
fn a_silent_agent_expires_after_the_timeout() {
    let mut reg: SessionRegistry<u32> = SessionRegistry::new();
    reg.register_agent("session-heartbeat-1", 1, 0);
    assert!(reg.check_heartbeats(999_000_000, 1).is_empty());
    assert_eq!(reg.check_heartbeats(2_000_000_000, 1), vec!["session-heartbeat-1".to_string()]);
    assert!(!reg.is_agent_present("session-heartbeat-1"));
}

#[test]
fn each_expired_session_is_named_once() {
    let mut reg: SessionRegistry<u32> = SessionRegistry::new();
    reg.register_agent("a", 1, 0);
    reg.register_agent("b", 2, 0);
    reg.update_heartbeat("a", 100_000_000);
    reg.register_agent("c", 3, 5_000_000_000);
    let mut expired = reg.check_heartbeats(3_000_000_000, 2);
    expired.sort();
    assert_eq!(expired, vec!["a".to_string(), "b".to_string()]);
    assert!(reg.is_agent_present("c"));
}

#[test]
fn heartbeat_age_is_measured_to_the_nanosecond() {
    let mut reg: SessionRegistry<u32> = SessionRegistry::new();
    reg.register_agent("s", 1, 900_000);
    assert!(reg.check_heartbeats(1_000_500_000, 1).is_empty());
    assert_eq!(reg.check_heartbeats(1_000_900_000, 1), vec!["s".to_string()]);
}
