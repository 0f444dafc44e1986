use ttgtiso_desk::agent::command::{available_commands, parse_control_command, session_duration, ControlCommand};
use ttgtiso_desk::agent::handshake::{
    display_from_env, display_string, handshake_ack, handshake_payload_expected, handshake_target,
    input_lookup_is_defined, input_requests, parse_handshake_header, select_display, HandshakeTarget,
};
use ttgtiso_desk::agent::platform::{
    agent_hostname, control_endpoint, default_audit_log_path, default_config_path, display_not_found_message,
    launch_exited_message, launch_success_message, list_users, memory_info, owner_of_runtime_dir,
    owner_of_x11_socket, parse_meminfo_value, user_launch_command, ControlEndpoint, Platform,
};
use ttgtiso_desk::agent::vnc::{plan_vnc, vnc_failure_message, vnc_port, vnc_spawn_failure_message, VncPlan};
use ttgtiso_desk::input::injectors::{KeyboardMapping, LegacyX11InputInjector};
use ttgtiso_desk::protocol::input::{InputEvent, KeyboardEvent, MouseEvent};
use ttgtiso_desk::shared_types::{MouseButton, SessionInfo, SessionKind};

#[test]
fn control_commands() {
    assert_eq!(parse_control_command("status"), ControlCommand::Status);
    assert_eq!(parse_control_command("users"), ControlCommand::Users);
    assert_eq!(
        parse_control_command("launch 3 firefox --new-window"),
        ControlCommand::Launch { display_id: 3, command: "firefox --new-window".to_string() }
    );
    assert_eq!(parse_control_command("launch 3"), ControlCommand::Invalid("Usage: launch <display_id> <command>".to_string()));
    assert_eq!(parse_control_command("launch x cmd"), ControlCommand::Invalid("Invalid display ID".to_string()));
    assert_eq!(parse_control_command("start_session  alice "), ControlCommand::StartSession("alice".to_string()));
    assert_eq!(parse_control_command("start_session"), ControlCommand::Invalid("Usage: start_session <username>".to_string()));
    assert_eq!(parse_control_command("stop_session alice-10"), ControlCommand::StopSession("alice-10".to_string()));
    assert_eq!(parse_control_command("ensure_vnc 2"), ControlCommand::EnsureVnc(2));
    assert_eq!(parse_control_command("ensure_vnc two"), ControlCommand::Invalid("Invalid display ID".to_string()));
    assert_eq!(parse_control_command("ensure_vnc"), ControlCommand::Invalid("Usage: ensure_vnc <display_id>".to_string()));
    assert_eq!(parse_control_command("reboot"), ControlCommand::Unknown);
    assert_eq!(available_commands().len(), 10);
    assert_eq!(session_duration(10, 4), 6);
    assert_eq!(session_duration(4, 10), 0);
}

#[test]
fn handshake_header_and_payload() {
    let h = parse_handshake_header(&[0x54, 0x54, 0x47, 0x54, 1, 0, 0, 0, 1, 2, 0]).unwrap();
    assert_eq!(h.version, 1);
    assert_eq!(h.channel_id, 0);
    assert_eq!(h.payload_length, 258);
    assert!(parse_handshake_header(&[0; 11]).is_none());
    assert!(handshake_payload_expected(1));
    assert!(!handshake_payload_expected(0));
    assert!(!handshake_payload_expected(65536));
    let t = handshake_target(br#"{"username":"alice","display_id":266}"#);
    assert_eq!(t.username.as_deref(), Some("alice"));
    assert_eq!(t.display_id, Some(10));
    let none = handshake_target(&[0xff, 0xfe]);
    assert!(none.username.is_none() && none.display_id.is_none());
    assert_eq!(handshake_ack(1, 0), vec![0x54, 0x54, 0x47, 0x54, 1, 0, 0, 0, 0, 2, 1, b'O', b'K']);
}

fn info(user: &str, d: u8) -> SessionInfo {
    SessionInfo { id: format!("{}-{}", user, d), username: user.to_string(), display_id: d, start_time: 0, session_kind: SessionKind::X11 }
}

#[test]
fn display_selection() {
    let sessions = vec![info("bob", 11), info("alice", 12)];
    let by_user = HandshakeTarget { username: Some("alice".to_string()), display_id: None };
    assert_eq!(select_display(&by_user, &sessions, 10), 12);
    let unknown = HandshakeTarget { username: Some("eve".to_string()), display_id: None };
    assert_eq!(select_display(&unknown, &sessions, 10), 11);
    let explicit = HandshakeTarget { username: Some("alice".to_string()), display_id: Some(3) };
    assert_eq!(select_display(&explicit, &sessions, 10), 3);
    let nothing = HandshakeTarget { username: None, display_id: None };
    assert_eq!(select_display(&nothing, &vec![], 7), 7);
    assert_eq!(display_from_env(Some(":0.0")), 0);
    assert_eq!(display_from_env(Some("::5")), 5);
    assert_eq!(display_from_env(Some("host:1")), 10);
    assert_eq!(display_from_env(None), 10);
    assert_eq!(display_string(12), ":12");
}

#[test]
fn input_channel_dispatch() {
    let inj = LegacyX11InputInjector::new(":10");
    let mapping = KeyboardMapping { min_keycode: 8, keysyms_per_keycode: 1, keysyms: vec![0x61, 0xff51] };
    let mv = InputEvent::Mouse(MouseEvent { event_type: 1, button: MouseButton::NoButton, x: 5, y: 6, scroll_delta: 0 }).to_bytes();
    assert_eq!(input_requests(&inj, &mapping, 2, &mv), inj.inject_mouse_move(5, 6));
    assert!(input_requests(&inj, &mapping, 1, &mv).is_empty());
    let press = InputEvent::Mouse(MouseEvent { event_type: 2, button: MouseButton::Left, x: 0, y: 0, scroll_delta: 0 }).to_bytes();
    assert_eq!(input_requests(&inj, &mapping, 2, &press), inj.inject_mouse_click(MouseButton::Left, true));
    let key = InputEvent::Keyboard(KeyboardEvent { event_type: 5, keysym: 0xff51 }).to_bytes();
    let reqs = input_requests(&inj, &mapping, 2, &key);
    assert_eq!(reqs.len(), 1);
    assert_eq!(reqs[0].detail, 9);
    assert!(input_requests(&inj, &mapping, 2, &[0x42]).is_empty());
}

#[test]
fn platform_paths() {
    assert_eq!(control_endpoint(Platform::Linux), ControlEndpoint::UnixSocket("/var/lib/ttgtiso-desk/agent.sock".to_string()));
    assert_eq!(control_endpoint(Platform::Windows), ControlEndpoint::LocalTcp("127.0.0.1:2223".to_string()));
    assert_eq!(default_config_path(Platform::Windows, None), "C:\\ProgramData\\TTGTiSO-Desk\\agent.toml");
    assert_eq!(default_audit_log_path(Platform::Linux, None), "/var/log/ttgtiso-desk/audit.log");
    assert_eq!(agent_hostname(Platform::Linux, Some("box\n")), "box");
    assert_eq!(agent_hostname(Platform::Other, Some("x")), "localhost");
}

#[test]
fn system_file_parsing() {
    let passwd = "root:x:0:0::/root:/bin/bash\nann:x:1000:1000::/home/ann:/bin/bash\nsvc:x:1001:1001::/:/usr/sbin/nologin\nbob:x:1002:1002::/home/bob:/bin/zsh\n";
    assert_eq!(list_users(passwd), vec!["ann".to_string(), "bob".to_string()]);
    assert_eq!(parse_meminfo_value("MemTotal:       16384 kB"), 16384);
    assert_eq!(parse_meminfo_value("MemTotal:"), 0);
    assert_eq!(memory_info("MemTotal: 100 kB\nMemFree: 5 kB\nMemAvailable: 40 kB\n"), (100, 40));
}

#[test]
fn launching_and_vnc() {
    let owner = owner_of_x11_socket(1000, Some(("ann".to_string(), "/home/ann".to_string())), None);
    assert_eq!(owner.xdg_runtime, "/run/user/1000");
    let plan = user_launch_command(&owner, 3, "xterm", Some("/home/ann/.Xauthority"));
    assert_eq!(plan.program, "runuser");
    assert_eq!(plan.args, vec!["-u", "ann", "--", "sh", "-c", "xterm"]);
    assert_eq!(plan.env.last().unwrap(), &("XAUTHORITY".to_string(), Some("/home/ann/.Xauthority".to_string())));
    assert_eq!(vnc_port(3), 5903);
    match plan_vnc(&owner, 0, true, false, true, None) {
        VncPlan::Launch { command, wayland } => {
            assert!(!wayland);
            assert_eq!(command.args.last().unwrap(), "guess");
            assert!(command.args.contains(&"5900".to_string()));
        },
        VncPlan::Fail(m) => panic!("unexpected refusal: {}", m),
    }
    match plan_vnc(&owner, 1, true, false, false, None) {
        VncPlan::Fail(m) => assert!(m.starts_with("X11 session on display :1 requires x11vnc")),
        _ => panic!("expected a refusal"),
    }
    let w = owner_of_runtime_dir(1000, "/run/user/1000", None, "wayland-0".to_string());
    assert_eq!(w.username, "user_1000");
    match plan_vnc(&w, 0, false, true, false, None) {
        VncPlan::Launch { command, wayland } => {
            assert!(wayland);
            assert_eq!(command.args, vec!["-u", "user_1000", "--", "wayvnc", "127.0.0.1:5900"]);
        },
        _ => panic!("expected wayvnc"),
    }
    assert_eq!(
        vnc_failure_message(false, 2, "a\nb\n"),
        "x11vnc failed to start on display :2. The display may not be accessible or XAUTHORITY is incorrect: b."
    );
    assert!(vnc_failure_message(true, 0, "no Screencopy").contains("Compositor protocol mismatch"));
    assert_eq!(vnc_failure_message(true, 0, ""), "Wayland VNC server (wayvnc) failed to start on display :0.");
    assert_eq!(vnc_spawn_failure_message(true, "e"), "Failed to spawn wayvnc: e");
    assert_eq!(display_not_found_message(4), "Display :4 not found. No X11 socket or Wayland session detected.");
    assert_eq!(launch_success_message("xterm", 2, "ann"), "Launched 'xterm' on display :2 as ann");
    assert_eq!(launch_exited_message("x", "exit status: 1", "oops\n"), "Command 'x' exited immediately with exit status: 1: oops");
}

#[test]
fn a_key_can_only_be_looked_up_in_a_mapping_with_keysyms_per_keycode() {
    let empty_per_code = KeyboardMapping { min_keycode: 8, keysyms_per_keycode: 0, keysyms: vec![0xff51] };
    let key = InputEvent::Keyboard(KeyboardEvent { event_type: 5, keysym: 0xff51 }).to_bytes();
    let other = InputEvent::Keyboard(KeyboardEvent { event_type: 5, keysym: 0x61 }).to_bytes();
    assert!(!input_lookup_is_defined(&empty_per_code, 2, &key));
    assert!(input_lookup_is_defined(&empty_per_code, 2, &other));
    assert!(input_lookup_is_defined(&empty_per_code, 1, &key));
    let usual = KeyboardMapping { min_keycode: 8, keysyms_per_keycode: 2, keysyms: vec![0xff51, 0] };
    assert!(input_lookup_is_defined(&usual, 2, &key));
}
