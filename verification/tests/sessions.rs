use ttgtiso_desk::config::{AgentConfig, ConnectionMode, DesktopSessionType};
use ttgtiso_desk::session::allocator::LocalDisplayAllocator;
use ttgtiso_desk::session::backends::{
    astra_session_id, existing_session_kind, needs_virtual_desktop, virtual_desktop_shells, xvfb_args,
    AstraX11Backend, MockSessionBackend, MockUserSession,
};
use ttgtiso_desk::session::listing::{passwd_name, DisplayScan, RuntimeEntry, X11SocketEntry};
use ttgtiso_desk::session::manager::LocalSessionManager;
use ttgtiso_desk::session::traits::{DisplayAllocator, SessionBackend, SessionError, SessionProvisioning, UserSession};
use ttgtiso_desk::shared_types::{SessionKind, SessionStatus};

fn manager() -> LocalSessionManager<MockSessionBackend> {
    LocalSessionManager::new(MockSessionBackend, LocalDisplayAllocator::new(10, 12))
}

#[test]
fn one_active_session_per_user() {
    let mut m = manager();
    let info = m.start_session_at("alice", &vec![], 100).unwrap();
    assert_eq!(info.username, "alice");
    assert_eq!(info.display_id, 10);
    assert_eq!(info.start_time, 100);
    assert_eq!(info.id, "alice-10");
    assert_eq!(info.session_kind, SessionKind::Virtual);
    let again = m.start_session_at("alice", &vec![], 101);
    assert_eq!(again.unwrap_err(), SessionError::AlreadyActive("alice".to_string()));
    let bob = m.start_session_at("bob", &vec![11], 102).unwrap();
    assert_eq!(bob.display_id, 12);
}

#[test]
fn displays_run_out_and_come_back() {
    let mut m = manager();
    m.start_session_at("a", &vec![], 1).unwrap();
    m.start_session_at("b", &vec![], 1).unwrap();
    m.start_session_at("c", &vec![], 1).unwrap();
    let err = m.start_session_at("d", &vec![], 1).unwrap_err();
    assert_eq!(err, SessionError::NoDisplayAvailable { min: 10, max: 12 });
    assert_eq!(err.message(), "No available displays in range 10-12");
    m.stop_session("b-11").unwrap();
    assert_eq!(m.start_session_at("d", &vec![], 2).unwrap().display_id, 11);
}

#[test]
fn stop_and_lookup() {
    let mut m = manager();
    let info = m.start_session_at("alice", &vec![], 5).unwrap();
    assert_eq!(m.get_session_info(&info.id).unwrap().start_time, 5);
    m.stop_session(&info.id).unwrap();
    assert_eq!(m.get_session_info(&info.id).unwrap_err(), SessionError::NotFound(info.id.clone()));
    assert_eq!(m.stop_session(&info.id).unwrap_err().message(), format!("Session not found: {}", info.id));
    assert!(m.start_session_at("alice", &vec![], 6).is_ok());
}

#[test]
fn listing_merges_host_displays() {
    let mut m = manager();
    m.start_session_at("alice", &vec![], 1).unwrap();
    let passwd = "bob:x:1001:1001::/home/bob:/bin/sh\n";
    let scan = DisplayScan {
        x11_sockets: vec![
            X11SocketEntry { name: "X10".to_string(), owner: Some(1001) },
            X11SocketEntry { name: "X0".to_string(), owner: Some(0) },
            X11SocketEntry { name: "X1".to_string(), owner: Some(1001) },
            X11SocketEntry { name: "X2".to_string(), owner: None },
        ],
        runtime_dirs: vec![RuntimeEntry {
            name: "1001".to_string(),
            is_dir: true,
            files: Some(vec!["wayland-0".to_string(), "wayland-0.lock".to_string(), "bus".to_string()]),
        }],
    };
    let list = m.list_active_sessions(&scan, Some(passwd));
    let ids: Vec<&str> = list.iter().map(|s| s.id.as_str()).collect();
    assert_eq!(ids, vec!["alice-10", "system-display-1", "system-display-2", "system-wayland-0"]);
    assert_eq!(list[1].username, "bob");
    assert_eq!(list[2].username, "unknown");
    assert_eq!(list[3].username, "bob");
    assert_eq!(list[3].session_kind, SessionKind::Wayland);
}

#[test]
fn passwd_names() {
    assert_eq!(passwd_name("a:x:7\nb:x:8:9\n", 8), Some("b".to_string()));
    assert_eq!(passwd_name("a:x\n", 8), None);
}

#[test]
fn allocator_skips_taken_displays() {
    let mut a = LocalDisplayAllocator::new(10, 11);
    assert_eq!(a.allocate(&vec![10]), Ok(11));
    assert!(a.allocate(&vec![10]).is_err());
    a.release(11);
    assert_eq!(a.allocate(&vec![]), Ok(10));
}

#[test]
fn mock_sessions() {
    let mut s = MockUserSession::new("u", 3);
    assert_eq!(s.id(), "u-3");
    assert_eq!(s.status(), SessionStatus::Active);
    s.stop().unwrap();
    assert_eq!(s.status(), SessionStatus::Disconnected);
    let b = MockSessionBackend;
    assert_eq!(b.create_session("v", None).unwrap().display_id(), 10);
    assert_eq!(b.provisioning("v"), SessionProvisioning::VirtualDesktop);
}

#[test]
fn x11_backend_decisions() {
    let app = AstraX11Backend::from_config(ConnectionMode::App, DesktopSessionType::Auto);
    assert!(app.should_attach());
    assert_eq!(app.provisioning("x"), SessionProvisioning::AttachExisting);
    let desk = AstraX11Backend::from_config(ConnectionMode::Desktop, DesktopSessionType::Auto);
    assert!(!desk.should_attach());
    assert_eq!(existing_session_kind(true, true), SessionKind::Wayland);
    assert_eq!(existing_session_kind(false, true), SessionKind::X11);
    assert_eq!(existing_session_kind(false, false), SessionKind::Unknown);
    assert!(needs_virtual_desktop(SessionKind::Unknown));
    assert!(!needs_virtual_desktop(SessionKind::X11));
    assert_eq!(astra_session_id("ann", 10), "ann-astra-10");
    assert_eq!(xvfb_args("ann", 10)[4], ":10");
    assert_eq!(virtual_desktop_shells().len(), 8);
}

#[test]
fn manager_from_config() {
    let cfg = AgentConfig::default();
    let m: LocalSessionManager<MockSessionBackend> = LocalSessionManager::from_config(&cfg, |_b: AstraX11Backend| MockSessionBackend);
    assert!(m.get_session_info("x").is_err());
}
