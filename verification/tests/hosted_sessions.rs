use std::cell::RefCell;
use std::collections::HashSet;
use std::rc::Rc;
use ttgtiso_desk::agent::platform::CommandPlan;
use ttgtiso_desk::config::{ConnectionMode, DesktopSessionType};
use ttgtiso_desk::session::backends::AstraX11Backend;
use ttgtiso_desk::session::hosted::{start_hosted_session, DesktopHost, HostedBackend};
use ttgtiso_desk::session::traits::{SessionBackend, SessionProvisioning, UserSession};
use ttgtiso_desk::shared_types::{SessionKind, SessionStatus};

#[derive(Clone)]
struct FakeHost {
    files: HashSet<String>,
    spawned: Rc<RefCell<Vec<CommandPlan>>>,
    stopped: Rc<RefCell<Vec<String>>>,
    removed: Rc<RefCell<Vec<String>>>,
}

impl FakeHost {
    fn new(files: &[&str]) -> Self {
        FakeHost {
            files: files.iter().map(|f| f.to_string()).collect(),
            spawned: Rc::new(RefCell::new(Vec::new())),
            stopped: Rc::new(RefCell::new(Vec::new())),
            removed: Rc::new(RefCell::new(Vec::new())),
        }
    }
}

impl DesktopHost for FakeHost {
    type Process = String;

    fn passwd(&self) -> Option<String> {
        Some("alice:x:1000:1000:Alice:/home/alice:/bin/bash\n".to_string())
    }

    fn path_exists(&self, path: &str) -> bool {
        self.files.contains(path)
    }

    fn spawn(&self, plan: &CommandPlan) -> Option<String> {
        self.spawned.borrow_mut().push(plan.clone());
        Some(plan.args.last().cloned().unwrap_or_default())
    }

    fn stop_process(&self, process: String) {
        self.stopped.borrow_mut().push(process);
    }

    fn remove_file(&self, path: &str) {
        self.removed.borrow_mut().push(path.to_string());
    }
}

#[test]
fn a_display_with_an_x_socket_is_attached_to() {
    let host = FakeHost::new(&["/tmp/.X11-unix/X12"]);
    let s = start_hosted_session(&host, "alice", Some(12));
    assert_eq!(s.id(), "alice-astra-12");
    assert_eq!(s.username(), "alice");
    assert_eq!(s.display_id(), 12);
    assert_eq!(s.session_kind(), SessionKind::X11);
    assert_eq!(s.status(), SessionStatus::Active);
    assert!(host.spawned.borrow().is_empty());
}

#[test]
fn a_wayland_socket_of_the_user_wins() {
    let host = FakeHost::new(&["/tmp/.X11-unix/X10", "/run/user/1000/wayland-10"]);
    let s = start_hosted_session(&host, "alice", None);
    assert_eq!(s.display_id(), 10);
    assert_eq!(s.session_kind(), SessionKind::Wayland);
    assert!(host.spawned.borrow().is_empty());
}

#[test]
fn an_empty_display_gets_a_framebuffer_and_the_first_installed_shell() {
    let host = FakeHost::new(&["/usr/bin/openbox", "/usr/bin/xfce4-session"]);
    let mut s = start_hosted_session(&host, "alice", Some(11));
    assert_eq!(s.session_kind(), SessionKind::Unknown);
    let spawned = host.spawned.borrow().clone();
    assert_eq!(spawned.len(), 2);
    assert_eq!(spawned[0].program, "runuser");
    assert_eq!(
        spawned[0].args,
        vec!["-u", "alice", "--", "Xvfb", ":11", "-screen", "0", "1920x1080x24", "-nolisten", "tcp"]
    );
    assert_eq!(spawned[1].args, vec!["-u", "alice", "--", "xfce4-session"]);
    assert_eq!(spawned[1].env[0], ("HOME".to_string(), Some("/home/alice".to_string())));

    assert!(s.stop().is_ok());
    assert_eq!(s.status(), SessionStatus::Disconnected);
    assert_eq!(s.id(), "alice-astra-11");
    assert_eq!(*host.stopped.borrow(), vec!["xfce4-session".to_string(), "tcp".to_string()]);
    assert_eq!(*host.removed.borrow(), vec!["/tmp/.X11-lock".to_string(), "/tmp/.X11-unix/X11".to_string()]);
}

#[test]
fn the_hosted_backend_follows_its_configuration() {
    let attach = HostedBackend::new(
        AstraX11Backend::from_config(ConnectionMode::App, DesktopSessionType::Auto),
        FakeHost::new(&[]),
    );
    assert_eq!(attach.provisioning("alice"), SessionProvisioning::AttachExisting);
    let virtual_desktop = HostedBackend::new(
        AstraX11Backend::from_config(ConnectionMode::Desktop, DesktopSessionType::Auto),
        FakeHost::new(&["/tmp/.X11-unix/X10"]),
    );
    assert_eq!(virtual_desktop.provisioning("alice"), SessionProvisioning::VirtualDesktop);
    let session = virtual_desktop.create_session("alice", None).unwrap();
    assert_eq!(session.id(), "alice-astra-10");
    assert_eq!(session.session_kind(), SessionKind::X11);
}
