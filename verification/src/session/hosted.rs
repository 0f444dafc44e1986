//! Desktop sessions on a real host: attach to the graphical session a
//! display already has, or start a virtual framebuffer and a desktop shell
//! on it. What only the host can do (read the password database, look for
//! files, run and stop programs) goes through `DesktopHost`.
use vstd::prelude::*;
use crate::agent::platform::CommandPlan;
use crate::os_pal::runtime_dir;
use crate::session::backends::{
    astra_session_id, desktop_shell_command, existing_session_kind, needs_virtual_desktop, user_home, user_uid,
    virtual_desktop_shells, xvfb_args, AstraX11Backend,
};
use crate::session::traits::{SessionBackend, SessionError, SessionProvisioning, UserSession};
use crate::shared_types::{SessionKind, SessionStatus};
use crate::text::{concat, concat3, decimal, decimal_string, string_from_str};

verus! {

/// What starting and stopping a desktop session needs from the host.
pub trait DesktopHost: Clone {
    /// A program the host started.
    type Process;

    /// The text of the password database, when it can be read.
    fn passwd(&self) -> Option<String>;

    /// Whether a file exists at `path`.
    fn path_exists(&self, path: &str) -> bool;

    /// Start the program `plan` describes; `None` when it could not start.
    fn spawn(&self, plan: &CommandPlan) -> Option<Self::Process>;

    /// Stop a program and wait for it.
    fn stop_process(&self, process: Self::Process);

    /// Remove the file at `path`, if there is one.
    fn remove_file(&self, path: &str);
}

/// A desktop session on the host, with the programs started for it.
pub struct HostedSession<H: DesktopHost> {
    id: String,
    username: String,
    display_id: u8,
    kind: SessionKind,
    status: SessionStatus,
    xvfb: Option<H::Process>,
    desktop: Option<H::Process>,
    host: H,
}

impl<H: DesktopHost> UserSession for HostedSession<H> {
    closed spec fn id_spec(&self) -> Seq<char> {
        self.id@
    }

    closed spec fn username_spec(&self) -> Seq<char> {
        self.username@
    }

    closed spec fn display_id_spec(&self) -> u8 {
        self.display_id
    }

    closed spec fn kind_spec(&self) -> SessionKind {
        self.kind
    }

    closed spec fn status_spec(&self) -> SessionStatus {
        self.status
    }

    fn id(&self) -> (r: &str) {
        self.id.as_str()
    }

    fn username(&self) -> (r: &str) {
        self.username.as_str()
    }

    fn display_id(&self) -> (r: u8) {
        self.display_id
    }

    fn session_kind(&self) -> (r: SessionKind) {
        self.kind
    }

    fn status(&self) -> (r: SessionStatus) {
        self.status
    }

    /// Stop the desktop shell and the framebuffer, remove the display's lock
    /// file and socket, and mark the session disconnected.
    fn stop(&mut self) -> (r: Result<(), SessionError>)
        ensures
            r is Ok,
    {
        if let Some(p) = self.desktop.take() {
            self.host.stop_process(p);
        }
        if let Some(p) = self.xvfb.take() {
            self.host.stop_process(p);
        }
        let n = decimal_string(self.display_id as u64);
        let lock = concat3("/tmp/.X", n.as_str(), "-lock");
        self.host.remove_file(lock.as_str());
        let socket = concat("/tmp/.X11-unix/X", n.as_str());
        self.host.remove_file(socket.as_str());
        self.status = SessionStatus::Disconnected;
        Ok(())
    }
}

/// Whether a program named `name` is installed in one of the system's
/// program directories.
fn binary_exists<H: DesktopHost>(host: &H, name: &str) -> bool {
    let dirs: Vec<&str> = vec!["/usr/bin/", "/usr/local/bin/", "/bin/", "/usr/sbin/", "/sbin/"];
    let mut i: usize = 0;
    while i < dirs.len()
        invariant
            i <= dirs@.len(),
        decreases dirs.len() - i,
    {
        let path = concat(dirs[i], name);
        if host.path_exists(path.as_str()) {
            return true;
        }
        i = i + 1;
    }
    false
}

/// Start a session for `username` on `display_id` (display 10 when none is
/// given): attach when the display already has a Wayland or X11 session;
/// otherwise start a virtual framebuffer and, when it runs, the first
/// installed desktop shell that starts.
pub fn start_hosted_session<H: DesktopHost>(host: &H, username: &str, display_id: Option<u8>) -> (r: HostedSession<H>)
    ensures
        r.id_spec() == username@ + "-astra-"@ + decimal(
            (match display_id { Some(d) => d, None => 10u8 }) as nat,
        ),
        r.username_spec() == username@,
        r.display_id_spec() == (match display_id { Some(d) => d, None => 10u8 }),
        r.status_spec() == SessionStatus::Active,
        r.kind_spec() != SessionKind::Virtual,
{
    let d: u8 = match display_id {
        Some(d) => d,
        None => 10,
    };
    let passwd = host.passwd();
    let (uid, home) = match &passwd {
        Some(p) => (user_uid(p.as_str(), username), user_home(p.as_str(), username)),
        None => (None, None),
    };
    let n = decimal_string(d as u64);
    let wayland_exists = match uid {
        Some(u) => {
            let dir = runtime_dir(u);
            let path = concat3(dir.as_str(), "/wayland-", n.as_str());
            host.path_exists(path.as_str())
        },
        None => false,
    };
    let x_socket = concat("/tmp/.X11-unix/X", n.as_str());
    let x11_exists = host.path_exists(x_socket.as_str());
    let kind = existing_session_kind(wayland_exists, x11_exists);
    let mut xvfb: Option<H::Process> = None;
    let mut desktop: Option<H::Process> = None;
    if needs_virtual_desktop(kind) {
        let plan = CommandPlan { program: string_from_str("runuser"), args: xvfb_args(username, d), env: Vec::new() };
        xvfb = host.spawn(&plan);
        if xvfb.is_some() {
            let shells = virtual_desktop_shells();
            let mut i: usize = 0;
            while i < shells.len()
                invariant
                    i <= shells@.len(),
                decreases shells.len() - i,
            {
                if binary_exists(host, shells[i].as_str()) {
                    let home_ref: Option<&str> = match &home {
                        Some(h) => Some(h.as_str()),
                        None => None,
                    };
                    let shell_plan = desktop_shell_command(username, uid, home_ref, d, shells[i].as_str());
                    let started = host.spawn(&shell_plan);
                    if started.is_some() {
                        desktop = started;
                        break;
                    }
                }
                i = i + 1;
            }
        }
    }
    HostedSession {
        id: astra_session_id(username, d),
        username: string_from_str(username),
        display_id: d,
        kind,
        status: SessionStatus::Active,
        xvfb,
        desktop,
        host: host.clone(),
    }
}

/// The X11 backend on a real host: the configured provisioning, with
/// sessions started through `host`.
pub struct HostedBackend<H: DesktopHost> {
    backend: AstraX11Backend,
    host: H,
}

impl<H: DesktopHost> HostedBackend<H> {
    pub fn new(backend: AstraX11Backend, host: H) -> (r: HostedBackend<H>)
        ensures
            r.backend() == backend,
    {
        HostedBackend { backend, host }
    }

    pub closed spec fn backend(&self) -> AstraX11Backend {
        self.backend
    }
}

impl<H: DesktopHost> SessionBackend for HostedBackend<H> {
    type Session = HostedSession<H>;

    fn provisioning(&self, username: &str) -> (r: SessionProvisioning)
        ensures
            r == (if self.backend().attaches() {
                SessionProvisioning::AttachExisting
            } else {
                SessionProvisioning::VirtualDesktop
            }),
    {
        self.backend.provisioning(username)
    }

    /// Starting a hosted session does not fail.
    open spec fn create_outcome(&self, username: Seq<char>, display_id: Option<u8>) -> Option<SessionError> {
        None
    }

    /// Always succeeds: a session whose programs did not start is still
    /// reported, as the host's desktop may already be there.
    fn create_session(&self, username: &str, display_id: Option<u8>) -> (r: Result<HostedSession<H>, SessionError>)
        ensures
            r is Ok,
    {
        Ok(start_hosted_session(&self.host, username, display_id))
    }
}

} // verus!
