//! Session backends: an in-memory one, and the decisions of the X11 one.
use vstd::prelude::*;
use crate::config::{ConnectionMode, DesktopSessionType};
use crate::shared_types::{SessionKind, SessionStatus};
use crate::session::traits::{SessionBackend, SessionError, SessionProvisioning, UserSession};
use crate::text::{
    string_from_str, string_from_chars, chars_of, chars_eq, concat, concat3, decimal, decimal_string,
    strings_view, push_str, lemma_strings_view_push,
};
use crate::parse::{lines_spec, lines_chars, split_spec, split_chars, parse_unsigned_spec, parse_unsigned, views};
use crate::agent::platform::{CommandPlan, EnvChange, env_view, push_set, push_unset};

verus! {

/// A session that exists only in memory.
pub struct MockUserSession {
    id: String,
    username: String,
    display_id: u8,
    status: SessionStatus,
}

impl MockUserSession {
    /// An active session of `username` on `display_id`, named `<user>-<display>`.
    pub fn new(username: &str, display_id: u8) -> (r: MockUserSession)
        ensures
            r.id_spec() == username@ + "-"@ + decimal(display_id as nat),
            r.username_spec() == username@,
            r.display_id_spec() == display_id,
            r.status_spec() == SessionStatus::Active,
            r.kind_spec() == SessionKind::Virtual,
    {
        let n = decimal_string(display_id as u64);
        MockUserSession {
            id: concat3(username, "-", n.as_str()),
            username: string_from_str(username),
            display_id,
            status: SessionStatus::Active,
        }
    }
}

impl UserSession for MockUserSession {
    closed spec fn id_spec(&self) -> Seq<char> {
        self.id@
    }

    closed spec fn username_spec(&self) -> Seq<char> {
        self.username@
    }

    closed spec fn display_id_spec(&self) -> u8 {
        self.display_id
    }

    closed spec fn kind_spec(&self) -> SessionKind {
        SessionKind::Virtual
    }

    closed spec fn status_spec(&self) -> SessionStatus {
        self.status
    }

    fn id(&self) -> (r: &str) {
        self.id.as_str()
    }

    fn username(&self) -> (r: &str) {
        self.username.as_str()
    }

    fn display_id(&self) -> (r: u8) {
        self.display_id
    }

    fn session_kind(&self) -> (r: SessionKind) {
        SessionKind::Virtual
    }

    fn status(&self) -> (r: SessionStatus) {
        self.status
    }

    fn stop(&mut self) -> (r: Result<(), SessionError>)
        ensures
            r is Ok,
    {
        self.status = SessionStatus::Disconnected;
        Ok(())
    }
}

/// A backend whose sessions exist only in memory.
pub struct MockSessionBackend;

impl SessionBackend for MockSessionBackend {
    type Session = MockUserSession;

    fn provisioning(&self, username: &str) -> (r: SessionProvisioning)
        ensures
            r == SessionProvisioning::VirtualDesktop,
    {
        SessionProvisioning::VirtualDesktop
    }

    /// A mock backend never fails.
    open spec fn create_outcome(&self, username: Seq<char>, display_id: Option<u8>) -> Option<SessionError> {
        None
    }

    /// Always succeeds, on display 10 when none is given.
    fn create_session(&self, username: &str, display_id: Option<u8>) -> (r: Result<MockUserSession, SessionError>)
        ensures
            r matches Ok(s) && s.username_spec() == username@ && s.display_id_spec() == (match display_id {
                Some(d) => d,
                None => 10u8,
            }),
    {
        let d = match display_id {
            Some(d) => d,
            None => 10,
        };
        Ok(MockUserSession::new(username, d))
    }
}

/// The X11 backend's configuration: how connections want their desktop.
pub struct AstraX11Backend {
    mode: ConnectionMode,
    session_type: DesktopSessionType,
}

impl AstraX11Backend {
    pub closed spec fn mode(&self) -> ConnectionMode {
        self.mode
    }

    pub closed spec fn session_type(&self) -> DesktopSessionType {
        self.session_type
    }

    pub fn from_config(mode: ConnectionMode, session_type: DesktopSessionType) -> (r: AstraX11Backend)
        ensures
            r.mode() == mode,
            r.session_type() == session_type,
    {
        AstraX11Backend { mode, session_type }
    }

    /// Attach when so configured, or in application mode with automatic choice.
    pub open spec fn attaches(&self) -> bool {
        self.session_type() == DesktopSessionType::Attach
            || (self.session_type() == DesktopSessionType::Auto && self.mode() == ConnectionMode::App)
    }

    pub fn should_attach(&self) -> (r: bool)
        ensures
            r == self.attaches(),
    {
        match (self.session_type, self.mode) {
            (DesktopSessionType::Attach, _) => true,
            (DesktopSessionType::Auto, ConnectionMode::App) => true,
            _ => false,
        }
    }

    /// Attach to the running session, or start a virtual desktop.
    pub fn provisioning(&self, username: &str) -> (r: SessionProvisioning)
        ensures
            r == (if self.attaches() { SessionProvisioning::AttachExisting } else { SessionProvisioning::VirtualDesktop }),
    {
        if self.should_attach() {
            SessionProvisioning::AttachExisting
        } else {
            SessionProvisioning::VirtualDesktop
        }
    }
}

impl Default for AstraX11Backend {
    fn default() -> (r: Self)
        ensures
            r.mode() == ConnectionMode::Desktop,
            r.session_type() == DesktopSessionType::Auto,
    {
        AstraX11Backend { mode: ConnectionMode::Desktop, session_type: DesktopSessionType::Auto }
    }
}

/// The kind of the session already on a display: Wayland when the user's
/// runtime directory holds its Wayland socket, else X11 when its X socket
/// exists, else none.
pub fn existing_session_kind(wayland_socket_exists: bool, x11_socket_exists: bool) -> (r: SessionKind)
    ensures
        r == (if wayland_socket_exists {
            SessionKind::Wayland
        } else if x11_socket_exists {
            SessionKind::X11
        } else {
            SessionKind::Unknown
        }),
{
    if wayland_socket_exists {
        SessionKind::Wayland
    } else if x11_socket_exists {
        SessionKind::X11
    } else {
        SessionKind::Unknown
    }
}

/// Whether a desktop must be started: only when nothing runs on the display.
pub fn needs_virtual_desktop(kind: SessionKind) -> (r: bool)
    ensures
        r == !(kind == SessionKind::X11 || kind == SessionKind::Wayland),
{
    match kind {
        SessionKind::X11 | SessionKind::Wayland => false,
        _ => true,
    }
}

/// The name of an X11-backend session.
pub fn astra_session_id(username: &str, display_id: u8) -> (r: String)
    ensures
        r@ == username@ + "-astra-"@ + decimal(display_id as nat),
{
    let n = decimal_string(display_id as u64);
    concat3(username, "-astra-", n.as_str())
}

/// The arguments of the `runuser` call that starts a virtual X server.
pub open spec fn xvfb_args_spec(username: Seq<char>, display_id: nat) -> Seq<Seq<char>> {
    seq![
        "-u"@, username, "--"@, "Xvfb"@, ":"@ + decimal(display_id), "-screen"@, "0"@, "1920x1080x24"@,
        "-nolisten"@, "tcp"@,
    ]
}

/// The arguments that start a virtual X server as `username` on `display_id`.
pub fn xvfb_args(username: &str, display_id: u8) -> (r: Vec<String>)
    ensures
        strings_view(r@) == xvfb_args_spec(username@, display_id as nat),
{
    let mut v: Vec<String> = Vec::new();
    push_str(&mut v, "-u");
    push_str(&mut v, username);
    push_str(&mut v, "--");
    push_str(&mut v, "Xvfb");
    let n = decimal_string(display_id as u64);
    let disp = concat(":", n.as_str());
    proof { lemma_strings_view_push(v@, disp); }
    v.push(disp);
    push_str(&mut v, "-screen");
    push_str(&mut v, "0");
    push_str(&mut v, "1920x1080x24");
    push_str(&mut v, "-nolisten");
    push_str(&mut v, "tcp");
    assert(strings_view(v@) =~= xvfb_args_spec(username@, display_id as nat));
    v
}

/// The desktop shells tried, in order, on a new virtual X server.
pub open spec fn virtual_shells_spec() -> Seq<Seq<char>> {
    seq![
        "fly-wm"@, "startplasma-x11"@, "plasma-session"@, "gnome-session"@, "xfce4-session"@,
        "mate-session"@, "cinnamon-session"@, "openbox"@,
    ]
}

/// The desktop shells to try on a new virtual X server.
pub fn virtual_desktop_shells() -> (r: Vec<String>)
    ensures
        strings_view(r@) == virtual_shells_spec(),
{
    let mut v: Vec<String> = Vec::new();
    push_str(&mut v, "fly-wm");
    push_str(&mut v, "startplasma-x11");
    push_str(&mut v, "plasma-session");
    push_str(&mut v, "gnome-session");
    push_str(&mut v, "xfce4-session");
    push_str(&mut v, "mate-session");
    push_str(&mut v, "cinnamon-session");
    push_str(&mut v, "openbox");
    assert(strings_view(v@) =~= virtual_shells_spec());
    v
}

/// The user id of `username`: from the first line of the password database
/// that names the user and whose id field is a number.
pub open spec fn uid_lookup(lines: Seq<Seq<char>>, username: Seq<char>) -> Option<nat>
    decreases lines.len(),
{
    if lines.len() == 0 {
        None
    } else {
        let f = split_spec(lines[0], ':');
        if f.len() >= 3 && f[0] == username && parse_unsigned_spec(f[2], u32::MAX as nat) is Some {
            parse_unsigned_spec(f[2], u32::MAX as nat)
        } else {
            uid_lookup(lines.drop_first(), username)
        }
    }
}

/// The home directory of `username`: the sixth field of the first line of the
/// password database that names the user and has at least six fields.
pub open spec fn home_lookup(lines: Seq<Seq<char>>, username: Seq<char>) -> Option<Seq<char>>
    decreases lines.len(),
{
    if lines.len() == 0 {
        None
    } else {
        let f = split_spec(lines[0], ':');
        if f.len() >= 6 && f[0] == username {
            Some(f[5])
        } else {
            home_lookup(lines.drop_first(), username)
        }
    }
}

/// The user id of `username` in the password database text.
pub fn user_uid(passwd: &str, username: &str) -> (r: Option<u32>)
    ensures
        match r {
            Some(u) => uid_lookup(lines_spec(passwd@), username@) == Some(u as nat),
            None => uid_lookup(lines_spec(passwd@), username@) is None,
        },
{
    let text = chars_of(passwd);
    let name = chars_of(username);
    let lines = lines_chars(&text);
    let ghost ls = lines_spec(passwd@);
    assert(ls.subrange(0, ls.len() as int) =~= ls);
    let mut i: usize = 0;
    while i < lines.len()
        invariant
            views(lines@) == ls,
            ls == lines_spec(passwd@),
            name@ == username@,
            i <= lines@.len(),
            uid_lookup(ls, username@) == uid_lookup(ls.subrange(i as int, ls.len() as int), username@),
        decreases lines.len() - i,
    {
        let fields = split_chars(&lines[i], ':');
        assert(ls[i as int] == lines@[i as int]@);
        let found = if fields.len() >= 3 && chars_eq(&fields[0], &name) {
            parse_unsigned(&fields[2], 0xffff_ffff)
        } else {
            None
        };
        proof {
            let rest = ls.subrange(i as int, ls.len() as int);
            assert(rest[0] == ls[i as int]);
            assert(rest.drop_first() =~= ls.subrange(i + 1, ls.len() as int));
            if fields@.len() >= 3 {
                assert(views(fields@)[0] == fields@[0]@);
                assert(views(fields@)[2] == fields@[2]@);
            }
        }
        if let Some(v) = found {
            return Some(v as u32);
        }
        i = i + 1;
    }
    None
}

/// The home directory of `username` in the password database text.
pub fn user_home(passwd: &str, username: &str) -> (r: Option<String>)
    ensures
        match r {
            Some(h) => home_lookup(lines_spec(passwd@), username@) == Some(h@),
            None => home_lookup(lines_spec(passwd@), username@) is None,
        },
{
    let text = chars_of(passwd);
    let name = chars_of(username);
    let lines = lines_chars(&text);
    let ghost ls = lines_spec(passwd@);
    assert(ls.subrange(0, ls.len() as int) =~= ls);
    let mut i: usize = 0;
    while i < lines.len()
        invariant
            views(lines@) == ls,
            ls == lines_spec(passwd@),
            name@ == username@,
            i <= lines@.len(),
            home_lookup(ls, username@) == home_lookup(ls.subrange(i as int, ls.len() as int), username@),
        decreases lines.len() - i,
    {
        let fields = split_chars(&lines[i], ':');
        assert(ls[i as int] == lines@[i as int]@);
        let matched = fields.len() >= 6 && chars_eq(&fields[0], &name);
        proof {
            let rest = ls.subrange(i as int, ls.len() as int);
            assert(rest[0] == ls[i as int]);
            assert(rest.drop_first() =~= ls.subrange(i + 1, ls.len() as int));
            if fields@.len() >= 6 {
                assert(views(fields@)[0] == fields@[0]@);
                assert(views(fields@)[5] == fields@[5]@);
            }
        }
        if matched {
            return Some(string_from_chars(fields[5].as_slice()));
        }
        i = i + 1;
    }
    None
}

/// The environment a desktop program of `username` runs with on an X11
/// display: the user's home and runtime directory, and no Wayland or X
/// authority settings inherited from the agent.
pub open spec fn desktop_env_spec(username: Seq<char>, home: Seq<char>, uid: nat, display_id: nat)
    -> Seq<(Seq<char>, Option<Seq<char>>)>
{
    let xdg = "/run/user/"@ + decimal(uid);
    seq![
        ("HOME"@, Some(home)),
        ("USER"@, Some(username)),
        ("LOGNAME"@, Some(username)),
        ("XDG_RUNTIME_DIR"@, Some(xdg)),
        ("DBUS_SESSION_BUS_ADDRESS"@, Some("unix:path="@ + xdg + "/bus"@)),
        ("DISPLAY"@, Some(":"@ + decimal(display_id))),
        ("WAYLAND_DISPLAY"@, None),
        ("XDG_SESSION_TYPE"@, Some("x11"@)),
        ("GDK_BACKEND"@, None),
        ("QT_QPA_PLATFORM"@, None),
        ("XAUTHORITY"@, None),
    ]
}

/// How to start the desktop program `shell` as `username` on display
/// `display_id`; an unknown user id counts as 1000 and an unknown home as
/// `/home/<username>`.
pub fn desktop_shell_command(username: &str, uid: Option<u32>, home: Option<&str>, display_id: u8, shell: &str)
    -> (r: CommandPlan)
    ensures
        r.program@ == "runuser"@,
        strings_view(r.args@) == seq!["-u"@, username@, "--"@, shell@],
        env_view(r.env@) == desktop_env_spec(
            username@,
            match home { Some(h) => h@, None => "/home/"@ + username@ },
            match uid { Some(u) => u as nat, None => 1000nat },
            display_id as nat,
        ),
{
    let u: u32 = match uid { Some(u) => u, None => 1000 };
    let h: String = match home { Some(h) => string_from_str(h), None => concat("/home/", username) };
    let mut args: Vec<String> = Vec::new();
    push_str(&mut args, "-u");
    push_str(&mut args, username);
    push_str(&mut args, "--");
    push_str(&mut args, shell);
    assert(strings_view(args@) =~= seq!["-u"@, username@, "--"@, shell@]);
    let n = decimal_string(u as u64);
    let xdg = concat("/run/user/", n.as_str());
    let mut env: Vec<EnvChange> = Vec::new();
    push_set(&mut env, "HOME", h.as_str());
    push_set(&mut env, "USER", username);
    push_set(&mut env, "LOGNAME", username);
    push_set(&mut env, "XDG_RUNTIME_DIR", xdg.as_str());
    let bus = concat3("unix:path=", xdg.as_str(), "/bus");
    push_set(&mut env, "DBUS_SESSION_BUS_ADDRESS", bus.as_str());
    let dn = decimal_string(display_id as u64);
    let disp = concat(":", dn.as_str());
    push_set(&mut env, "DISPLAY", disp.as_str());
    push_unset(&mut env, "WAYLAND_DISPLAY");
    push_set(&mut env, "XDG_SESSION_TYPE", "x11");
    push_unset(&mut env, "GDK_BACKEND");
    push_unset(&mut env, "QT_QPA_PLATFORM");
    push_unset(&mut env, "XAUTHORITY");
    assert(env_view(env@) =~= desktop_env_spec(
        username@,
        match home { Some(h) => h@, None => "/home/"@ + username@ },
        match uid { Some(u) => u as nat, None => 1000nat },
        display_id as nat,
    ));
    CommandPlan { program: string_from_str("runuser"), args, env }
}

} // verus!
