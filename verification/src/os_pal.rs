//! Graphical sessions of the host: how they are recognised and which one a
//! connection attaches to.
//!
//! Scanning the file system is left to the caller; the functions here take
//! what was found (socket names, owners, the contents of the password
//! database, which candidate files exist) and make the decisions.
use vstd::prelude::*;
use crate::config::{ConnectionMode, DesktopSessionType};
use crate::shared_types::SessionKind;
use crate::text::{
    chars_of, str_eq, string_from_str, string_from_chars, decimal, decimal_string, strings_view,
    push_str, concat, concat3, lemma_strings_view_push,
};
use crate::parse::{
    lines_spec, lines_chars, split_spec, split_chars, parse_unsigned_spec, parse_unsigned, views,
    starts_with_spec, starts_with_chars, suffix_from,
};

verus! {

/// A graphical login session of the host.
#[derive(Debug)]
pub struct GraphicalSession {
    pub username: String,
    pub uid: u32,
    pub home: String,
    pub display_id: u8,
    pub display: String,
    pub xauthority: Option<String>,
    pub wayland_display: Option<String>,
    pub session_kind: SessionKind,
    pub active_console: bool,
}

/// The contents of a `GraphicalSession`.
pub struct GraphicalSessionView {
    pub username: Seq<char>,
    pub uid: u32,
    pub home: Seq<char>,
    pub display_id: u8,
    pub display: Seq<char>,
    pub xauthority: Option<Seq<char>>,
    pub wayland_display: Option<Seq<char>>,
    pub session_kind: SessionKind,
    pub active_console: bool,
}

/// The characters of an optional string slice.
pub open spec fn opt_str(o: Option<&str>) -> Option<Seq<char>> {
    match o {
        Some(s) => Some(s@),
        None => None,
    }
}

/// The characters of an optional string.
pub open spec fn opt_view(o: Option<String>) -> Option<Seq<char>> {
    match o {
        Some(s) => Some(s@),
        None => None,
    }
}

fn clone_opt(o: &Option<String>) -> (r: Option<String>)
    ensures
        opt_view(r) == opt_view(*o),
{
    match o {
        Some(s) => Some(s.clone()),
        None => None,
    }
}

impl View for GraphicalSession {
    type V = GraphicalSessionView;

    open spec fn view(&self) -> GraphicalSessionView {
        GraphicalSessionView {
            username: self.username@,
            uid: self.uid,
            home: self.home@,
            display_id: self.display_id,
            display: self.display@,
            xauthority: opt_view(self.xauthority),
            wayland_display: opt_view(self.wayland_display),
            session_kind: self.session_kind,
            active_console: self.active_console,
        }
    }
}

impl Clone for GraphicalSession {
    fn clone(&self) -> (r: Self)
        ensures
            r@ == self@,
    {
        GraphicalSession {
            username: self.username.clone(),
            uid: self.uid,
            home: self.home.clone(),
            display_id: self.display_id,
            display: self.display.clone(),
            xauthority: clone_opt(&self.xauthority),
            wayland_display: clone_opt(&self.wayland_display),
            session_kind: self.session_kind,
            active_console: self.active_console,
        }
    }
}

impl GraphicalSession {
    /// Whether the session runs a Wayland compositor.
    pub fn is_wayland(&self) -> (r: bool)
        ensures
            r == (self.session_kind == SessionKind::Wayland),
    {
        match self.session_kind {
            SessionKind::Wayland => true,
            _ => false,
        }
    }

    /// Whether the session is driven through X11 (a display or a virtual one).
    pub fn is_x11(&self) -> (r: bool)
        ensures
            r == (self.session_kind == SessionKind::X11 || self.session_kind == SessionKind::Virtual),
    {
        match self.session_kind {
            SessionKind::X11 | SessionKind::Virtual => true,
            _ => false,
        }
    }
}

/// The desktop shells tried, in order, when a desktop has to be started.
pub open spec fn desktop_shells() -> Seq<Seq<char>> {
    seq![
        "fly-wm"@,
        "startplasma-x11"@,
        "gnome-session"@,
        "xfce4-session"@,
        "mate-session"@,
        "cinnamon-session"@,
        "/etc/X11/Xsession"@,
        "~/.xinitrc"@,
        "openbox"@,
    ]
}

/// What is launched for a connection: a terminal in application mode,
/// nothing when attaching, the desktop shells otherwise.
pub open spec fn launch_candidates_spec(mode: ConnectionMode, session_type: DesktopSessionType) -> Seq<Seq<char>> {
    if mode == ConnectionMode::App {
        seq!["xterm"@]
    } else if session_type == DesktopSessionType::Attach {
        Seq::empty()
    } else {
        desktop_shells()
    }
}

/// The programs to try, in order, to give a connection its desktop.
pub fn desktop_launch_candidates(mode: &ConnectionMode, session_type: &DesktopSessionType) -> (r: Vec<String>)
    ensures
        strings_view(r@) == launch_candidates_spec(*mode, *session_type),
{
    let mut v: Vec<String> = Vec::new();
    if let ConnectionMode::App = mode {
        push_str(&mut v, "xterm");
        assert(strings_view(v@) =~= seq!["xterm"@]);
        return v;
    }
    match session_type {
        DesktopSessionType::Attach => {
            assert(strings_view(v@) =~= Seq::<Seq<char>>::empty());
            v
        },
        DesktopSessionType::Virtual | DesktopSessionType::Auto => {
            push_str(&mut v, "fly-wm");
            push_str(&mut v, "startplasma-x11");
            push_str(&mut v, "gnome-session");
            push_str(&mut v, "xfce4-session");
            push_str(&mut v, "mate-session");
            push_str(&mut v, "cinnamon-session");
            push_str(&mut v, "/etc/X11/Xsession");
            push_str(&mut v, "~/.xinitrc");
            push_str(&mut v, "openbox");
            assert(strings_view(v@) =~= desktop_shells());
            v
        },
    }
}

/// Whether a connection attaches to the session already on the screen:
/// always in desktop mode set to attach, in desktop mode set to auto when a
/// graphical session was detected, never otherwise.
pub fn should_attach_to_existing_session(
    mode: &ConnectionMode,
    session_type: &DesktopSessionType,
    session_detected: bool,
) -> (r: bool)
    ensures
        r == (*mode == ConnectionMode::Desktop && (*session_type == DesktopSessionType::Attach
            || (*session_type == DesktopSessionType::Auto && session_detected))),
{
    match (mode, session_type) {
        (ConnectionMode::Desktop, DesktopSessionType::Attach) => true,
        (ConnectionMode::Desktop, DesktopSessionType::Auto) => session_detected,
        _ => false,
    }
}

/// The session a connection is given: the first of `username`'s sessions
/// when one is named and has one, else the first session.
pub open spec fn preferred_session(sessions: Seq<GraphicalSessionView>, username: Option<Seq<char>>) -> Option<GraphicalSessionView> {
    match username {
        Some(name) => match first_session_of(sessions, name) {
            Some(i) => Some(sessions[i]),
            None => if sessions.len() > 0 { Some(sessions[0]) } else { None },
        },
        None => if sessions.len() > 0 { Some(sessions[0]) } else { None },
    }
}

/// The position of the first session of `name`.
pub open spec fn first_session_of(sessions: Seq<GraphicalSessionView>, name: Seq<char>) -> Option<int>
    decreases sessions.len(),
{
    if sessions.len() == 0 {
        None
    } else if sessions[0].username == name {
        Some(0)
    } else {
        match first_session_of(sessions.drop_first(), name) {
            Some(i) => Some(i + 1),
            None => None,
        }
    }
}

/// The contents of a sequence of sessions.
pub open spec fn sessions_view(v: Seq<GraphicalSession>) -> Seq<GraphicalSessionView> {
    v.map_values(|s: GraphicalSession| s@)
}

proof fn lemma_first_session_found(s: Seq<GraphicalSessionView>, name: Seq<char>, k: int)
    requires
        0 <= k < s.len(),
        s[k].username == name,
        forall|j: int| 0 <= j < k ==> s[j].username != name,
    ensures
        first_session_of(s, name) == Some(k),
    decreases k,
{
    if k > 0 {
        lemma_first_session_found(s.drop_first(), name, k - 1);
    }
}

proof fn lemma_first_session_absent(s: Seq<GraphicalSessionView>, name: Seq<char>)
    requires
        forall|j: int| 0 <= j < s.len() ==> s[j].username != name,
    ensures
        first_session_of(s, name) == None::<int>,
    decreases s.len(),
{
    if s.len() > 0 {
        lemma_first_session_absent(s.drop_first(), name);
    }
}

/// Pick the session for `username`, or the first one.
pub fn detect_preferred_graphical_session(username: Option<&str>, sessions: Vec<GraphicalSession>) -> (r: Option<GraphicalSession>)
    ensures
        match r {
            Some(s) => preferred_session(sessions_view(sessions@), opt_str(username)) == Some(s@),
            None => preferred_session(sessions_view(sessions@), opt_str(username)) is None,
        },
{
    let ghost sv = sessions_view(sessions@);
    let mut list = sessions;
    if let Some(name) = username {
        let mut i: usize = 0;
        while i < list.len()
            invariant
                sv == sessions_view(list@),
                sv == sessions_view(sessions@),
                opt_str(username) == Some(name@),
                i <= list@.len(),
                forall|j: int| 0 <= j < i ==> sv[j].username != name@,
            decreases list.len() - i,
        {
            if str_eq(list[i].username.as_str(), name) {
                proof {
                    lemma_first_session_found(sv, name@, i as int);
                }
                assert(sv[i as int] == list@[i as int]@);
                let found = list.remove(i);
                return Some(found);
            }
            i = i + 1;
        }
        proof {
            lemma_first_session_absent(sv, name@);
        }
    }
    if list.len() > 0 {
        assert(sv[0] == list@[0]@);
        let first = list.remove(0);
        Some(first)
    } else {
        None
    }
}

/// The session a connection attaches to when none is asked for: the first one.
pub fn detect_graphical_session(sessions: Vec<GraphicalSession>) -> (r: Option<GraphicalSession>)
    ensures
        match r {
            Some(s) => sessions@.len() > 0 && s@ == sessions@[0]@,
            None => sessions@.len() == 0,
        },
{
    let mut sessions = sessions;
    if sessions.len() > 0 {
        Some(sessions.remove(0))
    } else {
        None
    }
}

/// Whether a line of the password database belongs to `uid`: it has at
/// least six `:`-separated fields and the third spells `uid`.
pub open spec fn passwd_line_matches(line: Seq<char>, uid: u32) -> bool {
    let f = split_spec(line, ':');
    f.len() >= 6 && parse_unsigned_spec(f[2], u32::MAX as nat) == Some(uid as nat)
}

/// Name and home directory from the first line of `lines` that belongs to `uid`.
pub open spec fn passwd_lookup(lines: Seq<Seq<char>>, uid: u32) -> Option<(Seq<char>, Seq<char>)>
    decreases lines.len(),
{
    if lines.len() == 0 {
        None
    } else if passwd_line_matches(lines[0], uid) {
        Some((split_spec(lines[0], ':')[0], split_spec(lines[0], ':')[5]))
    } else {
        passwd_lookup(lines.drop_first(), uid)
    }
}

/// Name and home directory of `uid` according to the password database text.
pub fn passwd_entry(passwd: &str, uid: u32) -> (r: Option<(String, String)>)
    ensures
        match r {
            Some((name, home)) => passwd_lookup(lines_spec(passwd@), uid) == Some((name@, home@)),
            None => passwd_lookup(lines_spec(passwd@), uid) is None,
        },
{
    let text = chars_of(passwd);
    let lines = lines_chars(&text);
    let ghost ls = lines_spec(passwd@);
    let mut i: usize = 0;
    assert(ls.subrange(0, ls.len() as int) =~= ls);
    while i < lines.len()
        invariant
            views(lines@) == ls,
            ls == lines_spec(passwd@),
            i <= lines@.len(),
            passwd_lookup(ls, uid) == passwd_lookup(ls.subrange(i as int, ls.len() as int), uid),
        decreases lines.len() - i,
    {
        let fields = split_chars(&lines[i], ':');
        assert(ls[i as int] == lines@[i as int]@);
        let matched = if fields.len() >= 6 {
            match parse_unsigned(&fields[2], 0xffff_ffff) {
                Some(v) => v == uid as u64,
                None => false,
            }
        } else {
            false
        };
        proof {
            let rest = ls.subrange(i as int, ls.len() as int);
            assert(rest[0] == ls[i as int]);
            assert(rest.drop_first() =~= ls.subrange(i + 1, ls.len() as int));
            if fields@.len() >= 6 {
                assert(views(fields@)[2] == fields@[2]@);
            }
        }
        if matched {
            proof {
                assert(views(fields@)[0] == fields@[0]@);
                assert(views(fields@)[5] == fields@[5]@);
            }
            let name = string_from_chars(fields[0].as_slice());
            let home = string_from_chars(fields[5].as_slice());
            return Some((name, home));
        }
        i = i + 1;
    }
    None
}

/// The user id a directory of the runtime root is named after.
pub fn user_id_from_name(name: &str) -> (r: Option<u32>)
    ensures
        match r {
            Some(u) => parse_unsigned_spec(name@, u32::MAX as nat) == Some(u as nat),
            None => parse_unsigned_spec(name@, u32::MAX as nat) is None,
        },
{
    match parse_unsigned(&chars_of(name), 0xffff_ffff) {
        Some(u) => Some(u as u32),
        None => None,
    }
}

/// The display number of an X11 socket named `X<n>` in the socket directory.
pub open spec fn x11_display_number_spec(name: Seq<char>) -> Option<nat> {
    if name.len() > 0 && name[0] == 'X' { parse_unsigned_spec(name.drop_first(), 255) } else { None }
}

/// The display number of an X11 socket name, when it is one.
pub fn x11_display_number(name: &str) -> (r: Option<u8>)
    ensures
        match r {
            Some(d) => x11_display_number_spec(name@) == Some(d as nat),
            None => x11_display_number_spec(name@) is None,
        },
{
    let v = chars_of(name);
    if v.len() == 0 || v[0] != 'X' {
        return None;
    }
    let rest = suffix_from(&v, 1);
    assert(rest@ =~= v@.drop_first());
    match parse_unsigned(&rest, 255) {
        Some(d) => Some(d as u8),
        None => None,
    }
}

/// The display number of a Wayland socket named `wayland-<n>`.
pub open spec fn wayland_display_number_spec(name: Seq<char>) -> Option<nat> {
    if starts_with_spec(name, "wayland-"@) {
        parse_unsigned_spec(name.subrange(8, name.len() as int), 255)
    } else {
        None
    }
}

/// The display number of a Wayland socket name, when it is one.
pub fn wayland_display_number(name: &str) -> (r: Option<u8>)
    ensures
        match r {
            Some(d) => wayland_display_number_spec(name@) == Some(d as nat),
            None => wayland_display_number_spec(name@) is None,
        },
{
    let v = chars_of(name);
    let prefix = chars_of("wayland-");
    proof {
        reveal_strlit("wayland-");
    }
    if !starts_with_chars(&v, &prefix) {
        return None;
    }
    let rest = suffix_from(&v, 8);
    match parse_unsigned(&rest, 255) {
        Some(d) => Some(d as u8),
        None => None,
    }
}

/// The socket names tried, in order, for the Wayland display of `display_id`.
pub open spec fn wayland_candidates_spec(display_id: nat) -> Seq<Seq<char>> {
    seq!["wayland-"@ + decimal(display_id), "wayland-0"@, "wayland-1"@]
}

/// The Wayland socket names to look for in a runtime directory.
pub fn wayland_display_candidates(display_id: u32) -> (r: Vec<String>)
    ensures
        strings_view(r@) == wayland_candidates_spec(display_id as nat),
{
    let mut v: Vec<String> = Vec::new();
    let n = decimal_string(display_id as u64);
    let first = concat("wayland-", n.as_str());
    proof {
        lemma_strings_view_push(v@, first);
    }
    v.push(first);
    push_str(&mut v, "wayland-0");
    push_str(&mut v, "wayland-1");
    assert(strings_view(v@) =~= wayland_candidates_spec(display_id as nat));
    v
}

/// The files tried, in order, as the X authority of a session.
pub open spec fn xauthority_candidates_spec(home: Seq<char>, runtime: Seq<char>, username: Seq<char>) -> Seq<Seq<char>> {
    seq![
        home + "/.Xauthority"@,
        runtime + "/Xauthority"@,
        runtime + "/gdm/Xauthority"@,
        "/var/run/lightdm/"@ + username + "/xauthority"@,
    ]
}

/// The X authority files to look for, in order.
pub fn xauthority_candidates(home: &str, runtime: &str, username: &str) -> (r: Vec<String>)
    ensures
        strings_view(r@) == xauthority_candidates_spec(home@, runtime@, username@),
{
    let mut v: Vec<String> = Vec::new();
    let a = concat(home, "/.Xauthority");
    proof { lemma_strings_view_push(v@, a); }
    v.push(a);
    let b = concat(runtime, "/Xauthority");
    proof { lemma_strings_view_push(v@, b); }
    v.push(b);
    let c = concat(runtime, "/gdm/Xauthority");
    proof { lemma_strings_view_push(v@, c); }
    v.push(c);
    let d = concat3("/var/run/lightdm/", username, "/xauthority");
    proof { lemma_strings_view_push(v@, d); }
    v.push(d);
    assert(strings_view(v@) =~= xauthority_candidates_spec(home@, runtime@, username@));
    v
}

/// The runtime directory of `uid`.
pub fn runtime_dir(uid: u32) -> (r: String)
    ensures
        r@ == "/run/user/"@ + decimal(uid as nat),
{
    let n = decimal_string(uid as u64);
    concat("/run/user/", n.as_str())
}

/// An X11 socket found in the socket directory, with what was learned of it.
pub struct X11SocketProbe {
    /// The socket's file name.
    pub name: String,
    /// The owner of the socket (0 when it could not be read).
    pub uid: u32,
    /// Name and home of the owner from the password database.
    pub account: Option<(String, String)>,
    pub xauthority: Option<String>,
    pub wayland_display: Option<String>,
}

/// A directory found under the per-user runtime root, with what was learned of it.
pub struct RuntimeDirProbe {
    /// The directory's name.
    pub name: String,
    pub is_dir: bool,
    /// Name and home of the user from the password database.
    pub account: Option<(String, String)>,
    /// The first Wayland socket found there.
    pub wayland_display: Option<String>,
    pub xauthority: Option<String>,
}

/// The session an X11 socket stands for, when its name is one.
pub open spec fn x11_session_spec(p: X11SocketProbe) -> Option<GraphicalSessionView> {
    match x11_display_number_spec(p.name@) {
        Some(d) => {
            let (username, home) = match p.account {
                Some((n, h)) => (n@, h@),
                None => ("user_"@ + decimal(p.uid as nat), "/home/user_"@ + decimal(p.uid as nat)),
            };
            Some(GraphicalSessionView {
                username,
                uid: p.uid,
                home,
                display_id: d as u8,
                display: ":"@ + decimal(d),
                xauthority: opt_view(p.xauthority),
                wayland_display: opt_view(p.wayland_display),
                session_kind: SessionKind::X11,
                active_console: p.uid == 0,
            })
        },
        None => None,
    }
}

/// The Wayland session of a runtime directory, when it holds one of a known user.
pub open spec fn wayland_session_spec(p: RuntimeDirProbe) -> Option<GraphicalSessionView> {
    if !p.is_dir {
        None
    } else {
        match parse_unsigned_spec(p.name@, u32::MAX as nat) {
            None => None,
            Some(uid) => match p.account {
                None => None,
                Some((n, h)) => match p.wayland_display {
                    None => None,
                    Some(w) => match wayland_display_number_spec(w@) {
                        None => None,
                        Some(d) => Some(GraphicalSessionView {
                            username: n@,
                            uid: uid as u32,
                            home: h@,
                            display_id: d as u8,
                            display: ":"@ + decimal(d),
                            xauthority: opt_view(p.xauthority),
                            wayland_display: Some("wayland-"@ + decimal(d)),
                            session_kind: SessionKind::Wayland,
                            active_console: uid == 0,
                        }),
                    },
                },
            },
        }
    }
}

/// The sessions that the probes stand for, X11 sockets first, each list in order.
pub open spec fn sessions_from_probes(x11: Seq<X11SocketProbe>, runtime: Seq<RuntimeDirProbe>) -> Seq<GraphicalSessionView> {
    x11.map_values(|p: X11SocketProbe| x11_session_spec(p)).filter(|o: Option<GraphicalSessionView>| o is Some)
        .map_values(|o: Option<GraphicalSessionView>| o->0)
        + runtime.map_values(|p: RuntimeDirProbe| wayland_session_spec(p)).filter(|o: Option<GraphicalSessionView>| o is Some)
        .map_values(|o: Option<GraphicalSessionView>| o->0)
}

fn display_name(d: u8) -> (r: String)
    ensures
        r@ == ":"@ + decimal(d as nat),
{
    let n = decimal_string(d as u64);
    concat(":", n.as_str())
}

fn x11_session(p: &X11SocketProbe) -> (r: Option<GraphicalSession>)
    ensures
        match r {
            Some(s) => x11_session_spec(*p) == Some(s@),
            None => x11_session_spec(*p) is None,
        },
{
    let d = match x11_display_number(p.name.as_str()) {
        Some(d) => d,
        None => return None,
    };
    let (username, home) = match &p.account {
        Some((n, h)) => (n.clone(), h.clone()),
        None => {
            let n = decimal_string(p.uid as u64);
            (concat("user_", n.as_str()), concat("/home/user_", n.as_str()))
        },
    };
    Some(GraphicalSession {
        username,
        uid: p.uid,
        home,
        display_id: d,
        display: display_name(d),
        xauthority: clone_opt(&p.xauthority),
        wayland_display: clone_opt(&p.wayland_display),
        session_kind: SessionKind::X11,
        active_console: p.uid == 0,
    })
}

fn wayland_session(p: &RuntimeDirProbe) -> (r: Option<GraphicalSession>)
    ensures
        match r {
            Some(s) => wayland_session_spec(*p) == Some(s@),
            None => wayland_session_spec(*p) is None,
        },
{
    if !p.is_dir {
        return None;
    }
    let name = chars_of(p.name.as_str());
    let uid = match parse_unsigned(&name, 0xffff_ffff) {
        Some(u) => u as u32,
        None => return None,
    };
    let (username, home) = match &p.account {
        Some((n, h)) => (n.clone(), h.clone()),
        None => return None,
    };
    let d = match &p.wayland_display {
        Some(w) => match wayland_display_number(w.as_str()) {
            Some(d) => d,
            None => return None,
        },
        None => return None,
    };
    let n = decimal_string(d as u64);
    Some(GraphicalSession {
        username,
        uid,
        home,
        display_id: d,
        display: display_name(d),
        xauthority: clone_opt(&p.xauthority),
        wayland_display: Some(concat("wayland-", n.as_str())),
        session_kind: SessionKind::Wayland,
        active_console: uid == 0,
    })
}

/// The sessions found by a scan: one X11 session per socket named `X<n>`,
/// then one Wayland session per numeric runtime directory of a known user
/// that holds a `wayland-<n>` socket.
pub fn list_graphical_sessions(x11: &Vec<X11SocketProbe>, runtime: &Vec<RuntimeDirProbe>) -> (r: Vec<GraphicalSession>)
    ensures
        sessions_view(r@) == sessions_from_probes(x11@, runtime@),
{
    let mut out: Vec<GraphicalSession> = Vec::new();
    let ghost fx = x11@.map_values(|p: X11SocketProbe| x11_session_spec(p));
    let ghost fw = runtime@.map_values(|p: RuntimeDirProbe| wayland_session_spec(p));
    let mut i: usize = 0;
    while i < x11.len()
        invariant
            i <= x11@.len(),
            fx == x11@.map_values(|p: X11SocketProbe| x11_session_spec(p)),
            sessions_view(out@) == fx.subrange(0, i as int).filter(|o: Option<GraphicalSessionView>| o is Some)
                .map_values(|o: Option<GraphicalSessionView>| o->0),
        decreases x11.len() - i,
    {
        let s = x11_session(&x11[i]);
        proof {
            let pre = fx.subrange(0, i as int);
            assert(fx.subrange(0, i + 1) =~= pre.push(fx[i as int]));
            pre.lemma_filter_push(fx[i as int], |o: Option<GraphicalSessionView>| o is Some);
        }
        match s {
            Some(g) => {
                proof {
                    assert(sessions_view(out@.push(g)) =~= sessions_view(out@).push(g@));
                }
                out.push(g);
            },
            None => {},
        }
        i = i + 1;
        proof {
            let f = fx.subrange(0, i as int).filter(|o: Option<GraphicalSessionView>| o is Some);
            assert(sessions_view(out@) =~= f.map_values(|o: Option<GraphicalSessionView>| o->0));
        }
    }
    assert(fx.subrange(0, x11@.len() as int) =~= fx);
    let ghost xpart = sessions_view(out@);
    let mut k: usize = 0;
    while k < runtime.len()
        invariant
            k <= runtime@.len(),
            fw == runtime@.map_values(|p: RuntimeDirProbe| wayland_session_spec(p)),
            sessions_view(out@) == xpart + fw.subrange(0, k as int).filter(|o: Option<GraphicalSessionView>| o is Some)
                .map_values(|o: Option<GraphicalSessionView>| o->0),
        decreases runtime.len() - k,
    {
        let s = wayland_session(&runtime[k]);
        proof {
            let pre = fw.subrange(0, k as int);
            assert(fw.subrange(0, k + 1) =~= pre.push(fw[k as int]));
            pre.lemma_filter_push(fw[k as int], |o: Option<GraphicalSessionView>| o is Some);
        }
        match s {
            Some(g) => {
                proof {
                    assert(sessions_view(out@.push(g)) =~= sessions_view(out@).push(g@));
                }
                out.push(g);
            },
            None => {},
        }
        k = k + 1;
        proof {
            let f = fw.subrange(0, k as int).filter(|o: Option<GraphicalSessionView>| o is Some);
            assert(sessions_view(out@) =~= xpart + f.map_values(|o: Option<GraphicalSessionView>| o->0));
        }
    }
    assert(fw.subrange(0, runtime@.len() as int) =~= fw);
    out
}

} // verus!
