//! The agent's platform layer: where things live, who owns a display, how
//! a program is started in a user's session, and what the host's system
//! files say.
use vstd::prelude::*;
use crate::text::{
    chars_of, chars_eq, str_eq, string_from_str, string_from_chars, concat, concat3, decimal, decimal_string,
    strings_view, push_str, lemma_strings_view_push, ends_with_spec, ends_with_chars,
};
use crate::parse::{
    lines_spec, lines_chars, split_spec, split_chars, parse_unsigned_spec, parse_unsigned, views,
    trim_spec, trim_chars, split_ws_spec, split_whitespace_chars, starts_with_spec, starts_with_chars,
};

verus! {

/// The operating system the agent runs on.
#[derive(Debug, Clone, Copy, PartialEq, Eq, Structural)]
pub enum Platform {
    Linux,
    Windows,
    Other,
}

/// Where the local control channel listens.
#[derive(Debug, Clone, PartialEq, Eq)]
pub enum ControlEndpoint {
    /// A Unix domain socket at this path.
    UnixSocket(String),
    /// A localhost TCP socket at this `host:port`.
    LocalTcp(String),
}

/// The control endpoint of a platform: a Unix socket on Linux, localhost
/// port 2223 elsewhere.
pub fn control_endpoint(platform: Platform) -> (r: ControlEndpoint)
    ensures
        platform == Platform::Linux ==> (r matches ControlEndpoint::UnixSocket(p) && p@ == "/var/lib/ttgtiso-desk/agent.sock"@),
        platform != Platform::Linux ==> (r matches ControlEndpoint::LocalTcp(a) && a@ == "127.0.0.1:2223"@),
{
    match platform {
        Platform::Linux => ControlEndpoint::UnixSocket(string_from_str("/var/lib/ttgtiso-desk/agent.sock")),
        _ => ControlEndpoint::LocalTcp(string_from_str("127.0.0.1:2223")),
    }
}

/// The base directory for program data on Windows.
pub open spec fn program_data_base(program_data: Option<Seq<char>>) -> Seq<char> {
    match program_data {
        Some(p) => p,
        None => "C:\\ProgramData"@,
    }
}

fn base_dir(program_data: Option<&str>) -> (r: String)
    ensures
        r@ == program_data_base(match program_data { Some(p) => Some(p@), None => None }),
{
    match program_data {
        Some(p) => string_from_str(p),
        None => string_from_str("C:\\ProgramData"),
    }
}

/// The configuration file of the agent on a platform, given `ProgramData`.
pub fn default_config_path(platform: Platform, program_data: Option<&str>) -> (r: String)
    ensures
        r@ == match platform {
            Platform::Linux => "/etc/ttgtiso-desk/agent.toml"@,
            Platform::Windows => program_data_base(match program_data { Some(p) => Some(p@), None => None })
                + "\\TTGTiSO-Desk\\agent.toml"@,
            Platform::Other => "agent.toml"@,
        },
{
    match platform {
        Platform::Linux => string_from_str("/etc/ttgtiso-desk/agent.toml"),
        Platform::Windows => {
            let b = base_dir(program_data);
            concat(b.as_str(), "\\TTGTiSO-Desk\\agent.toml")
        },
        Platform::Other => string_from_str("agent.toml"),
    }
}

/// The audit log file of the agent on a platform, given `ProgramData`.
pub fn default_audit_log_path(platform: Platform, program_data: Option<&str>) -> (r: String)
    ensures
        r@ == match platform {
            Platform::Linux => "/var/log/ttgtiso-desk/audit.log"@,
            Platform::Windows => program_data_base(match program_data { Some(p) => Some(p@), None => None })
                + "\\TTGTiSO-Desk\\logs\\audit.log"@,
            Platform::Other => "audit.log"@,
        },
{
    match platform {
        Platform::Linux => string_from_str("/var/log/ttgtiso-desk/audit.log"),
        Platform::Windows => {
            let b = base_dir(program_data);
            concat(b.as_str(), "\\TTGTiSO-Desk\\logs\\audit.log")
        },
        Platform::Other => string_from_str("audit.log"),
    }
}

/// The host name announced by the agent: the trimmed host-name file on
/// Linux, the computer name on Windows, `localhost` when neither is known.
pub fn agent_hostname(platform: Platform, source: Option<&str>) -> (r: String)
    ensures
        r@ == match platform {
            Platform::Linux => trim_spec(match source { Some(s) => s@, None => "localhost"@ }),
            Platform::Windows => match source { Some(s) => s@, None => "localhost"@ },
            Platform::Other => "localhost"@,
        },
{
    match platform {
        Platform::Linux => {
            let c = match source {
                Some(s) => chars_of(s),
                None => chars_of("localhost"),
            };
            let t = trim_chars(&c);
            string_from_chars(t.as_slice())
        },
        Platform::Windows => match source {
            Some(s) => string_from_str(s),
            None => string_from_str("localhost"),
        },
        Platform::Other => string_from_str("localhost"),
    }
}

/// Who owns a graphical display, and the environment of their session.
#[derive(Debug, Clone)]
pub struct DisplayOwner {
    pub username: String,
    pub uid: u32,
    pub home: String,
    pub xdg_runtime: String,
    pub wayland_socket: Option<String>,
}

/// The owner of a display whose X socket belongs to `uid`; the superuser
/// stands in when the password database does not know the user.
pub fn owner_of_x11_socket(uid: u32, account: Option<(String, String)>, wayland_socket: Option<String>) -> (r: DisplayOwner)
    ensures
        r.uid == uid,
        r.xdg_runtime@ == "/run/user/"@ + decimal(uid as nat),
        r.wayland_socket == wayland_socket,
        match account {
            Some((n, h)) => r.username == n && r.home == h,
            None => r.username@ == "root"@ && r.home@ == "/root"@,
        },
{
    let (username, home) = match account {
        Some((n, h)) => (n, h),
        None => (string_from_str("root"), string_from_str("/root")),
    };
    let d = decimal_string(uid as u64);
    DisplayOwner { username, uid, home, xdg_runtime: concat("/run/user/", d.as_str()), wayland_socket }
}

/// The owner of a display found through the Wayland socket `socket` in the
/// runtime directory `path` of `uid`; a placeholder user stands in when the
/// password database does not know the user.
pub fn owner_of_runtime_dir(uid: u32, path: &str, account: Option<(String, String)>, socket: String) -> (r: DisplayOwner)
    ensures
        r.uid == uid,
        r.xdg_runtime@ == path@,
        r.wayland_socket == Some(socket),
        match account {
            Some((n, h)) => r.username == n && r.home == h,
            None => r.username@ == "user_"@ + decimal(uid as nat) && r.home@ == "/home/user_"@ + decimal(uid as nat),
        },
{
    let (username, home) = match account {
        Some((n, h)) => (n, h),
        None => {
            let d = decimal_string(uid as u64);
            (concat("user_", d.as_str()), concat("/home/user_", d.as_str()))
        },
    };
    DisplayOwner { username, uid, home, xdg_runtime: string_from_str(path), wayland_socket: Some(socket) }
}

/// An environment change: set a variable, or remove it when `None`.
pub type EnvChange = (String, Option<String>);

/// The environment changes as plain values.
pub open spec fn env_view(v: Seq<EnvChange>) -> Seq<(Seq<char>, Option<Seq<char>>)> {
    v.map_values(|e: EnvChange| (e.0@, match e.1 { Some(x) => Some(x@), None => None }))
}

/// Append the setting of `key` to `value`.
pub fn push_set(v: &mut Vec<EnvChange>, key: &str, value: &str)
    ensures
        env_view(final(v)@) == env_view(old(v)@).push((key@, Some(value@))),
{
    let e: EnvChange = (string_from_str(key), Some(string_from_str(value)));
    let ghost before = v@;
    v.push(e);
    assert(env_view(v@) =~= env_view(before).push((key@, Some(value@))));
}

/// Append the removal of `key`.
pub fn push_unset(v: &mut Vec<EnvChange>, key: &str)
    ensures
        env_view(final(v)@) == env_view(old(v)@).push((key@, None)),
{
    let e: EnvChange = (string_from_str(key), None);
    let ghost before = v@;
    v.push(e);
    assert(env_view(v@) =~= env_view(before).push((key@, None)));
}

/// A program to start: its arguments and the changes to its environment, in order.
#[derive(Debug, Clone)]
pub struct CommandPlan {
    pub program: String,
    pub args: Vec<String>,
    pub env: Vec<EnvChange>,
}

/// The arguments that run `exec_cmd` through the shell as `username`.
pub open spec fn launch_args_spec(username: Seq<char>, exec_cmd: Seq<char>) -> Seq<Seq<char>> {
    seq!["-u"@, username, "--"@, "sh"@, "-c"@, exec_cmd]
}

/// The environment of a program started in the session of `owner` on
/// display `d`: the user's identity, runtime directory and bus, the
/// display, and either the Wayland socket or X11 with its authority file.
pub open spec fn launch_env_spec(owner: DisplayOwner, d: nat, xauth: Option<Seq<char>>) -> Seq<(Seq<char>, Option<Seq<char>>)> {
    let common = seq![
        ("HOME"@, Some(owner.home@)),
        ("USER"@, Some(owner.username@)),
        ("LOGNAME"@, Some(owner.username@)),
        ("XDG_RUNTIME_DIR"@, Some(owner.xdg_runtime@)),
        ("DBUS_SESSION_BUS_ADDRESS"@, Some("unix:path="@ + owner.xdg_runtime@ + "/bus"@)),
        ("DISPLAY"@, Some(":"@ + decimal(d))),
    ];
    match owner.wayland_socket {
        Some(w) => common + seq![("WAYLAND_DISPLAY"@, Some(w@)), ("XDG_SESSION_TYPE"@, Some("wayland"@))],
        None => {
            let x11 = common + seq![
                ("WAYLAND_DISPLAY"@, None),
                ("XDG_SESSION_TYPE"@, Some("x11"@)),
                ("GDK_BACKEND"@, None),
                ("QT_QPA_PLATFORM"@, None),
            ];
            match xauth {
                Some(x) => x11.push(("XAUTHORITY"@, Some(x))),
                None => x11,
            }
        },
    }
}

/// How to run `exec_cmd` in the session of `owner` on display `d`; `xauth`
/// is the X authority file found for an X11 session.
pub fn user_launch_command(owner: &DisplayOwner, d: u32, exec_cmd: &str, xauth: Option<&str>) -> (r: CommandPlan)
    ensures
        r.program@ == "runuser"@,
        strings_view(r.args@) == launch_args_spec(owner.username@, exec_cmd@),
        env_view(r.env@) == launch_env_spec(*owner, d as nat, match xauth { Some(x) => Some(x@), None => None }),
{
    let mut args: Vec<String> = Vec::new();
    push_str(&mut args, "-u");
    push_str(&mut args, owner.username.as_str());
    push_str(&mut args, "--");
    push_str(&mut args, "sh");
    push_str(&mut args, "-c");
    push_str(&mut args, exec_cmd);
    assert(strings_view(args@) =~= launch_args_spec(owner.username@, exec_cmd@));
    let mut env: Vec<EnvChange> = Vec::new();
    push_set(&mut env, "HOME", owner.home.as_str());
    push_set(&mut env, "USER", owner.username.as_str());
    push_set(&mut env, "LOGNAME", owner.username.as_str());
    push_set(&mut env, "XDG_RUNTIME_DIR", owner.xdg_runtime.as_str());
    let bus = concat3("unix:path=", owner.xdg_runtime.as_str(), "/bus");
    push_set(&mut env, "DBUS_SESSION_BUS_ADDRESS", bus.as_str());
    let n = decimal_string(d as u64);
    let disp = concat(":", n.as_str());
    push_set(&mut env, "DISPLAY", disp.as_str());
    match &owner.wayland_socket {
        Some(w) => {
            push_set(&mut env, "WAYLAND_DISPLAY", w.as_str());
            push_set(&mut env, "XDG_SESSION_TYPE", "wayland");
        },
        None => {
            push_unset(&mut env, "WAYLAND_DISPLAY");
            push_set(&mut env, "XDG_SESSION_TYPE", "x11");
            push_unset(&mut env, "GDK_BACKEND");
            push_unset(&mut env, "QT_QPA_PLATFORM");
            if let Some(x) = xauth {
                push_set(&mut env, "XAUTHORITY", x);
            }
        },
    }
    assert(env_view(env@) =~= launch_env_spec(*owner, d as nat, match xauth { Some(x) => Some(x@), None => None }));
    CommandPlan { program: string_from_str("runuser"), args, env }
}

/// The answer when no session runs on display `d`.
pub fn display_not_found_message(d: u32) -> (r: String)
    ensures
        r@ == "Display :"@ + decimal(d as nat) + " not found. No X11 socket or Wayland session detected."@,
{
    let n = decimal_string(d as u64);
    concat3("Display :", n.as_str(), " not found. No X11 socket or Wayland session detected.")
}

/// The last line of a program's error output, or nothing.
pub open spec fn last_line(text: Seq<char>) -> Seq<char> {
    let ls = lines_spec(text);
    if ls.len() > 0 { ls.last() } else { Seq::empty() }
}

/// The last line of `text`.
pub fn last_line_of(text: &str) -> (r: String)
    ensures
        r@ == last_line(text@),
{
    let c = chars_of(text);
    let ls = lines_chars(&c);
    if ls.len() > 0 {
        assert(views(ls@).last() == ls@[ls@.len() - 1]@);
        string_from_chars(ls[ls.len() - 1].as_slice())
    } else {
        proof {
            reveal_strlit("");
        }
        string_from_str("")
    }
}

/// `": " + detail`, or nothing when `detail` is empty.
pub open spec fn detail_suffix(detail: Seq<char>) -> Seq<char> {
    if detail.len() == 0 { Seq::empty() } else { ": "@ + detail }
}

fn suffix_for(detail: &str) -> (r: String)
    ensures
        r@ == detail_suffix(detail@),
{
    if detail.is_empty() {
        proof {
            reveal_strlit("");
        }
        string_from_str("")
    } else {
        concat(": ", detail)
    }
}

/// The answer when a launched program exited at once: its status as text,
/// and the last line of its error output.
pub fn launch_exited_message(exec_cmd: &str, status: &str, stderr_text: &str) -> (r: String)
    ensures
        r@ == "Command '"@ + exec_cmd@ + "' exited immediately with "@ + status@ + detail_suffix(last_line(stderr_text@)),
{
    let detail = last_line_of(stderr_text);
    let sfx = suffix_for(detail.as_str());
    let mut r = concat3("Command '", exec_cmd, "' exited immediately with ");
    crate::text::append_str(&mut r, status);
    crate::text::append_str(&mut r, sfx.as_str());
    r
}

/// The answer when a program was launched.
pub fn launch_success_message(exec_cmd: &str, d: u32, username: &str) -> (r: String)
    ensures
        r@ == "Launched '"@ + exec_cmd@ + "' on display :"@ + decimal(d as nat) + " as "@ + username@,
{
    let n = decimal_string(d as u64);
    let mut r = concat3("Launched '", exec_cmd, "' on display :");
    crate::text::append_str(&mut r, n.as_str());
    crate::text::append_str(&mut r, " as ");
    crate::text::append_str(&mut r, username);
    r
}

/// Whether a password-database line is an interactive local account: seven
/// fields, a user id from 1000 to 59999, and a shell that is neither
/// `nologin` nor `false`.
pub open spec fn interactive_account(line: Seq<char>) -> bool {
    let f = split_spec(line, ':');
    &&& f.len() >= 7
    &&& parse_unsigned_spec(f[2], u32::MAX as nat) matches Some(uid) && 1000 <= uid < 60000
    &&& !ends_with_spec(f[6], "nologin"@)
    &&& !ends_with_spec(f[6], "false"@)
}

/// The names of the interactive accounts among `lines`, in order.
pub open spec fn interactive_users(lines: Seq<Seq<char>>) -> Seq<Seq<char>>
    decreases lines.len(),
{
    if lines.len() == 0 {
        Seq::empty()
    } else {
        let rest = interactive_users(lines.drop_last());
        if interactive_account(lines.last()) { rest.push(split_spec(lines.last(), ':')[0]) } else { rest }
    }
}

/// The interactive local accounts of the password database text.
pub fn list_users(passwd: &str) -> (r: Vec<String>)
    ensures
        strings_view(r@) == interactive_users(lines_spec(passwd@)),
{
    let c = chars_of(passwd);
    let lines = lines_chars(&c);
    let ghost ls = lines_spec(passwd@);
    let mut out: Vec<String> = Vec::new();
    let mut i: usize = 0;
    let nologin = chars_of("nologin");
    let falsy = chars_of("false");
    while i < lines.len()
        invariant
            views(lines@) == ls,
            i <= lines@.len(),
            nologin@ == "nologin"@,
            falsy@ == "false"@,
            strings_view(out@) == interactive_users(ls.subrange(0, i as int)),
        decreases lines.len() - i,
    {
        let f = split_chars(&lines[i], ':');
        assert(ls[i as int] == lines@[i as int]@);
        assert(ls.subrange(0, i + 1).drop_last() =~= ls.subrange(0, i as int));
        assert(ls.subrange(0, i + 1).last() == ls[i as int]);
        let keep = if f.len() >= 7 {
            assert(views(f@)[2] == f@[2]@);
            assert(views(f@)[6] == f@[6]@);
            match parse_unsigned(&f[2], 0xffff_ffff) {
                Some(uid) => 1000 <= uid && uid < 60000 && !ends_with_chars(&f[6], &nologin)
                    && !ends_with_chars(&f[6], &falsy),
                None => false,
            }
        } else {
            false
        };
        if keep {
            assert(views(f@)[0] == f@[0]@);
            let name = string_from_chars(f[0].as_slice());
            proof {
                lemma_strings_view_push(out@, name);
            }
            out.push(name);
        }
        i = i + 1;
    }
    assert(ls.subrange(0, ls.len() as int) =~= ls);
    out
}

/// The number in the second white-space separated word of a memory
/// information line, or 0.
pub open spec fn meminfo_value_spec(line: Seq<char>) -> u64 {
    let w = split_ws_spec(line);
    if w.len() >= 2 {
        match parse_unsigned_spec(w[1], u64::MAX as nat) {
            Some(v) => v as u64,
            None => 0,
        }
    } else {
        0
    }
}

/// The value of a memory information line such as `MemTotal: 16384 kB`.
pub fn parse_meminfo_value(line: &str) -> (r: u64)
    ensures
        r == meminfo_value_spec(line@),
{
    let c = chars_of(line);
    let w = split_whitespace_chars(&c);
    if w.len() >= 2 {
        assert(views(w@)[1] == w@[1]@);
        match parse_unsigned(&w[1], 0xffff_ffff_ffff_ffff) {
            Some(v) => v,
            None => 0,
        }
    } else {
        0
    }
}

/// Total and available memory from the memory information text: the value
/// of the last `MemTotal:` line and of the last `MemAvailable:` line, 0 when
/// there is none.
pub open spec fn memory_info_spec(lines: Seq<Seq<char>>) -> (u64, u64)
    decreases lines.len(),
{
    if lines.len() == 0 {
        (0, 0)
    } else {
        let (t, a) = memory_info_spec(lines.drop_last());
        let l = lines.last();
        if starts_with_spec(l, "MemTotal:"@) {
            (meminfo_value_spec(l), a)
        } else if starts_with_spec(l, "MemAvailable:"@) {
            (t, meminfo_value_spec(l))
        } else {
            (t, a)
        }
    }
}

/// Total and available memory, in kilobytes, from the memory information text.
pub fn memory_info(contents: &str) -> (r: (u64, u64))
    ensures
        r == memory_info_spec(lines_spec(contents@)),
{
    let c = chars_of(contents);
    let lines = lines_chars(&c);
    let ghost ls = lines_spec(contents@);
    let total_key = chars_of("MemTotal:");
    let avail_key = chars_of("MemAvailable:");
    let mut total: u64 = 0;
    let mut available: u64 = 0;
    let mut i: usize = 0;
    while i < lines.len()
        invariant
            views(lines@) == ls,
            i <= lines@.len(),
            total_key@ == "MemTotal:"@,
            avail_key@ == "MemAvailable:"@,
            (total, available) == memory_info_spec(ls.subrange(0, i as int)),
        decreases lines.len() - i,
    {
        assert(ls[i as int] == lines@[i as int]@);
        assert(ls.subrange(0, i + 1).drop_last() =~= ls.subrange(0, i as int));
        assert(ls.subrange(0, i + 1).last() == ls[i as int]);
        let line = string_from_chars(lines[i].as_slice());
        if starts_with_chars(&lines[i], &total_key) {
            total = parse_meminfo_value(line.as_str());
        } else if starts_with_chars(&lines[i], &avail_key) {
            available = parse_meminfo_value(line.as_str());
        }
        i = i + 1;
    }
    assert(ls.subrange(0, ls.len() as int) =~= ls);
    (total, available)
}

/// The arguments that follow each `-auth` in a list of arguments, in order.
pub open spec fn auth_args(args: Seq<Seq<char>>) -> Seq<Seq<char>>
    decreases args.len(),
{
    if args.len() < 2 {
        Seq::empty()
    } else if args[0] == "-auth"@ {
        seq![args[1]] + auth_args(args.drop_first())
    } else {
        auth_args(args.drop_first())
    }
}

/// The X authority files named on an X server's NUL-separated command line.
pub fn auth_files_in_cmdline(cmdline: &str) -> (r: Vec<String>)
    ensures
        strings_view(r@) == auth_args(split_spec(cmdline@, '\0')),
{
    let text = chars_of(cmdline);
    let args = split_chars(&text, '\0');
    let auth = chars_of("-auth");
    let ghost a = views(args@);
    let n = args.len();
    let mut out: Vec<String> = Vec::new();
    let mut i: usize = 0;
    assert(a.subrange(0, a.len() as int) =~= a);
    while n > 0 && i < n - 1
        invariant
            n == args@.len(),
            a == views(args@),
            a == split_spec(cmdline@, '\0'),
            auth@ == "-auth"@,
            i <= n,
            strings_view(out@) + auth_args(a.subrange(i as int, n as int)) == auth_args(a),
        decreases n - i,
    {
        let ghost s = a.subrange(i as int, n as int);
        proof {
            assert(s[0] == args@[i as int]@);
            assert(s[1] == args@[i + 1]@);
            assert(s.drop_first() =~= a.subrange(i + 1, n as int));
        }
        if chars_eq(&args[i], &auth) {
            let x = string_from_chars(args[i + 1].as_slice());
            let ghost before = strings_view(out@);
            proof { lemma_strings_view_push(out@, x); }
            out.push(x);
            proof {
                let rest = auth_args(a.subrange(i + 1, n as int));
                assert(auth_args(s) == seq![x@] + rest);
                assert(before.push(x@) + rest =~= before + (seq![x@] + rest));
            }
        }
        i = i + 1;
    }
    proof {
        assert(auth_args(a.subrange(i as int, n as int)) == Seq::<Seq<char>>::empty());
        assert(strings_view(out@) + Seq::<Seq<char>>::empty() =~= strings_view(out@));
    }
    out
}

/// Whether a process name, trimmed, is that of an X server.
pub open spec fn is_x_server_spec(comm: Seq<char>) -> bool {
    let t = trim_spec(comm);
    t == "Xorg"@ || t == "X"@ || t == "Xwayland"@
}

/// Whether the process named `comm` is an X server.
pub fn is_x_server(comm: &str) -> (r: bool)
    ensures
        r == is_x_server_spec(comm@),
{
    let c = chars_of(comm);
    let t = trim_chars(&c);
    chars_eq(&t, &chars_of("Xorg")) || chars_eq(&t, &chars_of("X")) || chars_eq(&t, &chars_of("Xwayland"))
}

/// Whether a file name is that of an X authority file (`xauth…`).
pub fn is_xauth_file(name: &str) -> (r: bool)
    ensures
        r == starts_with_spec(name@, "xauth"@),
{
    starts_with_chars(&chars_of(name), &chars_of("xauth"))
}

/// How many of the lines begin with `processor`.
pub open spec fn processor_lines(lines: Seq<Seq<char>>) -> nat
    decreases lines.len(),
{
    if lines.len() == 0 {
        0
    } else {
        processor_lines(lines.drop_last()) + if starts_with_spec(lines.last(), "processor"@) { 1nat } else { 0nat }
    }
}

/// The number of processors the CPU information lists, at least one.
pub fn processor_count(cpuinfo: &str) -> (r: usize)
    ensures
        r as nat == (if processor_lines(lines_spec(cpuinfo@)) == 0 { 1 } else { processor_lines(lines_spec(cpuinfo@)) }),
{
    let text = chars_of(cpuinfo);
    let lines = lines_chars(&text);
    let key = chars_of("processor");
    let ghost ls = lines_spec(cpuinfo@);
    let mut count: usize = 0;
    let mut i: usize = 0;
    assert(ls.subrange(0, 0) =~= Seq::<Seq<char>>::empty());
    while i < lines.len()
        invariant
            views(lines@) == ls,
            ls == lines_spec(cpuinfo@),
            key@ == "processor"@,
            i <= lines@.len(),
            count <= i,
            count as nat == processor_lines(ls.subrange(0, i as int)),
        decreases lines.len() - i,
    {
        proof {
            assert(ls[i as int] == lines@[i as int]@);
            assert(ls.subrange(0, i + 1).drop_last() =~= ls.subrange(0, i as int));
            assert(ls.subrange(0, i + 1).last() == ls[i as int]);
        }
        if starts_with_chars(&lines[i], &key) {
            count = count + 1;
        }
        i = i + 1;
    }
    assert(ls.subrange(0, ls.len() as int) =~= ls);
    if count == 0 { 1 } else { count }
}

} // verus!
