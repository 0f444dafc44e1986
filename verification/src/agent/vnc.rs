//! Serving a display over VNC: which server to start, with which arguments
//! and environment, and what to answer when it cannot be started.
use vstd::prelude::*;
use crate::agent::platform::{
    CommandPlan, DisplayOwner, EnvChange, env_view, push_set, push_unset, last_line, last_line_of,
    detail_suffix,
};
use crate::text::{
    chars_of, string_from_str, concat, concat3, decimal, decimal_string, strings_view, push_str,
    contains_spec, contains_chars, append_str,
};

verus! {

/// The TCP port of the VNC server for display `d`.
pub fn vnc_port(d: u32) -> (r: u32)
    requires
        d <= u32::MAX - 5900,
    ensures
        r == d + 5900,
{
    5900 + d
}

/// What starting VNC for a display comes to.
#[derive(Debug, Clone)]
pub enum VncPlan {
    /// Start this program; `wayland` tells which server it is.
    Launch { command: CommandPlan, wayland: bool },
    /// Refuse, with this message.
    Fail(String),
}

/// The x11vnc arguments common to both X11 cases.
pub open spec fn x11vnc_base_args(username: Seq<char>, d: nat, port: nat) -> Seq<Seq<char>> {
    seq![
        "-u"@, username, "--"@, "x11vnc"@, "-display"@, ":"@ + decimal(d), "-shared"@, "-forever"@, "-nopw"@,
        "-rfbport"@, decimal(port), "-xkb"@, "-localhost"@,
    ]
}

/// The arguments of the plan for display `d` on `port`.
pub open spec fn vnc_args_spec(owner: DisplayOwner, d: nat, port: nat, has_x11: bool, wayvnc: bool, xauth: Option<Seq<char>>) -> Seq<Seq<char>> {
    if owner.wayland_socket is Some && wayvnc {
        seq!["-u"@, owner.username@, "--"@, "wayvnc"@, "127.0.0.1:"@ + decimal(port)]
    } else if owner.wayland_socket is Some {
        let base = x11vnc_base_args(owner.username@, d, port) + seq!["-noxdamage"@, "-noxrecord"@, "-noxfixes"@];
        match xauth {
            Some(x) => base + seq!["-auth"@, x],
            None => base,
        }
    } else {
        let base = x11vnc_base_args(owner.username@, d, port);
        match xauth {
            Some(x) => base + seq!["-auth"@, x],
            None => if d == 0 { base + seq!["-auth"@, "guess"@] } else { base },
        }
    }
}

/// The environment changes of the plan.
pub open spec fn vnc_env_spec(owner: DisplayOwner, d: nat, wayvnc: bool, xauth: Option<Seq<char>>) -> Seq<(Seq<char>, Option<Seq<char>>)> {
    let no_wayland = seq![("WAYLAND_DISPLAY"@, None), ("GDK_BACKEND"@, None), ("XDG_SESSION_TYPE"@, None)];
    let auth = match xauth {
        Some(x) => seq![("XAUTHORITY"@, Some(x))],
        None => Seq::empty(),
    };
    match owner.wayland_socket {
        Some(w) => if wayvnc {
            seq![
                ("XDG_RUNTIME_DIR"@, Some(owner.xdg_runtime@)),
                ("WAYLAND_DISPLAY"@, Some(w@)),
                ("HOME"@, Some(owner.home@)),
                ("USER"@, Some(owner.username@)),
            ]
        } else {
            auth + seq![("DISPLAY"@, Some(":"@ + decimal(d))), ("XDG_RUNTIME_DIR"@, Some(owner.xdg_runtime@))] + no_wayland
        },
        None => auth + seq![("DISPLAY"@, Some(":"@ + decimal(d)))] + no_wayland,
    }
}

/// Why no VNC server can be started, if none can.
pub open spec fn vnc_refusal(owner: DisplayOwner, d: nat, has_x11: bool, wayvnc: bool, x11vnc: bool) -> Option<Seq<char>> {
    if owner.wayland_socket is Some {
        if wayvnc {
            None
        } else if has_x11 {
            if x11vnc {
                None
            } else {
                Some("Wayland session on display :"@ + decimal(d)
                    + " requires wayvnc (preferred) or x11vnc (fallback via Xwayland). Neither is installed."@)
            }
        } else {
            Some("Wayland session on display :"@ + decimal(d)
                + " requires wayvnc, but it is not installed. Install it: 'pacman -S wayvnc' or 'apt install wayvnc'."@)
        }
    } else if x11vnc {
        None
    } else {
        Some("X11 session on display :"@ + decimal(d)
            + " requires x11vnc, but it is not installed. Install it with the system package manager (e.g. 'pacman -S x11vnc' or 'apt install x11vnc')."@)
    }
}

/// Plan the VNC server for display `d` of `owner`: wayvnc for a Wayland
/// session when installed, else x11vnc through Xwayland when the display has
/// an X socket, x11vnc for an X11 session; refuse when the needed server is
/// missing. `xauth` is the X authority file found, if any.
pub fn plan_vnc(owner: &DisplayOwner, d: u32, has_x11: bool, wayvnc_available: bool, x11vnc_available: bool, xauth: Option<&str>) -> (r: VncPlan)
    requires
        d <= u32::MAX - 5900,
    ensures
        match vnc_refusal(*owner, d as nat, has_x11, wayvnc_available, x11vnc_available) {
            Some(m) => r matches VncPlan::Fail(msg) && msg@ == m,
            None => r matches VncPlan::Launch { command, wayland } && command.program@ == "runuser"@
                && wayland == owner.wayland_socket is Some
                && strings_view(command.args@) == vnc_args_spec(*owner, d as nat, (d + 5900) as nat, has_x11, wayvnc_available,
                    match xauth { Some(x) => Some(x@), None => None })
                && env_view(command.env@) == vnc_env_spec(*owner, d as nat, wayvnc_available,
                    match xauth { Some(x) => Some(x@), None => None }),
        },
{
    let port = vnc_port(d);
    let ds = decimal_string(d as u64);
    let ps = decimal_string(port as u64);
    let display_arg = concat(":", ds.as_str());
    let ghost xv = match xauth { Some(x) => Some(x@), None => None::<Seq<char>> };
    let mut args: Vec<String> = Vec::new();
    let mut env: Vec<EnvChange> = Vec::new();
    let wayland = owner.wayland_socket.is_some();
    if let Some(w) = &owner.wayland_socket {
        if wayvnc_available {
            push_str(&mut args, "-u");
            push_str(&mut args, owner.username.as_str());
            push_str(&mut args, "--");
            push_str(&mut args, "wayvnc");
            let addr = concat("127.0.0.1:", ps.as_str());
            push_str(&mut args, addr.as_str());
            push_set(&mut env, "XDG_RUNTIME_DIR", owner.xdg_runtime.as_str());
            push_set(&mut env, "WAYLAND_DISPLAY", w.as_str());
            push_set(&mut env, "HOME", owner.home.as_str());
            push_set(&mut env, "USER", owner.username.as_str());
            assert(strings_view(args@) =~= vnc_args_spec(*owner, d as nat, (d + 5900) as nat, has_x11, wayvnc_available, xv));
            assert(env_view(env@) =~= vnc_env_spec(*owner, d as nat, wayvnc_available, xv));
            return VncPlan::Launch { command: CommandPlan { program: string_from_str("runuser"), args, env }, wayland };
        }
        if !has_x11 {
            let mut m = concat("Wayland session on display :", ds.as_str());
            append_str(&mut m, " requires wayvnc, but it is not installed. Install it: 'pacman -S wayvnc' or 'apt install wayvnc'.");
            return VncPlan::Fail(m);
        }
        if !x11vnc_available {
            let mut m = concat("Wayland session on display :", ds.as_str());
            append_str(&mut m, " requires wayvnc (preferred) or x11vnc (fallback via Xwayland). Neither is installed.");
            return VncPlan::Fail(m);
        }
    } else if !x11vnc_available {
        let mut m = concat("X11 session on display :", ds.as_str());
        append_str(&mut m, " requires x11vnc, but it is not installed. Install it with the system package manager (e.g. 'pacman -S x11vnc' or 'apt install x11vnc').");
        return VncPlan::Fail(m);
    }
    push_str(&mut args, "-u");
    push_str(&mut args, owner.username.as_str());
    push_str(&mut args, "--");
    push_str(&mut args, "x11vnc");
    push_str(&mut args, "-display");
    push_str(&mut args, display_arg.as_str());
    push_str(&mut args, "-shared");
    push_str(&mut args, "-forever");
    push_str(&mut args, "-nopw");
    push_str(&mut args, "-rfbport");
    push_str(&mut args, ps.as_str());
    push_str(&mut args, "-xkb");
    push_str(&mut args, "-localhost");
    let ghost base = strings_view(args@);
    assert(base =~= x11vnc_base_args(owner.username@, d as nat, (d + 5900) as nat));
    if wayland {
        push_str(&mut args, "-noxdamage");
        push_str(&mut args, "-noxrecord");
        push_str(&mut args, "-noxfixes");
    }
    let ghost base2 = strings_view(args@);
    match xauth {
        Some(x) => {
            push_str(&mut args, "-auth");
            push_str(&mut args, x);
            push_set(&mut env, "XAUTHORITY", x);
        },
        None => {
            if !wayland && d == 0 {
                push_str(&mut args, "-auth");
                push_str(&mut args, "guess");
            }
        },
    }
    push_set(&mut env, "DISPLAY", display_arg.as_str());
    if wayland {
        push_set(&mut env, "XDG_RUNTIME_DIR", owner.xdg_runtime.as_str());
    }
    push_unset(&mut env, "WAYLAND_DISPLAY");
    push_unset(&mut env, "GDK_BACKEND");
    push_unset(&mut env, "XDG_SESSION_TYPE");
    assert(strings_view(args@) =~= vnc_args_spec(*owner, d as nat, (d + 5900) as nat, has_x11, wayvnc_available, xv));
    assert(env_view(env@) =~= vnc_env_spec(*owner, d as nat, wayvnc_available, xv));
    VncPlan::Launch { command: CommandPlan { program: string_from_str("runuser"), args, env }, wayland }
}

/// The note added when the compositor lacks the protocols wayvnc needs.
pub open spec fn compositor_note() -> Seq<char> {
    " (Compositor protocol mismatch: wayvnc is only compatible with wlroots-based compositors like Sway/Hyprland. GNOME and KDE Plasma Wayland are not supported. Please log out and switch your session to X11 at the login screen.)"@
}

/// What to say about the server's error output: its last line, with a note
/// when it names a missing compositor protocol.
pub open spec fn failure_detail(stderr_text: Seq<char>) -> Seq<char> {
    if contains_spec(stderr_text, "Virtual Pointer"@) || contains_spec(stderr_text, "Screencopy"@) {
        last_line(stderr_text) + compositor_note()
    } else {
        last_line(stderr_text)
    }
}

/// The answer when the VNC server did not come up.
pub open spec fn vnc_failure_spec(wayland: bool, d: nat, stderr_text: Seq<char>) -> Seq<char> {
    let sfx = detail_suffix(failure_detail(stderr_text));
    if wayland {
        "Wayland VNC server (wayvnc) failed to start on display :"@ + decimal(d) + sfx + "."@
    } else {
        "x11vnc failed to start on display :"@ + decimal(d) + ". The display may not be accessible or XAUTHORITY is incorrect"@
            + sfx + "."@
    }
}

/// The answer when the VNC server for display `d` did not come up.
pub fn vnc_failure_message(wayland: bool, d: u32, stderr_text: &str) -> (r: String)
    ensures
        r@ == vnc_failure_spec(wayland, d as nat, stderr_text@),
{
    let mut detail = last_line_of(stderr_text);
    let text = chars_of(stderr_text);
    if contains_chars(&text, &chars_of("Virtual Pointer")) || contains_chars(&text, &chars_of("Screencopy")) {
        append_str(&mut detail, " (Compositor protocol mismatch: wayvnc is only compatible with wlroots-based compositors like Sway/Hyprland. GNOME and KDE Plasma Wayland are not supported. Please log out and switch your session to X11 at the login screen.)");
    }
    let sfx = if detail.as_str().is_empty() {
        proof {
            reveal_strlit("");
        }
        string_from_str("")
    } else {
        concat(": ", detail.as_str())
    };
    let ds = decimal_string(d as u64);
    let mut r = if wayland {
        concat("Wayland VNC server (wayvnc) failed to start on display :", ds.as_str())
    } else {
        concat3("x11vnc failed to start on display :", ds.as_str(), ". The display may not be accessible or XAUTHORITY is incorrect")
    };
    append_str(&mut r, sfx.as_str());
    append_str(&mut r, ".");
    r
}

/// The answer when the VNC server could not be spawned at all.
pub fn vnc_spawn_failure_message(wayland: bool, error: &str) -> (r: String)
    ensures
        r@ == "Failed to spawn "@ + (if wayland { "wayvnc"@ } else { "x11vnc"@ }) + ": "@ + error@,
{
    let name = if wayland { "wayvnc" } else { "x11vnc" };
    let mut r = concat3("Failed to spawn ", name, ": ");
    append_str(&mut r, error);
    r
}

} // verus!
