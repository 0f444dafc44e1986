//! The agent's local control channel: one text command per connection.
use vstd::prelude::*;
use crate::text::{
    chars_of, str_eq, string_from_chars, index_of_from, index_of_char_from, lemma_index_of_from_bounds,
    lemma_index_of_from_is,
};
use crate::parse::{
    starts_with_spec, starts_with_chars, trim_spec, trim_start_spec, trim_end_spec, trim_chars, is_ws,
    parse_unsigned_spec, parse_unsigned, suffix_from, slice_chars,
};

verus! {

/// A command of the control channel, as the agent understood it.
#[derive(Debug, Clone, PartialEq, Eq)]
pub enum ControlCommand {
    Status,
    Sessions,
    Metrics,
    Applications,
    Health,
    Users,
    /// Run `command` on display `display_id`.
    Launch { display_id: u32, command: String },
    /// Start a session for the user.
    StartSession(String),
    /// Stop the session with this id.
    StopSession(String),
    /// Make sure a VNC server serves the display.
    EnsureVnc(u32),
    /// A known command used wrongly; the text says how.
    Invalid(String),
    Unknown,
}

/// A control command as plain values.
pub enum CommandView {
    Status,
    Sessions,
    Metrics,
    Applications,
    Health,
    Users,
    Launch(u32, Seq<char>),
    StartSession(Seq<char>),
    StopSession(Seq<char>),
    EnsureVnc(u32),
    Invalid(Seq<char>),
    Unknown,
}

impl ControlCommand {
    pub open spec fn view(self) -> CommandView {
        match self {
            ControlCommand::Status => CommandView::Status,
            ControlCommand::Sessions => CommandView::Sessions,
            ControlCommand::Metrics => CommandView::Metrics,
            ControlCommand::Applications => CommandView::Applications,
            ControlCommand::Health => CommandView::Health,
            ControlCommand::Users => CommandView::Users,
            ControlCommand::Launch { display_id, command } => CommandView::Launch(display_id, command@),
            ControlCommand::StartSession(u) => CommandView::StartSession(u@),
            ControlCommand::StopSession(s) => CommandView::StopSession(s@),
            ControlCommand::EnsureVnc(d) => CommandView::EnsureVnc(d),
            ControlCommand::Invalid(m) => CommandView::Invalid(m@),
            ControlCommand::Unknown => CommandView::Unknown,
        }
    }
}

/// What follows the first space of `c`, when it has one (the second piece
/// of `splitn(2, ' ')`).
pub open spec fn after_first_space(c: Seq<char>) -> Option<Seq<char>> {
    match index_of_from(c, ' ', 0) {
        Some(i) => Some(c.subrange(i + 1, c.len() as int)),
        None => None,
    }
}

/// The second and third pieces of `splitn(3, ' ')`, when there are three.
pub open spec fn launch_parts(c: Seq<char>) -> Option<(Seq<char>, Seq<char>)> {
    match index_of_from(c, ' ', 0) {
        Some(i) => match index_of_from(c, ' ', i + 1) {
            Some(j) => Some((c.subrange(i + 1, j), c.subrange(j + 1, c.len() as int))),
            None => None,
        },
        None => None,
    }
}

/// How the agent reads a control command.
pub open spec fn parse_command_spec(c: Seq<char>) -> CommandView {
    if c == "status"@ {
        CommandView::Status
    } else if c == "sessions"@ {
        CommandView::Sessions
    } else if c == "metrics"@ {
        CommandView::Metrics
    } else if c == "applications"@ {
        CommandView::Applications
    } else if c == "health"@ {
        CommandView::Health
    } else if c == "users"@ {
        CommandView::Users
    } else if starts_with_spec(c, "launch"@) {
        match launch_parts(c) {
            None => CommandView::Invalid("Usage: launch <display_id> <command>"@),
            Some((d, cmd)) => match parse_unsigned_spec(d, u32::MAX as nat) {
                None => CommandView::Invalid("Invalid display ID"@),
                Some(n) => CommandView::Launch(n as u32, cmd),
            },
        }
    } else if starts_with_spec(c, "start_session"@) {
        match after_first_space(c) {
            Some(rest) => if trim_spec(rest).len() == 0 {
                CommandView::Invalid("Usage: start_session <username>"@)
            } else {
                CommandView::StartSession(trim_spec(rest))
            },
            None => CommandView::Invalid("Usage: start_session <username>"@),
        }
    } else if starts_with_spec(c, "stop_session"@) {
        match after_first_space(c) {
            Some(rest) => if trim_spec(rest).len() == 0 {
                CommandView::Invalid("Usage: stop_session <session_id>"@)
            } else {
                CommandView::StopSession(trim_spec(rest))
            },
            None => CommandView::Invalid("Usage: stop_session <session_id>"@),
        }
    } else if starts_with_spec(c, "ensure_vnc"@) {
        match after_first_space(c) {
            Some(rest) => match parse_unsigned_spec(trim_spec(rest), u32::MAX as nat) {
                Some(n) => CommandView::EnsureVnc(n as u32),
                None => CommandView::Invalid("Invalid display ID"@),
            },
            None => CommandView::Invalid("Usage: ensure_vnc <display_id>"@),
        }
    } else {
        CommandView::Unknown
    }
}

fn rest_after_space(c: &Vec<char>) -> (r: Option<Vec<char>>)
    ensures
        match r {
            Some(v) => after_first_space(c@) == Some(v@),
            None => after_first_space(c@) is None,
        },
{
    let n = c.len();
    match index_of_char_from(c, ' ', 0) {
        Some(i) => {
            proof {
                lemma_index_of_from_bounds(c@, ' ', 0);
            }
            Some(suffix_from(c, i + 1))
        },
        None => None,
    }
}

fn invalid(m: &str) -> (r: ControlCommand)
    ensures
        r@ == CommandView::Invalid(m@),
{
    ControlCommand::Invalid(crate::text::string_from_str(m))
}

/// Read a control command (already trimmed of surrounding white space).
pub fn parse_control_command(command: &str) -> (r: ControlCommand)
    ensures
        r@ == parse_command_spec(command@),
{
    let c = chars_of(command);
    if str_eq(command, "status") {
        return ControlCommand::Status;
    }
    if str_eq(command, "sessions") {
        return ControlCommand::Sessions;
    }
    if str_eq(command, "metrics") {
        return ControlCommand::Metrics;
    }
    if str_eq(command, "applications") {
        return ControlCommand::Applications;
    }
    if str_eq(command, "health") {
        return ControlCommand::Health;
    }
    if str_eq(command, "users") {
        return ControlCommand::Users;
    }
    if starts_with_chars(&c, &chars_of("launch")) {
        let i = match index_of_char_from(&c, ' ', 0) {
            Some(i) => i,
            None => return invalid("Usage: launch <display_id> <command>"),
        };
        proof {
            lemma_index_of_from_bounds(c@, ' ', 0);
        }
        let j = match index_of_char_from(&c, ' ', i + 1) {
            Some(j) => j,
            None => return invalid("Usage: launch <display_id> <command>"),
        };
        proof {
            lemma_index_of_from_bounds(c@, ' ', i + 1);
        }
        let d = slice_chars(&c, i + 1, j);
        let cmd = suffix_from(&c, j + 1);
        return match parse_unsigned(&d, 0xffff_ffff) {
            Some(n) => ControlCommand::Launch { display_id: n as u32, command: string_from_chars(cmd.as_slice()) },
            None => invalid("Invalid display ID"),
        };
    }
    if starts_with_chars(&c, &chars_of("start_session")) {
        return match rest_after_space(&c) {
            Some(rest) => {
                let t = trim_chars(&rest);
                if t.len() == 0 {
                    invalid("Usage: start_session <username>")
                } else {
                    ControlCommand::StartSession(string_from_chars(t.as_slice()))
                }
            },
            None => invalid("Usage: start_session <username>"),
        };
    }
    if starts_with_chars(&c, &chars_of("stop_session")) {
        return match rest_after_space(&c) {
            Some(rest) => {
                let t = trim_chars(&rest);
                if t.len() == 0 {
                    invalid("Usage: stop_session <session_id>")
                } else {
                    ControlCommand::StopSession(string_from_chars(t.as_slice()))
                }
            },
            None => invalid("Usage: stop_session <session_id>"),
        };
    }
    if starts_with_chars(&c, &chars_of("ensure_vnc")) {
        return match rest_after_space(&c) {
            Some(rest) => {
                let t = trim_chars(&rest);
                match parse_unsigned(&t, 0xffff_ffff) {
                    Some(n) => ControlCommand::EnsureVnc(n as u32),
                    None => invalid("Invalid display ID"),
                }
            },
            None => invalid("Usage: ensure_vnc <display_id>"),
        };
    }
    ControlCommand::Unknown
}

/// The commands listed when an unknown one arrives.
pub open spec fn available_commands_spec() -> Seq<Seq<char>> {
    seq![
        "status"@, "sessions"@, "metrics"@, "health"@, "users"@, "start_session <username>"@,
        "stop_session <id>"@, "applications"@, "launch <display_id> <command>"@, "ensure_vnc <display_id>"@,
    ]
}

/// The commands to list in the answer to an unknown one.
pub fn available_commands() -> (r: Vec<String>)
    ensures
        crate::text::strings_view(r@) == available_commands_spec(),
{
    let mut v: Vec<String> = Vec::new();
    crate::text::push_str(&mut v, "status");
    crate::text::push_str(&mut v, "sessions");
    crate::text::push_str(&mut v, "metrics");
    crate::text::push_str(&mut v, "health");
    crate::text::push_str(&mut v, "users");
    crate::text::push_str(&mut v, "start_session <username>");
    crate::text::push_str(&mut v, "stop_session <id>");
    crate::text::push_str(&mut v, "applications");
    crate::text::push_str(&mut v, "launch <display_id> <command>");
    crate::text::push_str(&mut v, "ensure_vnc <display_id>");
    assert(crate::text::strings_view(v@) =~= available_commands_spec());
    v
}

/// How long a session has run: `now - start`, or 0 if `start` is later.
pub fn session_duration(now: u64, start: u64) -> (r: u64)
    ensures
        r == (if now >= start { (now - start) as u64 } else { 0u64 }),
{
    now.saturating_sub(start)
}

proof fn lemma_trim_plain(u: Seq<char>)
    requires
        u.len() > 0,
        !is_ws(u[0]),
        !is_ws(u.last()),
    ensures
        trim_spec(u) == u,
{
    assert(trim_start_spec(u) == u);
    assert(trim_end_spec(u) == u);
}

/// The session commands the management API sends (`start_session <user>`,
/// `stop_session <id>`) are read by the agent as those commands, for any
/// non-empty argument without surrounding white space.
pub proof fn lemma_session_commands_understood(arg: Seq<char>)
    requires
        arg.len() > 0,
        !is_ws(arg[0]),
        !is_ws(arg.last()),
    ensures
        parse_command_spec("start_session"@ + " "@ + arg) == CommandView::StartSession(arg),
        parse_command_spec("stop_session"@ + " "@ + arg) == CommandView::StopSession(arg),
{
    reveal_strlit("start_session");
    reveal_strlit("stop_session");
    reveal_strlit(" ");
    reveal_strlit("status");
    reveal_strlit("sessions");
    reveal_strlit("metrics");
    reveal_strlit("applications");
    reveal_strlit("health");
    reveal_strlit("users");
    reveal_strlit("launch");
    lemma_trim_plain(arg);
    let c = "start_session"@ + " "@ + arg;
    assert(c[3] == 'r' && "status"@[3] == 't');
    assert(c[1] == 't' && "sessions"@[1] == 'e');
    assert(c[0] != "metrics"@[0] && c[0] != "applications"@[0] && c[0] != "health"@[0] && c[0] != "users"@[0]);
    assert(c.subrange(0, 6) != "launch"@) by {
        assert(c.subrange(0, 6)[0] != "launch"@[0]);
    }
    assert(c.subrange(0, 13) =~= "start_session"@);
    lemma_index_of_from_is(c, ' ', 0, 13);
    assert(c.subrange(14, c.len() as int) =~= arg);
    let d = "stop_session"@ + " "@ + arg;
    assert(d[2] == 'o' && "status"@[2] == 'a');
    assert(d[1] == 't' && "sessions"@[1] == 'e');
    assert(d[0] != "metrics"@[0] && d[0] != "applications"@[0] && d[0] != "health"@[0] && d[0] != "users"@[0]);
    assert(d.subrange(0, 6) != "launch"@) by {
        assert(d.subrange(0, 6)[0] != "launch"@[0]);
    }
    assert(d.subrange(0, 13) != "start_session"@) by {
        assert(d.subrange(0, 13)[2] != "start_session"@[2]);
    }
    assert(d.subrange(0, 12) =~= "stop_session"@);
    lemma_index_of_from_is(d, ' ', 0, 12);
    assert(d.subrange(13, d.len() as int) =~= arg);
}

} // verus!
