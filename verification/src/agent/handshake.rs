//! The agent's connection protocol: the opening handshake, which display a
//! connection is attached to, and what the input channel asks of the display.
use vstd::prelude::*;
use crate::shared_types::SessionInfo;
use crate::session::manager::infos_view;
use crate::shared_types::SessionInfoView;
use crate::protocol::frame::{build_frame, frame_bytes, magic, announced_length};
use crate::protocol::wire::u32_from_be;
use crate::protocol::input::{InputEvent, decode_input, encode_input, well_typed, lemma_input_roundtrip};
use crate::input::injectors::{LegacyX11InputInjector, KeyboardMapping, FakeInput, xtest_requests, keycode_for, keysym_lookup_defined, req, KEY_PRESS, KEY_RELEASE};
use crate::input::events::InputEvent as InjectorEvent;
use crate::text::{chars_of, str_eq, string_from_str, concat, decimal, decimal_string};
use crate::json::{json_str_at, json_u64_at, str_at, u64_at};
use crate::parse::{split_spec, split_chars, parse_unsigned_spec, parse_unsigned, views};

verus! {

/// The fields of the fixed-size frame header that the handshake uses.
#[derive(Debug, Clone, Copy, PartialEq, Eq, Structural)]
pub struct HandshakeHeader {
    pub version: u8,
    pub channel_id: u8,
    pub payload_length: u32,
}

/// Read the eleven header bytes of a frame: `None` unless they start with
/// the magic `TTGT`; the length is big-endian.
pub fn parse_handshake_header(header: &[u8]) -> (r: Option<HandshakeHeader>)
    requires
        header@.len() == 11,
    ensures
        match r {
            Some(h) => header@.subrange(0, 4) == magic() && h.version == header@[4] && h.channel_id == header@[5]
                && h.payload_length as int == announced_length(header@),
            None => header@.subrange(0, 4) != magic(),
        },
{
    if !(header[0] == 0x54 && header[1] == 0x54 && header[2] == 0x47 && header[3] == 0x54) {
        proof {
            if header@.subrange(0, 4) == magic() {
                assert(header@.subrange(0, 4)[0] == header@[0]);
                assert(header@.subrange(0, 4)[1] == header@[1]);
                assert(header@.subrange(0, 4)[2] == header@[2]);
                assert(header@.subrange(0, 4)[3] == header@[3]);
            }
        }
        return None;
    }
    assert(header@.subrange(0, 4) =~= magic());
    let len = u32_from_be(header[6], header[7], header[8], header[9]);
    Some(HandshakeHeader { version: header[4], channel_id: header[5], payload_length: len })
}

/// Whether the handshake carries a payload the agent reads: 1 to 65535 bytes.
pub fn handshake_payload_expected(len: u32) -> (r: bool)
    ensures
        r == (0 < len && len < 65536),
{
    len > 0 && len < 65536
}

/// What `std::str::from_utf8` gives: the text, when the bytes are UTF-8.
#[verifier::external_body]
fn utf8_text(bytes: &[u8]) -> (r: Option<String>)
    ensures
        match r {
            Some(s) => vstd::utf8::valid_utf8(bytes@) && s@ == vstd::utf8::decode_utf8(bytes@),
            None => !vstd::utf8::valid_utf8(bytes@),
        },
{
    match std::str::from_utf8(bytes) {
        Ok(s) => Some(s.to_string()),
        Err(_) => None,
    }
}

/// Whom a connection asks for.
#[derive(Debug, Clone)]
pub struct HandshakeTarget {
    pub username: Option<String>,
    /// The requested display, cut to its low eight bits.
    pub display_id: Option<u8>,
}

/// The target a handshake payload names: nothing unless it is UTF-8 JSON.
pub open spec fn target_of(payload: Seq<u8>) -> (Option<Seq<char>>, Option<u8>) {
    if vstd::utf8::valid_utf8(payload) {
        let text = vstd::utf8::decode_utf8(payload);
        (json_str_at(text, "/username"@),
            match json_u64_at(text, "/display_id"@) { Some(d) => Some(d as u8), None => None })
    } else {
        (None, None)
    }
}

/// The user and display a handshake payload asks for.
pub fn handshake_target(payload: &[u8]) -> (r: HandshakeTarget)
    ensures
        (match r.username { Some(s) => Some(s@), None => None }, r.display_id) == target_of(payload@),
{
    match utf8_text(payload) {
        Some(text) => {
            let u = str_at(text.as_str(), "/username");
            let d = u64_at(text.as_str(), "/display_id");
            let display_id = match d {
                Some(x) => Some(x as u8),
                None => None,
            };
            HandshakeTarget { username: u, display_id }
        },
        None => HandshakeTarget { username: None, display_id: None },
    }
}

/// The display number named by a `DISPLAY` value such as `:0.0`: leading
/// colons dropped, up to the first dot, as a byte; 10 when that fails.
pub open spec fn display_from_env_spec(value: Option<Seq<char>>) -> u8 {
    match value {
        None => 10,
        Some(v) => match parse_unsigned_spec(split_spec(drop_colons(v), '.')[0], 255) {
            Some(d) => d as u8,
            None => 10,
        },
    }
}

/// `v` without its leading colons.
pub open spec fn drop_colons(v: Seq<char>) -> Seq<char>
    decreases v.len(),
{
    if v.len() > 0 && v[0] == ':' { drop_colons(v.drop_first()) } else { v }
}

/// The display to fall back on, from the value of `DISPLAY`.
pub fn display_from_env(value: Option<&str>) -> (r: u8)
    ensures
        r == display_from_env_spec(match value { Some(v) => Some(v@), None => None }),
{
    let v = match value {
        Some(v) => v,
        None => return 10,
    };
    let c = chars_of(v);
    let n = c.len();
    let mut a: usize = 0;
    assert(c@.subrange(0, n as int) =~= c@);
    while a < n && c[a] == ':'
        invariant
            n == c@.len(),
            a <= n,
            drop_colons(c@) == drop_colons(c@.subrange(a as int, n as int)),
        decreases n - a,
    {
        assert(c@.subrange(a as int, n as int).drop_first() =~= c@.subrange(a + 1, n as int));
        a = a + 1;
    }
    let rest = crate::parse::suffix_from(&c, a);
    assert(drop_colons(rest@) == rest@);
    let pieces = split_chars(&rest, '.');
    proof {
        crate::parse::lemma_split_nonempty(rest@, '.');
        assert(views(pieces@)[0] == pieces@[0]@);
    }
    match parse_unsigned(&pieces[0], 255) {
        Some(d) => d as u8,
        None => 10,
    }
}

/// The display of the first listed session of `name`.
pub open spec fn display_of_user(sessions: Seq<SessionInfoView>, name: Seq<char>) -> Option<u8>
    decreases sessions.len(),
{
    if sessions.len() == 0 {
        None
    } else if sessions[0].username == name {
        Some(sessions[0].display_id)
    } else {
        display_of_user(sessions.drop_first(), name)
    }
}

/// The display a connection is attached to: the one it asked for; else the
/// display of the named user's first session; else that of the first
/// session; else `fallback`.
pub open spec fn chosen_display(requested: Option<u8>, username: Option<Seq<char>>, sessions: Seq<SessionInfoView>, fallback: u8) -> u8 {
    let first = if sessions.len() > 0 { sessions[0].display_id } else { fallback };
    match requested {
        Some(d) => d,
        None => match username {
            Some(u) => match display_of_user(sessions, u) {
                Some(d) => d,
                None => first,
            },
            None => first,
        },
    }
}

/// Pick the display for a connection.
pub fn select_display(target: &HandshakeTarget, sessions: &Vec<SessionInfo>, fallback: u8) -> (r: u8)
    ensures
        r == chosen_display(target.display_id, match target.username { Some(u) => Some(u@), None => None },
            infos_view(sessions@), fallback),
{
    let ghost sv = infos_view(sessions@);
    let first = if sessions.len() > 0 { sessions[0].display_id } else { fallback };
    assert(sessions@.len() > 0 ==> sv[0].display_id == sessions@[0].display_id);
    if let Some(d) = target.display_id {
        return d;
    }
    match &target.username {
        Some(u) => {
            let mut i: usize = 0;
            assert(sv.subrange(0, sv.len() as int) =~= sv);
            while i < sessions.len()
                invariant
                    sv == infos_view(sessions@),
                    target.display_id is None,
                    (match target.username { Some(x) => Some(x@), None => None }) == Some(u@),
                    i <= sessions@.len(),
                    display_of_user(sv, u@) == display_of_user(sv.subrange(i as int, sv.len() as int), u@),
                decreases sessions.len() - i,
            {
                proof {
                    let rest = sv.subrange(i as int, sv.len() as int);
                    assert(rest[0] == sessions@[i as int]@);
                    assert(rest.drop_first() =~= sv.subrange(i + 1, sv.len() as int));
                }
                if str_eq(sessions[i].username.as_str(), u.as_str()) {
                    return sessions[i].display_id;
                }
                i = i + 1;
            }
            first
        },
        None => first,
    }
}

/// The name of display `d`, such as `:10`.
pub fn display_string(d: u8) -> (r: String)
    ensures
        r@ == ":"@ + decimal(d as nat),
{
    let n = decimal_string(d as u64);
    concat(":", n.as_str())
}

/// The acknowledgement of a handshake: a frame with the client's version
/// and channel, flags 1 and the payload `OK`.
pub fn handshake_ack(version: u8, channel_id: u8) -> (r: Vec<u8>)
    ensures
        r@ == frame_bytes(version, channel_id, 2, 1, seq![0x4fu8, 0x4bu8]),
{
    let payload: Vec<u8> = vec![0x4f, 0x4b];
    build_frame(version, channel_id, 1, payload.as_slice())
}

/// What the display is asked to do for an input event: pointer moves,
/// button presses and releases, wheel steps, and key presses (type 5) and
/// releases (other types) become XTEST requests; unknown pointer types, nothing.
pub open spec fn requests_for_event(mapping: KeyboardMapping, e: InputEvent) -> Seq<FakeInput> {
    match e {
        InputEvent::Mouse(m) => if m.event_type == 0x01 {
            xtest_requests(InjectorEvent::MouseMove { x: m.x, y: m.y })
        } else if m.event_type == 0x02 {
            xtest_requests(InjectorEvent::MouseDown { button: m.button })
        } else if m.event_type == 0x03 {
            xtest_requests(InjectorEvent::MouseUp { button: m.button })
        } else if m.event_type == 0x04 {
            xtest_requests(InjectorEvent::MouseScroll { delta: m.scroll_delta })
        } else {
            Seq::empty()
        },
        InputEvent::Keyboard(k) => match keycode_for(mapping, k.keysym) {
            Some(kc) => seq![req(if k.event_type == 0x05 { KEY_PRESS } else { KEY_RELEASE }, kc)],
            None => Seq::empty(),
        },
    }
}

/// What the display is asked to do for a payload on `channel`: the requests
/// for the event it decodes to on the input channel (2); nothing for other
/// channels or undecodable payloads.
pub open spec fn input_requests_spec(mapping: KeyboardMapping, channel: u8, payload: Seq<u8>) -> Seq<FakeInput> {
    if channel != 2 {
        Seq::empty()
    } else {
        match decode_input(payload) {
            Err(_) => Seq::empty(),
            Ok(e) => requests_for_event(mapping, e),
        }
    }
}

/// What a client sends on the input channel reaches the display as the
/// event it encoded.
pub proof fn lemma_sent_input_reaches_display(mapping: KeyboardMapping, e: InputEvent)
    requires
        well_typed(e),
    ensures
        input_requests_spec(mapping, 2, encode_input(e)) == requests_for_event(mapping, e),
{
    lemma_input_roundtrip(e);
}

/// Whether the requests for a frame are defined: a key event on the input
/// channel must name a keysym the mapping can be searched for.
pub open spec fn input_lookup_defined(mapping: KeyboardMapping, channel: u8, payload: Seq<u8>) -> bool {
    channel == 2 ==> match decode_input(payload) {
        Ok(InputEvent::Keyboard(k)) => keysym_lookup_defined(mapping, k.keysym),
        _ => true,
    }
}

/// Whether the requests for a frame are defined (see `input_lookup_defined`).
pub fn input_lookup_is_defined(mapping: &KeyboardMapping, channel: u8, payload: &[u8]) -> (r: bool)
    ensures
        r == input_lookup_defined(*mapping, channel, payload@),
{
    if channel != 2 || mapping.keysyms_per_keycode > 0 {
        return true;
    }
    let decoded = InputEvent::from_bytes(payload);
    match decoded {
        Ok(InputEvent::Keyboard(k)) => {
            let mut i: usize = 0;
            while i < mapping.keysyms.len()
                invariant
                    channel == 2,
                    mapping.keysyms_per_keycode == 0,
                    decoded == decode_input(payload@),
                    decoded == Ok::<InputEvent, crate::protocol::input::InputDecodeError>(InputEvent::Keyboard(k)),
                    i <= mapping.keysyms@.len(),
                    forall|j: int| 0 <= j < i ==> mapping.keysyms@[j] != k.keysym,
                decreases mapping.keysyms.len() - i,
            {
                if mapping.keysyms[i] == k.keysym {
                    assert(mapping.keysyms@.contains(k.keysym)) by {
                        assert(mapping.keysyms@[i as int] == k.keysym);
                    }
                    return false;
                }
                i = i + 1;
            }
            true
        },
        _ => true,
    }
}

/// The XTEST requests for a frame received on `channel`.
pub fn input_requests(injector: &LegacyX11InputInjector, mapping: &KeyboardMapping, channel: u8, payload: &[u8]) -> (r: Vec<FakeInput>)
    requires
        input_lookup_defined(*mapping, channel, payload@),
    ensures
        r@ == input_requests_spec(*mapping, channel, payload@),
{
    if channel != 2 {
        return Vec::new();
    }
    match InputEvent::from_bytes(payload) {
        Err(_) => Vec::new(),
        Ok(InputEvent::Mouse(m)) => {
            if m.event_type == 0x01 {
                injector.inject_mouse_move(m.x, m.y)
            } else if m.event_type == 0x02 || m.event_type == 0x03 {
                injector.inject_mouse_click(m.button, m.event_type == 0x02)
            } else if m.event_type == 0x04 {
                injector.inject_mouse_scroll(m.scroll_delta)
            } else {
                Vec::new()
            }
        },
        Ok(InputEvent::Keyboard(k)) => injector.inject_keypress(mapping, k.keysym, k.event_type == 0x05),
    }
}

} // verus!
