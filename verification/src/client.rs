//! The desktop client's side of the protocol: the frames it sends, how it
//! checks the agent's acknowledgement, and its transfer counters.
use vstd::prelude::*;
use crate::protocol::frame::{Frame, FrameHeader, PROTOCOL_VERSION, decode_frame, frame_bytes, lemma_frame_bytes_decode};
use crate::protocol::input::{InputEvent, MouseEvent, KeyboardEvent, encode_input, button_of_code};
use crate::shared_types::MouseButton;

verus! {

/// How many frames and bytes a transport moved.
#[derive(Debug, Clone, Copy, PartialEq, Eq, Structural)]
pub struct TransportStats {
    pub frames_sent: u64,
    pub frames_received: u64,
    pub bytes_sent: u64,
    pub bytes_received: u64,
}

impl TransportStats {
    /// All counters at zero.
    pub fn new() -> (r: TransportStats)
        ensures
            r.frames_sent == 0 && r.frames_received == 0 && r.bytes_sent == 0 && r.bytes_received == 0,
    {
        TransportStats { frames_sent: 0, frames_received: 0, bytes_sent: 0, bytes_received: 0 }
    }

    /// Count a frame of `bytes` bytes sent; the counters wrap around.
    pub fn record_sent(&mut self, bytes: u64)
        ensures
            final(self).frames_sent == (old(self).frames_sent + 1) % 0x1_0000_0000_0000_0000,
            final(self).bytes_sent == (old(self).bytes_sent + bytes) % 0x1_0000_0000_0000_0000,
            final(self).frames_received == old(self).frames_received,
            final(self).bytes_received == old(self).bytes_received,
    {
        self.frames_sent = self.frames_sent.wrapping_add(1);
        self.bytes_sent = self.bytes_sent.wrapping_add(bytes);
    }

    /// Count a frame of `bytes` bytes received; the counters wrap around.
    pub fn record_received(&mut self, bytes: u64)
        ensures
            final(self).frames_received == (old(self).frames_received + 1) % 0x1_0000_0000_0000_0000,
            final(self).bytes_received == (old(self).bytes_received + bytes) % 0x1_0000_0000_0000_0000,
            final(self).frames_sent == old(self).frames_sent,
            final(self).bytes_sent == old(self).bytes_sent,
    {
        self.frames_received = self.frames_received.wrapping_add(1);
        self.bytes_received = self.bytes_received.wrapping_add(bytes);
    }
}

/// A frame of protocol version 1 with no flags, on `channel_id`.
pub open spec fn is_client_frame(f: Frame, channel_id: u8, payload: Seq<u8>) -> bool {
    &&& f.header.version == 1
    &&& f.header.channel_id == channel_id
    &&& f.header.flags == 0
    &&& f.header.length == payload.len()
    &&& f.payload@ == payload
}

/// The handshake frame carrying `payload` on the control channel.
pub fn handshake_frame(payload: Vec<u8>) -> (r: Frame)
    requires
        payload@.len() <= u32::MAX,
    ensures
        is_client_frame(r, 0, payload@),
{
    let len = payload.len() as u32;
    Frame { header: FrameHeader { version: 1, channel_id: 0, length: len, flags: 0 }, payload }
}

/// Whether the agent's answer acknowledges the handshake: control channel, payload `OK`.
pub fn handshake_ack_valid(ack: &Frame) -> (r: bool)
    ensures
        r == (ack.header.channel_id == 0 && ack.payload@ == seq![0x4fu8, 0x4bu8]),
{
    if ack.header.channel_id != 0 || ack.payload.len() != 2 {
        return false;
    }
    let ok = ack.payload[0] == 0x4f && ack.payload[1] == 0x4b;
    if ok {
        assert(ack.payload@ =~= seq![0x4fu8, 0x4bu8]);
    }
    ok
}

/// The frame that sends a pointer event on the input channel; button codes
/// 1, 2 and 3 are left, right and middle, anything else no button.
pub fn mouse_event_frame(event_type: u8, button: u8, x: u16, y: u16, scroll_delta: i16) -> (r: Frame)
    ensures
        is_client_frame(r, 2, encode_input(InputEvent::Mouse(MouseEvent {
            event_type,
            button: button_of_code(button),
            x,
            y,
            scroll_delta,
        }))),
{
    let btn = if button == 1 {
        MouseButton::Left
    } else if button == 2 {
        MouseButton::Right
    } else if button == 3 {
        MouseButton::Middle
    } else {
        MouseButton::NoButton
    };
    let ev = InputEvent::Mouse(MouseEvent { event_type, button: btn, x, y, scroll_delta });
    let payload = ev.to_bytes();
    let len = payload.len() as u32;
    Frame { header: FrameHeader { version: 1, channel_id: 2, length: len, flags: 0 }, payload }
}

/// The frame that sends a key event on the input channel.
pub fn keyboard_event_frame(event_type: u8, keysym: u32) -> (r: Frame)
    ensures
        is_client_frame(r, 2, encode_input(InputEvent::Keyboard(KeyboardEvent { event_type, keysym }))),
{
    let ev = InputEvent::Keyboard(KeyboardEvent { event_type, keysym });
    let payload = ev.to_bytes();
    let len = payload.len() as u32;
    Frame { header: FrameHeader { version: 1, channel_id: 2, length: len, flags: 0 }, payload }
}

/// The acknowledgement the agent sends to a client speaking the supported
/// version is a frame the client accepts.
pub proof fn lemma_agent_ack_accepted()
    ensures
        decode_frame(frame_bytes(PROTOCOL_VERSION, 0, 2, 1, seq![0x4fu8, 0x4bu8])) matches Ok((h, p))
            && h.channel_id == 0 && p == seq![0x4fu8, 0x4bu8],
{
    lemma_frame_bytes_decode(PROTOCOL_VERSION, 0, 1, seq![0x4fu8, 0x4bu8]);
}

} // verus!
