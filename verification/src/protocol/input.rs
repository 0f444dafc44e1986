//! Binary encoding of remote input events on the input channel.
use vstd::prelude::*;
use crate::shared_types::MouseButton;
use crate::protocol::wire::{
    be16_bytes, be16_value, be32_bytes, be32_value, i16_from_pattern, i16_of_pattern,
    i16_pattern, i16_to_pattern, lemma_be32_roundtrip, lemma_i16_roundtrip, u16_from_be,
    u16_to_be, u32_from_be, u32_to_be,
};

verus! {

#[derive(Debug, Clone, Copy, PartialEq, Eq, Structural)]
pub enum InputEvent {
    Mouse(MouseEvent),
    Keyboard(KeyboardEvent),
}

/// `event_type`: 0x01 move, 0x02 press, 0x03 release, 0x04 scroll.
#[derive(Debug, Clone, Copy, PartialEq, Eq, Structural)]
pub struct MouseEvent {
    pub event_type: u8,
    pub button: MouseButton,
    pub x: u16,
    pub y: u16,
    pub scroll_delta: i16,
}

/// `event_type`: 0x05 press, 0x06 release.
#[derive(Debug, Clone, Copy, PartialEq, Eq, Structural)]
pub struct KeyboardEvent {
    pub event_type: u8,
    pub keysym: u32,
}

/// Why a payload is not an input event.
#[derive(Debug, Clone, Copy, PartialEq, Eq, Structural)]
pub enum InputDecodeError {
    Empty,
    MouseTooShort,
    KeyboardTooShort,
    UnknownEventType(u8),
}

/// The wire code of a mouse button.
pub open spec fn button_code(b: MouseButton) -> u8 {
    match b {
        MouseButton::NoButton => 0x00,
        MouseButton::Left => 0x01,
        MouseButton::Right => 0x02,
        MouseButton::Middle => 0x03,
    }
}

/// The mouse button a wire code stands for; unknown codes mean no button.
pub open spec fn button_of_code(c: u8) -> MouseButton {
    if c == 0x01 {
        MouseButton::Left
    } else if c == 0x02 {
        MouseButton::Right
    } else if c == 0x03 {
        MouseButton::Middle
    } else {
        MouseButton::NoButton
    }
}

/// The encoding of an event.
pub open spec fn encode_input(e: InputEvent) -> Seq<u8> {
    match e {
        InputEvent::Mouse(m) => seq![m.event_type, button_code(m.button)] + be16_bytes(m.x)
            + be16_bytes(m.y) + be16_bytes(i16_pattern(m.scroll_delta)),
        InputEvent::Keyboard(k) => seq![k.event_type] + be32_bytes(k.keysym),
    }
}

/// What decoding a payload yields.
pub open spec fn decode_input(d: Seq<u8>) -> Result<InputEvent, InputDecodeError> {
    if d.len() == 0 {
        Err(InputDecodeError::Empty)
    } else if 0x01 <= d[0] <= 0x04 {
        if d.len() < 8 {
            Err(InputDecodeError::MouseTooShort)
        } else {
            Ok(InputEvent::Mouse(MouseEvent {
                event_type: d[0],
                button: button_of_code(d[1]),
                x: be16_value(d[2], d[3]) as u16,
                y: be16_value(d[4], d[5]) as u16,
                scroll_delta: i16_from_pattern(be16_value(d[6], d[7])) as i16,
            }))
        }
    } else if 0x05 <= d[0] <= 0x06 {
        if d.len() < 5 {
            Err(InputDecodeError::KeyboardTooShort)
        } else {
            Ok(InputEvent::Keyboard(KeyboardEvent {
                event_type: d[0],
                keysym: be32_value(d[1], d[2], d[3], d[4]) as u32,
            }))
        }
    } else {
        Err(InputDecodeError::UnknownEventType(d[0]))
    }
}

/// Whether an event's type code belongs to its kind (mouse 1..=4, keyboard 5..=6).
pub open spec fn well_typed(e: InputEvent) -> bool {
    match e {
        InputEvent::Mouse(m) => 0x01 <= m.event_type <= 0x04,
        InputEvent::Keyboard(k) => 0x05 <= k.event_type <= 0x06,
    }
}

fn push_u16(buffer: &mut Vec<u8>, v: u16)
    ensures
        final(buffer)@ == old(buffer)@ + be16_bytes(v),
{
    let (a, b) = u16_to_be(v);
    buffer.push(a);
    buffer.push(b);
    assert(final(buffer)@ =~= old(buffer)@ + seq![a, b]);
}

impl InputEvent {
    pub fn to_bytes(&self) -> (r: Vec<u8>)
        ensures
            r@ == encode_input(*self),
    {
        let mut buffer: Vec<u8> = Vec::new();
        match self {
            InputEvent::Mouse(m) => {
                buffer.push(m.event_type);
                let btn: u8 = match m.button {
                    MouseButton::NoButton => 0x00,
                    MouseButton::Left => 0x01,
                    MouseButton::Right => 0x02,
                    MouseButton::Middle => 0x03,
                };
                buffer.push(btn);
                push_u16(&mut buffer, m.x);
                push_u16(&mut buffer, m.y);
                push_u16(&mut buffer, i16_to_pattern(m.scroll_delta));
                assert(buffer@ =~= encode_input(*self));
            },
            InputEvent::Keyboard(k) => {
                buffer.push(k.event_type);
                let b = u32_to_be(k.keysym);
                buffer.push(b[0]);
                buffer.push(b[1]);
                buffer.push(b[2]);
                buffer.push(b[3]);
                assert(buffer@ =~= encode_input(*self));
            },
        }
        buffer
    }

    pub fn from_bytes(data: &[u8]) -> (r: Result<InputEvent, InputDecodeError>)
        ensures
            r == decode_input(data@),
    {
        if data.len() == 0 {
            return Err(InputDecodeError::Empty);
        }
        let event_type = data[0];
        if 0x01 <= event_type && event_type <= 0x04 {
            if data.len() < 8 {
                return Err(InputDecodeError::MouseTooShort);
            }
            let button = if data[1] == 0x01 {
                MouseButton::Left
            } else if data[1] == 0x02 {
                MouseButton::Right
            } else if data[1] == 0x03 {
                MouseButton::Middle
            } else {
                MouseButton::NoButton
            };
            let x = u16_from_be(data[2], data[3]);
            let y = u16_from_be(data[4], data[5]);
            let scroll_delta = i16_of_pattern(u16_from_be(data[6], data[7]));
            Ok(InputEvent::Mouse(MouseEvent { event_type, button, x, y, scroll_delta }))
        } else if 0x05 <= event_type && event_type <= 0x06 {
            if data.len() < 5 {
                return Err(InputDecodeError::KeyboardTooShort);
            }
            let keysym = u32_from_be(data[1], data[2], data[3], data[4]);
            Ok(InputEvent::Keyboard(KeyboardEvent { event_type, keysym }))
        } else {
            Err(InputDecodeError::UnknownEventType(event_type))
        }
    }
}

/// Every event whose type code belongs to its kind decodes back to itself
/// from its encoding.
pub proof fn lemma_input_roundtrip(e: InputEvent)
    requires
        well_typed(e),
    ensures
        decode_input(encode_input(e)) == Ok::<InputEvent, InputDecodeError>(e),
{
    let d = encode_input(e);
    match e {
        InputEvent::Mouse(m) => {
            lemma_i16_roundtrip(m.scroll_delta);
            assert(d[2] == be16_bytes(m.x)[0] && d[3] == be16_bytes(m.x)[1]);
            assert(d[4] == be16_bytes(m.y)[0] && d[5] == be16_bytes(m.y)[1]);
            assert(d[6] == be16_bytes(i16_pattern(m.scroll_delta))[0]);
            assert(d[7] == be16_bytes(i16_pattern(m.scroll_delta))[1]);
        },
        InputEvent::Keyboard(k) => {
            lemma_be32_roundtrip(k.keysym);
            assert(d[1] == be32_bytes(k.keysym)[0] && d[2] == be32_bytes(k.keysym)[1]);
            assert(d[3] == be32_bytes(k.keysym)[2] && d[4] == be32_bytes(k.keysym)[3]);
        },
    }
}

}
