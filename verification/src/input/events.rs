//! Input events accepted by the injectors.
use vstd::prelude::*;
use crate::shared_types::MouseButton;
use crate::text::{append_str, debug_quoted, debug_string, decimal, decimal_string, signed_decimal,
    signed_decimal_string, string_from_str};

verus! {

#[derive(Debug, PartialEq, Eq)]
pub enum InputEvent {
    MouseMove { x: u16, y: u16 },
    MouseDown { button: MouseButton },
    MouseUp { button: MouseButton },
    MouseScroll { delta: i16 },
    KeyDown { keycode: u32, keysym: u32 },
    KeyUp { keycode: u32, keysym: u32 },
    TextInput { text: String },
    Hotkey { combo: String },
}

impl Clone for InputEvent {
    fn clone(&self) -> (r: Self)
        ensures
            r == *self,
    {
        match self {
            InputEvent::MouseMove { x, y } => InputEvent::MouseMove { x: *x, y: *y },
            InputEvent::MouseDown { button } => InputEvent::MouseDown { button: *button },
            InputEvent::MouseUp { button } => InputEvent::MouseUp { button: *button },
            InputEvent::MouseScroll { delta } => InputEvent::MouseScroll { delta: *delta },
            InputEvent::KeyDown { keycode, keysym } => InputEvent::KeyDown { keycode: *keycode, keysym: *keysym },
            InputEvent::KeyUp { keycode, keysym } => InputEvent::KeyUp { keycode: *keycode, keysym: *keysym },
            InputEvent::TextInput { text } => InputEvent::TextInput { text: text.clone() },
            InputEvent::Hotkey { combo } => InputEvent::Hotkey { combo: combo.clone() },
        }
    }
}

/// The name of a mouse button as its `Debug` form writes it.
pub open spec fn button_name(b: MouseButton) -> Seq<char> {
    match b {
        MouseButton::NoButton => "NoButton"@,
        MouseButton::Left => "Left"@,
        MouseButton::Right => "Right"@,
        MouseButton::Middle => "Middle"@,
    }
}

fn button_name_string(b: MouseButton) -> (r: String)
    ensures
        r@ == button_name(b),
{
    match b {
        MouseButton::NoButton => string_from_str("NoButton"),
        MouseButton::Left => string_from_str("Left"),
        MouseButton::Right => string_from_str("Right"),
        MouseButton::Middle => string_from_str("Middle"),
    }
}

/// The text that describes an event in the audit trail, in the shape of its
/// `Debug` form.
pub open spec fn describe(e: InputEvent) -> Seq<char> {
    match e {
        InputEvent::MouseMove { x, y } => "MouseMove { x: "@ + decimal(x as nat) + ", y: "@ + decimal(y as nat) + " }"@,
        InputEvent::MouseDown { button } => "MouseDown { button: "@ + button_name(button) + " }"@,
        InputEvent::MouseUp { button } => "MouseUp { button: "@ + button_name(button) + " }"@,
        InputEvent::MouseScroll { delta } => "MouseScroll { delta: "@ + signed_decimal(delta as int) + " }"@,
        InputEvent::KeyDown { keycode, keysym } => "KeyDown { keycode: "@ + decimal(keycode as nat)
            + ", keysym: "@ + decimal(keysym as nat) + " }"@,
        InputEvent::KeyUp { keycode, keysym } => "KeyUp { keycode: "@ + decimal(keycode as nat)
            + ", keysym: "@ + decimal(keysym as nat) + " }"@,
        InputEvent::TextInput { text } => "TextInput { text: "@ + debug_quoted(text@) + " }"@,
        InputEvent::Hotkey { combo } => "Hotkey { combo: "@ + debug_quoted(combo@) + " }"@,
    }
}

impl InputEvent {
    /// The audit description of this event.
    pub fn describe(&self) -> (r: String)
        ensures
            r@ == describe(*self),
    {
        match self {
            InputEvent::MouseMove { x, y } => {
                let mut r = string_from_str("MouseMove { x: ");
                append_str(&mut r, decimal_string(*x as u64).as_str());
                append_str(&mut r, ", y: ");
                append_str(&mut r, decimal_string(*y as u64).as_str());
                append_str(&mut r, " }");
                r
            },
            InputEvent::MouseDown { button } => {
                let mut r = string_from_str("MouseDown { button: ");
                append_str(&mut r, button_name_string(*button).as_str());
                append_str(&mut r, " }");
                r
            },
            InputEvent::MouseUp { button } => {
                let mut r = string_from_str("MouseUp { button: ");
                append_str(&mut r, button_name_string(*button).as_str());
                append_str(&mut r, " }");
                r
            },
            InputEvent::MouseScroll { delta } => {
                let mut r = string_from_str("MouseScroll { delta: ");
                append_str(&mut r, signed_decimal_string(*delta).as_str());
                append_str(&mut r, " }");
                r
            },
            InputEvent::KeyDown { keycode, keysym } => {
                let mut r = string_from_str("KeyDown { keycode: ");
                append_str(&mut r, decimal_string(*keycode as u64).as_str());
                append_str(&mut r, ", keysym: ");
                append_str(&mut r, decimal_string(*keysym as u64).as_str());
                append_str(&mut r, " }");
                r
            },
            InputEvent::KeyUp { keycode, keysym } => {
                let mut r = string_from_str("KeyUp { keycode: ");
                append_str(&mut r, decimal_string(*keycode as u64).as_str());
                append_str(&mut r, ", keysym: ");
                append_str(&mut r, decimal_string(*keysym as u64).as_str());
                append_str(&mut r, " }");
                r
            },
            InputEvent::TextInput { text } => {
                let mut r = string_from_str("TextInput { text: ");
                append_str(&mut r, debug_string(text.as_str()).as_str());
                append_str(&mut r, " }");
                r
            },
            InputEvent::Hotkey { combo } => {
                let mut r = string_from_str("Hotkey { combo: ");
                append_str(&mut r, debug_string(combo.as_str()).as_str());
                append_str(&mut r, " }");
                r
            },
        }
    }
}

}
