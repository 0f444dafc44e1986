//! The default input policy: no SysRq key, no console-switching or
//! Ctrl+Alt+Del style hotkeys.
use vstd::prelude::*;
use crate::input::events::InputEvent;
use crate::input::traits::InputPolicy;
use crate::shared_types::MouseButton;
use crate::text::{chars_of, contains_chars, contains_spec, lowercase, to_lowercase};

verus! {

/// The SysRq / Break keysym.
pub const SYSRQ_KEYSYM: u32 = 0xFF15;

#[derive(Debug, Clone, Copy, Default)]
pub struct SecureInputPolicy;

impl SecureInputPolicy {
    pub fn new() -> (r: SecureInputPolicy) {
        SecureInputPolicy
    }
}

/// Whether a hotkey combination is one of the forbidden ones: it names both
/// Ctrl and Alt (in any case) together with a function key, Del or Backspace.
pub open spec fn forbidden_hotkey(combo: Seq<char>) -> bool {
    let l = lowercase(combo);
    contains_spec(l, "ctrl"@) && contains_spec(l, "alt"@) && (
        contains_spec(l, "f1"@) || contains_spec(l, "f2"@) || contains_spec(l, "f3"@)
        || contains_spec(l, "f4"@) || contains_spec(l, "f5"@) || contains_spec(l, "f6"@)
        || contains_spec(l, "f7"@) || contains_spec(l, "f8"@) || contains_spec(l, "f9"@)
        || contains_spec(l, "f10"@) || contains_spec(l, "f11"@) || contains_spec(l, "f12"@)
        || contains_spec(l, "del"@) || contains_spec(l, "backspace"@))
}

fn has(l: &Vec<char>, pat: &str) -> (r: bool)
    ensures
        r == contains_spec(l@, pat@),
{
    let p = chars_of(pat);
    contains_chars(l, &p)
}

impl InputPolicy for SecureInputPolicy {
    open spec fn permits(&self, event: InputEvent) -> bool {
        match event {
            InputEvent::KeyDown { keysym, .. } => keysym != SYSRQ_KEYSYM,
            InputEvent::KeyUp { keysym, .. } => keysym != SYSRQ_KEYSYM,
            InputEvent::Hotkey { combo } => !forbidden_hotkey(combo@),
            _ => true,
        }
    }

    fn is_allowed(&self, event: &InputEvent) -> (r: bool) {
        match event {
            InputEvent::KeyDown { keysym, .. } => *keysym != SYSRQ_KEYSYM,
            InputEvent::KeyUp { keysym, .. } => *keysym != SYSRQ_KEYSYM,
            InputEvent::Hotkey { combo } => {
                let lower = to_lowercase(combo.as_str());
                let l = chars_of(lower.as_str());
                let bad = has(&l, "ctrl") && has(&l, "alt") && (
                    has(&l, "f1") || has(&l, "f2") || has(&l, "f3") || has(&l, "f4")
                    || has(&l, "f5") || has(&l, "f6") || has(&l, "f7") || has(&l, "f8")
                    || has(&l, "f9") || has(&l, "f10") || has(&l, "f11") || has(&l, "f12")
                    || has(&l, "del") || has(&l, "backspace"));
                !bad
            },
            _ => true,
        }
    }
}

/// The SysRq key is never let through, pressed or released.
pub proof fn lemma_sysrq_refused(keycode: u32)
    ensures
        !SecureInputPolicy.permits(InputEvent::KeyDown { keycode, keysym: 0xFF15 }),
        !SecureInputPolicy.permits(InputEvent::KeyUp { keycode, keysym: 0xFF15 }),
{
}

/// A hotkey whose lower-cased text names Ctrl and Alt together with any of
/// the function keys F1 to F12, Del or Backspace is refused.
pub proof fn lemma_console_hotkeys_refused(combo: String)
    ensures
        ({
            let l = lowercase(combo@);
            contains_spec(l, "ctrl"@) && contains_spec(l, "alt"@) && (
                contains_spec(l, "f1"@) || contains_spec(l, "f2"@) || contains_spec(l, "f3"@)
                || contains_spec(l, "f4"@) || contains_spec(l, "f5"@) || contains_spec(l, "f6"@)
                || contains_spec(l, "f7"@) || contains_spec(l, "f8"@) || contains_spec(l, "f9"@)
                || contains_spec(l, "f10"@) || contains_spec(l, "f11"@) || contains_spec(l, "f12"@)
                || contains_spec(l, "del"@) || contains_spec(l, "backspace"@))
        }) ==> !SecureInputPolicy.permits(InputEvent::Hotkey { combo }),
{
}

/// A hotkey whose lower-cased text does not name both Ctrl and Alt is let
/// through, as are every key other than SysRq, text, and every mouse event.
pub proof fn lemma_other_input_passes(combo: String, text: String, keycode: u32, keysym: u32, x: u16, y: u16,
    button: MouseButton, delta: i16)
    ensures
        !(contains_spec(lowercase(combo@), "ctrl"@) && contains_spec(lowercase(combo@), "alt"@))
            ==> SecureInputPolicy.permits(InputEvent::Hotkey { combo }),
        keysym != 0xFF15 ==> SecureInputPolicy.permits(InputEvent::KeyDown { keycode, keysym }),
        keysym != 0xFF15 ==> SecureInputPolicy.permits(InputEvent::KeyUp { keycode, keysym }),
        SecureInputPolicy.permits(InputEvent::TextInput { text }),
        SecureInputPolicy.permits(InputEvent::MouseMove { x, y }),
        SecureInputPolicy.permits(InputEvent::MouseDown { button }),
        SecureInputPolicy.permits(InputEvent::MouseUp { button }),
        SecureInputPolicy.permits(InputEvent::MouseScroll { delta }),
{
}

}
