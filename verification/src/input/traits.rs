//! Interfaces of the input subsystem.
use vstd::prelude::*;
use crate::input::events::InputEvent;
use crate::shared_types::MouseButton;

verus! {

/// Why an input event was not injected.
#[derive(Debug, Clone, Copy, PartialEq, Eq, Structural)]
pub enum InjectError {
    /// The security policy refused the event.
    Rejected,
}

pub trait KeyboardMapper {
    fn map_key(&self, keycode: u32, layout: &str) -> Option<u32>;
}

pub trait MouseMapper {
    fn map_button(&self, button: MouseButton) -> Option<u8>;
}

/// Decides which input events may reach the desktop.
pub trait InputPolicy {
    spec fn permits(&self, event: InputEvent) -> bool;

    fn is_allowed(&self, event: &InputEvent) -> (r: bool)
        ensures
            r == self.permits(*event);
}

/// Receives one record per injection decision.
pub trait InputAuditSink {
    /// The records the sink holds: (event type, details), oldest first.
    spec fn kept(&self) -> Seq<(Seq<char>, Seq<char>)>;

    /// Whether the sink keeps the records it is given.
    spec fn keeps(&self) -> bool;

    /// Record an event: a keeping sink adds it after the others, any other
    /// sink is left as it was.
    fn audit_event(&mut self, event_type: &str, details: &str)
        ensures
            final(self).keeps() == old(self).keeps(),
            final(self).kept() == if old(self).keeps() {
                old(self).kept().push((event_type@, details@))
            } else {
                old(self).kept()
            };
}

/// Delivers input events to a desktop.
pub trait InputInjector {
    fn inject(&mut self, event: InputEvent) -> Result<(), InjectError>;
}

}
