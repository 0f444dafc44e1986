//! Framing and message formats of the remote-desktop wire protocol.
pub mod wire;
pub mod capabilities;
pub mod frame;
pub mod input;
pub mod file;
pub mod control;
