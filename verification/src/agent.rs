//! The server agent's decisions: the control channel, the connection
//! handshake, the platform layer, VNC and the installed applications.
pub mod command;
pub mod handshake;
pub mod platform;
pub mod vnc;
pub mod apps;
