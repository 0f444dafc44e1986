//! Verified core of a remote graphical access system: wire protocol, access
//! control, session bookkeeping, transfer and input policies.
pub mod text;
pub mod shared_types;
pub mod protocol;
pub mod security;
pub mod clock;
pub mod session;
pub mod audit;
pub mod keyed;
pub mod file_transfer;
pub mod input;
pub mod clipboard;
pub mod config;
pub mod parse;
pub mod json;
pub mod os_pal;
pub mod relay;
pub mod agent;
pub mod api;
pub mod replies;
pub mod client;
