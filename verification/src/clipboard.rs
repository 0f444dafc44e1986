//! Clipboard synchronisation between client and host.
pub mod traits;
pub mod policy;
pub mod providers;
pub mod sync;
