//! Desktop session bookkeeping: resume tokens, display allocation, the
//! session manager, the session listing and sessions on a real host.
pub mod continuity;
pub mod traits;
pub mod allocator;
pub mod backends;
pub mod manager;
pub mod listing;
pub mod hosted;
