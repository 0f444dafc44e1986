//! Remote input: events, the injection policy and the injectors.
pub mod events;
pub mod traits;
pub mod policy;
pub mod injectors;
