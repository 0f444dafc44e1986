//! File transfer: policy, digests, and the upload service.
pub mod traits;
pub mod policy;
pub mod hashing;
pub mod service;
pub mod manager;
