//! Verified core of a two-store file synchroniser.
//!
//! A local store and a remote store each hold files; a fingerprint
//! (`FileInfo`) captures a file's identity path, modification time and
//! content digest.  The library decides, per identity, whether to push,
//! pull or do nothing, and models the effect of those transfers.

pub mod config;
pub mod digest;
pub mod info;
pub mod server;
pub mod paths;
pub mod reconcile;
pub mod store;
pub mod walk;
