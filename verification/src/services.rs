//! The stores, the record validator and the file watcher's decisions.

pub mod data;
pub mod decision;
pub mod file_watcher;
pub mod fingerprint;
pub mod identifiers;
pub mod policies;
pub mod policy_laws;
pub mod shared;
pub mod validator;
