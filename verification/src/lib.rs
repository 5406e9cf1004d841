//! Policy and entity stores of an authorization agent, with the rules that
//! keep them in step with the files they are loaded from.
//!
//! - [`config`]: the agent's settings and how several sources become one.
//! - [`schemas`]: the records that the stores hold.
//! - [`services::validator`]: what the policy engine accepts.
//! - [`services::policies`], [`services::data`]: the two stores, one request
//!   at a time; [`services::policy_laws`]: what holds over several requests.
//! - [`services::shared`]: the stores behind a lock, for many tasks.
//! - [`services::fingerprint`], [`services::file_watcher`]: how a change of
//!   a watched file is seen and what it does to a store.
//! - [`services::decision`]: what the engine is handed for one request.

pub mod config;
pub mod schemas;
pub mod services;
