//! Core logic of a distributed runtime that hosts long-lived WebAssembly
//! guests: module hashing, the generational resource table, the SQL and
//! key/value capability models, gossip mailboxes, the persistent catalog
//! model, the per-guest supervisor state machine, and the server command
//! loop decisions.

pub mod api;
pub mod catalog;
pub mod gossip;
pub mod hashing;
pub mod json;
pub mod kv;
pub mod resource;
pub mod server;
pub mod sqlhost;
pub mod sqlsession;
pub mod sqlstats;
pub mod sqlvalue;
pub mod supervisor;
