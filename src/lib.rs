//! Node-side dataplane of a local LLM gateway: endpoint registry, model
//! routing, proxy request accounting and the agent/observer fan-out fabric.
//!
//! Every decision the daemon takes lives here with its contract; the daemon
//! itself only performs I/O and hands plain values to these functions.

pub mod text;
pub mod glob;
pub mod endpoint;
pub mod error;
pub mod node;
pub mod config;
pub mod metrics;
pub mod registry;
pub mod discovery;
pub mod proxy;
pub mod fabric;
pub mod slug;
pub mod wireguard;
pub mod summary;
pub mod control;
