//! What the daemon, the server and the desktop client share: protocol and domain types.
pub mod api;
pub mod daemon;
pub mod domain;
pub mod jsonrpc;
pub mod laws;
pub mod log;
pub mod model;
pub mod paths;
pub mod text;
