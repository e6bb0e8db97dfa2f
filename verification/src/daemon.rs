//! The daemon: agents, terminals, files and repositories of one machine.
pub mod agents;
pub mod connection;
pub mod daemon_lock;
pub mod frames;
pub mod fs;
pub mod git;
pub mod laws;
pub mod machine;
pub mod nano;
pub mod outbox;
pub mod rpc;
pub mod terminal;
