//! The daemon protocol: what server and daemon say to each other over the WebSocket.
pub mod header;
pub mod method;
pub mod notify;

use vstd::prelude::*;

verus! {

/// What a machine is.
#[derive(Debug, Clone, PartialEq, Eq)]
pub struct MachineInfo {
    pub name: String,
    pub os: String,
    pub arch: String,
    pub hostname: String,
    /// The directory for temporary files.
    pub temp_dir: String,
    /// The version of the daemon.
    pub version: String,
}

/// An agent that was found on a machine.
#[derive(Debug, Clone, PartialEq, Eq)]
pub struct DiscoveredAgent {
    pub name: String,
    /// Its process runs.
    pub running: bool,
}

/// The agents that were found on a machine.
#[derive(Debug, Clone, PartialEq)]
pub struct AgentListResult {
    pub agents: Vec<DiscoveredAgent>,
}

/// Names an agent.
#[derive(Debug, Clone, PartialEq)]
pub struct AgentParams {
    pub agent: String,
}

/// A message to or from an agent, as the JSON text it is.
#[derive(Debug, Clone, PartialEq, Eq)]
pub struct AcpForward {
    pub agent: String,
    pub raw: String,
}

/// Names a repository.
#[derive(Debug, Clone, PartialEq)]
pub struct GitRepoParams {
    pub repo: String,
}

/// What to take back in a repository: a file, or the lines of a patch.
#[derive(Debug, Clone, PartialEq)]
pub struct GitRestoreParams {
    pub repo: String,
    pub path: Option<String>,
    pub patch: Option<String>,
}

/// A worktree that was made or taken up again.
#[derive(Debug, Clone, PartialEq, Eq)]
pub struct WorktreeResult {
    pub worktree_dir: String,
}

/// Names a worktree of a repository.
#[derive(Debug, Clone, PartialEq)]
pub struct WorktreePathParams {
    pub repo: String,
    pub path: String,
}

/// The worktrees of a repository.
#[derive(Debug, Clone, PartialEq)]
pub struct WorktreeListResult {
    pub worktrees: Vec<String>,
}

} // verus!
