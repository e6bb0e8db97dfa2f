//! The methods that the server calls on the daemon.
use vstd::prelude::*;

verus! {

/// What the machine is.
pub const MACHINE_INFO: &'static str = "machine.info";

/// Which agents are installed, and which of them run.
pub const AGENT_LIST: &'static str = "agent.list";

/// Start an agent, or start it again.
pub const AGENT_RESTART: &'static str = "agent.restart";

pub const GIT_DIFF: &'static str = "git.diff";

pub const GIT_RESTORE: &'static str = "git.restore";

pub const GIT_WORKTREE_NEW: &'static str = "git.worktree.new";

pub const GIT_WORKTREE_RESUME: &'static str = "git.worktree.resume";

pub const GIT_WORKTREE_LIST: &'static str = "git.worktree.list";

pub const GIT_WORKTREE_REMOVE: &'static str = "git.worktree.remove";

pub const FS_LIST: &'static str = "fs.list";

pub const FS_READ: &'static str = "fs.read";

pub const TERMINAL_OPEN: &'static str = "terminal.open";

pub const TERMINAL_RESIZE: &'static str = "terminal.resize";

pub const TERMINAL_INPUT: &'static str = "terminal.input";

pub const TERMINAL_CLOSE: &'static str = "terminal.close";

} // verus!
