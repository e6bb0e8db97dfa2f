//! The notifications: `acp` goes both ways, the others from the daemon to the server.
use vstd::prelude::*;

verus! {

/// A message to or from an agent.
pub const ACP: &'static str = "acp";

/// What a terminal put out.
pub const TERMINAL_OUTPUT: &'static str = "terminal.output";

/// A terminal's process ended.
pub const TERMINAL_EXIT: &'static str = "terminal.exit";

} // verus!
