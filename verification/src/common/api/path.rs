//! The paths of the client API.
use vstd::prelude::*;

verus! {

pub const MACHINES: &'static str = "/machines";

pub const SESSIONS: &'static str = "/sessions";

pub const WORKFLOWS: &'static str = "/workflows";

pub const CONFIG_SKILLS: &'static str = "/config/skills/";

pub const CONFIG_WORKFLOWS: &'static str = "/config/workflows/";

pub const CONFIG_RECENT_WORKSPACES: &'static str = "/config/recent_workspaces/";

pub const CONFIG_QUICK_COMMANDS: &'static str = "/config/quick_commands/";

pub const CONFIG_AGENT: &'static str = "/config/agent/";

pub const CONFIG_PROJECTS: &'static str = "/config/projects/";

} // verus!
