//! The error codes of the daemon.
use vstd::prelude::*;

verus! {

pub const AGENT_UNAVAILABLE: i32 = -32000;

pub const INVALID_INPUT: i32 = -32001;

pub const TERMINAL_NOT_FOUND: i32 = -32002;

pub const GIT_FAILED: i32 = -32003;

pub const FS_FAILED: i32 = -32004;

} // verus!
