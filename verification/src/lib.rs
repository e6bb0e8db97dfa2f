//! The logic of amux: what its daemon, its shared protocol types and its desktop
//! client decide and compute, without the sockets, processes, files and windows
//! around it.
use vstd::prelude::*;

pub mod common;
pub mod daemon;
pub mod desktop;
pub mod encoding;
pub mod ids;
pub mod json;
pub mod percent;
pub mod sorting;
pub mod strings;
pub mod table;

verus! {

} // verus!
