//! Where the log files stand and what is logged by default.
use super::paths;
use super::paths::{join_path, logs_dir};
use vstd::prelude::*;

verus! {

/// amux logs from `info` on, its dependencies from `warn` on.
pub const DEFAULT_FILTER: &'static str = "warn,amux=info";

/// The number of daily log files that are kept.
pub const MAX_LOG_FILES: usize = 7;

/// The directory of the log files.
pub fn log_dir(home: &str) -> (r: String)
    ensures
        r@ == paths::joined(home@, "logs"@),
{
    logs_dir(home)
}

/// The log file of a component.
pub fn log_path(home: &str, name: &str) -> (r: String)
    ensures
        r@ == paths::joined(paths::joined(home@, "logs"@), name@ + ".log"@),
{
    let dir: String = log_dir(home);
    let file: String = name.to_owned().concat(".log");
    join_path(dir.as_str(), file.as_str())
}

} // verus!
