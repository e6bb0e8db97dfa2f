//! Where amux keeps its files: `~/.amux`, or the directory that `AMUX_HOME` names.
use crate::strings::chars_of;
use vstd::prelude::*;

verus! {

/// A child path under a base path: an absolute child stands for itself, and the separator is
/// not doubled.
pub open spec fn joined(base: Seq<char>, child: Seq<char>) -> Seq<char> {
    if child.len() > 0 && child[0] == '/' {
        child
    } else if base.len() == 0 || base.last() == '/' {
        base + child
    } else {
        base.push('/') + child
    }
}

/// Puts a child path under a base path.
pub fn join_path(base: &str, child: &str) -> (r: String)
    ensures
        r@ == joined(base@, child@),
{
    let b: Vec<char> = chars_of(base);
    let c: Vec<char> = chars_of(child);
    let mut out: String = String::new();
    if c.len() > 0 && c[0] == '/' {
        out.append(child);
        assert(out@ =~= child@);
        return out;
    }
    out.append(base);
    assert(out@ =~= base@);
    if b.len() > 0 && b[b.len() - 1] != '/' {
        out.push('/');
    }
    out.append(child);
    out
}

/// The home directory for given values of `AMUX_HOME` and `HOME`.
pub open spec fn home_of(chosen: Option<Seq<char>>, home: Option<Seq<char>>) -> Seq<char> {
    if chosen is Some && chosen->0.len() > 0 {
        chosen->0
    } else {
        joined(
            match home {
                Some(h) => h,
                None => "."@,
            },
            ".amux"@,
        )
    }
}

/// The directory of amux: `AMUX_HOME` where it is set and not empty, else `.amux` in `HOME`.
pub fn amux_home(chosen: Option<&str>, home: Option<&str>) -> (r: String)
    ensures
        r@ == home_of(
            match chosen {
                Some(s) => Some(s@),
                None => None,
            },
            match home {
                Some(s) => Some(s@),
                None => None,
            },
        ),
{
    match chosen {
        Some(dir) => {
            if !dir.is_empty() {
                return dir.to_owned();
            }
        },
        None => {},
    }
    match home {
        Some(dir) => join_path(dir, ".amux"),
        None => join_path(".", ".amux"),
    }
}

/// The root of the Git worktrees.
pub fn worktrees_dir(home: &str) -> (r: String)
    ensures
        r@ == joined(home@, "worktrees"@),
{
    join_path(home, "worktrees")
}

/// The directory of the log files.
pub fn logs_dir(home: &str) -> (r: String)
    ensures
        r@ == joined(home@, "logs"@),
{
    join_path(home, "logs")
}

/// The directory of the daemon's own files.
pub fn daemon_dir(home: &str) -> (r: String)
    ensures
        r@ == joined(home@, "daemon"@),
{
    join_path(home, "daemon")
}

/// The file of a named configuration.
pub fn config_file(home: &str, name: &str) -> (r: String)
    ensures
        r@ == joined(joined(home@, "config"@), name@ + ".json"@),
{
    let dir: String = join_path(home, "config");
    let file: String = name.to_owned().concat(".json");
    join_path(dir.as_str(), file.as_str())
}

} // verus!
