//! One daemon per name of a machine: the lock file, and what is said where it cannot be had.
use crate::common::paths;
use crate::common::paths::{daemon_dir, join_path};
use vstd::prelude::*;

verus! {

/// The lock file of a machine in a directory.
pub fn lock_path_in(dir: &str, machine: &str) -> (r: String)
    ensures
        r@ == paths::joined(dir@, machine@ + ".lock"@),
{
    let file: String = machine.to_owned().concat(".lock");
    join_path(dir, file.as_str())
}

/// The lock file of a machine, for the home directory of amux.
pub fn lock_path(home: &str, machine: &str) -> (r: String)
    ensures
        r@ == paths::joined(paths::joined(home@, "daemon"@), machine@ + ".lock"@),
{
    let dir: String = daemon_dir(home);
    lock_path_in(dir.as_str(), machine)
}

/// What came of the attempt to lock.
pub enum LockAttempt {
    /// The lock is held.
    Locked,
    /// The directory cannot be made; the text says why.
    NoDirectory(String),
    /// The file cannot be opened; the text says why.
    NotOpened(String),
    /// Another process holds the lock.
    Held,
    /// Locking failed; the text says why.
    Failed(String),
}

fn about(before: &str, place: &str, between: &str, cause: &str) -> (r: String)
    ensures
        r@ == before@ + place@ + between@ + cause@,
{
    let mut r: String = before.to_owned();
    r.append(place);
    r.append(between);
    r.append(cause);
    r
}

/// Whether the daemon of a machine may run, and what is said where it may not.
pub fn acquire_in(dir: &str, machine: &str, attempt: LockAttempt) -> (r: Result<(), String>)
    ensures
        r is Ok <==> attempt is Locked,
        ({
            let path = paths::joined(dir@, machine@ + ".lock"@);
            match attempt {
                LockAttempt::Locked => true,
                LockAttempt::NoDirectory(cause) => r->Err_0@ == "创建 Daemon 锁目录失败（"@ + dir@
                    + "）: "@ + cause@,
                LockAttempt::NotOpened(cause) => r->Err_0@ == "打开 Daemon 锁文件失败（"@ + path
                    + "）: "@ + cause@,
                LockAttempt::Held => r->Err_0@ == "机器「"@ + machine@
                    + "」已有 Daemon 正在运行，锁文件: "@ + path,
                LockAttempt::Failed(cause) => r->Err_0@ == "获取 Daemon 排他锁失败（"@ + path
                    + "）: "@ + cause@,
            }
        }),
{
    let path: String = lock_path_in(dir, machine);
    match attempt {
        LockAttempt::Locked => Ok(()),
        LockAttempt::NoDirectory(cause) => Err(
            about("创建 Daemon 锁目录失败（", dir, "）: ", cause.as_str()),
        ),
        LockAttempt::NotOpened(cause) => Err(
            about("打开 Daemon 锁文件失败（", path.as_str(), "）: ", cause.as_str()),
        ),
        LockAttempt::Held => Err(
            about("机器「", machine, "」已有 Daemon 正在运行，锁文件: ", path.as_str()),
        ),
        LockAttempt::Failed(cause) => Err(
            about("获取 Daemon 排他锁失败（", path.as_str(), "）: ", cause.as_str()),
        ),
    }
}

} // verus!
