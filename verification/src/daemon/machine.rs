//! What the machine is.
use crate::common::daemon::MachineInfo;
use crate::strings;
use crate::strings::trim;
use vstd::prelude::*;

verus! {

/// The name of the host, for the value of `HOSTNAME` and the text of the file that holds it.
pub open spec fn host_of(set: Option<Seq<char>>, file: Option<Seq<char>>) -> Seq<char> {
    if set is Some && set->0.len() > 0 {
        set->0
    } else if file is Some && strings::trim_of(file->0).len() > 0 {
        strings::trim_of(file->0)
    } else {
        "unknown"@
    }
}

/// The view of a text that may be missing.
pub open spec fn seen(text: Option<&str>) -> Option<Seq<char>> {
    match text {
        Some(text) => Some(text@),
        None => None,
    }
}

/// The name of the host: `HOSTNAME` where it is set and not empty, else what the file says, else
/// `unknown`.
pub fn hostname(set: Option<&str>, file: Option<&str>) -> (r: String)
    ensures
        r@ == host_of(seen(set), seen(file)),
{
    match set {
        Some(value) => {
            if !value.is_empty() {
                return value.to_owned();
            }
        },
        None => {},
    }
    match file {
        Some(text) => {
            let name: String = trim(text);
            if !name.as_str().is_empty() {
                return name;
            }
        },
        None => {},
    }
    "unknown".to_owned()
}

/// What the daemon found out about its process and its system.
pub struct Platform<'a> {
    pub os: &'a str,
    pub arch: &'a str,
    /// The value of `HOSTNAME`.
    pub host_set: Option<&'a str>,
    /// The text of the file that holds the name of the host.
    pub host_file: Option<&'a str>,
    pub temp_dir: &'a str,
    pub version: &'a str,
}

/// What the machine of a given name is.
pub fn machine_info(name: &str, platform: &Platform) -> (r: MachineInfo)
    ensures
        r.name@ == name@,
        r.os@ == platform.os@,
        r.arch@ == platform.arch@,
        r.hostname@ == host_of(seen(platform.host_set), seen(platform.host_file)),
        r.temp_dir@ == platform.temp_dir@,
        r.version@ == platform.version@,
{
    MachineInfo {
        name: name.to_owned(),
        os: platform.os.to_owned(),
        arch: platform.arch.to_owned(),
        hostname: hostname(platform.host_set, platform.host_file),
        temp_dir: platform.temp_dir.to_owned(),
        version: platform.version.to_owned(),
    }
}

} // verus!
