//! The connection to the server: where it is kept, and when it is complete.
use crate::common::paths;
use crate::common::paths::join_path;
use crate::strings;
use crate::strings::{is_blank, trim, trim_end};
use vstd::prelude::*;

verus! {

/// The address of the server and the token that it knows the user by.
#[derive(Debug, PartialEq)]
pub struct Connection {
    pub server: String,
    pub token: String,
}

impl Clone for Connection {
    fn clone(&self) -> (r: Self)
        ensures
            r == *self,
    {
        Connection { server: self.server.clone(), token: self.token.clone() }
    }
}

impl Default for Connection {
    fn default() -> (r: Self)
        ensures
            r.server@.len() == 0,
            r.token@.len() == 0,
    {
        Connection { server: String::new(), token: String::new() }
    }
}

impl Connection {
    /// Both the address and the token are given.
    pub open spec fn configured(self) -> bool {
        !strings::blank(self.server@) && !strings::blank(self.token@)
    }

    /// Whether both the address and the token are given.
    pub fn is_configured(&self) -> (r: bool)
        ensures
            r == self.configured(),
    {
        !is_blank(self.server.as_str()) && !is_blank(self.token.as_str())
    }

    /// The address without white space around it and without slashes at its end.
    pub open spec fn base(self) -> Seq<char> {
        strings::trim_end_char(strings::trim_of(self.server@), '/')
    }

    /// The address without white space around it and without slashes at its end.
    pub fn base_url(&self) -> (r: String)
        ensures
            r@ == self.base(),
    {
        trim_end(trim(self.server.as_str()).as_str(), '/')
    }
}

/// The directory of the desktop client, for the home directory of amux.
pub fn app_dir(home: &str) -> (r: String)
    ensures
        r@ == paths::joined(home@, "app"@),
{
    join_path(home, "app")
}

/// The file of the connection, for the home directory of amux.
pub fn connection_path(home: &str) -> (r: String)
    ensures
        r@ == paths::joined(paths::joined(home@, "app"@), "server.json"@),
{
    let dir: String = app_dir(home);
    join_path(dir.as_str(), "server.json")
}

/// The connection that was read; an empty one where there is no file or it says none.
pub fn load(read: Option<Connection>) -> (r: Connection)
    ensures
        read matches Some(connection) ==> r == connection,
        read is None ==> r.server@.len() == 0 && r.token@.len() == 0,
{
    match read {
        Some(connection) => connection,
        None => Connection::default(),
    }
}

/// Where saving the connection failed.
#[derive(Debug, Clone, Copy, PartialEq, Eq, Structural)]
pub enum SaveFailure {
    Directory,
    Encoding,
    Write,
}

/// What is said where the connection cannot be saved.
pub fn save_failed(failure: SaveFailure, path: &str, cause: &str) -> (r: String)
    ensures
        r@ == match failure {
            SaveFailure::Directory => "创建配置目录失败: "@ + cause@,
            SaveFailure::Encoding => "序列化失败: "@ + cause@,
            SaveFailure::Write => "写入 "@ + path@ + " 失败: "@ + cause@,
        },
{
    let mut r: String = String::new();
    match failure {
        SaveFailure::Directory => r.append("创建配置目录失败: "),
        SaveFailure::Encoding => r.append("序列化失败: "),
        SaveFailure::Write => {
            r.append("写入 ");
            r.append(path);
            r.append(" 失败: ");
        },
    }
    r.append(cause);
    r
}

} // verus!
