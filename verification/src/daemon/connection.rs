//! The connection to the server: where it leads, what the handshake says, what each frame asks
//! for and how each request is answered. While there is no connection, frames wait in the outbox.
use super::frames;
use super::frames::{error_response, response};
use super::rpc::{RpcError, RpcResult};
use crate::common::daemon::header::encode_machine;
use crate::common::daemon::{method, notify};
use crate::common::jsonrpc::{
    rpc_error, server_error, JsonRpcId, JsonRpcNotification, JsonRpcRequest,
};
use crate::json;
use crate::percent;
use crate::strings;
use crate::strings::{chars_of, contains_char, find, same, string_of, trim_end};
use vstd::prelude::*;
use vstd::utf8::*;

verus! {

/// How long to wait before the next attempt to connect, in seconds.
pub const RECONNECT_INTERVAL: u64 = 60;

/// An address without its scheme.
pub open spec fn after_scheme(server: Seq<char>) -> Seq<char> {
    match strings::position(server, "://"@) {
        Some(n) => server.skip(n as int + 3),
        None => server,
    }
}

/// The endpoint of an address: the daemons' own one where the address names no path.
pub open spec fn endpoint(server: Seq<char>) -> Seq<char> {
    if after_scheme(server).contains('/') {
        server
    } else {
        strings::trim_end_char(server, '/') + "/daemon"@
    }
}

/// The endpoint of an address: the daemons' own one where the address names no path.
pub fn with_daemon_path(server: &str) -> (r: String)
    ensures
        r@ == endpoint(server@),
{
    proof {
        reveal_strlit("://");
    }
    let chars: Vec<char> = chars_of(server);
    let total: usize = chars.len();
    let rest: String = match find(server, "://") {
        Some(n) => {
            assert(n + 3 <= total);
            string_of(&chars, n + 3, total)
        },
        None => server.to_owned(),
    };
    proof {
        assert(rest@ =~= after_scheme(server@));
    }
    if contains_char(rest.as_str(), '/') {
        server.to_owned()
    } else {
        trim_end(server, '/').concat("/daemon")
    }
}

/// What the daemon says when it connects.
pub struct Handshake {
    /// Where it connects to.
    pub url: String,
    /// The value of the header that carries the token.
    pub authorization: String,
    /// The value of the header that names the machine.
    pub machine: String,
}

/// The handshake of a machine with a server.
pub fn handshake(server: &str, token: &str, machine: &str) -> (r: Handshake)
    ensures
        r.url@ == endpoint(server@),
        r.authorization@ == "Bearer "@ + token@,
        r.machine@ == percent::percent_text(encode_utf8(machine@), false),
{
    Handshake {
        url: with_daemon_path(server),
        authorization: "Bearer ".to_owned().concat(token),
        machine: encode_machine(machine),
    }
}

/// Where a connection failed.
#[derive(Debug, Clone, Copy, PartialEq, Eq, Structural)]
pub enum ConnectFailure {
    Address,
    Token,
    Machine,
    Handshake,
    Receive,
}

impl ConnectFailure {
    /// What is said before the cause.
    pub open spec fn text(self) -> Seq<char> {
        match self {
            ConnectFailure::Address => "Server 地址非法: "@,
            ConnectFailure::Token => "token 含非法字符: "@,
            ConnectFailure::Machine => "机器名编码失败: "@,
            ConnectFailure::Handshake => "握手失败: "@,
            ConnectFailure::Receive => "接收失败: "@,
        }
    }
}

/// What is said of a connection that failed.
pub fn connect_failed(failure: ConnectFailure, cause: &str) -> (r: String)
    ensures
        r@ == failure.text() + cause@,
{
    let mut r: String = match failure {
        ConnectFailure::Address => "Server 地址非法: ",
        ConnectFailure::Token => "token 含非法字符: ",
        ConnectFailure::Machine => "机器名编码失败: ",
        ConnectFailure::Handshake => "握手失败: ",
        ConnectFailure::Receive => "接收失败: ",
    }.to_owned();
    r.append(cause);
    r
}

/// A message of the WebSocket.
pub enum SocketMessage {
    Text(String),
    Binary,
    Ping,
    Pong,
    Frame,
    Close,
}

/// What a message of the WebSocket asks for.
pub enum Reception {
    /// A frame to take apart.
    Dispatch(String),
    /// Nothing.
    Ignore,
    /// The end of the connection.
    Stop,
}

/// Only text is taken apart; there is no heartbeat, and closing ends the connection.
pub fn received(message: SocketMessage) -> (r: Reception)
    ensures
        match message {
            SocketMessage::Text(text) => r == Reception::Dispatch(text),
            SocketMessage::Close => r is Stop,
            _ => r is Ignore,
        },
{
    match message {
        SocketMessage::Text(text) => Reception::Dispatch(text),
        SocketMessage::Close => Reception::Stop,
        SocketMessage::Binary => Reception::Ignore,
        SocketMessage::Ping => Reception::Ignore,
        SocketMessage::Pong => Reception::Ignore,
        SocketMessage::Frame => Reception::Ignore,
    }
}

/// What a frame asks for.
pub enum Dispatch {
    /// To carry a request out and answer it.
    Request(JsonRpcRequest),
    /// To hand a message to an agent; the value names both.
    Forward(serde_json::Value),
    /// Nothing: it is not JSON.
    NotJson,
    /// Nothing: the daemon asks nothing, so it expects no answer.
    NoMethod,
    /// Nothing: it is neither a request nor a notification.
    Unreadable,
    /// Nothing: the daemon does not know the notification.
    UnknownNotification(String),
    /// Nothing: the notification carries no message.
    NoParams,
}

/// Whether a text is JSON, and if so, whether it is an object with a member of that name, as
/// `serde_json` reads it.
pub uninterp spec fn json_names(text: Seq<char>, name: Seq<char>) -> Option<bool>;

/// `serde_json::from_str` and `serde_json::Value::get`: nothing where the text cannot be read, and
/// else whether the value has a member of that name. It depends on the arguments alone. What counts
/// as JSON is not said.
#[verifier::external_body]
fn names_member(text: &str, name: &str) -> (r: Option<bool>)
    ensures
        r == json_names(text@, name@),
{
    serde_json::from_str::<serde_json::Value>(text).ok().map(|value| value.get(name).is_some())
}

/// What a frame asks for, given how it reads as a request and as a notification.
pub fn dispatch(
    text: &str,
    request: Option<JsonRpcRequest>,
    notification: Option<JsonRpcNotification>,
) -> (r: Dispatch)
    ensures
        asked(json_names(text@, "method"@), request, notification, r),
{
    dispatch_read(names_member(text, "method"), request, notification)
}

/// What a frame asks for. `named` tells whether the frame names a method, and is nothing where the
/// frame is not JSON. What names a method is taken as a request, and as a notification where it is
/// none.
pub open spec fn asked(
    named: Option<bool>,
    request: Option<JsonRpcRequest>,
    notification: Option<JsonRpcNotification>,
    r: Dispatch,
) -> bool {
    match named {
        None => r is NotJson,
        Some(false) => r is NoMethod,
        Some(true) => match (request, notification) {
            (Some(request), _) => r == Dispatch::Request(request),
            (None, Some(notification)) => notified(notification, r),
            (None, None) => r is Unreadable,
        },
    }
}

/// What a frame asks for, once it is known whether it names a method.
pub fn dispatch_read(
    named: Option<bool>,
    request: Option<JsonRpcRequest>,
    notification: Option<JsonRpcNotification>,
) -> (r: Dispatch)
    ensures
        asked(named, request, notification, r),
{
    match named {
        None => Dispatch::NotJson,
        Some(false) => Dispatch::NoMethod,
        Some(true) => match (request, notification) {
            (Some(request), _) => Dispatch::Request(request),
            (None, Some(notification)) => handle_notification(notification),
            (None, None) => Dispatch::Unreadable,
        },
    }
}

/// What comes of a notification: only `acp` with parameters is taken up.
pub open spec fn notified(notification: JsonRpcNotification, r: Dispatch) -> bool {
    if notification.method@ != "acp"@ {
        r == Dispatch::UnknownNotification(notification.method)
    } else {
        match notification.params {
            Some(params) => r == Dispatch::Forward(params),
            None => r is NoParams,
        }
    }
}

/// What comes of a notification.
pub fn handle_notification(notification: JsonRpcNotification) -> (r: Dispatch)
    ensures
        notified(notification, r),
{
    if !same(notification.method.as_str(), notify::ACP) {
        return Dispatch::UnknownNotification(notification.method);
    }
    match notification.params {
        Some(params) => Dispatch::Forward(params),
        None => Dispatch::NoParams,
    }
}

/// What the server can ask of the daemon.
#[derive(Debug, Clone, Copy, PartialEq, Eq, Structural)]
pub enum Call {
    MachineInfo,
    AgentList,
    AgentRestart,
    GitDiff,
    GitWorktreeNew,
    GitWorktreeResume,
    GitWorktreeList,
    GitWorktreeRemove,
    FsList,
    FsRead,
    TerminalOpen,
    TerminalResize,
    TerminalInput,
    TerminalClose,
}

impl Call {
    /// The method that asks for it.
    pub open spec fn method(self) -> Seq<char> {
        match self {
            Call::MachineInfo => "machine.info"@,
            Call::AgentList => "agent.list"@,
            Call::AgentRestart => "agent.restart"@,
            Call::GitDiff => "git.diff"@,
            Call::GitWorktreeNew => "git.worktree.new"@,
            Call::GitWorktreeResume => "git.worktree.resume"@,
            Call::GitWorktreeList => "git.worktree.list"@,
            Call::GitWorktreeRemove => "git.worktree.remove"@,
            Call::FsList => "fs.list"@,
            Call::FsRead => "fs.read"@,
            Call::TerminalOpen => "terminal.open"@,
            Call::TerminalResize => "terminal.resize"@,
            Call::TerminalInput => "terminal.input"@,
            Call::TerminalClose => "terminal.close"@,
        }
    }
}

/// What a method asks for; an error where there is no such method.
pub fn call_of(name: &str) -> (r: RpcResult<Call>)
    ensures
        r matches Ok(call) ==> call.method() == name@,
        r matches Err(error) ==> {
            &&& forall|call: Call| #[trigger] call.method() != name@
            &&& error.code == rpc_error::METHOD_NOT_FOUND
            &&& error.message@ == "方法不存在: "@ + name@
        },
{
    if same(name, method::MACHINE_INFO) {
        return Ok(Call::MachineInfo);
    }
    if same(name, method::AGENT_LIST) {
        return Ok(Call::AgentList);
    }
    if same(name, method::AGENT_RESTART) {
        return Ok(Call::AgentRestart);
    }
    if same(name, method::GIT_DIFF) {
        return Ok(Call::GitDiff);
    }
    if same(name, method::GIT_WORKTREE_NEW) {
        return Ok(Call::GitWorktreeNew);
    }
    if same(name, method::GIT_WORKTREE_RESUME) {
        return Ok(Call::GitWorktreeResume);
    }
    if same(name, method::GIT_WORKTREE_LIST) {
        return Ok(Call::GitWorktreeList);
    }
    if same(name, method::GIT_WORKTREE_REMOVE) {
        return Ok(Call::GitWorktreeRemove);
    }
    if same(name, method::FS_LIST) {
        return Ok(Call::FsList);
    }
    if same(name, method::FS_READ) {
        return Ok(Call::FsRead);
    }
    if same(name, method::TERMINAL_OPEN) {
        return Ok(Call::TerminalOpen);
    }
    if same(name, method::TERMINAL_RESIZE) {
        return Ok(Call::TerminalResize);
    }
    if same(name, method::TERMINAL_INPUT) {
        return Ok(Call::TerminalInput);
    }
    if same(name, method::TERMINAL_CLOSE) {
        return Ok(Call::TerminalClose);
    }
    Err(RpcError::method_not_found(name))
}

/// What came of a request.
pub enum Work {
    /// Its result, as JSON text.
    Done(String),
    /// The parameters are not what the method takes; the text says why.
    BadParams(String),
    /// The agent cannot be reached; the text says why.
    AgentFailed(String),
    /// Git failed; the text says why.
    GitFailed(String),
    /// The file system failed; the text says why.
    FsFailed(String),
    /// The terminals refused it.
    Refused(RpcError),
    /// The result cannot be written; the text says why.
    NotWritten(String),
}

/// The outcome of a request for what came of it.
pub fn execute(work: Work) -> (r: RpcResult<String>)
    ensures
        match work {
            Work::Done(result) => r == Ok::<String, RpcError>(result),
            Work::BadParams(message) => r == Err::<String, RpcError>(
                RpcError { code: rpc_error::INVALID_PARAMS, message },
            ),
            Work::AgentFailed(message) => r == Err::<String, RpcError>(
                RpcError { code: server_error::AGENT_UNAVAILABLE, message },
            ),
            Work::GitFailed(message) => r == Err::<String, RpcError>(
                RpcError { code: server_error::GIT_FAILED, message },
            ),
            Work::FsFailed(message) => r == Err::<String, RpcError>(
                RpcError { code: server_error::FS_FAILED, message },
            ),
            Work::Refused(error) => r == Err::<String, RpcError>(error),
            Work::NotWritten(message) => r == Err::<String, RpcError>(
                RpcError { code: rpc_error::INTERNAL_ERROR, message },
            ),
        },
{
    match work {
        Work::Done(result) => Ok(result),
        Work::BadParams(message) => Err(RpcError::invalid_params(message)),
        Work::AgentFailed(message) => Err(RpcError::agent_unavailable(message)),
        Work::GitFailed(message) => Err(RpcError::git(message)),
        Work::FsFailed(message) => Err(RpcError::fs(message)),
        Work::Refused(error) => Err(error),
        Work::NotWritten(message) => Err(RpcError::internal(message)),
    }
}

/// The frame that answers a request: a result or an error, with the identity of the request.
pub fn handle_request(id: JsonRpcId, outcome: RpcResult<String>) -> (r: String)
    ensures
        match outcome {
            Ok(result) => r@ == "{\"jsonrpc\":\"2.0\",\"id\":"@ + frames::id_text(id)
                + ",\"result\":"@ + result@ + "}"@,
            Err(error) => r@ == "{\"jsonrpc\":\"2.0\",\"id\":"@ + frames::id_text(id)
                + ",\"error\":{\"code\":"@ + json::json_int(error.code as int) + ",\"message\":"@
                + json::json_quoted(error.message@) + "}}"@,
        },
{
    match outcome {
        Ok(result) => response(id, result.as_str()),
        Err(error) => error_response(id, error.code, error.message.as_str()),
    }
}

/// A method asks for one thing at most.
pub proof fn law_methods_are_distinct(a: Call, b: Call)
    requires
        a.method() == b.method(),
    ensures
        a == b,
{
    lemma_method_key(a);
    lemma_method_key(b);
}

/// The length of a method and three of its characters: no two methods share them.
spec fn method_key(s: Seq<char>) -> (nat, char, char, char) {
    (s.len(), s[0], s[3], if s.len() > 15 { s[15] } else if s.len() > 9 { s[9] } else { ' ' })
}

proof fn lemma_method_key(a: Call)
    ensures
        method_key(a.method()) == match a {
            Call::MachineInfo => (12nat, 'm', 'h', 'n'),
            Call::AgentList => (10nat, 'a', 'n', 't'),
            Call::AgentRestart => (13nat, 'a', 'n', 't'),
            Call::GitDiff => (8nat, 'g', '.', ' '),
            Call::GitWorktreeNew => (16nat, 'g', '.', 'w'),
            Call::GitWorktreeResume => (19nat, 'g', '.', 's'),
            Call::GitWorktreeList => (17nat, 'g', '.', 's'),
            Call::GitWorktreeRemove => (19nat, 'g', '.', 'm'),
            Call::FsList => (7nat, 'f', 'l', ' '),
            Call::FsRead => (7nat, 'f', 'r', ' '),
            Call::TerminalOpen => (13nat, 't', 'm', 'o'),
            Call::TerminalResize => (15nat, 't', 'm', 'r'),
            Call::TerminalInput => (14nat, 't', 'm', 'i'),
            Call::TerminalClose => (14nat, 't', 'm', 'c'),
        },
{
    reveal_strlit("machine.info");
    reveal_strlit("agent.list");
    reveal_strlit("agent.restart");
    reveal_strlit("git.diff");
    reveal_strlit("git.worktree.new");
    reveal_strlit("git.worktree.resume");
    reveal_strlit("git.worktree.list");
    reveal_strlit("git.worktree.remove");
    reveal_strlit("fs.list");
    reveal_strlit("fs.read");
    reveal_strlit("terminal.open");
    reveal_strlit("terminal.resize");
    reveal_strlit("terminal.input");
    reveal_strlit("terminal.close");
}

} // verus!
