//! Terminals: which are open, what goes into them, and what the server is told of them.
//!
//! A terminal belongs to a session; the server decides how long it lives. The daemon passes bytes
//! on: those that come in go to the terminal, those that it puts out go to the server in base64.
use super::frames::notification;
use super::rpc::{RpcError, RpcResult};
use crate::common::domain::{
    TerminalIdParams, TerminalInputParams, TerminalOpenParams, TerminalResizeParams,
};
use crate::common::jsonrpc::{rpc_error, server_error};
use crate::encoding;
use crate::encoding::{base64_decode, base64_encode};
use crate::ids;
use crate::ids::new_id;
use crate::json;
use crate::json::{json_member, json_members2, json_quote};
use crate::table;
use crate::table::Table;
use vstd::prelude::*;

verus! {

/// The terminals that are open, each with what it is held by.
pub struct TerminalRegistry<H> {
    terminals: Table<H>,
}

/// What becomes of a piece of a terminal's output.
pub enum PumpStep<H> {
    /// This frame goes to the server.
    Output(String),
    /// The terminal is gone, and this frame goes to the server. What it was held by comes along.
    Exit(Option<H>, String),
}

/// What can go wrong when a terminal is opened.
#[derive(Debug, Clone, Copy, PartialEq, Eq, Structural)]
pub enum OpenFailure {
    Pty,
    Shell,
    Writer,
    Reader,
    WaitThread,
    InputThread,
    OutputThread,
}

/// What is said of it.
pub open spec fn open_failure_text(failure: OpenFailure) -> Seq<char> {
    match failure {
        OpenFailure::Pty => "PTY 分配失败: "@,
        OpenFailure::Shell => "shell 启动失败: "@,
        OpenFailure::Writer => "PTY writer 获取失败: "@,
        OpenFailure::Reader => "PTY reader 获取失败: "@,
        OpenFailure::WaitThread => "等待线程启动失败: "@,
        OpenFailure::InputThread => "输入线程启动失败: "@,
        OpenFailure::OutputThread => "输出线程启动失败: "@,
    }
}

/// The error of a terminal that could not be opened.
pub fn open_failed(failure: OpenFailure, cause: &str) -> (r: RpcError)
    ensures
        r.code == rpc_error::INTERNAL_ERROR,
        r.message@ == open_failure_text(failure) + cause@,
{
    let mut message: String = match failure {
        OpenFailure::Pty => "PTY 分配失败: ".to_owned(),
        OpenFailure::Shell => "shell 启动失败: ".to_owned(),
        OpenFailure::Writer => "PTY writer 获取失败: ".to_owned(),
        OpenFailure::Reader => "PTY reader 获取失败: ".to_owned(),
        OpenFailure::WaitThread => "等待线程启动失败: ".to_owned(),
        OpenFailure::InputThread => "输入线程启动失败: ".to_owned(),
        OpenFailure::OutputThread => "输出线程启动失败: ".to_owned(),
    };
    message.append(cause);
    RpcError::internal(message)
}

/// A size that no terminal can have.
pub open spec fn bad_size(error: RpcError) -> bool {
    error.code == rpc_error::INVALID_PARAMS && error.message@ == "终端行列必须为正"@
}

/// A terminal that is not there.
pub open spec fn missing(error: RpcError) -> bool {
    error.code == server_error::TERMINAL_NOT_FOUND && error.message@
        == "终端不存在或已关闭"@
}

/// The error of a terminal that is not there.
pub fn not_found() -> (r: RpcError)
    ensures
        missing(r),
{
    RpcError {
        code: server_error::TERMINAL_NOT_FOUND,
        message: "终端不存在或已关闭".to_owned(),
    }
}

/// Whether a terminal can be opened: it needs columns and rows, and a directory to begin in.
pub fn check_open(params: &TerminalOpenParams, cwd_is_dir: bool) -> (r: RpcResult<()>)
    ensures
        if params.cols == 0 || params.rows == 0 {
            r is Err && bad_size(r->Err_0)
        } else if !cwd_is_dir {
            r is Err && r->Err_0.code == server_error::INVALID_INPUT && r->Err_0.message@
                == "终端 cwd 不存在或不是目录: "@ + params.cwd@
        } else {
            r is Ok
        },
{
    if params.cols == 0 || params.rows == 0 {
        return Err(RpcError::invalid_params("终端行列必须为正".to_owned()));
    }
    if !cwd_is_dir {
        let mut message: String = "终端 cwd 不存在或不是目录: ".to_owned();
        message.append(params.cwd.as_str());
        return Err(RpcError::invalid_input(message));
    }
    Ok(())
}

/// The frame that carries a piece of a terminal's output.
pub open spec fn output_frame_text(id: Seq<char>, chunk: Seq<u8>) -> Seq<char> {
    "{\"jsonrpc\":\"2.0\",\"method\":"@ + json::json_quoted("terminal.output"@)
        + ",\"params\":"@ + json::members2(
        "terminalId"@,
        json::json_quoted(id),
        "data"@,
        json::json_quoted(encoding::base64_text(chunk)),
    ) + "}"@
}

/// The frame that tells that a terminal is gone.
pub open spec fn exit_frame_text(id: Seq<char>) -> Seq<char> {
    "{\"jsonrpc\":\"2.0\",\"method\":"@ + json::json_quoted("terminal.exit"@) + ",\"params\":"@
        + json::member("terminalId"@, json::json_quoted(id)) + "}"@
}

impl<H> TerminalRegistry<H> {
    /// The terminals that are open, under their identities.
    pub closed spec fn view(&self) -> Map<Seq<char>, H> {
        self.terminals@
    }

    /// No terminal is open.
    pub fn new() -> (r: Self)
        ensures
            r@ == Map::<Seq<char>, H>::empty(),
    {
        TerminalRegistry { terminals: Table::new() }
    }

    /// A terminal was opened. What comes back is its identity.
    pub fn open(&mut self, handle: H) -> (r: String)
        ensures
            ids::hyphenated(r@),
            final(self)@ == old(self)@.insert(r@, handle),
    {
        let id: String = new_id();
        let _ = self.register(id.clone(), handle);
        id
    }

    /// Puts a terminal under an identity.
    pub fn register(&mut self, id: String, handle: H) -> (r: Option<H>)
        ensures
            final(self)@ == old(self)@.insert(id@, handle),
            r is Some <==> old(self)@.contains_key(id@),
            r matches Some(h) ==> h == old(self)@[id@],
    {
        self.terminals.insert(id, handle)
    }

    fn entry(&self, id: &str) -> (r: RpcResult<&H>)
        ensures
            r is Ok <==> self@.contains_key(id@),
            r matches Ok(handle) ==> *handle == self@[id@],
            r matches Err(error) ==> missing(error),
    {
        match self.terminals.get(id) {
            Some(handle) => Ok(handle),
            None => Err(not_found()),
        }
    }

    /// The bytes that go into a terminal, and what the terminal is held by.
    pub fn input(&self, params: &TerminalInputParams) -> (r: RpcResult<(&H, Vec<u8>)>)
        ensures
            ({
                let decoded = encoding::base64_bytes(params.data@);
                if !self@.contains_key(params.terminal_id@) {
                    r is Err && missing(r->Err_0)
                } else if decoded is Err {
                    r is Err && r->Err_0.code == rpc_error::INVALID_PARAMS && r->Err_0.message@
                        == "输入不是合法 base64: "@ + decoded->Err_0
                } else {
                    r is Ok && *r->Ok_0.0 == self@[params.terminal_id@] && r->Ok_0.1@
                        == decoded->Ok_0
                }
            }),
    {
        let handle: &H = match self.entry(params.terminal_id.as_str()) {
            Ok(handle) => handle,
            Err(error) => return Err(error),
        };
        match base64_decode(params.data.as_str()) {
            Ok(bytes) => Ok((handle, bytes)),
            Err(error) => {
                let mut message: String = "输入不是合法 base64: ".to_owned();
                message.append(error.as_str());
                Err(RpcError::invalid_params(message))
            },
        }
    }

    /// What a terminal that is to get another size is held by.
    pub fn resize(&self, params: &TerminalResizeParams) -> (r: RpcResult<&H>)
        ensures
            if params.cols == 0 || params.rows == 0 {
                r is Err && bad_size(r->Err_0)
            } else if !self@.contains_key(params.terminal_id@) {
                r is Err && missing(r->Err_0)
            } else {
                r is Ok && *r->Ok_0 == self@[params.terminal_id@]
            },
    {
        if params.cols == 0 || params.rows == 0 {
            return Err(RpcError::invalid_params("终端行列必须为正".to_owned()));
        }
        self.entry(params.terminal_id.as_str())
    }

    /// Takes a terminal out; what it is held by is to be ended.
    pub fn close(&mut self, params: &TerminalIdParams) -> (r: RpcResult<H>)
        ensures
            final(self)@ == old(self)@.remove(params.terminal_id@),
            r is Ok <==> old(self)@.contains_key(params.terminal_id@),
            r matches Ok(handle) ==> handle == old(self)@[params.terminal_id@],
            r matches Err(error) ==> missing(error),
    {
        match self.terminals.remove(params.terminal_id.as_str()) {
            Some(handle) => Ok(handle),
            None => Err(not_found()),
        }
    }

    /// A terminal put something out; nothing means that it ended. When it ended it is taken out
    /// before the server is told, so that nothing can be done with it once the server knows.
    pub fn pump(&mut self, id: &str, chunk: &[u8]) -> (r: PumpStep<H>)
        ensures
            if chunk@.len() == 0 {
                &&& final(self)@ == old(self)@.remove(id@)
                &&& r matches PumpStep::Exit(handle, frame) && frame@ == exit_frame_text(id@) && (
                handle is Some <==> old(self)@.contains_key(id@)) && (handle is Some ==> handle->0
                    == old(self)@[id@])
            } else {
                &&& final(self)@ == old(self)@
                &&& r matches PumpStep::Output(frame) && frame@ == output_frame_text(id@, chunk@)
            },
    {
        if chunk.len() == 0 {
            let handle: Option<H> = self.terminals.remove(id);
            let params: String = json_member("terminalId", json_quote(id).as_str());
            return PumpStep::Exit(handle, notification("terminal.exit", params.as_str()));
        }
        let data: String = base64_encode(chunk);
        let params: String = json_members2(
            "terminalId",
            json_quote(id).as_str(),
            "data",
            json_quote(data.as_str()).as_str(),
        );
        PumpStep::Output(notification("terminal.output", params.as_str()))
    }

    /// Takes all terminals out; what they are held by is to be ended.
    pub fn shutdown_all(&mut self) -> (r: Vec<H>)
        ensures
            final(self)@ == Map::<Seq<char>, H>::empty(),
            table::all_values(r@, old(self)@),
    {
        self.terminals.drain()
    }
}

/// The error of a terminal that takes no more input.
pub fn input_closed() -> (r: RpcError)
    ensures
        r.code == rpc_error::INTERNAL_ERROR,
        r.message@ == "终端输入通道已关闭"@,
{
    RpcError::internal("终端输入通道已关闭".to_owned())
}

/// The error of a terminal whose size could not be changed.
pub fn resize_failed(cause: &str) -> (r: RpcError)
    ensures
        r.code == rpc_error::INTERNAL_ERROR,
        r.message@ == "resize 失败: "@ + cause@,
{
    let mut message: String = "resize 失败: ".to_owned();
    message.append(cause);
    RpcError::internal(message)
}

} // verus!
