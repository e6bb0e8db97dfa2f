//! What goes wrong with a request.
use crate::common::jsonrpc::{rpc_error, server_error};
use vstd::prelude::*;

verus! {

/// The error of a request: its code and what is said of it.
#[derive(Debug, Clone, PartialEq)]
pub struct RpcError {
    pub code: i32,
    pub message: String,
}

/// The outcome of a request.
pub type RpcResult<T> = Result<T, RpcError>;

impl RpcError {
    /// The parameters are not what the method takes.
    pub fn invalid_params(message: String) -> (r: Self)
        ensures
            r == (RpcError { code: rpc_error::INVALID_PARAMS, message }),
    {
        RpcError { code: rpc_error::INVALID_PARAMS, message }
    }

    /// The input cannot be used.
    pub fn invalid_input(message: String) -> (r: Self)
        ensures
            r == (RpcError { code: server_error::INVALID_INPUT, message }),
    {
        RpcError { code: server_error::INVALID_INPUT, message }
    }

    /// The daemon itself failed.
    pub fn internal(message: String) -> (r: Self)
        ensures
            r == (RpcError { code: rpc_error::INTERNAL_ERROR, message }),
    {
        RpcError { code: rpc_error::INTERNAL_ERROR, message }
    }

    /// The agent cannot be reached.
    pub fn agent_unavailable(message: String) -> (r: Self)
        ensures
            r == (RpcError { code: server_error::AGENT_UNAVAILABLE, message }),
    {
        RpcError { code: server_error::AGENT_UNAVAILABLE, message }
    }

    /// Git failed.
    pub fn git(message: String) -> (r: Self)
        ensures
            r == (RpcError { code: server_error::GIT_FAILED, message }),
    {
        RpcError { code: server_error::GIT_FAILED, message }
    }

    /// The file system failed.
    pub fn fs(message: String) -> (r: Self)
        ensures
            r == (RpcError { code: server_error::FS_FAILED, message }),
    {
        RpcError { code: server_error::FS_FAILED, message }
    }

    /// There is no such method.
    pub fn method_not_found(method: &str) -> (r: Self)
        ensures
            r.code == rpc_error::METHOD_NOT_FOUND,
            r.message@ == "方法不存在: "@ + method@,
    {
        let mut message: String = "方法不存在: ".to_owned();
        message.append(method);
        RpcError { code: rpc_error::METHOD_NOT_FOUND, message }
    }
}

} // verus!
