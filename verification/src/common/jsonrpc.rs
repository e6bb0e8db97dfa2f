//! The envelopes of JSON-RPC 2.0 and its error codes.
pub mod rpc_error;
pub mod server_error;

use vstd::prelude::*;

verus! {

/// What ties a response to its request.
#[derive(Debug, Clone, PartialEq, Eq)]
pub enum JsonRpcId {
    Number(u64),
    String(String),
}

impl From<u64> for JsonRpcId {
    fn from(n: u64) -> (r: Self) {
        JsonRpcId::Number(n)
    }
}

impl vstd::std_specs::convert::FromSpecImpl<u64> for JsonRpcId {
    open spec fn obeys_from_spec() -> bool {
        true
    }

    open spec fn from_spec(n: u64) -> Self {
        JsonRpcId::Number(n)
    }
}

/// A request.
#[derive(Debug, Clone)]
pub struct JsonRpcRequest {
    pub jsonrpc: String,
    pub id: JsonRpcId,
    pub method: String,
    pub params: Option<serde_json::Value>,
}

impl JsonRpcRequest {
    /// A request with a number for its identity.
    pub fn new(id: u64, method: String, params: serde_json::Value) -> (r: Self)
        ensures
            r.jsonrpc@ == "2.0"@,
            r.id == JsonRpcId::Number(id),
            r.method == method,
            r.params == Some(params),
    {
        JsonRpcRequest {
            jsonrpc: "2.0".to_owned(),
            id: JsonRpcId::Number(id),
            method,
            params: Some(params),
        }
    }
}

/// A message that has no response.
#[derive(Debug, Clone)]
pub struct JsonRpcNotification {
    pub jsonrpc: String,
    pub method: String,
    pub params: Option<serde_json::Value>,
}

impl JsonRpcNotification {
    /// A notification with parameters.
    pub fn new(method: String, params: serde_json::Value) -> (r: Self)
        ensures
            r.jsonrpc@ == "2.0"@,
            r.method == method,
            r.params == Some(params),
    {
        JsonRpcNotification { jsonrpc: "2.0".to_owned(), method, params: Some(params) }
    }
}

/// What went wrong with a request.
#[derive(Debug, Clone)]
pub struct JsonRpcError {
    pub code: i32,
    pub message: String,
    pub data: Option<serde_json::Value>,
}

/// The answer to a request: a result or an error.
#[derive(Debug, Clone)]
pub struct JsonRpcResponse {
    pub jsonrpc: String,
    pub id: JsonRpcId,
    pub result: Option<serde_json::Value>,
    pub error: Option<JsonRpcError>,
}

impl JsonRpcResponse {
    /// It has a result or an error, and not both.
    pub open spec fn well_formed(self) -> bool {
        &&& self.jsonrpc@ == "2.0"@
        &&& self.result is Some <==> self.error is None
    }

    /// The answer to a request that succeeded.
    pub fn ok(id: JsonRpcId, result: serde_json::Value) -> (r: Self)
        ensures
            r.well_formed(),
            r.id == id,
            r.result == Some(result),
    {
        JsonRpcResponse { jsonrpc: "2.0".to_owned(), id, result: Some(result), error: None }
    }

    /// The answer to a request that failed.
    pub fn error(id: JsonRpcId, code: i32, message: String) -> (r: Self)
        ensures
            r.well_formed(),
            r.id == id,
            r.error == Some(JsonRpcError { code, message, data: None }),
    {
        JsonRpcResponse {
            jsonrpc: "2.0".to_owned(),
            id,
            result: None,
            error: Some(JsonRpcError { code, message, data: None }),
        }
    }
}

} // verus!
