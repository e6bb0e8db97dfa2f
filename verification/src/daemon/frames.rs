//! The frames to the server: one JSON-RPC message per frame.
use crate::common::jsonrpc::JsonRpcId;
use crate::json;
use crate::json::{json_int_of, json_members2, json_quote};
use crate::strings;
use crate::strings::decimal_of;
use vstd::prelude::*;

verus! {

/// The JSON text of an identity.
pub open spec fn id_text(id: JsonRpcId) -> Seq<char> {
    match id {
        JsonRpcId::Number(n) => strings::decimal(n as nat),
        JsonRpcId::String(s) => json::json_quoted(s@),
    }
}

fn id_json(id: &JsonRpcId) -> (r: String)
    ensures
        r@ == id_text(*id),
{
    match id {
        JsonRpcId::Number(n) => decimal_of(*n),
        JsonRpcId::String(s) => json_quote(s.as_str()),
    }
}

/// A notification frame. The parameters are given as JSON text.
pub fn notification(method: &str, params: &str) -> (r: String)
    ensures
        r@ == "{\"jsonrpc\":\"2.0\",\"method\":"@ + json::json_quoted(method@) + ",\"params\":"@
            + params@ + "}"@,
{
    let mut r: String = "{\"jsonrpc\":\"2.0\",\"method\":".to_owned();
    r.append(json_quote(method).as_str());
    r.append(",\"params\":");
    r.append(params);
    r.append("}");
    r
}

/// The frame of a response that succeeded. The result is given as JSON text.
pub fn response(id: JsonRpcId, result: &str) -> (r: String)
    ensures
        r@ == "{\"jsonrpc\":\"2.0\",\"id\":"@ + id_text(id) + ",\"result\":"@ + result@ + "}"@,
{
    let mut r: String = "{\"jsonrpc\":\"2.0\",\"id\":".to_owned();
    r.append(id_json(&id).as_str());
    r.append(",\"result\":");
    r.append(result);
    r.append("}");
    r
}

/// The frame of a response that failed.
pub fn error_response(id: JsonRpcId, code: i32, message: &str) -> (r: String)
    ensures
        r@ == "{\"jsonrpc\":\"2.0\",\"id\":"@ + id_text(id) + ",\"error\":{\"code\":"@
            + json::json_int(code as int) + ",\"message\":"@ + json::json_quoted(message@) + "}}"@,
{
    let mut r: String = "{\"jsonrpc\":\"2.0\",\"id\":".to_owned();
    r.append(id_json(&id).as_str());
    r.append(",\"error\":{\"code\":");
    r.append(json_int_of(code).as_str());
    r.append(",\"message\":");
    r.append(json_quote(message).as_str());
    r.append("}}");
    r
}

/// The parameters of the notification that carries a message of an agent.
pub open spec fn acp_params(agent: Seq<char>, raw: Seq<char>) -> Seq<char> {
    json::members2("agent"@, json::json_quoted(agent), "raw"@, json::json_quoted(raw))
}

/// The frame that carries a message of an agent.
pub fn acp_frame(agent: &str, raw: &str) -> (r: String)
    ensures
        r@ == "{\"jsonrpc\":\"2.0\",\"method\":"@ + json::json_quoted("acp"@) + ",\"params\":"@
            + acp_params(agent@, raw@) + "}"@,
{
    let params: String = json_members2(
        "agent",
        json_quote(agent).as_str(),
        "raw",
        json_quote(raw).as_str(),
    );
    notification("acp", params.as_str())
}

} // verus!
