//! One turn of the built-in agent: what its conversation becomes, what the client is told of it,
//! and how it ends.
use super::shell::MAX_TIMEOUT_SECONDS;
use crate::common::api;
use crate::common::api::{
    json_insert, json_object, NANO_ERROR_META_KEY, NANO_ERROR_STOP_REASON,
};
use crate::common::model::LoopMessage;
use crate::strings;
use crate::strings::decimal_of;
use vstd::prelude::*;

verus! {

/// How often the model is asked in one turn.
pub const MAX_MODEL_CALLS: usize = 32;

/// What the model is told of itself.
pub const PREAMBLE: &'static str = "你是 Nano，使用 shell 工具在指定工作目录中完成用户任务。";

/// The name of the one tool that there is.
pub const TOOL_NAME: &'static str = "shell";

/// What the model is told of the tool.
pub const TOOL_DESCRIPTION: &'static str = "在会话工作目录通过 sh -c 执行命令。返回退出状态、stdout 和 stderr；每个输出流最多保留末尾 2000 行或 50 KiB，超出部分丢弃，完整输出写入临时文件并在结果里给出路径。可选 timeout（秒），超时会终止整个进程组。";

/// What the model is told of the time limit of a command.
pub fn timeout_description() -> (r: String)
    ensures
        r@ == "超时秒数（1-"@ + strings::decimal(86400) + "），缺省不超时"@,
{
    let mut r: String = "超时秒数（1-".to_owned();
    r.append(decimal_of(MAX_TIMEOUT_SECONDS).as_str());
    r.append("），缺省不超时");
    r
}

/// The time limit that a command was given: none, or one of at least a second and at most a day.
pub fn checked_timeout(timeout: Option<u64>) -> (r: Result<Option<u64>, String>)
    ensures
        match timeout {
            None => r is Ok && r->Ok_0 is None,
            Some(seconds) => if seconds == 0 {
                r is Err && r->Err_0@ == "timeout 必须大于 0 秒"@
            } else if seconds > MAX_TIMEOUT_SECONDS {
                r is Err && r->Err_0@ == "timeout 最大为 "@ + strings::decimal(86400) + " 秒"@
            } else {
                r is Ok && r->Ok_0 == Some(seconds)
            },
        },
{
    match timeout {
        None => Ok(None),
        Some(seconds) => {
            if seconds == 0 {
                Err("timeout 必须大于 0 秒".to_owned())
            } else if seconds > MAX_TIMEOUT_SECONDS {
                let mut message: String = "timeout 最大为 ".to_owned();
                message.append(decimal_of(MAX_TIMEOUT_SECONDS).as_str());
                message.append(" 秒");
                Err(message)
            } else {
                Ok(Some(seconds))
            }
        },
    }
}

/// What the model is told when it calls a tool that there is not.
pub fn unknown_tool(name: &str) -> (r: String)
    ensures
        r@ == "工具执行失败：未知工具: "@ + name@,
{
    let mut r: String = "工具执行失败：未知工具: ".to_owned();
    r.append(name);
    r
}

/// How far a tool has come.
#[derive(Debug, Clone, Copy, PartialEq, Eq, Structural)]
pub enum ToolStatus {
    InProgress,
    Completed,
    Failed,
}

/// The state that the client is told of a tool that has run.
pub fn tool_status(failed: bool) -> (r: ToolStatus)
    ensures
        r == if failed {
            ToolStatus::Failed
        } else {
            ToolStatus::Completed
        },
{
    if failed {
        ToolStatus::Failed
    } else {
        ToolStatus::Completed
    }
}

/// The identity under which the client is told of a call: the one that the model gave it, or the
/// internal one.
pub fn tool_call_id(given: Option<String>, internal: String) -> (r: String)
    ensures
        r == match given {
            Some(id) => id,
            None => internal,
        },
{
    match given {
        Some(id) => id,
        None => internal,
    }
}

/// How asking the model ended.
pub enum RunEnd {
    /// The model answered. The messages of this turn, where they are known.
    Answered(Option<Vec<LoopMessage>>),
    /// The model was asked as often as it may be. The whole conversation.
    LimitReached(Vec<LoopMessage>),
    /// The model could not be asked.
    Failed(String),
    /// There was no way to ask the model; the text says why. Nothing was said.
    NotSetUp(String),
}

/// The conversation of a turn.
pub struct Conversation {
    /// What was said before the turn.
    pub previous: Vec<LoopMessage>,
    /// What the user said.
    pub prompt: LoopMessage,
    /// What the model was last asked with, once it was asked.
    pub asked: Option<Vec<LoopMessage>>,
}

impl Conversation {
    /// What is kept if the turn is stopped now.
    pub open spec fn kept(&self) -> Seq<LoopMessage> {
        match self.asked {
            Some(messages) => messages@,
            None => self.previous@.push(self.prompt),
        }
    }

    /// A turn begins: the user's text follows what was said before.
    pub fn new(previous: Vec<LoopMessage>, text: String) -> (r: Self)
        ensures
            r.previous == previous,
            r.kept() == previous@.push(LoopMessage::User(text)),
    {
        Conversation { previous, prompt: LoopMessage::User(text), asked: None }
    }

    /// The model is about to be asked: what it is asked with is kept. At such a point every tool
    /// that was called has its result, so a turn that is stopped leaves no call without one.
    pub fn about_to_ask(&mut self, history: Vec<LoopMessage>, prompt: LoopMessage)
        ensures
            final(self).previous == old(self).previous,
            final(self).kept() == history@.push(prompt),
    {
        let mut all: Vec<LoopMessage> = history;
        all.push(prompt);
        self.asked = Some(all);
    }

    /// The turn was stopped: what is left of the conversation.
    pub fn stopped(self) -> (r: Vec<LoopMessage>)
        ensures
            r@ == self.kept(),
    {
        match self.asked {
            Some(messages) => messages,
            None => {
                let mut all: Vec<LoopMessage> = self.previous;
                all.push(self.prompt);
                all
            },
        }
    }

    /// The turn came to its end: what the conversation is now, and the error that the user is
    /// told, if there was one.
    pub fn ended(self, end: RunEnd) -> (r: (Vec<LoopMessage>, Option<String>))
        ensures
            match end {
                RunEnd::Answered(Some(messages)) => {
                    &&& r.1 is None
                    &&& r.0@ == self.previous@ + messages@
                },
                RunEnd::Answered(None) => {
                    &&& r.1 is None
                    &&& r.0@ == self.kept()
                },
                RunEnd::LimitReached(all) => {
                    &&& r.1 is None
                    &&& r.0@ == all@
                },
                RunEnd::Failed(error) => {
                    &&& r.1 is Some && r.1->0@ == "模型调用失败: "@ + error@
                    &&& r.0@ == self.kept()
                },
                RunEnd::NotSetUp(error) => {
                    &&& r.1 == Some(error)
                    &&& r.0@ == self.previous@
                },
            },
    {
        match end {
            RunEnd::Answered(Some(messages)) => {
                let mut more: Vec<LoopMessage> = messages;
                let mut all: Vec<LoopMessage> = self.previous;
                all.append(&mut more);
                (all, None)
            },
            RunEnd::Answered(None) => (self.stopped(), None),
            RunEnd::LimitReached(all) => (all, None),
            RunEnd::Failed(error) => {
                let mut message: String = "模型调用失败: ".to_owned();
                message.append(error.as_str());
                (self.stopped(), Some(message))
            },
            RunEnd::NotSetUp(error) => (self.previous, Some(error)),
        }
    }
}

/// What goes with the word that a turn has ended: where it failed, one member that says why.
pub fn idle_meta(failure: &Option<String>) -> (r: Option<
    serde_json::Map<String, serde_json::Value>,
>)
    ensures
        match failure {
            Some(error) => r matches Some(meta) && api::json_texts(meta) == api::no_texts().insert(
                "_nanoError"@,
                Some(error@),
            ) && api::json_members(meta) == api::no_members(),
            None => r is None,
        },
{
    match failure {
        Some(error) => {
            let mut meta: serde_json::Map<String, serde_json::Value> = json_object();
            json_insert(&mut meta, NANO_ERROR_META_KEY, error.as_str());
            assert(api::json_members(meta) =~= api::no_members());
            Some(meta)
        },
        None => None,
    }
}

/// Why a turn ended, as the client is told.
#[derive(Debug, PartialEq)]
pub enum StopReason {
    Cancelled,
    EndTurn,
    Other(String),
}

/// Why a turn ended that was cancelled or came to its end with or without an error.
pub fn stop_reason(cancelled: bool, failed: bool) -> (r: StopReason)
    ensures
        cancelled ==> r is Cancelled,
        !cancelled && !failed ==> r is EndTurn,
        !cancelled && failed ==> r is Other && r->Other_0@ == NANO_ERROR_STOP_REASON@,
{
    if cancelled {
        StopReason::Cancelled
    } else if failed {
        StopReason::Other(NANO_ERROR_STOP_REASON.to_owned())
    } else {
        StopReason::EndTurn
    }
}

} // verus!
