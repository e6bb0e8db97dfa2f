//! The tool loop of the built-in agent: a model is asked, the tools it calls are run, and it is
//! asked again with their results, until it answers with text alone.
use super::api::{ApiFormat, OrchestratorConfig};
use crate::json;
use crate::json::{json_member, json_quote};
use crate::strings;
use crate::strings::{is_blank, join, trim};
use vstd::prelude::*;

verus! {

/// How often a model is asked in one go.
pub const MAX_TOOL_TURNS: usize = 32;

/// A part of what a model thought.
#[derive(Debug, Clone, PartialEq)]
pub enum ReasoningPart {
    Text(String),
    Summary(String),
    /// Not meant to be read.
    Encrypted(String),
    /// Not meant to be read.
    Redacted(String),
}

/// A tool that a model wants to be run, with its arguments as JSON text.
#[derive(Debug, PartialEq)]
pub struct ToolRequest {
    pub id: String,
    pub name: String,
    pub arguments: String,
}

impl Clone for ToolRequest {
    fn clone(&self) -> (r: Self)
        ensures
            r == *self,
    {
        ToolRequest {
            id: self.id.clone(),
            name: self.name.clone(),
            arguments: self.arguments.clone(),
        }
    }
}

/// A part of what a model answered.
#[derive(Debug, Clone, PartialEq)]
pub enum AssistantPart {
    Text(String),
    Reasoning(Vec<ReasoningPart>),
    ToolCall(ToolRequest),
    /// Anything else, such as an image.
    Other(String),
}

/// The answer of a model.
#[derive(Debug, Clone, PartialEq)]
pub struct ModelReply {
    pub message_id: Option<String>,
    pub parts: Vec<AssistantPart>,
}

/// What came of running a tool.
#[derive(Debug, Clone, PartialEq)]
pub struct ToolOutcome {
    pub id: String,
    pub name: String,
    pub text: String,
}

/// A message of the conversation with a model.
#[derive(Debug, Clone, PartialEq)]
pub enum LoopMessage {
    User(String),
    Assistant(ModelReply),
    Results(Vec<ToolOutcome>),
}

/// Something that is recorded of a model's answer.
#[derive(Debug, Clone, PartialEq)]
pub enum LoopRecord {
    Thinking(String),
    Text(String),
}

/// What has to be done next.
#[derive(Debug, PartialEq)]
pub enum LoopStep {
    /// Ask the model with the prompt and the history.
    Ask,
    /// Record this call, and then run the tool.
    Call(ToolRequest),
    /// There is nothing more to do.
    Finished(Result<String, String>),
}

/// The parts of what a model thought that can be read.
pub open spec fn readable(parts: Seq<ReasoningPart>) -> Seq<Seq<char>>
    decreases parts.len(),
{
    if parts.len() == 0 {
        Seq::empty()
    } else {
        let before = readable(parts.drop_last());
        match parts.last() {
            ReasoningPart::Text(text) => before.push(text@),
            ReasoningPart::Summary(text) => before.push(text@),
            ReasoningPart::Encrypted(_) => before,
            ReasoningPart::Redacted(_) => before,
        }
    }
}

/// What can be read of what a model thought: its parts on lines of their own.
pub fn reasoning_text(parts: &Vec<ReasoningPart>) -> (r: String)
    ensures
        r@ == strings::join_of(readable(parts@), "\n"@),
{
    let mut texts: Vec<String> = Vec::new();
    let mut i: usize = 0;
    while i < parts.len()
        invariant
            0 <= i <= parts@.len(),
            strings::views(texts@) == readable(parts@.take(i as int)),
        decreases parts.len() - i,
    {
        proof {
            assert(parts@.take(i + 1).drop_last() =~= parts@.take(i as int));
        }
        let ghost before = texts@;
        match &parts[i] {
            ReasoningPart::Text(text) => {
                texts.push(text.clone());
                proof {
                    assert(strings::views(texts@) =~= strings::views(before).push(text@));
                }
            },
            ReasoningPart::Summary(text) => {
                texts.push(text.clone());
                proof {
                    assert(strings::views(texts@) =~= strings::views(before).push(text@));
                }
            },
            ReasoningPart::Encrypted(_) => {},
            ReasoningPart::Redacted(_) => {},
        }
        i = i + 1;
    }
    proof {
        assert(parts@.take(i as int) =~= parts@);
    }
    join(&texts, "\n")
}

/// The text of an answer.
pub open spec fn answer_text(parts: Seq<AssistantPart>) -> Seq<char>
    decreases parts.len(),
{
    if parts.len() == 0 {
        Seq::empty()
    } else {
        let before = answer_text(parts.drop_last());
        match parts.last() {
            AssistantPart::Text(text) => before + text@,
            _ => before,
        }
    }
}

/// The tools that an answer calls, in order.
pub open spec fn answer_calls(parts: Seq<AssistantPart>) -> Seq<ToolRequest>
    decreases parts.len(),
{
    if parts.len() == 0 {
        Seq::empty()
    } else {
        let before = answer_calls(parts.drop_last());
        match parts.last() {
            AssistantPart::ToolCall(call) => before.push(call),
            _ => before,
        }
    }
}

/// The thoughts of an answer that are recorded: those of which something can be read.
pub open spec fn answer_thoughts(parts: Seq<AssistantPart>) -> Seq<Seq<char>>
    decreases parts.len(),
{
    if parts.len() == 0 {
        Seq::empty()
    } else {
        let before = answer_thoughts(parts.drop_last());
        match parts.last() {
            AssistantPart::Reasoning(thought) => {
                let text = strings::join_of(readable(thought@), "\n"@);
                if strings::blank(text) {
                    before
                } else {
                    before.push(text)
                }
            },
            _ => before,
        }
    }
}

/// A record and its text.
pub open spec fn record_view(record: LoopRecord) -> (bool, Seq<char>) {
    match record {
        LoopRecord::Thinking(text) => (true, text@),
        LoopRecord::Text(text) => (false, text@),
    }
}

/// What is recorded of an answer: its thoughts, and then its text where it has any.
pub open spec fn answer_records(parts: Seq<AssistantPart>) -> Seq<(bool, Seq<char>)> {
    let thoughts = answer_thoughts(parts).map_values(|t: Seq<char>| (true, t));
    if answer_text(parts).len() == 0 {
        thoughts
    } else {
        thoughts.push((false, answer_text(parts)))
    }
}

/// The text of an answer, put together from its parts.
pub fn text_of(parts: &Vec<AssistantPart>) -> (r: String)
    ensures
        r@ == answer_text(parts@),
{
    let mut text: String = String::new();
    let mut i: usize = 0;
    while i < parts.len()
        invariant
            0 <= i <= parts@.len(),
            text@ == answer_text(parts@.take(i as int)),
        decreases parts.len() - i,
    {
        proof {
            assert(parts@.take(i + 1).drop_last() =~= parts@.take(i as int));
        }
        match &parts[i] {
            AssistantPart::Text(part) => text.append(part.as_str()),
            _ => {},
        }
        i = i + 1;
    }
    proof {
        assert(parts@.take(i as int) =~= parts@);
    }
    text
}

/// What is recorded of an answer, in order.
pub fn records_of(parts: &Vec<AssistantPart>) -> (r: Vec<LoopRecord>)
    ensures
        r@.map_values(|x: LoopRecord| record_view(x)) == answer_records(parts@),
{
    let mut records: Vec<LoopRecord> = Vec::new();
    let ghost view = |x: LoopRecord| record_view(x);
    let ghost thought = |t: Seq<char>| (true, t);
    let mut i: usize = 0;
    proof {
        assert(records@.map_values(view) =~= answer_thoughts(parts@.take(0)).map_values(thought));
    }
    while i < parts.len()
        invariant
            0 <= i <= parts@.len(),
            view == (|x: LoopRecord| record_view(x)),
            thought == (|t: Seq<char>| (true, t)),
            records@.map_values(view) == answer_thoughts(parts@.take(i as int)).map_values(thought),
        decreases parts.len() - i,
    {
        proof {
            assert(parts@.take(i + 1).drop_last() =~= parts@.take(i as int));
        }
        match &parts[i] {
            AssistantPart::Reasoning(thoughts) => {
                let thinking: String = reasoning_text(thoughts);
                if !is_blank(thinking.as_str()) {
                    let ghost before = records@;
                    let ghost told = answer_thoughts(parts@.take(i as int));
                    let ghost said = thinking@;
                    records.push(LoopRecord::Thinking(thinking));
                    proof {
                        assert(records@.map_values(view) =~= before.map_values(view).push(
                            (true, said),
                        ));
                        assert(told.push(said).map_values(thought) =~= told.map_values(
                            thought,
                        ).push((true, said)));
                    }
                }
            },
            _ => {},
        }
        i = i + 1;
    }
    proof {
        assert(parts@.take(i as int) =~= parts@);
    }
    let text: String = text_of(parts);
    if !text.as_str().is_empty() {
        let ghost before = records@;
        let ghost said = text@;
        records.push(LoopRecord::Text(text));
        proof {
            assert(records@.map_values(view) =~= before.map_values(view).push((false, said)));
        }
    }
    records
}

/// The outcome of a tool as it is told to the model.
pub open spec fn outcome_text(outcome: Result<String, String>) -> Seq<char> {
    match outcome {
        Ok(text) => text@,
        Err(error) => "工具执行失败："@ + error@,
    }
}

/// The message of a loop that was stopped at its limit.
pub open spec fn limit_text() -> Seq<char> {
    "（本轮工具调度已达 32 次上限，已暂停；可继续输入消息推进）"@
}

/// The loop between a model and its tools.
pub struct ToolLoop {
    /// The conversation, without the prompt that the model is being asked.
    pub history: Vec<LoopMessage>,
    /// What the model is being asked.
    pub prompt: Option<LoopMessage>,
    /// How often the model has been asked.
    pub turns: usize,
    /// The tools that the last answer called.
    pub calls: Vec<ToolRequest>,
    /// What came of those that were run.
    pub results: Vec<ToolOutcome>,
}

impl ToolLoop {
    /// The tools are run in the order in which they were called, one at a time.
    pub open spec fn well_formed(&self) -> bool {
        &&& self.turns <= MAX_TOOL_TURNS
        &&& self.results@.len() <= self.calls@.len()
        &&& forall|i: int|
            0 <= i < self.results@.len() ==> (#[trigger] self.results@[i]).id@
                == self.calls@[i].id@ && self.results@[i].name@ == self.calls@[i].name@
    }

    /// The model is being asked.
    pub open spec fn asking(&self) -> bool {
        self.prompt is Some && self.calls@.len() == 0 && self.results@.len() == 0
    }

    /// A tool is being run.
    pub open spec fn calling(&self) -> bool {
        self.prompt is None && self.results@.len() < self.calls@.len()
    }

    /// A loop over a conversation, and its first step.
    pub fn new(history: Vec<LoopMessage>) -> (r: (Self, LoopStep))
        ensures
            r.0.well_formed(),
            r.0.turns == 0,
            history@.len() == 0 ==> r.1 is Finished && r.1->Finished_0 is Err
                && r.1->Finished_0->Err_0@ == "对话历史为空"@,
            history@.len() > 0 ==> r.1 is Ask && r.0.asking() && r.0.prompt == Some(history@.last())
                && r.0.history@ == history@.drop_last(),
    {
        let mut state: ToolLoop = ToolLoop {
            history,
            prompt: None,
            turns: 0,
            calls: Vec::new(),
            results: Vec::new(),
        };
        let step: LoopStep = state.ask();
        (state, step)
    }

    /// Takes the last message as the prompt, unless the limit is reached.
    fn ask(&mut self) -> (r: LoopStep)
        requires
            old(self).well_formed(),
            old(self).prompt is None,
            old(self).calls@.len() == 0,
        ensures
            final(self).well_formed(),
            final(self).turns == old(self).turns,
            final(self).calls@ == old(self).calls@,
            final(self).results@ == old(self).results@,
            if old(self).turns == MAX_TOOL_TURNS {
                &&& r is Finished && r->Finished_0 is Ok && r->Finished_0->Ok_0@ == limit_text()
                &&& final(self).history@ == old(self).history@
                &&& final(self).prompt is None
            } else if old(self).history@.len() == 0 {
                &&& r is Finished && r->Finished_0 is Err && r->Finished_0->Err_0@
                    == "对话历史为空"@
                &&& final(self).history@ == old(self).history@
                &&& final(self).prompt is None
            } else {
                &&& r is Ask
                &&& final(self).prompt == Some(old(self).history@.last())
                &&& final(self).history@ == old(self).history@.drop_last()
            },
    {
        if self.turns >= MAX_TOOL_TURNS {
            return LoopStep::Finished(
                Ok("（本轮工具调度已达 32 次上限，已暂停；可继续输入消息推进）".to_owned()),
            );
        }
        match self.history.pop() {
            Some(prompt) => {
                self.prompt = Some(prompt);
                proof {
                    assert(self.history@ =~= old(self).history@.drop_last());
                }
                LoopStep::Ask
            },
            None => LoopStep::Finished(Err("对话历史为空".to_owned())),
        }
    }

    /// The model answered, or could not be asked. What comes back is what is recorded of the
    /// answer, in order, and what to do next.
    pub fn replied(&mut self, reply: Result<ModelReply, String>) -> (r: (Vec<LoopRecord>, LoopStep))
        requires
            old(self).well_formed(),
            old(self).asking(),
            old(self).turns < MAX_TOOL_TURNS,
        ensures
            final(self).well_formed(),
            final(self).prompt is None,
            final(self).results@.len() == 0,
            match reply {
                Err(error) => {
                    &&& r.0@.len() == 0
                    &&& r.1 is Finished && r.1->Finished_0 is Err && r.1->Finished_0->Err_0@
                        == "模型调用失败: "@ + error@
                    &&& final(self).history@ == old(self).history@
                    &&& final(self).turns == old(self).turns
                },
                Ok(answer) => {
                    let parts = answer.parts@;
                    &&& r.0@.map_values(|x: LoopRecord| record_view(x)) == answer_records(parts)
                    &&& final(self).history@ == old(self).history@.push(old(self).prompt->0).push(
                        LoopMessage::Assistant(answer),
                    )
                    &&& final(self).turns == old(self).turns + 1
                    &&& final(self).calls@ == answer_calls(parts)
                    &&& answer_calls(parts).len() == 0 ==> r.1 is Finished && r.1->Finished_0 is Ok
                        && r.1->Finished_0->Ok_0@ == answer_text(parts)
                    &&& answer_calls(parts).len() > 0 ==> final(self).calling() && r.1 is Call
                        && r.1->Call_0 == answer_calls(parts)[0]
                },
            },
    {
        let prompt: Option<LoopMessage> = self.prompt.take();
        match reply {
            Err(error) => {
                let mut message: String = "模型调用失败: ".to_owned();
                message.append(error.as_str());
                (Vec::new(), LoopStep::Finished(Err(message)))
            },
            Ok(answer) => {
                match prompt {
                    Some(message) => self.history.push(message),
                    None => {},
                }
                let records: Vec<LoopRecord> = records_of(&answer.parts);
                let text: String = text_of(&answer.parts);
                let mut calls: Vec<ToolRequest> = Vec::new();
                let mut i: usize = 0;
                while i < answer.parts.len()
                    invariant
                        0 <= i <= answer.parts@.len(),
                        calls@ == answer_calls(answer.parts@.take(i as int)),
                    decreases answer.parts.len() - i,
                {
                    proof {
                        assert(answer.parts@.take(i + 1).drop_last() =~= answer.parts@.take(
                            i as int,
                        ));
                    }
                    match &answer.parts[i] {
                        AssistantPart::ToolCall(call) => calls.push(call.clone()),
                        _ => {},
                    }
                    i = i + 1;
                }
                proof {
                    assert(answer.parts@.take(i as int) =~= answer.parts@);
                }
                self.history.push(LoopMessage::Assistant(answer));
                self.turns = self.turns + 1;
                if calls.len() == 0 {
                    self.calls = calls;
                    (records, LoopStep::Finished(Ok(text)))
                } else {
                    let first: ToolRequest = calls[0].clone();
                    self.calls = calls;
                    (records, LoopStep::Call(first))
                }
            },
        }
    }

    /// The tool that was to be run gave a text or failed.
    pub fn tool_done(&mut self, outcome: Result<String, String>) -> (r: LoopStep)
        requires
            old(self).well_formed(),
            old(self).calling(),
        ensures
            final(self).well_formed(),
            final(self).turns == old(self).turns,
            ({
                let n = old(self).results@.len() as int;
                let call = old(self).calls@[n];
                let told = outcome_text(outcome);
                if n + 1 < old(self).calls@.len() {
                    &&& r is Call && r->Call_0 == old(self).calls@[n + 1]
                    &&& final(self).calling()
                    &&& final(self).calls@ == old(self).calls@
                    &&& final(self).history@ == old(self).history@
                    &&& final(self).results@.drop_last() == old(self).results@
                    &&& final(self).results@.last().id@ == call.id@
                    &&& final(self).results@.last().name@ == call.name@
                    &&& final(self).results@.last().text@ == told
                } else {
                    exists|done: LoopMessage| #[trigger]
                        results_message(done, old(self).calls@, old(self).results@, told) && (if old(
                            self,
                        ).turns == MAX_TOOL_TURNS {
                            &&& r is Finished && r->Finished_0 is Ok && r->Finished_0->Ok_0@
                                == limit_text()
                            &&& final(self).history@ == old(self).history@.push(done)
                        } else {
                            &&& r is Ask
                            &&& final(self).asking()
                            &&& final(self).prompt == Some(done)
                            &&& final(self).history@ == old(self).history@
                        })
                }
            }),
    {
        let n: usize = self.results.len();
        let total: usize = self.calls.len();
        let ghost told = outcome_text(outcome);
        let text: String = match outcome {
            Ok(text) => text,
            Err(error) => {
                let mut message: String = "工具执行失败：".to_owned();
                message.append(error.as_str());
                message
            },
        };
        let id: String = self.calls[n].id.clone();
        let name: String = self.calls[n].name.clone();
        let ghost before = self.results@;
        self.results.push(ToolOutcome { id, name, text });
        proof {
            assert(self.results@.drop_last() =~= before);
        }
        if n + 1 < total {
            return LoopStep::Call(self.calls[n + 1].clone());
        }
        let mut results: Vec<ToolOutcome> = Vec::new();
        results.append(&mut self.results);
        proof {
            assert(results@ =~= before.push(results@.last()));
            assert(results@.drop_last() =~= before);
        }
        self.calls.clear();
        let ghost done = LoopMessage::Results(results);
        self.history.push(LoopMessage::Results(results));
        proof {
            assert(text@ == told);
            assert(results_message(done, old(self).calls@, old(self).results@, told));
            assert(self.history@ == old(self).history@.push(done));
        }
        let step: LoopStep = self.ask();
        proof {
            assert(old(self).history@.push(done).drop_last() =~= old(self).history@);
        }
        step
    }
}

/// The message that tells the model what came of the tools it called: one outcome for each call,
/// in order, the last of which is the given text.
pub open spec fn results_message(
    message: LoopMessage,
    calls: Seq<ToolRequest>,
    before: Seq<ToolOutcome>,
    last: Seq<char>,
) -> bool {
    message matches LoopMessage::Results(results) && {
        &&& results@.len() == calls.len()
        &&& results@.drop_last() == before
        &&& results@.last().text@ == last
        &&& forall|i: int|
            0 <= i < calls.len() ==> (#[trigger] results@[i]).id@ == calls[i].id@
                && results@[i].name@ == calls[i].name@
    }
}

/// What is sent along so that the model thinks as hard as it is told to.
pub open spec fn effort_of(format: ApiFormat, effort: Seq<char>) -> Option<Seq<char>> {
    if strings::blank(effort) {
        None
    } else {
        let quoted = json::json_quoted(strings::trim_of(effort));
        Some(
            match format {
                ApiFormat::ChatCompletions => json::member("reasoning_effort"@, quoted),
                ApiFormat::Responses => json::member(
                    "reasoning"@,
                    json::member("effort"@, quoted),
                ),
                ApiFormat::Messages => json::member(
                    "output_config"@,
                    json::member("effort"@, quoted),
                ),
            },
        )
    }
}

/// What is sent along so that the model thinks as hard as it is told to, as JSON text; nothing
/// where it is not told.
pub fn effort_params(config: &OrchestratorConfig) -> (r: Option<String>)
    ensures
        r is Some <==> effort_of(config.api_format, config.effort@) is Some,
        r matches Some(text) ==> Some(text@) == effort_of(config.api_format, config.effort@),
{
    let effort: String = trim(config.effort.as_str());
    if is_blank(config.effort.as_str()) {
        return None;
    }
    let quoted: String = json_quote(effort.as_str());
    Some(
        match config.api_format {
            ApiFormat::ChatCompletions => json_member("reasoning_effort", quoted.as_str()),
            ApiFormat::Responses => json_member(
                "reasoning",
                json_member("effort", quoted.as_str()).as_str(),
            ),
            ApiFormat::Messages => json_member(
                "output_config",
                json_member("effort", quoted.as_str()).as_str(),
            ),
        },
    )
}

} // verus!
