//! What holds of what the daemon and the client share.
use super::api::{ApiFormat, ConfigText, Session, Workflow};
use super::domain::{Activity, HistoryItem};
use super::model::{
    AssistantPart, LoopMessage, LoopRecord, ReasoningPart, ToolLoop, ToolOutcome, ToolRequest,
};
use crate::common::api;
use crate::common::domain;
use crate::common::model;
use crate::common::paths;
use crate::common::text;
use crate::json;
use crate::strings;
use vstd::prelude::*;

verus! {

/// A text is cut to so many characters, with a mark behind them where something is missing.
pub proof fn law_cut_texts_are_marked(s: Seq<char>, max: nat)
    ensures
        s.len() <= max ==> text::truncated(s, max) == s,
        s.len() > max ==> text::truncated(s, max).len() == max + 1 && text::truncated(s, max).last()
            == '…' && text::truncated(s, max).drop_last() == s.take(max as int),
{
    if s.len() > max {
        assert(text::truncated(s, max).drop_last() =~= s.take(max as int));
    }
}

/// A title is the first line of what was said with its words one space apart: all of it up to 40
/// characters, and else its first 40 characters and a mark. White space at its ends goes.
pub proof fn law_titles_are_first_lines(line: Seq<char>, rest: Seq<char>)
    requires
        !line.contains('\n'),
        line.len() == 0 || line.last() != '\r',
    ensures
        ({
            let neat = strings::join_of(strings::words_of(strings::trim_of(line)), seq![' ']);
            let title = domain::title_of(line + seq!['\n'] + rest);
            &&& line.len() > 0 ==> domain::title_of(line) == title
            &&& neat.len() <= 40 ==> title == neat
            &&& neat.len() > 40 ==> title == neat.take(40).push('…')
        }),
{
    crate::strings::laws::law_lines_end_at_line_feeds(line, rest);
    reveal_strlit(" ");
    assert(" "@ =~= seq![' ']);
}

/// An absolute path stands for itself. Any other path is put behind the directory, with one slash
/// between them.
pub proof fn law_paths_are_joined_by_one_slash(base: Seq<char>, child: Seq<char>)
    requires
        child.len() > 0,
    ensures
        child[0] == '/' ==> paths::joined(base, child) == child,
        child[0] != '/' && base.len() > 0 && base.last() != '/' ==> paths::joined(base, child)
            == base + seq!['/'] + child && paths::joined(base.push('/'), child) == paths::joined(
            base,
            child,
        ),
        child[0] != '/' && base.len() == 0 ==> paths::joined(base, child) == child,
{
    if child[0] != '/' {
        assert(base.push('/') + child =~= base + seq!['/'] + child);
        if base.len() == 0 {
            assert(base + child =~= child);
        }
    }
}

/// What amux keeps lies in the directory that was chosen for it, and else in one of its own name in
/// the home directory or, where there is none, here.
pub proof fn law_the_home_of_amux(chosen: Option<Seq<char>>, home: Option<Seq<char>>)
    ensures
        chosen matches Some(dir) ==> dir.len() > 0 ==> paths::home_of(chosen, home) == dir,
        chosen is None || chosen->0.len() == 0 ==> paths::home_of(chosen, home) == paths::joined(
            if home is Some {
                home->0
            } else {
                "."@
            },
            ".amux"@,
        ),
{
}

/// The states of a session and the formats of a model have names of their own.
pub proof fn law_names_are_as_they_are_sent(format: ApiFormat)
    ensures
        domain::SessionState::Idle.name() == "idle"@,
        domain::SessionState::Busy.name() == "busy"@,
        format is ChatCompletions ==> format.name() == "chat_completions"@,
        format is Responses ==> format.name() == "responses"@,
        format is Messages ==> format.name() == "messages"@,
        api::format_named(format.name()) == Some(format),
        forall|s: Seq<char>| #[trigger]
            api::format_named(s) is Some ==> api::format_named(s)->0.name() == s,
{
    reveal_strlit("chat_completions");
    reveal_strlit("responses");
    reveal_strlit("messages");
    assert("chat_completions"@.len() == 16);
    assert("responses"@.len() == 9);
    assert("messages"@.len() == 8);
}

/// A message and an activity are known by their own names, of whatever sort they are.
pub proof fn law_items_are_known_by_their_ids(item: HistoryItem, activity: Activity)
    ensures
        item matches HistoryItem::UserMessage { id, .. } ==> item.key() == id@,
        item matches HistoryItem::AgentMessage { id, .. } ==> item.key() == id@,
        activity matches Activity::Thinking { id, .. } ==> activity.key() == id@,
        activity matches Activity::ToolCall { id, .. } ==> activity.key() == id@,
        activity matches Activity::Error { id, .. } ==> activity.key() == id@,
{
}

/// A session works in its worktree where it has one, and else in its workspace.
pub proof fn law_sessions_work_in_their_worktree(session: Session)
    ensures
        session.worktree_dir@.len() > 0 ==> session.root() == session.worktree_dir@,
        session.worktree_dir@.len() == 0 ==> session.root() == session.workspace@,
{
}

/// Workflows are the same where all that they hold is.
pub proof fn law_same_workflows_hold_the_same(a: Workflow, b: Workflow)
    requires
        a.same_as(b),
    ensures
        a.id == b.id && a.title == b.title && a.state == b.state && a.plan == b.plan,
        a.project == b.project && a.created_at == b.created_at && a.updated_at == b.updated_at,
        a.linked_sessions@ == b.linked_sessions@,
{
}

/// A model can be used if and only if its address, its key and its name are given.
pub proof fn law_models_need_address_key_and_name(config: ConfigText)
    ensures
        config.complete() <==> !strings::blank(config.base_url) && !strings::blank(config.api_key)
            && !strings::blank(config.model),
{
}

/// What is said of a model is carried under names of its own.
pub proof fn law_what_is_said_of_a_model_is_carried(config: ConfigText)
    ensures
        api::text_at(config.meta(), "amuxApiFormat"@) == Some(config.api_format.name()),
        api::text_at(config.meta(), "amuxBaseUrl"@) == Some(config.base_url),
        api::text_at(config.meta(), "amuxApiKey"@) == Some(config.api_key),
        api::text_at(config.meta(), "amuxModel"@) == Some(config.model),
        api::text_at(config.meta(), "amuxEffort"@) == Some(config.effort),
{
    reveal_strlit("amuxApiFormat");
    reveal_strlit("amuxBaseUrl");
    reveal_strlit("amuxApiKey");
    reveal_strlit("amuxModel");
    reveal_strlit("amuxEffort");
    assert("amuxApiFormat"@.len() == 13);
    assert("amuxBaseUrl"@.len() == 11);
    assert("amuxApiKey"@.len() == 10);
    assert("amuxModel"@.len() == 9);
    assert("amuxEffort"@.len() == 10);
    assert("amuxApiKey"@[4] == 'A');
    assert("amuxEffort"@[4] == 'E');
}

/// The thoughts of a model that can be read are its texts and summaries, in their order.
pub proof fn law_thoughts_that_can_be_read(parts: Seq<ReasoningPart>, part: ReasoningPart)
    ensures
        model::readable(Seq::empty()) == Seq::<Seq<char>>::empty(),
        part matches ReasoningPart::Text(text) ==> model::readable(parts.push(part))
            == model::readable(parts).push(text@),
        part matches ReasoningPart::Summary(text) ==> model::readable(parts.push(part))
            == model::readable(parts).push(text@),
        part is Encrypted || part is Redacted ==> model::readable(parts.push(part))
            == model::readable(parts),
{
    assert(parts.push(part).drop_last() =~= parts);
}

/// An answer is parted: its texts make up what is said, its calls are made, and its thoughts are kept
/// where there is something to read in them; each in the order of the answer.
pub proof fn law_answers_are_parted(parts: Seq<AssistantPart>, part: AssistantPart)
    ensures
        ({
            let more = parts.push(part);
            &&& part matches AssistantPart::Text(text) ==> model::answer_text(more)
                == model::answer_text(parts) + text@
            &&& !(part is Text) ==> model::answer_text(more) == model::answer_text(parts)
            &&& part matches AssistantPart::ToolCall(call) ==> model::answer_calls(more)
                == model::answer_calls(parts).push(call)
            &&& !(part is ToolCall) ==> model::answer_calls(more) == model::answer_calls(parts)
            &&& part matches AssistantPart::Reasoning(thought) ==> model::answer_thoughts(more)
                == if strings::blank(strings::join_of(model::readable(thought@), "\n"@)) {
                model::answer_thoughts(parts)
            } else {
                model::answer_thoughts(parts).push(
                    strings::join_of(model::readable(thought@), "\n"@),
                )
            }
            &&& !(part is Reasoning) ==> model::answer_thoughts(more) == model::answer_thoughts(
                parts,
            )
        }),
        model::answer_text(Seq::empty()).len() == 0,
        model::answer_calls(Seq::empty()).len() == 0,
        model::answer_thoughts(Seq::empty()).len() == 0,
{
    assert(parts.push(part).drop_last() =~= parts);
}

/// What is kept of an answer: its thoughts, and behind them what it says, where it says something.
pub proof fn law_records_of_an_answer(parts: Seq<AssistantPart>, k: int)
    requires
        0 <= k < model::answer_thoughts(parts).len(),
    ensures
        model::answer_records(parts)[k] == (true, model::answer_thoughts(parts)[k]),
        model::answer_text(parts).len() > 0 ==> model::answer_records(parts).len()
            == model::answer_thoughts(parts).len() + 1 && model::answer_records(parts).last() == (
            false,
            model::answer_text(parts),
        ),
        model::answer_text(parts).len() == 0 ==> model::answer_records(parts).len()
            == model::answer_thoughts(parts).len(),
{
}

/// The results of the tools are told to the model each under the name of its call, in their order. A
/// tool that failed is told as such.
pub proof fn law_results_answer_their_calls(
    message: LoopMessage,
    calls: Seq<ToolRequest>,
    before: Seq<ToolOutcome>,
    last: Seq<char>,
    k: int,
    text: String,
)
    requires
        model::results_message(message, calls, before, last),
        0 <= k < calls.len(),
        before.len() + 1 == calls.len(),
    ensures
        message matches LoopMessage::Results(results) && results@.len() == calls.len()
            && results@[k].id@ == calls[k].id@ && results@[k].name@ == calls[k].name@ && (k
            < before.len() ==> results@[k] == before[k]) && results@.last().text@ == last,
        model::outcome_text(Ok::<String, String>(text)) == text@,
        model::outcome_text(Err::<String, String>(text)) == "工具执行失败："@ + text@,
        model::MAX_TOOL_TURNS == 32,
        model::limit_text()
            == "（本轮工具调度已达 32 次上限，已暂停；可继续输入消息推进）"@,
{
    if k < before.len() {
        let results = message->Results_0;
        assert(results@.drop_last()[k] == results@[k]);
    }
}

/// How hard a model thinks is asked for where it is said, in the way of its format.
pub proof fn law_effort_is_asked_for_where_it_is_said(format: ApiFormat, effort: Seq<char>)
    ensures
        model::effort_of(format, effort) is None <==> strings::blank(effort),
        !strings::blank(effort) ==> {
            let said = json::json_quoted(strings::trim_of(effort));
            let named = |key: Seq<char>, value: Seq<char>|
                "{"@ + json::json_quoted(key) + ":"@ + value + "}"@;
            &&& format is ChatCompletions ==> model::effort_of(format, effort) == Some(
                named("reasoning_effort"@, said),
            )
            &&& format is Responses ==> model::effort_of(format, effort) == Some(
                named("reasoning"@, named("effort"@, said)),
            )
            &&& format is Messages ==> model::effort_of(format, effort) == Some(
                named("output_config"@, named("effort"@, said)),
            )
        },
{
}

/// Whole numbers are written in JSON as they are, a minus sign before those below zero.
pub proof fn law_whole_numbers_in_json(n: nat)
    ensures
        json::json_int(n as int) == strings::decimal(n),
        n > 0 ==> json::json_int(-n) == seq!['-'] + strings::decimal(n),
{
}

/// The codes of errors are those that JSON-RPC has for them and, for what the daemon adds, the ones
/// that are left to it.
pub proof fn law_errors_have_their_codes()
    ensures
        crate::common::jsonrpc::rpc_error::PARSE_ERROR == -32700,
        crate::common::jsonrpc::rpc_error::INVALID_REQUEST == -32600,
        crate::common::jsonrpc::rpc_error::METHOD_NOT_FOUND == -32601,
        crate::common::jsonrpc::rpc_error::INVALID_PARAMS == -32602,
        crate::common::jsonrpc::rpc_error::INTERNAL_ERROR == -32603,
        crate::common::jsonrpc::server_error::AGENT_UNAVAILABLE == -32000,
        crate::common::jsonrpc::server_error::INVALID_INPUT == -32001,
        crate::common::jsonrpc::server_error::TERMINAL_NOT_FOUND == -32002,
        crate::common::jsonrpc::server_error::GIT_FAILED == -32003,
        crate::common::jsonrpc::server_error::FS_FAILED == -32004,
{
}

/// What is kept of an answer is read as it is. The loop asks the model with a message at hand, and calls
/// tools while results are missing.
pub proof fn law_records_are_read_as_they_are(text: String, agent: &ToolLoop)
    ensures
        model::record_view(LoopRecord::Thinking(text)) == (true, text@),
        model::record_view(LoopRecord::Text(text)) == (false, text@),
        agent.asking() <==> agent.prompt is Some && agent.calls@.len() == 0 && agent.results@.len()
            == 0,
        agent.calling() <==> agent.prompt is None && agent.results@.len() < agent.calls@.len(),
        agent.asking() ==> !agent.calling(),
{
}

/// What is said of a model is read only where all of it is there; its format is a name, or an object
/// with that name as its only member that holds nothing.
pub proof fn law_what_is_said_of_a_model_is_read_whole(
    texts: Map<Seq<char>, Option<Seq<char>>>,
    members: Map<Seq<char>, Seq<(Seq<char>, bool)>>,
)
    ensures
        api::config_in(texts, members) is Some <==> api::format_in(texts, members) is Some
            && api::text_at(texts, "amuxBaseUrl"@) is Some && api::text_at(texts, "amuxApiKey"@)
            is Some && api::text_at(texts, "amuxModel"@) is Some && api::text_at(
            texts,
            "amuxEffort"@,
        ) is Some,
        api::config_in(texts, members) matches Some(config) ==> Some(config.base_url)
            == api::text_at(texts, "amuxBaseUrl"@) && Some(config.api_key) == api::text_at(
            texts,
            "amuxApiKey"@,
        ) && Some(config.model) == api::text_at(texts, "amuxModel"@) && Some(config.effort)
            == api::text_at(texts, "amuxEffort"@) && Some(config.api_format) == api::format_in(
            texts,
            members,
        ),
        api::text_at(texts, "amuxApiFormat"@) matches Some(name) ==> api::format_in(texts, members)
            == api::format_named(name),
        api::text_at(texts, "amuxApiFormat"@) is None && !members.contains_key("amuxApiFormat"@)
            ==> api::format_in(texts, members) is None,
{
}

} // verus!
