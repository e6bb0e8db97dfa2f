//! The requests and responses of the client API.
pub mod path;

use super::domain::{
    copy_text, Activity, ContentBlock, GitDiffResult, HistoryItem, SessionConfigOption,
    SessionConfigOptionValue, SessionPlanEntry, SessionState, SlashCommand,
};
use crate::strings;
use crate::strings::{is_blank, same};
use vstd::prelude::*;

verus! {

/// The name of the agent that the daemon has built in.
pub const NANO_AGENT: &'static str = "nano";

/// A machine that is connected.
#[derive(Debug, PartialEq, Eq)]
pub struct Machine {
    pub name: String,
    pub os: String,
    pub arch: String,
    pub hostname: String,
    /// The machine's directory for temporary files.
    pub temp_dir: String,
    pub version: String,
}

impl Clone for Machine {
    fn clone(&self) -> (r: Self)
        ensures
            r == *self,
    {
        Machine {
            name: self.name.clone(),
            os: self.os.clone(),
            arch: self.arch.clone(),
            hostname: self.hostname.clone(),
            temp_dir: self.temp_dir.clone(),
            version: self.version.clone(),
        }
    }
}

/// An agent on a machine. It is available when it runs and has been initialized.
#[derive(Debug, PartialEq, Eq)]
pub struct Agent {
    pub name: String,
    pub available: bool,
}

impl Clone for Agent {
    fn clone(&self) -> (r: Self)
        ensures
            r == *self,
    {
        Agent { name: self.name.clone(), available: self.available }
    }
}

/// A session with an agent.
#[derive(Debug, PartialEq)]
pub struct Session {
    pub id: String,
    pub machine: String,
    pub agent: String,
    pub title: String,
    pub state: SessionState,
    /// The project it belongs to, if any.
    pub project: Option<String>,
    /// The directory that the user chose.
    pub workspace: String,
    /// The worktree it works in; empty where it works in the chosen directory itself.
    pub worktree_dir: String,
    pub created_at: u64,
    pub updated_at: u64,
}

impl Clone for Session {
    fn clone(&self) -> (r: Self)
        ensures
            r == *self,
    {
        Session {
            id: self.id.clone(),
            machine: self.machine.clone(),
            agent: self.agent.clone(),
            title: self.title.clone(),
            state: self.state,
            project: copy_text(&self.project),
            workspace: self.workspace.clone(),
            worktree_dir: self.worktree_dir.clone(),
            created_at: self.created_at,
            updated_at: self.updated_at,
        }
    }
}

impl Session {
    /// The directory that the session works in.
    pub open spec fn root(self) -> Seq<char> {
        if self.worktree_dir@.len() == 0 {
            self.workspace@
        } else {
            self.worktree_dir@
        }
    }

    /// The directory that the session works in: its worktree where it has one.
    pub fn root_dir(&self) -> (r: &str)
        ensures
            r@ == self.root(),
    {
        if self.worktree_dir.as_str().is_empty() {
            self.workspace.as_str()
        } else {
            self.worktree_dir.as_str()
        }
    }
}

/// A page of sessions.
#[derive(Debug, Clone, PartialEq)]
pub struct SessionList {
    pub sessions: Vec<Session>,
    pub has_more: bool,
}

/// Asks for a session.
#[derive(Debug, Clone, PartialEq)]
pub struct CreateSessionRequest {
    pub machine: String,
    pub agent: String,
    pub workspace: String,
    pub use_worktree: bool,
    pub project: Option<String>,
}

/// Sends input to a session.
#[derive(Debug, Clone, PartialEq)]
pub struct PromptRequest {
    pub input: Vec<ContentBlock>,
}

/// An option and what it is to be set to.
#[derive(Debug, Clone, PartialEq)]
pub struct SessionConfigSetting {
    pub config_id: String,
    pub value: SessionConfigOptionValue,
}

/// Changes what is set of a session.
#[derive(Debug, Clone, PartialEq)]
pub struct ConfigureSessionRequest {
    pub title: Option<String>,
    pub config: Option<SessionConfigSetting>,
    /// Absent to leave the project as it is, `Some(None)` to take the session out of it.
    pub project: Option<Option<String>>,
}

/// A page of a conversation.
#[derive(Debug, Clone, PartialEq)]
pub struct HistoryPage {
    pub items: Vec<HistoryItem>,
    pub has_more: bool,
    /// Where the next page begins, if there is one.
    pub next_offset: Option<usize>,
}

/// A page of activities.
#[derive(Debug, Clone, PartialEq)]
pub struct ActivitiesPage {
    pub activities: Vec<Activity>,
    pub has_more: bool,
    pub next_offset: Option<usize>,
}

/// What a session is doing.
#[derive(Debug, Clone, PartialEq)]
pub struct OngoingActivity {
    pub activity: Option<Activity>,
}

/// The options of a session.
#[derive(Debug, Clone, PartialEq)]
pub struct ConfigOptions {
    pub options: Vec<SessionConfigOption>,
}

/// The slash commands of a session.
#[derive(Debug, Clone, PartialEq)]
pub struct SlashCommands {
    pub commands: Vec<SlashCommand>,
}

/// The plan of a session.
#[derive(Debug, Clone, PartialEq)]
pub struct Plan {
    pub entries: Vec<SessionPlanEntry>,
}

/// How much of its context a session uses; both are zero while that is not known.
#[derive(Debug, Clone, Copy, PartialEq, Eq, Structural)]
pub struct ContextInfo {
    pub context_size: u64,
    pub context_window_size: u64,
}

/// The changes in a session's directory.
pub type DiffResponse = GitDiffResult;

/// Whether a terminal's process runs.
#[derive(Debug, Clone, Copy, PartialEq, Eq, Structural)]
pub enum TerminalState {
    Running,
    Exited,
}

/// A terminal of a session.
#[derive(Debug, PartialEq)]
pub struct Terminal {
    pub id: String,
    pub cwd: String,
    pub cols: u16,
    pub rows: u16,
    pub state: TerminalState,
}

impl Clone for Terminal {
    fn clone(&self) -> (r: Self)
        ensures
            r == *self,
    {
        Terminal {
            id: self.id.clone(),
            cwd: self.cwd.clone(),
            cols: self.cols,
            rows: self.rows,
            state: self.state,
        }
    }
}

/// Asks for a terminal.
#[derive(Debug, Clone, PartialEq)]
pub struct OpenTerminalRequest {
    pub cwd: Option<String>,
    pub cols: u16,
    pub rows: u16,
}

/// Bytes typed into a terminal, in base64.
#[derive(Debug, Clone, PartialEq)]
pub struct TerminalInputRequest {
    pub data: String,
}

/// Asks for another size of a terminal.
#[derive(Debug, Clone, PartialEq)]
pub struct TerminalResizeRequest {
    pub cols: u16,
    pub rows: u16,
}

/// A piece of a terminal's output.
#[derive(Debug, Clone, PartialEq)]
pub struct TerminalOutput {
    /// The bytes, in base64.
    pub data: String,
    /// How many bytes the terminal has put out up to here.
    pub next_cursor: u64,
    /// What was kept of the output so far has to be dropped.
    pub truncated: bool,
}

/// A session that works off a plan by means of other sessions.
#[derive(Debug, PartialEq)]
pub struct Workflow {
    pub id: String,
    pub title: String,
    pub state: SessionState,
    pub plan: String,
    pub project: Option<String>,
    pub created_at: u64,
    pub updated_at: u64,
    /// The sessions it made.
    pub linked_sessions: Vec<Session>,
}

impl Workflow {
    /// The two have the same contents.
    pub open spec fn same_as(self, other: Workflow) -> bool {
        &&& self.id == other.id
        &&& self.title == other.title
        &&& self.state == other.state
        &&& self.plan == other.plan
        &&& self.project == other.project
        &&& self.created_at == other.created_at
        &&& self.updated_at == other.updated_at
        &&& self.linked_sessions@ == other.linked_sessions@
    }
}

impl Clone for Workflow {
    fn clone(&self) -> (r: Self)
        ensures
            r.same_as(*self),
    {
        let linked: Vec<Session> = self.linked_sessions.clone();
        assert(linked@ =~= self.linked_sessions@);
        Workflow {
            id: self.id.clone(),
            title: self.title.clone(),
            state: self.state,
            plan: self.plan.clone(),
            project: copy_text(&self.project),
            created_at: self.created_at,
            updated_at: self.updated_at,
            linked_sessions: linked,
        }
    }
}

/// A page of workflows.
#[derive(Debug, Clone, PartialEq)]
pub struct WorkflowList {
    pub workflows: Vec<Workflow>,
    pub has_more: bool,
}

/// Asks for a workflow.
#[derive(Debug, Clone, PartialEq)]
pub struct CreateWorkflowRequest {
    pub plan: String,
    /// Without one the title comes from the plan.
    pub title: Option<String>,
    pub project: Option<String>,
}

/// Changes what is set of a workflow.
#[derive(Debug, Clone, PartialEq)]
pub struct ConfigureWorkflowRequest {
    pub title: Option<String>,
    /// Absent to leave the project as it is, `Some(None)` to take the workflow out of it.
    pub project: Option<Option<String>>,
}

/// A skill that can be given to agents.
#[derive(Debug, PartialEq)]
pub struct Skill {
    pub name: String,
    pub description: String,
}

impl Clone for Skill {
    fn clone(&self) -> (r: Self)
        ensures
            r == *self,
    {
        Skill { name: self.name.clone(), description: self.description.clone() }
    }
}

/// A plan that workflows can be made from.
#[derive(Debug, PartialEq)]
pub struct WorkflowPlanItem {
    pub name: String,
    pub plan: String,
    /// The project that was chosen when the plan was last used.
    pub last_used_project: Option<String>,
}

impl Clone for WorkflowPlanItem {
    fn clone(&self) -> (r: Self)
        ensures
            r == *self,
    {
        WorkflowPlanItem {
            name: self.name.clone(),
            plan: self.plan.clone(),
            last_used_project: copy_text(&self.last_used_project),
        }
    }
}

/// A project that groups sessions.
#[derive(Debug, PartialEq, Eq)]
pub struct Project {
    pub name: String,
    pub description: String,
}

impl Clone for Project {
    fn clone(&self) -> (r: Self)
        ensures
            r == *self,
    {
        Project { name: self.name.clone(), description: self.description.clone() }
    }
}

/// The order of the projects.
#[derive(Debug, Clone, PartialEq)]
pub struct ProjectOrderRequest {
    pub names: Vec<String>,
}

/// What of a project can be changed.
#[derive(Debug, Clone, PartialEq)]
pub struct UpdateProjectRequest {
    pub description: String,
}

/// A directory that was used on a machine.
#[derive(Debug, PartialEq)]
pub struct RecentWorkspace {
    pub machine: String,
    pub workspace: String,
    /// The project that was chosen when the directory was last used.
    pub last_used_project: Option<String>,
    pub last_used: u64,
}

impl Clone for RecentWorkspace {
    fn clone(&self) -> (r: Self)
        ensures
            r == *self,
    {
        RecentWorkspace {
            machine: self.machine.clone(),
            workspace: self.workspace.clone(),
            last_used_project: copy_text(&self.last_used_project),
            last_used: self.last_used,
        }
    }
}

/// A prompt that is sent at one click.
#[derive(Debug, PartialEq)]
pub struct QuickCommand {
    /// The project it is for; without one it is for all.
    pub project: Option<String>,
    pub name: String,
    pub prompt: String,
}

impl Clone for QuickCommand {
    fn clone(&self) -> (r: Self)
        ensures
            r == *self,
    {
        QuickCommand {
            project: copy_text(&self.project),
            name: self.name.clone(),
            prompt: self.prompt.clone(),
        }
    }
}

/// The interface that a model provider speaks.
#[derive(Debug, Clone, Copy, PartialEq, Eq, Structural)]
pub enum ApiFormat {
    ChatCompletions,
    Responses,
    Messages,
}

impl ApiFormat {
    /// The name of the interface on the wire.
    pub open spec fn name(self) -> Seq<char> {
        match self {
            ApiFormat::ChatCompletions => "chat_completions"@,
            ApiFormat::Responses => "responses"@,
            ApiFormat::Messages => "messages"@,
        }
    }

    /// The name of the interface on the wire.
    pub fn as_str(self) -> (r: &'static str)
        ensures
            r@ == self.name(),
    {
        match self {
            ApiFormat::ChatCompletions => "chat_completions",
            ApiFormat::Responses => "responses",
            ApiFormat::Messages => "messages",
        }
    }
}

/// The interface that a name stands for.
pub open spec fn format_named(s: Seq<char>) -> Option<ApiFormat> {
    if s == "chat_completions"@ {
        Some(ApiFormat::ChatCompletions)
    } else if s == "responses"@ {
        Some(ApiFormat::Responses)
    } else if s == "messages"@ {
        Some(ApiFormat::Messages)
    } else {
        None
    }
}

fn parse_format(s: &str) -> (r: Option<ApiFormat>)
    ensures
        r == format_named(s@),
{
    if same(s, "chat_completions") {
        Some(ApiFormat::ChatCompletions)
    } else if same(s, "responses") {
        Some(ApiFormat::Responses)
    } else if same(s, "messages") {
        Some(ApiFormat::Messages)
    } else {
        None
    }
}

proof fn lemma_format_names(format: ApiFormat)
    ensures
        format_named(format.name()) == Some(format),
{
    reveal_strlit("chat_completions");
    reveal_strlit("responses");
    reveal_strlit("messages");
    assert("chat_completions"@[0] != "responses"@[0]);
    assert("chat_completions"@[0] != "messages"@[0]);
    assert("responses"@[0] != "messages"@[0]);
}

/// How the built-in agent reaches its model.
#[derive(Debug, PartialEq)]
pub struct OrchestratorConfig {
    pub api_format: ApiFormat,
    pub base_url: String,
    pub api_key: String,
    pub model: String,
    /// How hard the model is to think.
    pub effort: String,
}

impl Clone for OrchestratorConfig {
    fn clone(&self) -> (r: Self)
        ensures
            r == *self,
    {
        OrchestratorConfig {
            api_format: self.api_format,
            base_url: self.base_url.clone(),
            api_key: self.api_key.clone(),
            model: self.model.clone(),
            effort: self.effort.clone(),
        }
    }
}

/// The authentication method of the built-in agent.
pub const AMUX_AUTH_METHOD: &'static str = "amux-config";

/// The reason for which the built-in agent stops where no standard one fits.
pub const NANO_ERROR_STOP_REASON: &'static str = "_nano_error";

/// The key under which the built-in agent tells what went wrong.
pub const NANO_ERROR_META_KEY: &'static str = "_nanoError";

/// A value of JSON, as `serde_json` holds it.
#[verifier::external_type_specification]
#[verifier::external_body]
pub struct ExJsonValue(serde_json::Value);

/// An object of JSON, as `serde_json` holds it.
#[verifier::external_type_specification]
#[verifier::external_body]
#[verifier::reject_recursive_types(K)]
#[verifier::reject_recursive_types(V)]
pub struct ExJsonMap<K, V>(serde_json::Map<K, V>);

/// What a `serde_json::Map` holds: under each of its keys the text, where the value is one.
pub uninterp spec fn json_texts(
    map: serde_json::Map<String, serde_json::Value>,
) -> Map<Seq<char>, Option<Seq<char>>>;

/// What a `serde_json::Map` holds: under each of its keys whose value is an object the members of
/// that object, in the order of its own keys, and of each member whether it is null.
pub uninterp spec fn json_members(
    map: serde_json::Map<String, serde_json::Value>,
) -> Map<Seq<char>, Seq<(Seq<char>, bool)>>;

/// An object without keys.
pub open spec fn no_texts() -> Map<Seq<char>, Option<Seq<char>>> {
    Map::empty()
}

/// An object that holds no objects.
pub open spec fn no_members() -> Map<Seq<char>, Seq<(Seq<char>, bool)>> {
    Map::empty()
}

/// `serde_json::Map::new` holds nothing.
#[verifier::external_body]
pub(crate) fn json_object() -> (r: serde_json::Map<String, serde_json::Value>)
    ensures
        json_texts(r) == no_texts(),
        json_members(r) == no_members(),
{
    serde_json::Map::new()
}

/// `serde_json::Map::insert` puts a value under a key, in place of what was there. The value is a
/// text, so no object is there then.
#[verifier::external_body]
pub(crate) fn json_insert(map: &mut serde_json::Map<String, serde_json::Value>, key: &str, text: &str)
    ensures
        json_texts(*final(map)) == json_texts(*old(map)).insert(key@, Some(text@)),
        json_members(*final(map)) == json_members(*old(map)).remove(key@),
{
    map.insert(key.to_string(), serde_json::Value::String(text.to_string()));
}

/// `serde_json::Map::get` and `Value::as_str`: the text under a key, and nothing where there is
/// no value or one that is no text.
#[verifier::external_body]
fn json_text(map: &serde_json::Map<String, serde_json::Value>, key: &str) -> (r: Option<String>)
    ensures
        r is Some == text_at(json_texts(*map), key@) is Some,
        r is Some ==> r->0@ == text_at(json_texts(*map), key@)->0,
{
    map.get(key).and_then(|value| value.as_str()).map(|text| text.to_string())
}

/// `serde_json::Map::get` and `Value::as_object`: the members of the object under a key, each with
/// what `Value::is_null` says of it, and nothing where there is no value or one that is no object.
#[verifier::external_body]
fn json_object_at(map: &serde_json::Map<String, serde_json::Value>, key: &str) -> (r: Option<
    Vec<(String, bool)>,
>)
    ensures
        r is Some == json_members(*map).contains_key(key@),
        r is Some ==> r->0@.map_values(|m: (String, bool)| (m.0@, m.1)) == json_members(*map)[key@],
{
    map.get(key).and_then(|value| value.as_object()).map(
        |object| object.iter().map(|(name, value)| (name.clone(), value.is_null())).collect(),
    )
}

/// The text under a key of an object, if any.
pub open spec fn text_at(texts: Map<Seq<char>, Option<Seq<char>>>, key: Seq<char>) -> Option<
    Seq<char>,
> {
    if texts.contains_key(key) {
        texts[key]
    } else {
        None
    }
}

/// What a configuration consists of.
pub struct ConfigText {
    pub api_format: ApiFormat,
    pub base_url: Seq<char>,
    pub api_key: Seq<char>,
    pub model: Seq<char>,
    pub effort: Seq<char>,
}

impl ConfigText {
    /// The address, the key and the model are given.
    pub open spec fn complete(self) -> bool {
        &&& !strings::blank(self.base_url)
        &&& !strings::blank(self.api_key)
        &&& !strings::blank(self.model)
    }

    /// The object that carries the configuration to the built-in agent.
    pub open spec fn meta(self) -> Map<Seq<char>, Option<Seq<char>>> {
        no_texts().insert("amuxApiFormat"@, Some(self.api_format.name())).insert("amuxBaseUrl"@, Some(self.base_url)).insert(
            "amuxApiKey"@,
            Some(self.api_key),
        ).insert("amuxModel"@, Some(self.model)).insert("amuxEffort"@, Some(self.effort))
    }
}

/// The format that an object carries: by its name, or as the one member of an object, which is then
/// null.
pub open spec fn format_in(
    texts: Map<Seq<char>, Option<Seq<char>>>,
    members: Map<Seq<char>, Seq<(Seq<char>, bool)>>,
) -> Option<ApiFormat> {
    match text_at(texts, "amuxApiFormat"@) {
        Some(name) => format_named(name),
        None => {
            let tag = members["amuxApiFormat"@];
            if members.contains_key("amuxApiFormat"@) && tag.len() == 1 && tag[0].1 {
                format_named(tag[0].0)
            } else {
                None
            }
        },
    }
}

/// The configuration that an object carries, where its format is one of the three and all its other
/// parts are texts.
pub open spec fn config_in(
    texts: Map<Seq<char>, Option<Seq<char>>>,
    members: Map<Seq<char>, Seq<(Seq<char>, bool)>>,
) -> Option<ConfigText> {
    match (
        format_in(texts, members),
        text_at(texts, "amuxBaseUrl"@),
        text_at(texts, "amuxApiKey"@),
        text_at(texts, "amuxModel"@),
        text_at(texts, "amuxEffort"@),
    ) {
        (Some(api_format), Some(base_url), Some(api_key), Some(model), Some(effort)) => Some(
            ConfigText { api_format, base_url, api_key, model, effort },
        ),
        _ => None,
    }
}

/// The format that an object carries.
fn read_format(meta: &serde_json::Map<String, serde_json::Value>) -> (r: Option<ApiFormat>)
    ensures
        r == format_in(json_texts(*meta), json_members(*meta)),
{
    match json_text(meta, "amuxApiFormat") {
        Some(name) => parse_format(name.as_str()),
        None => match json_object_at(meta, "amuxApiFormat") {
            Some(tag) => {
                let ghost seen = tag@.map_values(|m: (String, bool)| (m.0@, m.1));
                assert(seen.len() == tag@.len());
                if tag.len() == 1 && tag[0].1 {
                    assert(seen[0] == (tag@[0].0@, tag@[0].1));
                    parse_format(tag[0].0.as_str())
                } else {
                    proof {
                        if tag@.len() == 1 {
                            assert(seen[0] == (tag@[0].0@, tag@[0].1));
                        }
                    }
                    None
                }
            },
            None => None,
        },
    }
}

impl View for OrchestratorConfig {
    type V = ConfigText;

    open spec fn view(&self) -> ConfigText {
        ConfigText {
            api_format: self.api_format,
            base_url: self.base_url@,
            api_key: self.api_key@,
            model: self.model@,
            effort: self.effort@,
        }
    }
}

impl OrchestratorConfig {
    /// Whether the address, the key and the model are given.
    pub fn validate(&self) -> (r: Result<(), String>)
        ensures
            r is Ok <==> self@.complete(),
            r matches Err(message) ==> message@ == "请配置 Base URL、API Key 和模型"@,
    {
        if is_blank(self.base_url.as_str()) || is_blank(self.api_key.as_str()) || is_blank(
            self.model.as_str(),
        ) {
            return Err("请配置 Base URL、API Key 和模型".to_owned());
        }
        Ok(())
    }

    /// The object that carries the configuration to the built-in agent.
    pub fn auth_meta(&self) -> (r: serde_json::Map<String, serde_json::Value>)
        ensures
            json_texts(r) == self@.meta(),
            json_members(r) == no_members(),
    {
        let mut meta: serde_json::Map<String, serde_json::Value> = json_object();
        json_insert(&mut meta, "amuxApiFormat", self.api_format.as_str());
        json_insert(&mut meta, "amuxBaseUrl", self.base_url.as_str());
        json_insert(&mut meta, "amuxApiKey", self.api_key.as_str());
        json_insert(&mut meta, "amuxModel", self.model.as_str());
        json_insert(&mut meta, "amuxEffort", self.effort.as_str());
        assert(json_members(meta) =~= no_members());
        meta
    }

    /// The configuration that an object carries; an error where a part is missing or of the
    /// wrong kind, and where the configuration is not complete.
    pub fn from_auth_meta(meta: serde_json::Map<String, serde_json::Value>) -> (r: Result<
        Self,
        String,
    >)
        ensures
            match config_in(json_texts(meta), json_members(meta)) {
                None => r is Err && r->Err_0@ == "模型配置格式不正确"@,
                Some(config) => if config.complete() {
                    r is Ok && r->Ok_0@ == config
                } else {
                    r is Err && r->Err_0@ == "请配置 Base URL、API Key 和模型"@
                },
            },
    {
        let format: Option<ApiFormat> = read_format(&meta);
        let base_url: Option<String> = json_text(&meta, "amuxBaseUrl");
        let api_key: Option<String> = json_text(&meta, "amuxApiKey");
        let model: Option<String> = json_text(&meta, "amuxModel");
        let effort: Option<String> = json_text(&meta, "amuxEffort");
        match (format, base_url, api_key, model, effort) {
            (
                Some(api_format),
                Some(base_url),
                Some(api_key),
                Some(model),
                Some(effort),
            ) => {
                let config: OrchestratorConfig = OrchestratorConfig {
                    api_format,
                    base_url,
                    api_key,
                    model,
                    effort,
                };
                match config.validate() {
                    Ok(_) => Ok(config),
                    Err(message) => Err(message),
                }
            },
            _ => Err("模型配置格式不正确".to_owned()),
        }
    }
}

/// The object that carries a configuration gives the configuration back.
pub proof fn law_config_round_trips_through_meta(config: ConfigText)
    ensures
        config_in(config.meta(), no_members()) == Some(config),
{
    reveal_strlit("amuxApiFormat");
    reveal_strlit("amuxBaseUrl");
    reveal_strlit("amuxApiKey");
    reveal_strlit("amuxModel");
    reveal_strlit("amuxEffort");
    assert("amuxApiFormat"@.len() != "amuxBaseUrl"@.len());
    assert("amuxApiFormat"@.len() != "amuxApiKey"@.len());
    assert("amuxModel"@[4] != "amuxApiFormat"@[4]);
    assert("amuxModel"@[4] != "amuxBaseUrl"@[4]);
    assert("amuxModel"@[4] != "amuxApiKey"@[4]);
    assert("amuxModel"@[4] != "amuxEffort"@[4]);
    assert("amuxEffort"@[4] != "amuxApiFormat"@[4]);
    assert("amuxEffort"@[4] != "amuxBaseUrl"@[4]);
    assert("amuxEffort"@[4] != "amuxApiKey"@[4]);
    assert("amuxBaseUrl"@[4] != "amuxApiKey"@[4]);
    lemma_format_names(config.api_format);
}

/// Whether a flag is off, and so left out on the wire.
pub fn is_false(b: &bool) -> (r: bool)
    ensures
        r == !*b,
{
    !*b
}

} // verus!
