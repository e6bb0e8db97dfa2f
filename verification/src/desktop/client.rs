//! The client API of the server: which request each call makes, and what its answer means.
pub mod laws;

use super::config::Connection;
use crate::common::api::{
    ConfigureSessionRequest, ConfigureWorkflowRequest, CreateSessionRequest, CreateWorkflowRequest,
    OpenTerminalRequest, OrchestratorConfig, Project, ProjectOrderRequest, PromptRequest,
    QuickCommand, RecentWorkspace, SessionConfigSetting, Skill, TerminalInputRequest,
    TerminalResizeRequest, UpdateProjectRequest, WorkflowPlanItem,
};
use crate::common::domain::ContentBlock;
use crate::percent;
use crate::percent::percent_encode;
use crate::strings;
use crate::strings::{decimal_of, trim};
use vstd::prelude::*;
use vstd::utf8::*;

verus! {

/// How a request is made.
#[derive(Debug, Clone, Copy, PartialEq, Eq, Structural)]
pub enum Verb {
    Get,
    Post,
    Put,
    Delete,
}

/// What a request carries.
#[derive(Debug, PartialEq)]
pub enum Body {
    /// There is no body.
    Nothing,
    /// An object without members.
    Empty,
    CreateSession(CreateSessionRequest),
    Prompt(PromptRequest),
    ConfigureSession(ConfigureSessionRequest),
    OpenTerminal(OpenTerminalRequest),
    TerminalInput(TerminalInputRequest),
    TerminalResize(TerminalResizeRequest),
    CreateWorkflow(CreateWorkflowRequest),
    ConfigureWorkflow(ConfigureWorkflowRequest),
    Skills(Vec<Skill>),
    Plans(Vec<WorkflowPlanItem>),
    RecentWorkspaces(Vec<RecentWorkspace>),
    QuickCommands(Vec<QuickCommand>),
    Orchestrator(OrchestratorConfig),
    Project(Project),
    UpdateProject(UpdateProjectRequest),
    ProjectOrder(ProjectOrderRequest),
}

/// A request to the server.
#[derive(Debug, PartialEq)]
pub struct Request {
    pub verb: Verb,
    /// The path with its query.
    pub path: String,
    pub body: Body,
}

/// A path as a query has it.
pub fn urlencode(value: &str) -> (r: String)
    ensures
        r@ == percent::percent_text(encode_utf8(value@), true),
{
    percent_encode(value, true)
}

/// What is said of an answer that reports a failure.
pub open spec fn failure_text(status: nat, body: Seq<char>) -> Seq<char> {
    let said = strings::trim_of(body);
    let head = "HTTP "@ + strings::decimal(status);
    if said.len() == 0 {
        head
    } else {
        head + ": "@ + said
    }
}

/// What is said of an answer that reports a failure.
pub fn error_message(status: u16, body: &str) -> (r: String)
    ensures
        r@ == failure_text(status as nat, body@),
{
    let said: String = trim(body);
    let mut r: String = "HTTP ".to_owned();
    r.append(decimal_of(status as u64).as_str());
    if !said.as_str().is_empty() {
        r.append(": ");
        r.append(said.as_str());
    }
    r
}

/// An answer of the server as it was read.
#[derive(Debug, PartialEq)]
pub enum Answer {
    /// None came; the text says why.
    Missing(String),
    /// It came with this status; its text, or why it cannot be read.
    Came { status: u16, text: Result<String, String> },
}

/// The text of an answer that may be missing.
pub open spec fn text_or_empty(text: Result<String, String>) -> Seq<char> {
    match text {
        Ok(text) => text@,
        Err(_) => Seq::empty(),
    }
}

/// An answer reports success.
pub open spec fn succeeded(status: u16) -> bool {
    200 <= status < 300
}

fn told(before: &str, cause: &str) -> (r: String)
    ensures
        r@ == before@ + cause@,
{
    let mut r: String = before.to_owned();
    r.append(cause);
    r
}

/// Whether a request succeeded, and what is said where it did not.
pub fn ensure_success(answer: Answer) -> (r: Result<(), String>)
    ensures
        match answer {
            Answer::Missing(cause) => r is Err && r->Err_0@ == "请求失败: "@ + cause@,
            Answer::Came { status, text } => if succeeded(status) {
                r is Ok
            } else {
                r is Err && r->Err_0@ == failure_text(status as nat, text_or_empty(text))
            },
        },
{
    proof {
        reveal_strlit("");
        assert(""@ =~= Seq::empty());
    }
    match answer {
        Answer::Missing(cause) => Err(told("请求失败: ", cause.as_str())),
        Answer::Came { status, text } => {
            if status >= 200 && status < 300 {
                return Ok(());
            }
            match text {
                Ok(text) => Err(error_message(status, text.as_str())),
                Err(_) => Err(error_message(status, "")),
            }
        },
    }
}

/// The text of an answer, which is to be parsed, or what is said where there is none.
pub fn decode(answer: Answer) -> (r: Result<String, String>)
    ensures
        match answer {
            Answer::Missing(cause) => r is Err && r->Err_0@ == "请求失败: "@ + cause@,
            Answer::Came { status, text } => if succeeded(status) {
                match text {
                    Ok(text) => r is Ok && r->Ok_0 == text,
                    Err(cause) => r is Err && r->Err_0@ == "读取响应失败: "@ + cause@,
                }
            } else {
                r is Err && r->Err_0@ == failure_text(status as nat, text_or_empty(text))
            },
        },
{
    proof {
        reveal_strlit("");
        assert(""@ =~= Seq::empty());
    }
    match answer {
        Answer::Missing(cause) => Err(told("请求失败: ", cause.as_str())),
        Answer::Came { status, text } => {
            if status >= 200 && status < 300 {
                return match text {
                    Ok(text) => Ok(text),
                    Err(cause) => Err(told("读取响应失败: ", cause.as_str())),
                };
            }
            match text {
                Ok(text) => Err(error_message(status, text.as_str())),
                Err(_) => Err(error_message(status, "")),
            }
        },
    }
}

/// What is said of an answer that cannot be parsed.
pub fn parse_failed(cause: &str) -> (r: String)
    ensures
        r@ == "响应解析失败: "@ + cause@,
{
    told("响应解析失败: ", cause)
}

/// Makes the requests of the client API.
#[derive(Debug, PartialEq)]
pub struct Client {
    base: String,
    token: String,
}

impl Client {
    /// The address that every request goes to.
    pub closed spec fn address(self) -> Seq<char> {
        self.base@
    }

    /// The token that every request carries.
    pub closed spec fn secret(self) -> Seq<char> {
        self.token@
    }

    /// The client of a connection.
    pub fn new(connection: &Connection) -> (r: Self)
        ensures
            r.address() == connection.base(),
            r.secret() == connection.token@,
    {
        Client { base: connection.base_url(), token: connection.token.clone() }
    }

    /// Where a request goes.
    pub fn url(&self, request: &Request) -> (r: String)
        ensures
            r@ == self.address() + request.path@,
    {
        self.base.clone().concat(request.path.as_str())
    }

    /// The value of the header that carries the token.
    pub fn authorization(&self) -> (r: String)
        ensures
            r@ == "Bearer "@ + self.secret(),
    {
        "Bearer ".to_owned().concat(self.token.as_str())
    }

    /// A page of a directory of a machine; only its directories where they alone are wanted.
    pub fn list_dir(
        &self,
        machine: &str,
        path: Option<&str>,
        limit: usize,
        offset: usize,
        dirs_only: bool,
    ) -> (r: Request)
        ensures
            r.verb == Verb::Get,
            r.path@ == "/machines/"@ + machine@ + "/list_dir?path="@ + percent::percent_text(
                encode_utf8(
                    match path {
                        Some(path) => path@,
                        None => ""@,
                    },
                ),
                true,
            ) + "&limit="@ + strings::decimal(limit as nat) + "&offset="@ + strings::decimal(
                offset as nat,
            ) + "&dirs_only="@ + (if dirs_only {
                "true"@
            } else {
                "false"@
            }),
            r.body is Nothing,
    {
        let mut p: String = "/machines/".to_owned();
        p.append(machine);
        p.append("/list_dir?path=");
        match path {
            Some(path) => p.append(urlencode(path).as_str()),
            None => p.append(urlencode("").as_str()),
        }
        p.append("&limit=");
        p.append(decimal_of(limit as u64).as_str());
        p.append("&offset=");
        p.append(decimal_of(offset as u64).as_str());
        p.append("&dirs_only=");
        if dirs_only {
            p.append("true");
        } else {
            p.append("false");
        }
        Request { verb: Verb::Get, path: p, body: Body::Nothing }
    }

    /// A page of the lines of a file of a machine.
    pub fn read_file(&self, machine: &str, path: &str, limit: usize, offset: usize) -> (r: Request)
        ensures
            r.verb == Verb::Get,
            r.path@ == "/machines/"@ + machine@ + "/read_file?path="@ + percent::percent_text(
                encode_utf8(path@),
                true,
            ) + "&limit="@ + strings::decimal(limit as nat) + "&offset="@ + strings::decimal(
                offset as nat,
            ),
            r.body is Nothing,
    {
        let mut p: String = "/machines/".to_owned();
        p.append(machine);
        p.append("/read_file?path=");
        p.append(urlencode(path).as_str());
        p.append("&limit=");
        p.append(decimal_of(limit as u64).as_str());
        p.append("&offset=");
        p.append(decimal_of(offset as u64).as_str());
        Request { verb: Verb::Get, path: p, body: Body::Nothing }
    }

    /// What a terminal put out, from a position on where one is given.
    pub fn terminal_output(&self, id: &str, terminal: &str, cursor: Option<u64>) -> (r: Request)
        ensures
            r.verb == Verb::Get,
            r.path@ == "/sessions/"@ + id@ + "/terminals/"@ + terminal@ + (match cursor {
                Some(n) => "?cursor="@ + strings::decimal(n as nat),
                None => Seq::empty(),
            }),
            r.body is Nothing,
    {
        let mut p: String = "/sessions/".to_owned();
        p.append(id);
        p.append("/terminals/");
        p.append(terminal);
        let ghost before = p@;
        match cursor {
            Some(n) => {
                p.append("?cursor=");
                p.append(decimal_of(n).as_str());
                assert(p@ =~= before + ("?cursor="@ + strings::decimal(n as nat)));
            },
            None => {
                assert(p@ =~= before + Seq::empty());
            },
        }
        Request { verb: Verb::Get, path: p, body: Body::Nothing }
    }

    /// Whether the server can be reached and knows the token.
    pub fn ping(&self) -> (r: Request)
        ensures
            r.verb == Verb::Get,
            r.path@ == "/machines"@,
            r.body is Nothing,
    {
        Request { verb: Verb::Get, path: "/machines".to_owned(), body: Body::Nothing }
    }

    /// The machines.
    pub fn machines(&self) -> (r: Request)
        ensures
            r.verb == Verb::Get,
            r.path@ == "/machines"@,
            r.body is Nothing,
    {
        Request { verb: Verb::Get, path: "/machines".to_owned(), body: Body::Nothing }
    }

    /// The agents of a machine.
    pub fn agents(&self, machine: &str) -> (r: Request)
        ensures
            r.verb == Verb::Get,
            r.path@ == "/machines/"@ + machine@ + "/agents"@,
            r.body is Nothing,
    {
        let mut p: String = "/machines/".to_owned();
        p.append(machine);
        p.append("/agents");
        Request { verb: Verb::Get, path: p, body: Body::Nothing }
    }

    /// Looks for the agents of a machine again.
    pub fn rediscover(&self, machine: &str) -> (r: Request)
        ensures
            r.verb == Verb::Post,
            r.path@ == "/machines/"@ + machine@ + "/agents/rediscover"@,
            r.body is Empty,
    {
        let mut p: String = "/machines/".to_owned();
        p.append(machine);
        p.append("/agents/rediscover");
        Request { verb: Verb::Post, path: p, body: Body::Empty }
    }

    /// Starts an agent, or starts it again.
    pub fn restart_agent(&self, machine: &str, agent: &str) -> (r: Request)
        ensures
            r.verb == Verb::Post,
            r.path@ == "/machines/"@ + machine@ + "/agents/"@ + agent@ + "/restart"@,
            r.body is Empty,
    {
        let mut p: String = "/machines/".to_owned();
        p.append(machine);
        p.append("/agents/");
        p.append(agent);
        p.append("/restart");
        Request { verb: Verb::Post, path: p, body: Body::Empty }
    }

    /// Makes a session.
    pub fn create_session(&self, request: CreateSessionRequest) -> (r: Request)
        ensures
            r.verb == Verb::Post,
            r.path@ == "/sessions"@,
            r.body == Body::CreateSession(request),
    {
        Request { verb: Verb::Post, path: "/sessions".to_owned(), body: Body::CreateSession(request) }
    }

    /// A page of sessions.
    pub fn sessions(&self, limit: usize, offset: usize) -> (r: Request)
        ensures
            r.verb == Verb::Get,
            r.path@ == "/sessions?limit="@ + strings::decimal(limit as nat) + "&offset="@ + strings::decimal(offset as nat),
            r.body is Nothing,
    {
        let mut p: String = "/sessions?limit=".to_owned();
        p.append(decimal_of(limit as u64).as_str());
        p.append("&offset=");
        p.append(decimal_of(offset as u64).as_str());
        Request { verb: Verb::Get, path: p, body: Body::Nothing }
    }

    /// A session.
    pub fn session(&self, id: &str) -> (r: Request)
        ensures
            r.verb == Verb::Get,
            r.path@ == "/sessions/"@ + id@,
            r.body is Nothing,
    {
        let mut p: String = "/sessions/".to_owned();
        p.append(id);
        Request { verb: Verb::Get, path: p, body: Body::Nothing }
    }

    /// Sends input to a session.
    pub fn prompt(&self, id: &str, input: Vec<ContentBlock>) -> (r: Request)
        ensures
            r.verb == Verb::Post,
            r.path@ == "/sessions/"@ + id@,
            r.body == (Body::Prompt(PromptRequest { input })),
    {
        let mut p: String = "/sessions/".to_owned();
        p.append(id);
        Request { verb: Verb::Post, path: p, body: Body::Prompt(PromptRequest { input }) }
    }

    /// Cancels the work of a session.
    pub fn cancel(&self, id: &str) -> (r: Request)
        ensures
            r.verb == Verb::Post,
            r.path@ == "/sessions/"@ + id@ + "/cancel"@,
            r.body is Empty,
    {
        let mut p: String = "/sessions/".to_owned();
        p.append(id);
        p.append("/cancel");
        Request { verb: Verb::Post, path: p, body: Body::Empty }
    }

    /// Deletes a session.
    pub fn delete_session(&self, id: &str) -> (r: Request)
        ensures
            r.verb == Verb::Delete,
            r.path@ == "/sessions/"@ + id@,
            r.body is Nothing,
    {
        let mut p: String = "/sessions/".to_owned();
        p.append(id);
        Request { verb: Verb::Delete, path: p, body: Body::Nothing }
    }

    /// Changes what is set of a session.
    pub fn configure_session(
        &self,
        id: &str,
        title: Option<String>,
        config: Option<SessionConfigSetting>,
        project: Option<Option<String>>,
    ) -> (r: Request)
        ensures
            r.verb == Verb::Post,
            r.path@ == "/sessions/"@ + id@ + "/configure"@,
            r.body == (Body::ConfigureSession(ConfigureSessionRequest { title, config, project })),
    {
        let mut p: String = "/sessions/".to_owned();
        p.append(id);
        p.append("/configure");
        Request { verb: Verb::Post, path: p, body: Body::ConfigureSession(ConfigureSessionRequest { title, config, project }) }
    }

    /// The options of a session.
    pub fn config_options(&self, id: &str) -> (r: Request)
        ensures
            r.verb == Verb::Get,
            r.path@ == "/sessions/"@ + id@ + "/config_options"@,
            r.body is Nothing,
    {
        let mut p: String = "/sessions/".to_owned();
        p.append(id);
        p.append("/config_options");
        Request { verb: Verb::Get, path: p, body: Body::Nothing }
    }

    /// The slash commands of a session.
    pub fn slash_commands(&self, id: &str) -> (r: Request)
        ensures
            r.verb == Verb::Get,
            r.path@ == "/sessions/"@ + id@ + "/slash_commands"@,
            r.body is Nothing,
    {
        let mut p: String = "/sessions/".to_owned();
        p.append(id);
        p.append("/slash_commands");
        Request { verb: Verb::Get, path: p, body: Body::Nothing }
    }

    /// The plan of a session.
    pub fn plan(&self, id: &str) -> (r: Request)
        ensures
            r.verb == Verb::Get,
            r.path@ == "/sessions/"@ + id@ + "/plan"@,
            r.body is Nothing,
    {
        let mut p: String = "/sessions/".to_owned();
        p.append(id);
        p.append("/plan");
        Request { verb: Verb::Get, path: p, body: Body::Nothing }
    }

    /// How much of its context a session uses.
    pub fn context(&self, id: &str) -> (r: Request)
        ensures
            r.verb == Verb::Get,
            r.path@ == "/sessions/"@ + id@ + "/context"@,
            r.body is Nothing,
    {
        let mut p: String = "/sessions/".to_owned();
        p.append(id);
        p.append("/context");
        Request { verb: Verb::Get, path: p, body: Body::Nothing }
    }

    /// A page of the conversation of a session.
    pub fn history(&self, id: &str, limit: usize, offset: usize) -> (r: Request)
        ensures
            r.verb == Verb::Get,
            r.path@ == "/sessions/"@ + id@ + "/history?limit="@ + strings::decimal(limit as nat) + "&offset="@ + strings::decimal(offset as nat),
            r.body is Nothing,
    {
        let mut p: String = "/sessions/".to_owned();
        p.append(id);
        p.append("/history?limit=");
        p.append(decimal_of(limit as u64).as_str());
        p.append("&offset=");
        p.append(decimal_of(offset as u64).as_str());
        Request { verb: Verb::Get, path: p, body: Body::Nothing }
    }

    /// A page of the activities of a session.
    pub fn activities(&self, id: &str, limit: usize, offset: usize) -> (r: Request)
        ensures
            r.verb == Verb::Get,
            r.path@ == "/sessions/"@ + id@ + "/activities?limit="@ + strings::decimal(limit as nat) + "&offset="@ + strings::decimal(offset as nat),
            r.body is Nothing,
    {
        let mut p: String = "/sessions/".to_owned();
        p.append(id);
        p.append("/activities?limit=");
        p.append(decimal_of(limit as u64).as_str());
        p.append("&offset=");
        p.append(decimal_of(offset as u64).as_str());
        Request { verb: Verb::Get, path: p, body: Body::Nothing }
    }

    /// What a session is doing.
    pub fn ongoing_activity(&self, id: &str) -> (r: Request)
        ensures
            r.verb == Verb::Get,
            r.path@ == "/sessions/"@ + id@ + "/ongoing_activity"@,
            r.body is Nothing,
    {
        let mut p: String = "/sessions/".to_owned();
        p.append(id);
        p.append("/ongoing_activity");
        Request { verb: Verb::Get, path: p, body: Body::Nothing }
    }

    /// The changes in the directory of a session.
    pub fn diff(&self, id: &str) -> (r: Request)
        ensures
            r.verb == Verb::Get,
            r.path@ == "/sessions/"@ + id@ + "/diff"@,
            r.body is Nothing,
    {
        let mut p: String = "/sessions/".to_owned();
        p.append(id);
        p.append("/diff");
        Request { verb: Verb::Get, path: p, body: Body::Nothing }
    }

    /// Opens a terminal of a session.
    pub fn open_terminal(&self, id: &str, cwd: Option<String>, cols: u16, rows: u16) -> (r: Request)
        ensures
            r.verb == Verb::Post,
            r.path@ == "/sessions/"@ + id@ + "/terminals"@,
            r.body == (Body::OpenTerminal(OpenTerminalRequest { cwd, cols, rows })),
    {
        let mut p: String = "/sessions/".to_owned();
        p.append(id);
        p.append("/terminals");
        Request { verb: Verb::Post, path: p, body: Body::OpenTerminal(OpenTerminalRequest { cwd, cols, rows }) }
    }

    /// The terminals of a session.
    pub fn terminals(&self, id: &str) -> (r: Request)
        ensures
            r.verb == Verb::Get,
            r.path@ == "/sessions/"@ + id@ + "/terminals"@,
            r.body is Nothing,
    {
        let mut p: String = "/sessions/".to_owned();
        p.append(id);
        p.append("/terminals");
        Request { verb: Verb::Get, path: p, body: Body::Nothing }
    }

    /// Sends bytes to a terminal.
    pub fn terminal_input(&self, id: &str, terminal: &str, data: String) -> (r: Request)
        ensures
            r.verb == Verb::Post,
            r.path@ == "/sessions/"@ + id@ + "/terminals/"@ + terminal@,
            r.body == (Body::TerminalInput(TerminalInputRequest { data })),
    {
        let mut p: String = "/sessions/".to_owned();
        p.append(id);
        p.append("/terminals/");
        p.append(terminal);
        Request { verb: Verb::Post, path: p, body: Body::TerminalInput(TerminalInputRequest { data }) }
    }

    /// Closes a terminal.
    pub fn close_terminal(&self, id: &str, terminal: &str) -> (r: Request)
        ensures
            r.verb == Verb::Delete,
            r.path@ == "/sessions/"@ + id@ + "/terminals/"@ + terminal@,
            r.body is Nothing,
    {
        let mut p: String = "/sessions/".to_owned();
        p.append(id);
        p.append("/terminals/");
        p.append(terminal);
        Request { verb: Verb::Delete, path: p, body: Body::Nothing }
    }

    /// Changes the size of a terminal.
    pub fn resize_terminal(&self, id: &str, terminal: &str, cols: u16, rows: u16) -> (r: Request)
        ensures
            r.verb == Verb::Post,
            r.path@ == "/sessions/"@ + id@ + "/terminals/"@ + terminal@ + "/resize"@,
            r.body == (Body::TerminalResize(TerminalResizeRequest { cols, rows })),
    {
        let mut p: String = "/sessions/".to_owned();
        p.append(id);
        p.append("/terminals/");
        p.append(terminal);
        p.append("/resize");
        Request { verb: Verb::Post, path: p, body: Body::TerminalResize(TerminalResizeRequest { cols, rows }) }
    }

    /// Makes a workflow.
    pub fn create_workflow(
        &self,
        plan: String,
        title: Option<String>,
        project: Option<String>,
    ) -> (r: Request)
        ensures
            r.verb == Verb::Post,
            r.path@ == "/workflows"@,
            r.body == (Body::CreateWorkflow(CreateWorkflowRequest { plan, title, project })),
    {
        Request { verb: Verb::Post, path: "/workflows".to_owned(), body: Body::CreateWorkflow(CreateWorkflowRequest { plan, title, project }) }
    }

    /// A page of workflows.
    pub fn workflows(&self, limit: usize, offset: usize) -> (r: Request)
        ensures
            r.verb == Verb::Get,
            r.path@ == "/workflows?limit="@ + strings::decimal(limit as nat) + "&offset="@ + strings::decimal(offset as nat),
            r.body is Nothing,
    {
        let mut p: String = "/workflows?limit=".to_owned();
        p.append(decimal_of(limit as u64).as_str());
        p.append("&offset=");
        p.append(decimal_of(offset as u64).as_str());
        Request { verb: Verb::Get, path: p, body: Body::Nothing }
    }

    /// A workflow.
    pub fn workflow(&self, id: &str) -> (r: Request)
        ensures
            r.verb == Verb::Get,
            r.path@ == "/workflows/"@ + id@,
            r.body is Nothing,
    {
        let mut p: String = "/workflows/".to_owned();
        p.append(id);
        Request { verb: Verb::Get, path: p, body: Body::Nothing }
    }

    /// Sends input to a workflow.
    pub fn prompt_workflow(&self, id: &str, input: Vec<ContentBlock>) -> (r: Request)
        ensures
            r.verb == Verb::Post,
            r.path@ == "/workflows/"@ + id@,
            r.body == (Body::Prompt(PromptRequest { input })),
    {
        let mut p: String = "/workflows/".to_owned();
        p.append(id);
        Request { verb: Verb::Post, path: p, body: Body::Prompt(PromptRequest { input }) }
    }

    /// Deletes a workflow.
    pub fn delete_workflow(&self, id: &str) -> (r: Request)
        ensures
            r.verb == Verb::Delete,
            r.path@ == "/workflows/"@ + id@,
            r.body is Nothing,
    {
        let mut p: String = "/workflows/".to_owned();
        p.append(id);
        Request { verb: Verb::Delete, path: p, body: Body::Nothing }
    }

    /// Changes what is set of a workflow.
    pub fn configure_workflow(
        &self,
        id: &str,
        title: Option<String>,
        project: Option<Option<String>>,
    ) -> (r: Request)
        ensures
            r.verb == Verb::Post,
            r.path@ == "/workflows/"@ + id@ + "/configure"@,
            r.body == (Body::ConfigureWorkflow(ConfigureWorkflowRequest { title, project })),
    {
        let mut p: String = "/workflows/".to_owned();
        p.append(id);
        p.append("/configure");
        Request { verb: Verb::Post, path: p, body: Body::ConfigureWorkflow(ConfigureWorkflowRequest { title, project }) }
    }

    /// A page of the conversation of a workflow.
    pub fn workflow_history(&self, id: &str, limit: usize, offset: usize) -> (r: Request)
        ensures
            r.verb == Verb::Get,
            r.path@ == "/workflows/"@ + id@ + "/history?limit="@ + strings::decimal(limit as nat) + "&offset="@ + strings::decimal(offset as nat),
            r.body is Nothing,
    {
        let mut p: String = "/workflows/".to_owned();
        p.append(id);
        p.append("/history?limit=");
        p.append(decimal_of(limit as u64).as_str());
        p.append("&offset=");
        p.append(decimal_of(offset as u64).as_str());
        Request { verb: Verb::Get, path: p, body: Body::Nothing }
    }

    /// A page of the activities of a workflow.
    pub fn workflow_activities(&self, id: &str, limit: usize, offset: usize) -> (r: Request)
        ensures
            r.verb == Verb::Get,
            r.path@ == "/workflows/"@ + id@ + "/activities?limit="@ + strings::decimal(limit as nat) + "&offset="@ + strings::decimal(offset as nat),
            r.body is Nothing,
    {
        let mut p: String = "/workflows/".to_owned();
        p.append(id);
        p.append("/activities?limit=");
        p.append(decimal_of(limit as u64).as_str());
        p.append("&offset=");
        p.append(decimal_of(offset as u64).as_str());
        Request { verb: Verb::Get, path: p, body: Body::Nothing }
    }

    /// What a workflow is doing.
    pub fn workflow_ongoing_activity(&self, id: &str) -> (r: Request)
        ensures
            r.verb == Verb::Get,
            r.path@ == "/workflows/"@ + id@ + "/ongoing_activity"@,
            r.body is Nothing,
    {
        let mut p: String = "/workflows/".to_owned();
        p.append(id);
        p.append("/ongoing_activity");
        Request { verb: Verb::Get, path: p, body: Body::Nothing }
    }

    /// The skills.
    pub fn skills(&self) -> (r: Request)
        ensures
            r.verb == Verb::Get,
            r.path@ == "/config/skills/"@,
            r.body is Nothing,
    {
        Request { verb: Verb::Get, path: "/config/skills/".to_owned(), body: Body::Nothing }
    }

    /// Saves the skills.
    pub fn set_skills(&self, skills: &Vec<Skill>) -> (r: Request)
        ensures
            r.verb == Verb::Put,
            r.path@ == "/config/skills/"@,
            r.body matches Body::Skills(list) && list@ == skills@,
    {
        let list: Vec<Skill> = skills.clone();
        assert(list@ =~= skills@);
        Request { verb: Verb::Put, path: "/config/skills/".to_owned(), body: Body::Skills(list) }
    }

    /// The plans of workflows.
    pub fn workflow_plans(&self) -> (r: Request)
        ensures
            r.verb == Verb::Get,
            r.path@ == "/config/workflows/"@,
            r.body is Nothing,
    {
        Request { verb: Verb::Get, path: "/config/workflows/".to_owned(), body: Body::Nothing }
    }

    /// Saves the plans of workflows.
    pub fn set_workflow_plans(&self, plans: &Vec<WorkflowPlanItem>) -> (r: Request)
        ensures
            r.verb == Verb::Put,
            r.path@ == "/config/workflows/"@,
            r.body matches Body::Plans(list) && list@ == plans@,
    {
        let list: Vec<WorkflowPlanItem> = plans.clone();
        assert(list@ =~= plans@);
        Request { verb: Verb::Put, path: "/config/workflows/".to_owned(), body: Body::Plans(list) }
    }

    /// The directories that were used last.
    pub fn recent_workspaces(&self) -> (r: Request)
        ensures
            r.verb == Verb::Get,
            r.path@ == "/config/recent_workspaces/"@,
            r.body is Nothing,
    {
        Request { verb: Verb::Get, path: "/config/recent_workspaces/".to_owned(), body: Body::Nothing }
    }

    /// Saves the directories that were used last.
    pub fn set_recent_workspaces(&self, workspaces: &Vec<RecentWorkspace>) -> (r: Request)
        ensures
            r.verb == Verb::Put,
            r.path@ == "/config/recent_workspaces/"@,
            r.body matches Body::RecentWorkspaces(list) && list@ == workspaces@,
    {
        let list: Vec<RecentWorkspace> = workspaces.clone();
        assert(list@ =~= workspaces@);
        Request { verb: Verb::Put, path: "/config/recent_workspaces/".to_owned(), body: Body::RecentWorkspaces(list) }
    }

    /// The quick commands.
    pub fn quick_commands(&self) -> (r: Request)
        ensures
            r.verb == Verb::Get,
            r.path@ == "/config/quick_commands/"@,
            r.body is Nothing,
    {
        Request { verb: Verb::Get, path: "/config/quick_commands/".to_owned(), body: Body::Nothing }
    }

    /// Saves the quick commands.
    pub fn set_quick_commands(&self, commands: &Vec<QuickCommand>) -> (r: Request)
        ensures
            r.verb == Verb::Put,
            r.path@ == "/config/quick_commands/"@,
            r.body matches Body::QuickCommands(list) && list@ == commands@,
    {
        let list: Vec<QuickCommand> = commands.clone();
        assert(list@ =~= commands@);
        Request { verb: Verb::Put, path: "/config/quick_commands/".to_owned(), body: Body::QuickCommands(list) }
    }

    /// What is set of the built-in agent.
    pub fn orchestrator(&self) -> (r: Request)
        ensures
            r.verb == Verb::Get,
            r.path@ == "/config/agent/"@,
            r.body is Nothing,
    {
        Request { verb: Verb::Get, path: "/config/agent/".to_owned(), body: Body::Nothing }
    }

    /// Saves what is set of the built-in agent.
    pub fn set_orchestrator(&self, config: &OrchestratorConfig) -> (r: Request)
        ensures
            r.verb == Verb::Put,
            r.path@ == "/config/agent/"@,
            r.body == Body::Orchestrator(*config),
    {
        Request { verb: Verb::Put, path: "/config/agent/".to_owned(), body: Body::Orchestrator(config.clone()) }
    }

    /// The projects.
    pub fn projects(&self) -> (r: Request)
        ensures
            r.verb == Verb::Get,
            r.path@ == "/config/projects/"@,
            r.body is Nothing,
    {
        Request { verb: Verb::Get, path: "/config/projects/".to_owned(), body: Body::Nothing }
    }

    /// Makes a project.
    pub fn create_project(&self, project: &Project) -> (r: Request)
        ensures
            r.verb == Verb::Post,
            r.path@ == "/config/projects/"@,
            r.body == Body::Project(*project),
    {
        Request { verb: Verb::Post, path: "/config/projects/".to_owned(), body: Body::Project(project.clone()) }
    }

    /// Changes the description of a project.
    pub fn update_project(&self, name: &str, description: &str) -> (r: Request)
        ensures
            r.verb == Verb::Put,
            r.path@ == "/config/projects/"@ + name@,
            r.body matches Body::UpdateProject(change) && change.description@ == description@,
    {
        let mut p: String = "/config/projects/".to_owned();
        p.append(name);
        Request { verb: Verb::Put, path: p, body: Body::UpdateProject(UpdateProjectRequest { description: description.to_owned() }) }
    }

    /// Deletes a project.
    pub fn delete_project(&self, name: &str) -> (r: Request)
        ensures
            r.verb == Verb::Delete,
            r.path@ == "/config/projects/"@ + name@,
            r.body is Nothing,
    {
        let mut p: String = "/config/projects/".to_owned();
        p.append(name);
        Request { verb: Verb::Delete, path: p, body: Body::Nothing }
    }

    /// Puts the projects in order.
    pub fn set_project_order(&self, names: Vec<String>) -> (r: Request)
        ensures
            r.verb == Verb::Post,
            r.path@ == "/config/projects/order"@,
            r.body == (Body::ProjectOrder(ProjectOrderRequest { names })),
    {
        Request { verb: Verb::Post, path: "/config/projects/order".to_owned(), body: Body::ProjectOrder(ProjectOrderRequest { names }) }
    }
}

} // verus!
