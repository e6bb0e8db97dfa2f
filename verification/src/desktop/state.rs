//! The state of the desktop client: the connection, the list of sessions, the open session, the
//! settings, and when each view was refreshed last.
pub mod laws;
pub mod tree;

use super::client::Client;
use super::config::Connection;
use crate::common::api::{
    Agent, Machine, OrchestratorConfig, Project, QuickCommand, RecentWorkspace, Session, Skill,
    Terminal, Workflow, WorkflowPlanItem,
};
use crate::common::domain::{
    Activity, ContentBlock, FsEntry, GitDiffResult, HistoryItem, SessionConfigOption,
    SessionPlanEntry, SlashCommand,
};
use crate::strings::{same, starts_with};
use crate::table::Table;
use std::collections::VecDeque;
use tree::WorkspaceNode;
use vstd::prelude::*;

verus! {

/// How often the list of sessions is refreshed, in milliseconds.
pub const SESSION_LIST_INTERVAL: u64 = 10000;

/// How often the conversation is refreshed, in milliseconds.
pub const HISTORY_INTERVAL: u64 = 5000;

/// How often it is asked what the session is doing, in milliseconds.
pub const ONGOING_INTERVAL: u64 = 2000;

/// How often the activities are refreshed, in milliseconds.
pub const ACTIVITIES_INTERVAL: u64 = 10000;

/// How often the plan is refreshed, in milliseconds.
pub const PLAN_INTERVAL: u64 = 10000;

/// How often the options and the slash commands are refreshed, in milliseconds.
pub const OPTIONS_INTERVAL: u64 = 5000;

/// How often the output of a terminal is asked for, in milliseconds.
pub const TERMINAL_INTERVAL: u64 = 500;

/// The size of a page while the height of a view is not known.
pub const DEFAULT_PAGE_SIZE: usize = 20;

/// The largest size of a page.
pub const MAX_PAGE_SIZE: usize = 200;

/// Whether the server can be reached. It decides between the login page and the main page.
#[derive(Debug, PartialEq)]
pub enum ConnectionStatus {
    Unconfigured,
    Connecting,
    Online,
    Failed(String),
}

/// An entry of the list of sessions.
#[derive(Debug, PartialEq)]
pub enum ListEntry {
    Session(Session),
    Workflow(Workflow),
}

impl ListEntry {
    /// The identity of the entry.
    pub open spec fn key(self) -> Seq<char> {
        match self {
            ListEntry::Session(session) => session.id@,
            ListEntry::Workflow(workflow) => workflow.id@,
        }
    }

    /// When the entry changed last.
    pub open spec fn changed(self) -> u64 {
        match self {
            ListEntry::Session(session) => session.updated_at,
            ListEntry::Workflow(workflow) => workflow.updated_at,
        }
    }

    /// The two entries have the same contents.
    pub open spec fn same_as(self, other: ListEntry) -> bool {
        match (self, other) {
            (ListEntry::Session(a), ListEntry::Session(b)) => a == b,
            (ListEntry::Workflow(a), ListEntry::Workflow(b)) => a.same_as(b),
            _ => false,
        }
    }

    /// The identity of the entry.
    pub fn id(&self) -> (r: &str)
        ensures
            r@ == self.key(),
    {
        match self {
            ListEntry::Session(session) => session.id.as_str(),
            ListEntry::Workflow(workflow) => workflow.id.as_str(),
        }
    }

    /// When the entry changed last.
    pub fn updated_at(&self) -> (r: u64)
        ensures
            r == self.changed(),
    {
        match self {
            ListEntry::Session(session) => session.updated_at,
            ListEntry::Workflow(workflow) => workflow.updated_at,
        }
    }

    /// The title of the entry.
    pub open spec fn titled(self) -> Seq<char> {
        match self {
            ListEntry::Session(session) => session.title@,
            ListEntry::Workflow(workflow) => workflow.title@,
        }
    }

    /// The title of the entry.
    pub fn title(&self) -> (r: String)
        ensures
            r@ == self.titled(),
    {
        match self {
            ListEntry::Session(session) => session.title.clone(),
            ListEntry::Workflow(workflow) => workflow.title.clone(),
        }
    }
}

impl Clone for ListEntry {
    fn clone(&self) -> (r: Self)
        ensures
            r.same_as(*self),
    {
        match self {
            ListEntry::Session(session) => ListEntry::Session(session.clone()),
            ListEntry::Workflow(workflow) => ListEntry::Workflow(workflow.clone()),
        }
    }
}

/// The session that is open.
#[derive(Debug, PartialEq, Eq)]
pub enum OpenTarget {
    Session(String),
    Workflow(String),
}

impl OpenTarget {
    /// The identity of the session.
    pub open spec fn key(self) -> Seq<char> {
        match self {
            OpenTarget::Session(id) => id@,
            OpenTarget::Workflow(id) => id@,
        }
    }

    /// The two are the same session.
    pub open spec fn same_as(self, other: OpenTarget) -> bool {
        match (self, other) {
            (OpenTarget::Session(a), OpenTarget::Session(b)) => a@ == b@,
            (OpenTarget::Workflow(a), OpenTarget::Workflow(b)) => a@ == b@,
            _ => false,
        }
    }

    /// Whether the two are the same session.
    pub fn is(&self, other: &OpenTarget) -> (r: bool)
        ensures
            r == self.same_as(*other),
    {
        match (self, other) {
            (OpenTarget::Session(a), OpenTarget::Session(b)) => same(a.as_str(), b.as_str()),
            (OpenTarget::Workflow(a), OpenTarget::Workflow(b)) => same(a.as_str(), b.as_str()),
            _ => false,
        }
    }
}

impl Clone for OpenTarget {
    fn clone(&self) -> (r: Self)
        ensures
            r == *self,
    {
        match self {
            OpenTarget::Session(id) => OpenTarget::Session(id.clone()),
            OpenTarget::Workflow(id) => OpenTarget::Workflow(id.clone()),
        }
    }
}

/// The parts of the settings.
#[derive(Debug, Clone, Copy, PartialEq, Eq, Structural)]
pub enum SettingsTab {
    Connection,
    Machines,
    Orchestrator,
    QuickCommands,
    Skills,
    WorkflowPlans,
    Projects,
}

impl SettingsTab {
    /// The parts of the settings in the order in which they are shown.
    pub fn all() -> (r: Vec<SettingsTab>)
        ensures
            r@ == seq![
                SettingsTab::Connection,
                SettingsTab::Machines,
                SettingsTab::Orchestrator,
                SettingsTab::QuickCommands,
                SettingsTab::Skills,
                SettingsTab::WorkflowPlans,
                SettingsTab::Projects,
            ],
    {
        vec![
            SettingsTab::Connection,
            SettingsTab::Machines,
            SettingsTab::Orchestrator,
            SettingsTab::QuickCommands,
            SettingsTab::Skills,
            SettingsTab::WorkflowPlans,
            SettingsTab::Projects,
        ]
    }

    /// What is written on the part.
    pub fn label(self) -> (r: &'static str)
        ensures
            r@ == match self {
                SettingsTab::Connection => "连接设置"@,
                SettingsTab::Machines => "机器管理"@,
                SettingsTab::Orchestrator => "编排智能体"@,
                SettingsTab::QuickCommands => "快捷指令"@,
                SettingsTab::Skills => "技能管理"@,
                SettingsTab::WorkflowPlans => "工作流计划"@,
                SettingsTab::Projects => "项目管理"@,
            },
    {
        match self {
            SettingsTab::Connection => "连接设置",
            SettingsTab::Machines => "机器管理",
            SettingsTab::Orchestrator => "编排智能体",
            SettingsTab::QuickCommands => "快捷指令",
            SettingsTab::Skills => "技能管理",
            SettingsTab::WorkflowPlans => "工作流计划",
            SettingsTab::Projects => "项目管理",
        }
    }
}

/// The view that is shown. It decides what is fetched when a view opens.
#[derive(Debug, PartialEq, Eq)]
pub enum ViewKey {
    NewSession,
    Interaction(OpenTarget),
    Settings(SettingsTab),
}

impl ViewKey {
    /// The two are the same view.
    pub open spec fn same_as(self, other: ViewKey) -> bool {
        match (self, other) {
            (ViewKey::NewSession, ViewKey::NewSession) => true,
            (ViewKey::Interaction(a), ViewKey::Interaction(b)) => a.same_as(b),
            (ViewKey::Settings(a), ViewKey::Settings(b)) => a == b,
            _ => false,
        }
    }

    /// Whether the two are the same view.
    pub fn is(&self, other: &ViewKey) -> (r: bool)
        ensures
            r == self.same_as(*other),
    {
        match (self, other) {
            (ViewKey::NewSession, ViewKey::NewSession) => true,
            (ViewKey::Interaction(a), ViewKey::Interaction(b)) => a.is(b),
            (ViewKey::Settings(a), ViewKey::Settings(b)) => *a == *b,
            _ => false,
        }
    }
}

/// The output of a terminal so far. Whenever it is built anew it gets a new generation, so that
/// what was drawn of an earlier one is not taken for its beginning.
pub struct TerminalBuffer {
    bytes: Vec<u8>,
    generation: u64,
}

/// A number that no buffer has had yet.
pub fn next_terminal_generation(counter: &mut u64) -> (r: u64)
    ensures
        r == *old(counter),
        *final(counter) == if *old(counter) == u64::MAX {
            0
        } else {
            (*old(counter) + 1) as u64
        },
{
    let r: u64 = *counter;
    *counter = counter.wrapping_add(1);
    r
}

impl TerminalBuffer {
    /// The bytes of the output.
    pub closed spec fn output(&self) -> Seq<u8> {
        self.bytes@
    }

    /// Which of the buffers it is.
    pub closed spec fn version(&self) -> u64 {
        self.generation
    }

    /// An empty buffer.
    pub fn new(counter: &mut u64) -> (r: Self)
        ensures
            r.output().len() == 0,
            r.version() == *old(counter),
            *final(counter) == if *old(counter) == u64::MAX {
                0
            } else {
                (*old(counter) + 1) as u64
            },
    {
        TerminalBuffer { bytes: Vec::new(), generation: next_terminal_generation(counter) }
    }

    /// The bytes of the output.
    pub fn bytes(&self) -> (r: &Vec<u8>)
        ensures
            r@ == self.output(),
    {
        &self.bytes
    }

    /// Which of the buffers it is.
    pub fn generation(&self) -> (r: u64)
        ensures
            r == self.version(),
    {
        self.generation
    }

    /// Adds to the output.
    pub fn append(&mut self, bytes: &[u8])
        ensures
            final(self).output() == old(self).output() + bytes@,
            final(self).version() == old(self).version(),
    {
        self.bytes.extend_from_slice(bytes);
    }

    /// Begins anew.
    pub fn reset(&mut self, counter: &mut u64)
        ensures
            final(self).output().len() == 0,
            final(self).version() == *old(counter),
            *final(counter) == if *old(counter) == u64::MAX {
                0
            } else {
                (*old(counter) + 1) as u64
            },
    {
        self.bytes = Vec::new();
        self.generation = next_terminal_generation(counter);
    }
}

/// How far a list is loaded. What is loaded is the newest part of it, which grows towards older
/// entries page by page.
#[derive(Debug, Clone, Copy, PartialEq, Eq, Structural)]
pub struct Paging {
    /// How many entries a page has: as many as the view can show.
    pub page_size: usize,
    /// The server has older entries.
    pub has_older: bool,
    /// A page of older entries is on its way.
    pub loading_older: bool,
    /// How many entries were put before the others, until the view has taken notice of it.
    pub shift: Option<usize>,
}

impl Default for Paging {
    fn default() -> (r: Self)
        ensures
            r == (Paging {
                page_size: DEFAULT_PAGE_SIZE,
                has_older: false,
                loading_older: false,
                shift: None,
            }),
    {
        Paging { page_size: DEFAULT_PAGE_SIZE, has_older: false, loading_older: false, shift: None }
    }
}

/// The entries whose names begin with what was typed.
pub open spec fn beginning_with(entries: Seq<FsEntry>, prefix: Seq<char>) -> Seq<FsEntry> {
    entries.filter(|e: FsEntry| prefix.is_prefix_of(e.name@))
}

/// The entries whose names begin with what was typed.
pub fn matching_prefix(entries: Vec<FsEntry>, prefix: &str) -> (r: Vec<FsEntry>)
    ensures
        r@ == beginning_with(entries@, prefix@),
{
    let mut out: Vec<FsEntry> = Vec::new();
    let ghost all = entries@;
    let ghost fits = |e: FsEntry| prefix@.is_prefix_of(e.name@);
    proof {
        assert(all.take(0).filter(fits) =~= Seq::empty()) by {
            reveal(Seq::filter);
        }
    }
    for entry in it: entries
        invariant
            it.seq() == all,
            fits == (|e: FsEntry| prefix@.is_prefix_of(e.name@)),
            out@ == all.take(it.index() as int).filter(fits),
    {
        proof {
            reveal(Seq::filter);
            let n = it.index() as int;
            assert(all.take(n + 1).drop_last() =~= all.take(n));
            assert(all.take(n + 1).last() == entry);
        }
        if starts_with(entry.name.as_str(), prefix) {
            out.push(entry);
        }
    }
    proof {
        assert(all.take(all.len() as int) =~= all);
    }
    out
}

/// A file or an image that goes with the next message.
#[derive(Debug, PartialEq)]
pub struct Attachment {
    pub block: ContentBlock,
    /// What is shown of it.
    pub label: String,
}

/// The panels at the side.
#[derive(Debug, Clone, Copy, PartialEq, Eq, Structural)]
pub enum SidePanel {
    Workspace,
    Diff,
    Detail,
    Activities,
    Plan,
    Terminal,
}

impl SidePanel {
    /// The panels in the order in which they are shown.
    pub fn all() -> (r: Vec<SidePanel>)
        ensures
            r@ == panels(),
    {
        vec![
            SidePanel::Workspace,
            SidePanel::Diff,
            SidePanel::Detail,
            SidePanel::Activities,
            SidePanel::Plan,
            SidePanel::Terminal,
        ]
    }

    /// A workflow has no panels but those for its details and its activities.
    pub open spec fn fits(self, is_workflow: bool) -> bool {
        !is_workflow || self == SidePanel::Detail || self == SidePanel::Activities
    }

    /// Whether a kind of session has the panel.
    pub fn is_available(self, is_workflow: bool) -> (r: bool)
        ensures
            r == self.fits(is_workflow),
    {
        !is_workflow || self == SidePanel::Detail || self == SidePanel::Activities
    }

    /// The panels that a kind of session has.
    pub fn for_session(is_workflow: bool) -> (r: Vec<SidePanel>)
        ensures
            r@ == panels().filter(|p: SidePanel| p.fits(is_workflow)),
    {
        let all: Vec<SidePanel> = SidePanel::all();
        let mut out: Vec<SidePanel> = Vec::new();
        let ghost fits = |p: SidePanel| p.fits(is_workflow);
        proof {
            assert(panels().take(0).filter(fits) =~= Seq::empty()) by {
                reveal(Seq::filter);
            }
        }
        let mut i: usize = 0;
        while i < all.len()
            invariant
                0 <= i <= all@.len(),
                all@ == panels(),
                fits == (|p: SidePanel| p.fits(is_workflow)),
                out@ == all@.take(i as int).filter(fits),
            decreases all.len() - i,
        {
            proof {
                reveal(Seq::filter);
                assert(all@.take(i + 1).drop_last() =~= all@.take(i as int));
                assert(all@.take(i + 1).last() == all@[i as int]);
            }
            if all[i].is_available(is_workflow) {
                out.push(all[i]);
            }
            i = i + 1;
        }
        proof {
            assert(all@.take(i as int) =~= all@);
        }
        out
    }

    /// What is written on the panel.
    pub fn label(self) -> (r: &'static str)
        ensures
            r@ == match self {
                SidePanel::Workspace => "工作目录"@,
                SidePanel::Diff => "文件改动"@,
                SidePanel::Detail => "会话详情"@,
                SidePanel::Activities => "会话活动"@,
                SidePanel::Plan => "会话计划"@,
                SidePanel::Terminal => "终端"@,
            },
    {
        match self {
            SidePanel::Workspace => "工作目录",
            SidePanel::Diff => "文件改动",
            SidePanel::Detail => "会话详情",
            SidePanel::Activities => "会话活动",
            SidePanel::Plan => "会话计划",
            SidePanel::Terminal => "终端",
        }
    }

    /// What is written on the button that opens the panel.
    pub fn short_label(self) -> (r: &'static str)
        ensures
            r@ == match self {
                SidePanel::Workspace => "目录"@,
                SidePanel::Diff => "改动"@,
                SidePanel::Detail => "详情"@,
                SidePanel::Activities => "活动"@,
                SidePanel::Plan => "计划"@,
                SidePanel::Terminal => "终端"@,
            },
    {
        match self {
            SidePanel::Workspace => "目录",
            SidePanel::Diff => "改动",
            SidePanel::Detail => "详情",
            SidePanel::Activities => "活动",
            SidePanel::Plan => "计划",
            SidePanel::Terminal => "终端",
        }
    }

    /// How wide the panel is at first, in logical pixels.
    pub fn default_width(self) -> (r: u32)
        ensures
            r == match self {
                SidePanel::Workspace => 520,
                SidePanel::Diff => 560,
                SidePanel::Detail => 360u32,
                SidePanel::Activities => 400,
                SidePanel::Plan => 360,
                SidePanel::Terminal => 560,
            },
    {
        match self {
            SidePanel::Workspace => 520,
            SidePanel::Diff => 560,
            SidePanel::Detail => 360,
            SidePanel::Activities => 400,
            SidePanel::Plan => 360,
            SidePanel::Terminal => 560,
        }
    }
}

/// The panels in the order in which they are shown.
pub open spec fn panels() -> Seq<SidePanel> {
    seq![
        SidePanel::Workspace,
        SidePanel::Diff,
        SidePanel::Detail,
        SidePanel::Activities,
        SidePanel::Plan,
        SidePanel::Terminal,
    ]
}

/// How much a notice matters.
#[derive(Debug, Clone, Copy, PartialEq, Eq, Structural)]
pub enum NoteLevel {
    Success,
    Warning,
    Error,
}

/// A notice that waits to be shown.
#[derive(Debug, PartialEq)]
pub struct Note {
    pub message: String,
    pub level: NoteLevel,
}

/// A result that waits to be shown in a window of its own.
#[derive(Debug, PartialEq)]
pub struct Alert {
    pub title: String,
    pub message: String,
}

/// What is shown of the open session.
pub struct SessionView {
    pub history: Vec<HistoryItem>,
    pub activities: Vec<Activity>,
    pub plan: Vec<SessionPlanEntry>,
    pub config_options: Vec<SessionConfigOption>,
    pub slash_commands: Vec<SlashCommand>,
    /// What the session is doing.
    pub ongoing: Option<Activity>,
    pub context_size: u64,
    pub context_window_size: u64,
    pub diff: Option<GitDiffResult>,
    pub terminals: Vec<Terminal>,
    pub active_terminal: Option<String>,
    pub history_paging: Paging,
    pub activities_paging: Paging,
    /// The output of the active terminal.
    pub terminal_output: TerminalBuffer,
    /// The tree of the session's directory.
    pub workspace_tree: Vec<WorkspaceNode>,
    /// The file that was looked at last.
    pub file_content: Option<String>,
}

impl SessionView {
    /// Nothing has been fetched yet.
    pub open spec fn is_new(self) -> bool {
        &&& self.history@.len() == 0
        &&& self.activities@.len() == 0
        &&& self.plan@.len() == 0
        &&& self.config_options@.len() == 0
        &&& self.slash_commands@.len() == 0
        &&& self.ongoing is None
        &&& self.context_size == 0
        &&& self.context_window_size == 0
        &&& self.diff is None
        &&& self.terminals@.len() == 0
        &&& self.active_terminal is None
        &&& self.history_paging == first_page()
        &&& self.activities_paging == first_page()
        &&& self.terminal_output.output().len() == 0
        &&& self.workspace_tree@.len() == 0
        &&& self.file_content is None
    }

    /// The view of a session that was just opened.
    pub fn new(counter: &mut u64) -> (r: Self)
        ensures
            r.is_new(),
            r.terminal_output.version() == *old(counter),
            *final(counter) == after(*old(counter)),
    {
        SessionView {
            history: Vec::new(),
            activities: Vec::new(),
            plan: Vec::new(),
            config_options: Vec::new(),
            slash_commands: Vec::new(),
            ongoing: None,
            context_size: 0,
            context_window_size: 0,
            diff: None,
            terminals: Vec::new(),
            active_terminal: None,
            history_paging: Paging::default(),
            activities_paging: Paging::default(),
            terminal_output: TerminalBuffer::new(counter),
            workspace_tree: Vec::new(),
            file_content: None,
        }
    }
}

/// How far a list is loaded before anything was fetched.
pub open spec fn first_page() -> Paging {
    Paging { page_size: DEFAULT_PAGE_SIZE, has_older: false, loading_older: false, shift: None }
}

/// The number that follows, in 64 bits.
pub open spec fn after(n: u64) -> u64 {
    if n == u64::MAX {
        0
    } else {
        (n + 1) as u64
    }
}

/// The number that follows after so many steps.
pub open spec fn after_all(n: u64, steps: nat) -> u64
    decreases steps,
{
    if steps == 0 {
        n
    } else {
        after(after_all(n, (steps - 1) as nat))
    }
}

proof fn lemma_after_all(n: u64, steps: nat)
    ensures
        after_all(n, steps) == (n + steps) % 0x1_0000_0000_0000_0000,
    decreases steps,
{
    if steps > 0 {
        lemma_after_all(n, (steps - 1) as nat);
    }
}

/// Outputs that are begun anew have different numbers, so that the grid always sees that another
/// one was begun, unless they are apart by a multiple of what 64 bits count.
pub proof fn law_generations_do_not_repeat(n: u64, earlier: nat, later: nat)
    requires
        (later - earlier) % 0x1_0000_0000_0000_0000 != 0,
    ensures
        after_all(n, earlier) != after_all(n, later),
{
    lemma_after_all(n, earlier);
    lemma_after_all(n, later);
}

/// The open session: what it is, and what is shown of it.
pub struct OpenView {
    pub session: Option<Session>,
    pub workflow: Option<Workflow>,
    pub detail: SessionView,
}

impl OpenView {
    /// Nothing has been fetched yet.
    pub open spec fn is_new(self) -> bool {
        self.session is None && self.workflow is None && self.detail.is_new()
    }

    /// The view of a session that was just opened.
    pub fn new(counter: &mut u64) -> (r: Self)
        ensures
            r.is_new(),
            r.detail.terminal_output.version() == *old(counter),
            *final(counter) == after(*old(counter)),
    {
        OpenView { session: None, workflow: None, detail: SessionView::new(counter) }
    }

    /// Who one talks to: an agent on a machine, or the agent behind workflows.
    pub fn subtitle(&self) -> (r: String)
        ensures
            r@ == match self.session {
                Some(session) => session.agent@ + "@"@ + session.machine@,
                None => "编排智能体"@,
            },
    {
        match &self.session {
            Some(session) => {
                let mut r: String = session.agent.clone();
                r.append("@");
                r.append(session.machine.as_str());
                r
            },
            None => "编排智能体".to_owned(),
        }
    }
}

/// A directory of a machine and what is in it.
#[derive(Debug, PartialEq)]
pub struct DirectoryListing {
    pub machine: String,
    pub dir: String,
    pub entries: Vec<FsEntry>,
}

/// What is entered for a new session.
pub struct NewSessionForm {
    pub workflow_mode: bool,
    pub machine: Option<String>,
    pub agent: Option<String>,
    pub use_worktree: bool,
    pub project: Option<String>,
    /// The directories that fit what was typed.
    pub suggestions: Vec<FsEntry>,
    /// The directory whose entries are suggested. Its entries are none until they are fetched.
    pub suggestion: Option<DirectoryListing>,
    /// The beginning of a name that was typed.
    pub suggestion_prefix: String,
}

impl NewSessionForm {
    /// Nothing has been entered.
    pub open spec fn is_new(self) -> bool {
        &&& !self.workflow_mode
        &&& self.is_blank()
    }

    /// Nothing has been entered but the kind of session.
    pub open spec fn is_blank(self) -> bool {
        &&& self.machine is None
        &&& self.agent is None
        &&& !self.use_worktree
        &&& self.project is None
        &&& self.suggestions@.len() == 0
        &&& self.suggestion is None
        &&& self.suggestion_prefix@.len() == 0
    }
}

impl Default for NewSessionForm {
    fn default() -> (r: Self)
        ensures
            r.is_new(),
    {
        NewSessionForm {
            workflow_mode: false,
            machine: None,
            agent: None,
            use_worktree: false,
            project: None,
            suggestions: Vec::new(),
            suggestion: None,
            suggestion_prefix: String::new(),
        }
    }
}

/// What is set, as far as it has been fetched.
pub struct SettingsData {
    pub machines: Vec<Machine>,
    /// The agents of each machine.
    pub agents: Vec<(String, Vec<Agent>)>,
    pub skills: Vec<Skill>,
    pub plans: Vec<WorkflowPlanItem>,
    pub quick_commands: Vec<QuickCommand>,
    pub orchestrator: Option<OrchestratorConfig>,
    /// It is known whether the built-in agent is set up.
    pub orchestrator_loaded: bool,
    pub projects: Vec<Project>,
}

impl SettingsData {
    /// Nothing has been fetched yet.
    pub open spec fn is_new(self) -> bool {
        &&& self.machines@.len() == 0
        &&& self.agents@.len() == 0
        &&& self.skills@.len() == 0
        &&& self.plans@.len() == 0
        &&& self.quick_commands@.len() == 0
        &&& self.orchestrator is None
        &&& !self.orchestrator_loaded
        &&& self.projects@.len() == 0
    }
}

impl Default for SettingsData {
    fn default() -> (r: Self)
        ensures
            r.is_new(),
    {
        SettingsData {
            machines: Vec::new(),
            agents: Vec::new(),
            skills: Vec::new(),
            plans: Vec::new(),
            quick_commands: Vec::new(),
            orchestrator: None,
            orchestrator_loaded: false,
            projects: Vec::new(),
        }
    }
}

/// When each view was refreshed last, in milliseconds.
#[derive(Debug, Clone, Copy, PartialEq, Eq, Structural)]
pub struct Ticks {
    pub list: Option<u64>,
    pub history: Option<u64>,
    pub ongoing: Option<u64>,
    pub activities: Option<u64>,
    pub plan: Option<u64>,
    pub options: Option<u64>,
    pub terminal: Option<u64>,
    pub terminal_cursor: u64,
}

/// Nothing has been refreshed yet.
pub open spec fn no_ticks() -> Ticks {
    Ticks {
        list: None,
        history: None,
        ongoing: None,
        activities: None,
        plan: None,
        options: None,
        terminal: None,
        terminal_cursor: 0,
    }
}

impl Default for Ticks {
    fn default() -> (r: Self)
        ensures
            r == no_ticks(),
    {
        Ticks {
            list: None,
            history: None,
            ongoing: None,
            activities: None,
            plan: None,
            options: None,
            terminal: None,
            terminal_cursor: 0,
        }
    }
}

/// How far the sessions of a project are loaded.
#[derive(Debug, Clone, Copy, PartialEq, Eq, Structural)]
pub struct ProjectGroup {
    pub loaded: usize,
    pub has_more: bool,
    pub loading: bool,
}

/// The state of the client that is not about windows.
pub struct Core {
    pub connection: Connection,
    pub client: Option<Client>,
    pub status: ConnectionStatus,
    pub entries: Vec<ListEntry>,
    pub new_session: NewSessionForm,
    pub recent_workspaces: Vec<RecentWorkspace>,
    pub open: Option<OpenTarget>,
    pub view: OpenView,
    pub settings_open: bool,
    pub settings_tab: SettingsTab,
    pub settings: SettingsData,
    /// The view whose data was fetched when it opened.
    pub loaded_view: Option<ViewKey>,
    pub notes: VecDeque<Note>,
    pub alerts: VecDeque<Alert>,
    /// How many sessions and how many workflows are loaded.
    pub list_loaded: usize,
    pub list_paging: Paging,
    pub side_panel: Option<SidePanel>,
    /// The workflows whose sessions are shown.
    pub expanded_workflows: Table<()>,
    /// How far the sessions of each project are loaded.
    pub project_groups: Table<ProjectGroup>,
    /// The projects whose sessions are hidden.
    pub collapsed_project_groups: Table<()>,
    pub last: Ticks,
    /// The number of the next buffer of a terminal.
    pub generations: u64,
}

/// The first entry with an identity.
pub open spec fn first_entry(entries: Seq<ListEntry>, id: Seq<char>) -> Option<ListEntry>
    decreases entries.len(),
{
    if entries.len() == 0 {
        None
    } else if entries[0].key() == id {
        Some(entries[0])
    } else {
        first_entry(entries.skip(1), id)
    }
}

/// The first session with an identity.
pub open spec fn first_session(sessions: Seq<Session>, id: Seq<char>) -> Option<Session>
    decreases sessions.len(),
{
    if sessions.len() == 0 {
        None
    } else if sessions[0].id@ == id {
        Some(sessions[0])
    } else {
        first_session(sessions.skip(1), id)
    }
}

/// The first session of a workflow among the entries with an identity.
pub open spec fn first_linked(entries: Seq<ListEntry>, id: Seq<char>) -> Option<Session>
    decreases entries.len(),
{
    if entries.len() == 0 {
        None
    } else {
        match entries[0] {
            ListEntry::Workflow(workflow) => match first_session(workflow.linked_sessions@, id) {
                Some(session) => Some(session),
                None => first_linked(entries.skip(1), id),
            },
            ListEntry::Session(_) => first_linked(entries.skip(1), id),
        }
    }
}

/// The entry with an identity: one of the list, else a session of a workflow in the list.
pub open spec fn entry_of(entries: Seq<ListEntry>, id: Seq<char>) -> Option<ListEntry> {
    match first_entry(entries, id) {
        Some(entry) => Some(entry),
        None => match first_linked(entries, id) {
            Some(session) => Some(ListEntry::Session(session)),
            None => None,
        },
    }
}

/// A view is due: it was never refreshed, or long enough ago.
pub open spec fn due_at(last: Option<u64>, interval: u64, now: u64) -> bool {
    match last {
        Some(at) => (if now >= at {
            now - at
        } else {
            0
        }) >= interval,
        None => true,
    }
}

/// Whether a view is due.
pub fn due(last: Option<u64>, interval: u64, now: u64) -> (r: bool)
    ensures
        r == due_at(last, interval, now),
{
    match last {
        Some(at) => {
            let passed: u64 = if now >= at {
                now - at
            } else {
                0
            };
            passed >= interval
        },
        None => true,
    }
}

impl Core {
    /// Nothing has been fetched or opened yet.
    pub open spec fn is_new(self) -> bool {
        &&& self.entries@.len() == 0
        &&& self.new_session.is_new()
        &&& self.recent_workspaces@.len() == 0
        &&& self.open is None
        &&& self.view.is_new()
        &&& !self.settings_open
        &&& self.settings_tab == SettingsTab::Connection
        &&& self.settings.is_new()
        &&& self.loaded_view is None
        &&& self.notes@.len() == 0
        &&& self.alerts@.len() == 0
        &&& self.list_loaded == DEFAULT_PAGE_SIZE
        &&& self.list_paging == first_page()
        &&& self.side_panel is None
        &&& self.expanded_workflows.names().len() == 0
        &&& self.project_groups.names().len() == 0
        &&& self.collapsed_project_groups.names().len() == 0
        &&& self.last == no_ticks()
    }

    /// The state is that of a connection: with a client where it is complete.
    pub open spec fn connects(self, connection: Connection) -> bool {
        &&& self.connection == connection
        &&& self.status == if connection.configured() {
            ConnectionStatus::Connecting
        } else {
            ConnectionStatus::Unconfigured
        }
        &&& self.client is Some == connection.configured()
        &&& self.client matches Some(client) ==> client.address() == connection.base()
            && client.secret() == connection.token@
    }

    /// The state for a connection.
    pub fn new(connection: Connection) -> (r: Self)
        ensures
            r.is_new(),
            r.connects(connection),
            r.view.detail.terminal_output.version() == 0,
            r.generations == 1,
    {
        let mut generations: u64 = 0;
        let view: OpenView = OpenView::new(&mut generations);
        let mut core = Core {
            connection: Connection::default(),
            client: None,
            status: ConnectionStatus::Unconfigured,
            entries: Vec::new(),
            new_session: NewSessionForm::default(),
            recent_workspaces: Vec::new(),
            open: None,
            view,
            settings_open: false,
            settings_tab: SettingsTab::Connection,
            settings: SettingsData::default(),
            loaded_view: None,
            notes: VecDeque::new(),
            alerts: VecDeque::new(),
            list_loaded: DEFAULT_PAGE_SIZE,
            list_paging: Paging::default(),
            side_panel: None,
            expanded_workflows: Table::new(),
            project_groups: Table::new(),
            collapsed_project_groups: Table::new(),
            last: Ticks::default(),
            generations,
        };
        core.apply_connection(connection);
        core
    }

    /// Takes up a connection: the client is made anew, and the connection is yet to be tried.
    pub fn apply_connection(&mut self, connection: Connection)
        ensures
            final(self).connects(connection),
            *final(self) == (Core {
                connection: final(self).connection,
                client: final(self).client,
                status: final(self).status,
                ..*old(self)
            }),
    {
        if connection.is_configured() {
            self.status = ConnectionStatus::Connecting;
            self.client = Some(Client::new(&connection));
        } else {
            self.status = ConnectionStatus::Unconfigured;
            self.client = None;
        }
        self.connection = connection;
    }

    /// Whether a view is due.
    pub fn due(&self, last: Option<u64>, interval: u64, now: u64) -> (r: bool)
        ensures
            r == due_at(last, interval, now),
    {
        due(last, interval, now)
    }

    /// The view that is shown: the settings where they are open, else the open session, else that
    /// of a new session.
    pub open spec fn shown(self) -> ViewKey {
        if self.settings_open {
            ViewKey::Settings(self.settings_tab)
        } else {
            match self.open {
                Some(target) => ViewKey::Interaction(target),
                None => ViewKey::NewSession,
            }
        }
    }

    /// The view that is shown.
    pub fn view_key(&self) -> (r: ViewKey)
        ensures
            r == self.shown(),
    {
        if self.settings_open {
            return ViewKey::Settings(self.settings_tab);
        }
        match &self.open {
            Some(target) => ViewKey::Interaction(target.clone()),
            None => ViewKey::NewSession,
        }
    }

    /// The entry with an identity. The sessions of a workflow are entries too.
    pub fn entry(&self, id: &str) -> (r: Option<ListEntry>)
        ensures
            match entry_of(self.entries@, id@) {
                Some(entry) => r is Some && r->0.same_as(entry),
                None => r is None,
            },
    {
        let ghost all = self.entries@;
        let mut i: usize = 0;
        proof {
            assert(all.skip(0) =~= all);
        }
        while i < self.entries.len()
            invariant
                0 <= i <= self.entries@.len(),
                all == self.entries@,
                first_entry(all, id@) == first_entry(all.skip(i as int), id@),
            decreases self.entries.len() - i,
        {
            proof {
                assert(all.skip(i as int)[0] == all[i as int]);
                assert(all.skip(i as int).skip(1) =~= all.skip(i + 1));
            }
            if same(self.entries[i].id(), id) {
                return Some(self.entries[i].clone());
            }
            i = i + 1;
        }
        proof {
            assert(all.skip(i as int) =~= Seq::empty());
            assert(all.skip(0) =~= all);
        }
        let mut k: usize = 0;
        while k < self.entries.len()
            invariant
                0 <= k <= self.entries@.len(),
                all == self.entries@,
                first_entry(all, id@) is None,
                first_linked(all, id@) == first_linked(all.skip(k as int), id@),
            decreases self.entries.len() - k,
        {
            proof {
                assert(all.skip(k as int)[0] == all[k as int]);
                assert(all.skip(k as int).skip(1) =~= all.skip(k + 1));
            }
            match &self.entries[k] {
                ListEntry::Workflow(workflow) => {
                    match find_session(&workflow.linked_sessions, id) {
                        Some(session) => {
                            return Some(ListEntry::Session(session));
                        },
                        None => {},
                    }
                },
                ListEntry::Session(_) => {},
            }
            k = k + 1;
        }
        proof {
            assert(all.skip(k as int) =~= Seq::empty());
        }
        None
    }

    /// A workflow is open.
    pub open spec fn on_workflow(self) -> bool {
        self.open matches Some(OpenTarget::Workflow(_))
    }

    /// Whether a workflow is open.
    pub fn is_workflow(&self) -> (r: bool)
        ensures
            r == self.on_workflow(),
    {
        match &self.open {
            Some(OpenTarget::Workflow(_)) => true,
            _ => false,
        }
    }

    /// Nothing but the notices changed: one came behind the others.
    pub open spec fn noted(self, before: Core, message: Seq<char>, level: NoteLevel) -> bool {
        &&& self == (Core { notes: self.notes, ..before })
        &&& self.notes@.len() == before.notes@.len() + 1
        &&& self.notes@.drop_last() == before.notes@
        &&& self.notes@.last().message@ == message
        &&& self.notes@.last().level == level
    }

    fn note(&mut self, message: String, level: NoteLevel)
        ensures
            final(self).noted(*old(self), message@, level),
    {
        self.notes.push_back(Note { message, level });
        proof {
            assert(self.notes@.drop_last() =~= old(self).notes@);
        }
    }

    /// A notice of something that was done.
    pub fn success(&mut self, message: String)
        ensures
            final(self).noted(*old(self), message@, NoteLevel::Success),
    {
        self.note(message, NoteLevel::Success);
    }

    /// A notice of something that has to be mended first.
    pub fn warning(&mut self, message: String)
        ensures
            final(self).noted(*old(self), message@, NoteLevel::Warning),
    {
        self.note(message, NoteLevel::Warning);
    }

    /// A notice of something that failed.
    pub fn error(&mut self, message: String)
        ensures
            final(self).noted(*old(self), message@, NoteLevel::Error),
    {
        self.note(message, NoteLevel::Error);
    }

    /// A notice of something that failed, and why.
    pub fn failed(&mut self, what: &str, cause: &str)
        ensures
            final(self).noted(*old(self), what@ + cause@, NoteLevel::Error),
    {
        let mut message: String = what.to_owned();
        message.append(cause);
        self.note(message, NoteLevel::Error);
    }

    /// A result that is shown in a window of its own.
    pub fn alert(&mut self, title: String, message: String)
        ensures
            *final(self) == (Core { alerts: final(self).alerts, ..*old(self) }),
            final(self).alerts@ == old(self).alerts@.push(Alert { title, message }),
    {
        self.alerts.push_back(Alert { title, message });
    }

    /// The notice that waits longest.
    pub fn next_note(&mut self) -> (r: Option<Note>)
        ensures
            *final(self) == (Core { notes: final(self).notes, ..*old(self) }),
            old(self).notes@.len() == 0 ==> r is None && final(self).notes@ == old(self).notes@,
            old(self).notes@.len() > 0 ==> r == Some(old(self).notes@[0]) && final(self).notes@
                == old(self).notes@.skip(1),
    {
        let r: Option<Note> = self.notes.pop_front();
        proof {
            if r is Some {
                assert(self.notes@ =~= old(self).notes@.skip(1));
            }
        }
        r
    }
}

fn find_session(sessions: &Vec<Session>, id: &str) -> (r: Option<Session>)
    ensures
        r == first_session(sessions@, id@),
{
    let ghost all = sessions@;
    let mut i: usize = 0;
    proof {
        assert(all.skip(0) =~= all);
    }
    while i < sessions.len()
        invariant
            0 <= i <= sessions@.len(),
            all == sessions@,
            first_session(all, id@) == first_session(all.skip(i as int), id@),
        decreases sessions.len() - i,
    {
        proof {
            assert(all.skip(i as int)[0] == all[i as int]);
            assert(all.skip(i as int).skip(1) =~= all.skip(i + 1));
        }
        if same(sessions[i].id.as_str(), id) {
            return Some(sessions[i].clone());
        }
        i = i + 1;
    }
    proof {
        assert(all.skip(i as int) =~= Seq::empty());
    }
    None
}

} // verus!
