//! The middle of the window: the form for a new session, the conversation, and what is written.
use super::state::{Attachment, Core, NewSessionForm};
use super::ui;
use super::ui::{activity_line, blocks_text, truncate};
use crate::common::api::{Agent, QuickCommand, RecentWorkspace};
use crate::common::domain::{
    Activity, FsEntry, HistoryItem, SessionConfigKind, SessionConfigOption, SessionConfigSelectEntry,
    SessionState, SlashCommand,
};
use crate::strings;
use crate::strings::{is_blank, same, trim_end};
use vstd::prelude::*;

verus! {

/// How many suggestions are in view at once.
pub const SUGGEST_MAX_ROWS: usize = 8;

/// How many of the directories that were used lately are offered.
pub const RECENT_WORKSPACE_LIMIT: usize = 20;

/// Whether a session works.
pub fn is_busy(state: SessionState) -> (r: bool)
    ensures
        r == (state == SessionState::Busy),
{
    state == SessionState::Busy
}

/// Something that can be chosen.
#[derive(Debug, PartialEq)]
pub struct Choice {
    pub name: String,
    pub label: String,
    pub selected: bool,
    pub enabled: bool,
}

impl Choice {
    /// The choice stands for a name.
    pub open spec fn stands_for(
        self,
        name: Seq<char>,
        label: Seq<char>,
        selected: bool,
        enabled: bool,
    ) -> bool {
        &&& self.name@ == name
        &&& self.label@ == label
        &&& self.selected == selected
        &&& self.enabled == enabled
    }
}

/// The text is the one that was chosen.
pub open spec fn picked(selected: Option<String>, name: Seq<char>) -> bool {
    selected matches Some(one) && one@ == name
}

fn is_picked(selected: &Option<String>, name: &str) -> (r: bool)
    ensures
        r == picked(*selected, name@),
{
    match selected {
        Some(one) => same(one.as_str(), name),
        None => false,
    }
}

/// The agents of a machine: those of its first entry.
pub open spec fn agents_of(agents: Seq<(String, Vec<Agent>)>, machine: Seq<char>) -> Seq<Agent>
    decreases agents.len(),
{
    if agents.len() == 0 {
        Seq::empty()
    } else if agents[0].0@ == machine {
        agents[0].1@
    } else {
        agents_of(agents.skip(1), machine)
    }
}

/// The place of the first entry of a machine, or the number of entries.
pub fn find_machine(agents: &Vec<(String, Vec<Agent>)>, machine: &str) -> (r: usize)
    ensures
        r <= agents@.len(),
        r < agents@.len() ==> agents@[r as int].0@ == machine@ && agents@[r as int].1@ == agents_of(
            agents@,
            machine@,
        ),
        r == agents@.len() ==> agents_of(agents@, machine@).len() == 0,
        forall|i: int| 0 <= i < r ==> (#[trigger] agents@[i]).0@ != machine@,
{
    let ghost all = agents@;
    let mut i: usize = 0;
    proof {
        assert(all.skip(0) =~= all);
    }
    while i < agents.len()
        invariant
            0 <= i <= all.len(),
            all == agents@,
            agents_of(all, machine@) == agents_of(all.skip(i as int), machine@),
            forall|k: int| 0 <= k < i ==> (#[trigger] all[k]).0@ != machine@,
        decreases all.len() - i,
    {
        proof {
            assert(all.skip(i as int)[0] == all[i as int]);
            assert(all.skip(i as int).skip(1) =~= all.skip(i + 1));
        }
        if same(agents[i].0.as_str(), machine) {
            return i;
        }
        i = i + 1;
    }
    proof {
        assert(all.skip(i as int) =~= Seq::empty());
    }
    i
}

/// An agent of a machine can be used.
pub open spec fn usable(agents: Seq<(String, Vec<Agent>)>, machine: Seq<char>, agent: Seq<char>) -> bool {
    exists|i: int|
        0 <= i < agents_of(agents, machine).len() && (#[trigger] agents_of(agents, machine)[i]).name@
            == agent && agents_of(agents, machine)[i].available
}

/// Whether an agent of a machine can be used.
pub fn machine_agent_available(core: &Core, machine: &str, agent: &str) -> (r: bool)
    ensures
        r == usable(core.settings.agents@, machine@, agent@),
{
    let at: usize = find_machine(&core.settings.agents, machine);
    if at >= core.settings.agents.len() {
        return false;
    }
    let found: &Vec<Agent> = &core.settings.agents[at].1;
    let mut i: usize = 0;
    while i < found.len()
        invariant
            0 <= i <= found@.len(),
            found@ == agents_of(core.settings.agents@, machine@),
            forall|k: int|
                0 <= k < i ==> !((#[trigger] found@[k]).name@ == agent@ && found@[k].available),
        decreases found.len() - i,
    {
        if found[i].available && same(found[i].name.as_str(), agent) {
            assert(agents_of(core.settings.agents@, machine@)[i as int].name@ == agent@);
            return true;
        }
        i = i + 1;
    }
    false
}

/// The agent that was chosen can be used.
pub open spec fn ready(core: Core) -> bool {
    &&& core.new_session.machine is Some
    &&& core.new_session.agent is Some
    &&& usable(
        core.settings.agents@,
        core.new_session.machine->0@,
        core.new_session.agent->0@,
    )
}

/// Whether the agent that was chosen can be used.
pub fn selected_agent_available(core: &Core) -> (r: bool)
    ensures
        r == ready(*core),
{
    match (&core.new_session.machine, &core.new_session.agent) {
        (Some(machine), Some(agent)) => machine_agent_available(
            core,
            machine.as_str(),
            agent.as_str(),
        ),
        _ => false,
    }
}

/// The machines that can be chosen.
pub fn machine_selector(core: &Core) -> (r: Vec<Choice>)
    ensures
        r@.len() == core.settings.machines@.len(),
        forall|i: int|
            0 <= i < r@.len() ==> {
                let name = core.settings.machines@[i].name@;
                (#[trigger] r@[i]).stands_for(
                    name,
                    name,
                    picked(core.new_session.machine, name),
                    true,
                )
            },
{
    let mut out: Vec<Choice> = Vec::new();
    let mut i: usize = 0;
    while i < core.settings.machines.len()
        invariant
            0 <= i <= core.settings.machines@.len(),
            out@.len() == i,
            forall|k: int|
                0 <= k < i ==> {
                    let name = core.settings.machines@[k].name@;
                    (#[trigger] out@[k]).stands_for(
                        name,
                        name,
                        picked(core.new_session.machine, name),
                        true,
                    )
                },
        decreases core.settings.machines.len() - i,
    {
        let name: &String = &core.settings.machines[i].name;
        out.push(
            Choice {
                name: name.clone(),
                label: name.clone(),
                selected: is_picked(&core.new_session.machine, name.as_str()),
                enabled: true,
            },
        );
        i = i + 1;
    }
    out
}

/// Another machine is chosen: an agent is yet to be chosen, and what was suggested was of the machine
/// before.
pub fn select_machine(form: &mut NewSessionForm, name: &str)
    ensures
        final(form).machine is Some && final(form).machine->0@ == name@,
        final(form).agent is None,
        final(form).suggestions@.len() == 0,
        final(form).suggestion is None,
        *final(form) == (NewSessionForm {
            machine: final(form).machine,
            agent: final(form).agent,
            suggestions: final(form).suggestions,
            suggestion: final(form).suggestion,
            ..*old(form)
        }),
{
    form.machine = Some(name.to_owned());
    form.agent = None;
    form.suggestions = Vec::new();
    form.suggestion = None;
}

/// The agents that can be chosen, or why there are none.
#[derive(Debug, PartialEq)]
pub enum AgentChoices {
    Hint(&'static str),
    Agents(Vec<Choice>),
}

/// The agents that can be chosen. Those that cannot be used are shown and not to be chosen.
pub fn agent_selector(core: &Core) -> (r: AgentChoices)
    ensures
        match core.new_session.machine {
            None => r matches AgentChoices::Hint(text) && text@ == "请选择机器"@,
            Some(machine) => {
                let agents = agents_of(core.settings.agents@, machine@);
                if agents.len() == 0 {
                    r matches AgentChoices::Hint(text) && text@ == "该机器未发现智能体"@
                } else {
                    r matches AgentChoices::Agents(choices) && choices@.len() == agents.len()
                        && forall|i: int|
                        0 <= i < agents.len() ==> (#[trigger] choices@[i]).stands_for(
                            agents[i].name@,
                            agents[i].name@,
                            picked(core.new_session.agent, agents[i].name@),
                            agents[i].available,
                        )
                }
            },
        },
{
    match &core.new_session.machine {
        None => AgentChoices::Hint("请选择机器"),
        Some(machine) => {
            let at: usize = find_machine(&core.settings.agents, machine.as_str());
            if at >= core.settings.agents.len() || core.settings.agents[at].1.len() == 0 {
                return AgentChoices::Hint("该机器未发现智能体");
            }
            let found: &Vec<Agent> = &core.settings.agents[at].1;
            let mut out: Vec<Choice> = Vec::new();
            let mut i: usize = 0;
            while i < found.len()
                invariant
                    0 <= i <= found@.len(),
                    out@.len() == i,
                    forall|k: int|
                        0 <= k < i ==> (#[trigger] out@[k]).stands_for(
                            found@[k].name@,
                            found@[k].name@,
                            picked(core.new_session.agent, found@[k].name@),
                            found@[k].available,
                        ),
                decreases found.len() - i,
            {
                let name: &String = &found[i].name;
                out.push(
                    Choice {
                        name: name.clone(),
                        label: name.clone(),
                        selected: is_picked(&core.new_session.agent, name.as_str()),
                        enabled: found[i].available,
                    },
                );
                i = i + 1;
            }
            AgentChoices::Agents(out)
        },
    }
}

/// The projects that can be chosen.
pub fn project_selector(core: &Core) -> (r: Vec<Choice>)
    ensures
        r@.len() == core.settings.projects@.len(),
        forall|i: int|
            0 <= i < r@.len() ==> {
                let name = core.settings.projects@[i].name@;
                (#[trigger] r@[i]).stands_for(
                    name,
                    ui::shortened(name, 24),
                    picked(core.new_session.project, name),
                    true,
                )
            },
{
    let mut out: Vec<Choice> = Vec::new();
    let mut i: usize = 0;
    while i < core.settings.projects.len()
        invariant
            0 <= i <= core.settings.projects@.len(),
            out@.len() == i,
            forall|k: int|
                0 <= k < i ==> {
                    let name = core.settings.projects@[k].name@;
                    (#[trigger] out@[k]).stands_for(
                        name,
                        ui::shortened(name, 24),
                        picked(core.new_session.project, name),
                        true,
                    )
                },
        decreases core.settings.projects.len() - i,
    {
        let name: &String = &core.settings.projects[i].name;
        out.push(
            Choice {
                name: name.clone(),
                label: truncate(name.as_str(), 24),
                selected: is_picked(&core.new_session.project, name.as_str()),
                enabled: true,
            },
        );
        i = i + 1;
    }
    out
}

/// A project is chosen, or given up where it was the one that was chosen.
pub fn toggle_project(form: &mut NewSessionForm, name: &str)
    ensures
        picked(old(form).project, name@) ==> final(form).project is None,
        !picked(old(form).project, name@) ==> picked(final(form).project, name@),
        *final(form) == (NewSessionForm { project: final(form).project, ..*old(form) }),
{
    if is_picked(&form.project, name) {
        form.project = None;
    } else {
        form.project = Some(name.to_owned());
    }
}

/// The plans that can be taken up.
pub fn plan_selector(core: &Core) -> (r: Vec<Choice>)
    ensures
        r@.len() == core.settings.plans@.len(),
        forall|i: int|
            0 <= i < r@.len() ==> (#[trigger] r@[i]).stands_for(
                core.settings.plans@[i].name@,
                ui::shortened(core.settings.plans@[i].name@, 18),
                false,
                true,
            ),
{
    let mut out: Vec<Choice> = Vec::new();
    let mut i: usize = 0;
    while i < core.settings.plans.len()
        invariant
            0 <= i <= core.settings.plans@.len(),
            out@.len() == i,
            forall|k: int|
                0 <= k < i ==> (#[trigger] out@[k]).stands_for(
                    core.settings.plans@[k].name@,
                    ui::shortened(core.settings.plans@[k].name@, 18),
                    false,
                    true,
                ),
        decreases core.settings.plans.len() - i,
    {
        let name: &String = &core.settings.plans[i].name;
        out.push(
            Choice {
                name: name.clone(),
                label: truncate(name.as_str(), 18),
                selected: false,
                enabled: true,
            },
        );
        i = i + 1;
    }
    out
}

/// The form for a session with one agent.
#[derive(Debug, PartialEq)]
pub enum DirectForm {
    /// There is no machine yet.
    Hint(&'static str),
    Form { can_create: bool },
}

/// The form for a session with one agent: there is something to create once a directory was named
/// and an agent was chosen that can be used.
pub fn direct_form(core: &Core, workspace: &str) -> (r: DirectForm)
    ensures
        if core.settings.machines@.len() == 0 {
            r matches DirectForm::Hint(text) && text@
                == "请运行 amux-daemon 程序将机器连接至服务器"@
        } else {
            r == (DirectForm::Form { can_create: !strings::blank(workspace@) && ready(*core) })
        },
{
    if core.settings.machines.len() == 0 {
        return DirectForm::Hint("请运行 amux-daemon 程序将机器连接至服务器");
    }
    DirectForm::Form { can_create: !is_blank(workspace) && selected_agent_available(core) }
}

/// The form for a workflow.
#[derive(Debug, PartialEq)]
pub enum WorkflowForm {
    /// The built-in agent is not set up: what is said, and where it is to be done.
    NotConfigured { title: &'static str, text: &'static str, button: &'static str },
    Form { can_create: bool },
}

/// The form for a workflow. That the built-in agent is not set up is said once it is known.
pub fn workflow_form(core: &Core, plan: &str) -> (r: WorkflowForm)
    ensures
        if core.settings.orchestrator_loaded && core.settings.orchestrator is None {
            r matches WorkflowForm::NotConfigured { title, text, button } && title@
                == "内置智能体尚未配置"@ && text@
                == "请先在设置 → 内置智能体中配置大模型供应商连接。"@ && button@
                == "去配置内置智能体"@
        } else {
            r == (WorkflowForm::Form { can_create: !strings::blank(plan@) })
        },
{
    if core.settings.orchestrator_loaded && core.settings.orchestrator.is_none() {
        return WorkflowForm::NotConfigured {
            title: "内置智能体尚未配置",
            text: "请先在设置 → 内置智能体中配置大模型供应商连接。",
            button: "去配置内置智能体",
        };
    }
    WorkflowForm::Form { can_create: !is_blank(plan) }
}

/// The directories of a machine that were used lately, the first few.
pub open spec fn recent_of(
    workspaces: Seq<RecentWorkspace>,
    machine: Option<String>,
) -> Seq<RecentWorkspace> {
    let own = workspaces.filter(|w: RecentWorkspace| picked(machine, w.machine@));
    if own.len() > RECENT_WORKSPACE_LIMIT {
        own.take(RECENT_WORKSPACE_LIMIT as int)
    } else {
        own
    }
}

/// The directories of the chosen machine that were used lately.
pub fn recent_workspaces(core: &Core) -> (r: Vec<RecentWorkspace>)
    ensures
        r@ == recent_of(core.recent_workspaces@, core.new_session.machine),
{
    let ghost all = core.recent_workspaces@;
    let ghost fits = |w: RecentWorkspace| picked(core.new_session.machine, w.machine@);
    let mut out: Vec<RecentWorkspace> = Vec::new();
    let mut i: usize = 0;
    proof {
        assert(all.take(0).filter(fits) =~= Seq::empty()) by {
            reveal(Seq::filter);
        }
    }
    while i < core.recent_workspaces.len()
        invariant
            0 <= i <= all.len(),
            all == core.recent_workspaces@,
            fits == (|w: RecentWorkspace| picked(core.new_session.machine, w.machine@)),
            out@ == all.take(i as int).filter(fits),
        decreases all.len() - i,
    {
        proof {
            reveal(Seq::filter);
            assert(all.take(i + 1).drop_last() =~= all.take(i as int));
            assert(all.take(i + 1).last() == all[i as int]);
        }
        if is_picked(&core.new_session.machine, core.recent_workspaces[i].machine.as_str()) {
            out.push(core.recent_workspaces[i].clone());
        }
        i = i + 1;
    }
    proof {
        assert(all.take(i as int) =~= all);
    }
    if out.len() > RECENT_WORKSPACE_LIMIT {
        out.truncate(RECENT_WORKSPACE_LIMIT);
        proof {
            assert(out@ =~= recent_of(all, core.new_session.machine));
        }
    }
    out
}

/// What is filled in when a suggested directory is taken up: the directory, so that what is in it is
/// suggested next.
pub fn suggestion_value(entry: &FsEntry) -> (r: String)
    ensures
        r@ == strings::trim_end_char(entry.path@, '/') + "/"@,
{
    let mut r: String = trim_end(entry.path.as_str(), '/');
    r.append("/");
    r
}

/// How many of some suggestions are in view at once.
pub fn rows_in_view(count: usize) -> (r: usize)
    ensures
        r == if count < SUGGEST_MAX_ROWS {
            count
        } else {
            SUGGEST_MAX_ROWS
        },
{
    if count < SUGGEST_MAX_ROWS {
        count
    } else {
        SUGGEST_MAX_ROWS
    }
}

/// What stands over a conversation.
#[derive(Debug, PartialEq)]
pub struct SessionHeader {
    /// Who one talks to.
    pub subtitle: String,
    pub available: bool,
    /// The directory that the session works in.
    pub workdir: Option<String>,
    /// The plan of a workflow, where it has one.
    pub plan: Option<String>,
}

/// What stands over a conversation.
pub fn session_view(core: &Core) -> (r: SessionHeader)
    ensures
        r.subtitle@ == match core.view.session {
            Some(session) => session.agent@ + "@"@ + session.machine@,
            None => "编排智能体"@,
        },
        r.available == match core.view.session {
            Some(session) => usable(core.settings.agents@, session.machine@, session.agent@),
            None => core.settings.orchestrator is Some,
        },
        match core.view.session {
            Some(session) => r.workdir is Some && r.workdir->0@ == session.root(),
            None => r.workdir is None,
        },
        match core.view.workflow {
            Some(workflow) => if workflow.plan@.len() > 0 {
                r.plan is Some && r.plan->0@ == workflow.plan@
            } else {
                r.plan is None
            },
            None => r.plan is None,
        },
{
    let available: bool = match &core.view.session {
        Some(session) => machine_agent_available(
            core,
            session.machine.as_str(),
            session.agent.as_str(),
        ),
        None => core.settings.orchestrator.is_some(),
    };
    let workdir: Option<String> = match &core.view.session {
        Some(session) => Some(session.root_dir().to_owned()),
        None => None,
    };
    let plan: Option<String> = match &core.view.workflow {
        Some(workflow) => if workflow.plan.as_str().is_empty() {
            None
        } else {
            Some(workflow.plan.clone())
        },
        None => None,
    };
    SessionHeader { subtitle: core.view.subtitle(), available, workdir, plan }
}

/// A message of the conversation.
#[derive(Debug, PartialEq)]
pub struct Bubble {
    /// The user wrote it.
    pub own: bool,
    pub text: String,
    pub timestamp: u64,
}

/// The bubble is that of a message.
pub open spec fn bubble_of(bubble: Bubble, item: HistoryItem) -> bool {
    match item {
        HistoryItem::UserMessage { content, timestamp, .. } => bubble.own && bubble.text@
            == ui::content_text(content@) && bubble.timestamp == timestamp,
        HistoryItem::AgentMessage { content, timestamp, .. } => !bubble.own && bubble.text@
            == ui::content_text(content@) && bubble.timestamp == timestamp,
    }
}

/// The conversation, or what is said where there is none yet.
pub fn dialog(core: &Core) -> (r: (Vec<Bubble>, Option<&'static str>))
    ensures
        r.0@.len() == core.view.detail.history@.len(),
        forall|i: int|
            0 <= i < r.0@.len() ==> bubble_of(#[trigger] r.0@[i], core.view.detail.history@[i]),
        core.view.detail.history@.len() == 0 ==> r.1 is Some && r.1->0@
            == "暂无消息，输入消息开始对话"@,
        core.view.detail.history@.len() > 0 ==> r.1 is None,
{
    let mut out: Vec<Bubble> = Vec::new();
    let mut i: usize = 0;
    while i < core.view.detail.history.len()
        invariant
            0 <= i <= core.view.detail.history@.len(),
            out@.len() == i,
            forall|k: int|
                0 <= k < i ==> bubble_of(#[trigger] out@[k], core.view.detail.history@[k]),
        decreases core.view.detail.history.len() - i,
    {
        match &core.view.detail.history[i] {
            HistoryItem::UserMessage { content, timestamp, .. } => {
                out.push(Bubble { own: true, text: blocks_text(content), timestamp: *timestamp });
            },
            HistoryItem::AgentMessage { content, timestamp, .. } => {
                out.push(Bubble { own: false, text: blocks_text(content), timestamp: *timestamp });
            },
        }
        i = i + 1;
    }
    let hint: Option<&'static str> = if core.view.detail.history.len() == 0 {
        Some("暂无消息，输入消息开始对话")
    } else {
        None
    };
    (out, hint)
}

/// The project of the open session, or of the open workflow.
pub open spec fn open_project(core: Core) -> Option<String> {
    match core.view.session {
        Some(session) => if session.project is Some {
            session.project
        } else {
            match core.view.workflow {
                Some(workflow) => workflow.project,
                None => None,
            }
        },
        None => match core.view.workflow {
            Some(workflow) => workflow.project,
            None => None,
        },
    }
}

/// A prompt is offered: it is for all projects, or for that of the open session.
pub open spec fn offered(command: QuickCommand, project: Option<String>) -> bool {
    command.project is None || picked(project, command.project->0@)
}

fn project_of(core: &Core) -> (r: &Option<String>)
    ensures
        *r == open_project(*core),
{
    match &core.view.session {
        Some(session) => {
            if session.project.is_some() {
                return &session.project;
            }
        },
        None => {},
    }
    match &core.view.workflow {
        Some(workflow) => &workflow.project,
        None => &None,
    }
}

/// The prompts that are offered for the open session.
pub fn quick_buttons(core: &Core) -> (r: Vec<QuickCommand>)
    ensures
        r@ == core.settings.quick_commands@.filter(
            |c: QuickCommand| offered(c, open_project(*core)),
        ),
{
    let project: &Option<String> = project_of(core);
    let ghost all = core.settings.quick_commands@;
    let ghost fits = |c: QuickCommand| offered(c, open_project(*core));
    let mut out: Vec<QuickCommand> = Vec::new();
    let mut i: usize = 0;
    proof {
        assert(all.take(0).filter(fits) =~= Seq::empty()) by {
            reveal(Seq::filter);
        }
    }
    while i < core.settings.quick_commands.len()
        invariant
            0 <= i <= all.len(),
            all == core.settings.quick_commands@,
            *project == open_project(*core),
            fits == (|c: QuickCommand| offered(c, open_project(*core))),
            out@ == all.take(i as int).filter(fits),
        decreases all.len() - i,
    {
        proof {
            reveal(Seq::filter);
            assert(all.take(i + 1).drop_last() =~= all.take(i as int));
            assert(all.take(i + 1).last() == all[i as int]);
        }
        let command: &QuickCommand = &core.settings.quick_commands[i];
        let is_offered: bool = match &command.project {
            Some(own) => is_picked(project, own.as_str()),
            None => true,
        };
        if is_offered {
            out.push(command.clone());
        }
        i = i + 1;
    }
    proof {
        assert(all.take(i as int) =~= all);
    }
    out
}

/// What is written on the button of a prompt.
pub fn quick_label(command: &QuickCommand) -> (r: String)
    ensures
        r@ == ui::shortened(command.name@, 16),
{
    truncate(command.name.as_str(), 16)
}

/// What the session is doing.
#[derive(Debug, PartialEq)]
pub struct ActivityBar {
    pub text: String,
    pub failed: bool,
    /// It goes on.
    pub spinner: bool,
}

/// What the session is doing, where it does something.
pub fn activity_bar(ongoing: &Option<Activity>) -> (r: Option<ActivityBar>)
    ensures
        match *ongoing {
            Some(activity) => r matches Some(bar) && bar.text@ == ui::activity_text(activity)
                && bar.failed == (activity is Error) && bar.spinner == !(activity is Error),
            None => r is None,
        },
{
    match ongoing {
        Some(activity) => {
            let failed: bool = match activity {
                Activity::Error { .. } => true,
                _ => false,
            };
            Some(ActivityBar { text: activity_line(activity), failed, spinner: !failed })
        },
        None => None,
    }
}

/// What is shown of the files that go with the next message.
pub fn attachment_labels(attachments: &Vec<Attachment>) -> (r: Vec<String>)
    ensures
        r@.len() == attachments@.len(),
        forall|i: int|
            0 <= i < r@.len() ==> (#[trigger] r@[i])@ == ui::shortened(attachments@[i].label@, 32),
{
    let mut out: Vec<String> = Vec::new();
    let mut i: usize = 0;
    while i < attachments.len()
        invariant
            0 <= i <= attachments@.len(),
            out@.len() == i,
            forall|k: int|
                0 <= k < i ==> (#[trigger] out@[k])@ == ui::shortened(attachments@[k].label@, 32),
        decreases attachments.len() - i,
    {
        out.push(truncate(attachments[i].label.as_str(), 32));
        i = i + 1;
    }
    out
}

/// A command that can be taken up.
#[derive(Debug, PartialEq)]
pub struct SlashRow {
    pub name: String,
    pub hint: String,
    pub selected: bool,
}

/// The row is that of a command.
pub open spec fn slash_row_of(row: SlashRow, command: SlashCommand, selected: bool) -> bool {
    &&& row.name@ == "/"@ + command.name@
    &&& row.hint@ == ui::shortened(
        match command.hint {
            Some(hint) => hint@,
            None => command.description@,
        },
        48,
    )
    &&& row.selected == selected
}

/// The commands that can be taken up. One of them is marked: the last where the mark would be behind
/// it.
pub fn slash_menu(candidates: &Vec<SlashCommand>, selected: usize) -> (r: Vec<SlashRow>)
    ensures
        r@.len() == candidates@.len(),
        forall|i: int|
            0 <= i < r@.len() ==> slash_row_of(
                #[trigger] r@[i],
                candidates@[i],
                i == if selected < candidates@.len() {
                    selected as int
                } else {
                    candidates@.len() - 1
                },
            ),
{
    let mut out: Vec<SlashRow> = Vec::new();
    let mut i: usize = 0;
    while i < candidates.len()
        invariant
            0 <= i <= candidates@.len(),
            out@.len() == i,
            forall|k: int|
                0 <= k < i ==> slash_row_of(
                    #[trigger] out@[k],
                    candidates@[k],
                    k == if selected < candidates@.len() {
                        selected as int
                    } else {
                        candidates@.len() - 1
                    },
                ),
        decreases candidates.len() - i,
    {
        let command: &SlashCommand = &candidates[i];
        let mut name: String = "/".to_owned();
        name.append(command.name.as_str());
        let hint: String = match &command.hint {
            Some(hint) => truncate(hint.as_str(), 48),
            None => truncate(command.description.as_str(), 48),
        };
        let marked: usize = if selected < candidates.len() {
            selected
        } else {
            candidates.len() - 1
        };
        out.push(SlashRow { name, hint, selected: i == marked });
        i = i + 1;
    }
    out
}

/// The name of a value that can be chosen: of the first with that value, else the value itself.
pub open spec fn value_name(options: Seq<SessionConfigSelectEntry>, value: Seq<char>) -> Seq<char>
    decreases options.len(),
{
    if options.len() == 0 {
        value
    } else if options[0].value@ == value {
        options[0].name@
    } else {
        value_name(options.skip(1), value)
    }
}

fn name_of_value(options: &Vec<SessionConfigSelectEntry>, value: &str) -> (r: String)
    ensures
        r@ == value_name(options@, value@),
{
    let ghost all = options@;
    let mut i: usize = 0;
    proof {
        assert(all.skip(0) =~= all);
    }
    while i < options.len()
        invariant
            0 <= i <= all.len(),
            all == options@,
            value_name(all, value@) == value_name(all.skip(i as int), value@),
        decreases all.len() - i,
    {
        proof {
            assert(all.skip(i as int)[0] == all[i as int]);
            assert(all.skip(i as int).skip(1) =~= all.skip(i + 1));
        }
        if same(options[i].value.as_str(), value) {
            return options[i].name.clone();
        }
        i = i + 1;
    }
    proof {
        assert(all.skip(i as int) =~= Seq::empty());
    }
    value.to_owned()
}

/// What is shown of the value of an option that is one of several.
pub fn config_value_label(option: &SessionConfigOption) -> (r: Option<String>)
    ensures
        match option.kind {
            SessionConfigKind::Select { current_value, options } => r is Some && r->0@ == value_name(
                options@,
                current_value@,
            ),
            SessionConfigKind::Boolean { .. } => r is None,
        },
{
    match &option.kind {
        SessionConfigKind::Select { current_value, options } => Some(
            name_of_value(options, current_value.as_str()),
        ),
        SessionConfigKind::Boolean { .. } => None,
    }
}

/// The menu of an option that is one of several.
#[derive(Debug, PartialEq)]
pub struct OptionMenu {
    /// What is shown of the value that it has.
    pub label: String,
    /// The values that it can have.
    pub entries: Vec<Choice>,
}

/// The menu of an option that is one of several, with its value marked.
pub fn config_option_menu(option: &SessionConfigOption) -> (r: Option<OptionMenu>)
    ensures
        match option.kind {
            SessionConfigKind::Select { current_value, options } => r matches Some(menu) && {
                &&& menu.label@ == value_name(options@, current_value@)
                &&& menu.entries@.len() == options@.len()
                &&& forall|i: int|
                    0 <= i < options@.len() ==> (#[trigger] menu.entries@[i]).stands_for(
                        options@[i].value@,
                        options@[i].name@,
                        options@[i].value@ == current_value@,
                        true,
                    )
            },
            SessionConfigKind::Boolean { .. } => r is None,
        },
{
    match &option.kind {
        SessionConfigKind::Boolean { .. } => None,
        SessionConfigKind::Select { current_value, options } => {
            let mut entries: Vec<Choice> = Vec::new();
            let mut i: usize = 0;
            while i < options.len()
                invariant
                    0 <= i <= options@.len(),
                    entries@.len() == i,
                    forall|k: int|
                        0 <= k < i ==> (#[trigger] entries@[k]).stands_for(
                            options@[k].value@,
                            options@[k].name@,
                            options@[k].value@ == current_value@,
                            true,
                        ),
                decreases options.len() - i,
            {
                entries.push(
                    Choice {
                        name: options[i].value.clone(),
                        label: options[i].name.clone(),
                        selected: same(options[i].value.as_str(), current_value.as_str()),
                        enabled: true,
                    },
                );
                i = i + 1;
            }
            Some(OptionMenu { label: name_of_value(options, current_value.as_str()), entries })
        },
    }
}

} // verus!
