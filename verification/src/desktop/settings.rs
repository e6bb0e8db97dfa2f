//! The settings as they are shown, part by part, and what is done with skills.
use super::dialog::{confirm, Question};
use super::poll::open_session;
use super::sessions;
use super::sessions::find_machine;
use super::state;
use super::state::{Core, NoteLevel, OpenTarget, SettingsTab};
use crate::common::api::{
    Agent, ApiFormat, CreateSessionRequest, Machine, Project, QuickCommand, Skill,
};
use crate::common::domain::ContentBlock;
use crate::strings::same;
use vstd::prelude::*;

verus! {

/// The interfaces in the order in which they are offered.
pub fn api_formats() -> (r: Vec<ApiFormat>)
    ensures
        r@ == seq![ApiFormat::ChatCompletions, ApiFormat::Responses, ApiFormat::Messages],
{
    vec![ApiFormat::ChatCompletions, ApiFormat::Responses, ApiFormat::Messages]
}

/// The place of an interface among those that are offered.
pub fn format_index(format: ApiFormat) -> (r: usize)
    ensures
        r < 3,
        seq![ApiFormat::ChatCompletions, ApiFormat::Responses, ApiFormat::Messages][r as int]
            == format,
{
    match format {
        ApiFormat::ChatCompletions => 0,
        ApiFormat::Responses => 1,
        ApiFormat::Messages => 2,
    }
}

/// The title of a part of the settings, and what it is about.
pub fn tab_heading(tab: SettingsTab) -> (r: (&'static str, &'static str))
    ensures
        (r.0@, r.1@) == match tab {
            SettingsTab::Connection => ("连接设置"@, "配置 Server 地址与认证 token"@),
            SettingsTab::Machines => (
                "机器管理"@,
                "查看已接入机器与其 agent，可重启 / 重新发现"@,
            ),
            SettingsTab::Orchestrator => (
                "内置智能体"@,
                "配置内置智能体使用的大模型供应商连接信息"@,
            ),
            SettingsTab::QuickCommands => (
                "快捷指令"@,
                "自定义快捷指令，在会话输入区上方一键发送"@,
            ),
            SettingsTab::Skills => ("技能管理"@, "集中管理各机器各 agent 上的技能"@),
            SettingsTab::WorkflowPlans => (
                "工作流计划"@,
                "可复用的工作流计划，发起工作流会话时选用"@,
            ),
            SettingsTab::Projects => (
                "项目管理"@,
                "项目用于将普通会话与工作流会话分组聚合展示"@,
            ),
        },
{
    match tab {
        SettingsTab::Connection => ("连接设置", "配置 Server 地址与认证 token"),
        SettingsTab::Machines => (
            "机器管理",
            "查看已接入机器与其 agent，可重启 / 重新发现",
        ),
        SettingsTab::Orchestrator => (
            "内置智能体",
            "配置内置智能体使用的大模型供应商连接信息",
        ),
        SettingsTab::QuickCommands => (
            "快捷指令",
            "自定义快捷指令，在会话输入区上方一键发送",
        ),
        SettingsTab::Skills => ("技能管理", "集中管理各机器各 agent 上的技能"),
        SettingsTab::WorkflowPlans => (
            "工作流计划",
            "可复用的工作流计划，发起工作流会话时选用",
        ),
        SettingsTab::Projects => (
            "项目管理",
            "项目用于将普通会话与工作流会话分组聚合展示",
        ),
    }
}

/// What the button says that adds something to a part of the settings, where there is one.
pub fn tab_action(tab: SettingsTab) -> (r: Option<&'static str>)
    ensures
        match tab {
            SettingsTab::QuickCommands => r is Some && r->0@ == "添加快捷指令"@,
            SettingsTab::Skills => r is Some && r->0@ == "添加技能"@,
            SettingsTab::WorkflowPlans => r is Some && r->0@ == "添加计划"@,
            SettingsTab::Projects => r is Some && r->0@ == "添加项目"@,
            _ => r is None,
        },
{
    match tab {
        SettingsTab::QuickCommands => Some("添加快捷指令"),
        SettingsTab::Skills => Some("添加技能"),
        SettingsTab::WorkflowPlans => Some("添加计划"),
        SettingsTab::Projects => Some("添加项目"),
        _ => None,
    }
}

/// What is said where there is nothing in a part of the settings.
pub fn empty_hint(core: &Core) -> (r: Option<&'static str>)
    ensures
        match core.settings_tab {
            SettingsTab::Machines => r is Some == (core.settings.machines@.len() == 0) && (
            r is Some ==> r->0@
                == "还没有已接入的机器。请在机器上启动 daemon 并连接到 Server。"@),
            SettingsTab::QuickCommands => r is Some == (core.settings.quick_commands@.len() == 0)
                && (r is Some ==> r->0@
                == "还没有快捷指令。添加后会显示在会话输入区上方。"@),
            SettingsTab::Skills => r is Some == (core.settings.skills@.len() == 0) && (r is Some
                ==> r->0@ == "还没有技能。点击右上角 + 添加技能说明。"@),
            SettingsTab::WorkflowPlans => r is Some == (core.settings.plans@.len() == 0) && (
            r is Some ==> r->0@
                == "还没有工作流计划。点击右上角 + 创建一个可复用计划。"@),
            SettingsTab::Projects => r is Some == (core.settings.projects@.len() == 0) && (r is Some
                ==> r->0@ == "还没有项目。点击右上角 + 创建一个项目。"@),
            _ => r is None,
        },
{
    match core.settings_tab {
        SettingsTab::Machines => if core.settings.machines.len() == 0 {
            Some("还没有已接入的机器。请在机器上启动 daemon 并连接到 Server。")
        } else {
            None
        },
        SettingsTab::QuickCommands => if core.settings.quick_commands.len() == 0 {
            Some("还没有快捷指令。添加后会显示在会话输入区上方。")
        } else {
            None
        },
        SettingsTab::Skills => if core.settings.skills.len() == 0 {
            Some("还没有技能。点击右上角 + 添加技能说明。")
        } else {
            None
        },
        SettingsTab::WorkflowPlans => if core.settings.plans.len() == 0 {
            Some("还没有工作流计划。点击右上角 + 创建一个可复用计划。")
        } else {
            None
        },
        SettingsTab::Projects => if core.settings.projects.len() == 0 {
            Some("还没有项目。点击右上角 + 创建一个项目。")
        } else {
            None
        },
        _ => None,
    }
}

/// Where the connection is kept.
pub fn connection_tab(path: &str) -> (r: String)
    ensures
        r@ == "连接信息存储于 "@ + path@,
{
    let mut r: String = "连接信息存储于 ".to_owned();
    r.append(path);
    r
}

/// A machine as it is shown.
#[derive(Debug, PartialEq)]
pub struct MachineCard {
    pub name: String,
    pub platform: String,
    pub host: String,
    pub agents: Vec<Agent>,
}

/// The card is that of a machine.
pub open spec fn card_of(card: MachineCard, machine: Machine, agents: Seq<Agent>) -> bool {
    &&& card.name@ == machine.name@
    &&& card.platform@ == machine.os@ + " "@ + machine.arch@
    &&& card.host@ == machine.hostname@ + " · amux "@ + machine.version@
    &&& card.agents@ == agents
}

fn copied_agents(agents: &Vec<Agent>) -> (r: Vec<Agent>)
    ensures
        r@ == agents@,
{
    let mut out: Vec<Agent> = Vec::new();
    let mut i: usize = 0;
    while i < agents.len()
        invariant
            0 <= i <= agents@.len(),
            out@ == agents@.take(i as int),
        decreases agents.len() - i,
    {
        out.push(agents[i].clone());
        proof {
            assert(out@ =~= agents@.take(i + 1));
        }
        i = i + 1;
    }
    proof {
        assert(agents@.take(i as int) =~= agents@);
    }
    out
}

fn agents_at(core: &Core, machine: &str) -> (r: Vec<Agent>)
    ensures
        r@ == sessions::agents_of(core.settings.agents@, machine@),
{
    let at: usize = find_machine(&core.settings.agents, machine);
    if at < core.settings.agents.len() {
        copied_agents(&core.settings.agents[at].1)
    } else {
        let none: Vec<Agent> = Vec::new();
        proof {
            assert(none@ =~= sessions::agents_of(core.settings.agents@, machine@));
        }
        none
    }
}

/// The card of a machine.
pub fn machine_card(core: &Core, machine: &Machine) -> (r: MachineCard)
    ensures
        card_of(r, *machine, sessions::agents_of(core.settings.agents@, machine.name@)),
{
    let mut platform: String = machine.os.clone();
    platform.append(" ");
    platform.append(machine.arch.as_str());
    let mut host: String = machine.hostname.clone();
    host.append(" · amux ");
    host.append(machine.version.as_str());
    MachineCard {
        name: machine.name.clone(),
        platform,
        host,
        agents: agents_at(core, machine.name.as_str()),
    }
}

/// The machines as they are shown.
pub fn machines_tab(core: &Core) -> (r: Vec<MachineCard>)
    ensures
        r@.len() == core.settings.machines@.len(),
        forall|i: int|
            0 <= i < r@.len() ==> card_of(
                #[trigger] r@[i],
                core.settings.machines@[i],
                sessions::agents_of(core.settings.agents@, core.settings.machines@[i].name@),
            ),
{
    let mut out: Vec<MachineCard> = Vec::new();
    let mut i: usize = 0;
    while i < core.settings.machines.len()
        invariant
            0 <= i <= core.settings.machines@.len(),
            out@.len() == i,
            forall|k: int|
                0 <= k < i ==> card_of(
                    #[trigger] out@[k],
                    core.settings.machines@[k],
                    sessions::agents_of(core.settings.agents@, core.settings.machines@[k].name@),
                ),
        decreases core.settings.machines.len() - i,
    {
        out.push(machine_card(core, &core.settings.machines[i]));
        i = i + 1;
    }
    out
}

/// The question before a machine looks for its agents again.
pub fn confirm_rediscover(machine: &str) -> (r: Question)
    ensures
        r.title@ == "重新发现 agents"@,
        r.description@ == "确定重新扫描机器「"@ + machine@ + "」上的 agent 吗？"@,
        r.ok_text@ == "重新发现"@,
        !r.danger,
{
    confirm(
        "重新发现 agents",
        "确定重新扫描机器「",
        machine,
        "」上的 agent 吗？",
        "重新发现",
        false,
    )
}

/// The question before an agent is started again.
pub fn confirm_restart(agent: &str) -> (r: Question)
    ensures
        r.title@ == "重启 agent"@,
        r.description@ == "确定重启 agent「"@ + agent@ + "」吗？"@,
        r.ok_text@ == "重启"@,
        !r.danger,
{
    confirm("重启 agent", "确定重启 agent「", agent, "」吗？", "重启", false)
}

/// What a prompt is for: a project, or all of them.
pub fn quick_command_scope(command: &QuickCommand) -> (r: String)
    ensures
        r@ == match command.project {
            Some(project) => "项目："@ + project@,
            None => "通用"@,
        },
{
    match &command.project {
        Some(project) => {
            let mut r: String = "项目：".to_owned();
            r.append(project.as_str());
            r
        },
        None => "通用".to_owned(),
    }
}

/// Whether the project at a place can be moved up, and down.
pub fn project_moves(projects: &Vec<Project>, index: usize) -> (r: (bool, bool))
    requires
        index < projects@.len(),
    ensures
        r == (index > 0, index + 1 < projects@.len()),
{
    (index > 0, index < projects.len() - 1)
}

/// The machines and their agents, which a skill can be brought to.
pub fn skill_targets(core: &Core) -> (r: Vec<(String, Vec<Agent>)>)
    ensures
        r@.len() == core.settings.machines@.len(),
        forall|i: int|
            0 <= i < r@.len() ==> (#[trigger] r@[i]).0@ == core.settings.machines@[i].name@
                && r@[i].1@ == sessions::agents_of(
                core.settings.agents@,
                core.settings.machines@[i].name@,
            ),
{
    let mut out: Vec<(String, Vec<Agent>)> = Vec::new();
    let mut i: usize = 0;
    while i < core.settings.machines.len()
        invariant
            0 <= i <= core.settings.machines@.len(),
            out@.len() == i,
            forall|k: int|
                0 <= k < i ==> (#[trigger] out@[k]).0@ == core.settings.machines@[k].name@
                    && out@[k].1@ == sessions::agents_of(
                    core.settings.agents@,
                    core.settings.machines@[k].name@,
                ),
        decreases core.settings.machines.len() - i,
    {
        let name: &String = &core.settings.machines[i].name;
        out.push((name.clone(), agents_at(core, name.as_str())));
        i = i + 1;
    }
    out
}

/// Where a skill can be brought to: what is written on the button, and whether the agent can be
/// used.
#[derive(Debug, PartialEq)]
pub struct SkillTarget {
    pub machine: String,
    pub agent: String,
    pub label: String,
    pub enabled: bool,
}

/// The button is that of an agent.
pub open spec fn target_of(target: SkillTarget, machine: Seq<char>, agent: Agent) -> bool {
    &&& target.machine@ == machine
    &&& target.agent@ == agent.name@
    &&& target.label@ == machine + " · "@ + agent.name@
    &&& target.enabled == agent.available
}

/// The agents of machines, each with its machine.
pub open spec fn flattened(targets: Seq<(String, Vec<Agent>)>) -> Seq<(Seq<char>, Agent)>
    decreases targets.len(),
{
    if targets.len() == 0 {
        Seq::empty()
    } else {
        flattened(targets.drop_last()) + targets.last().1@.map_values(
            |a: Agent| (targets.last().0@, a),
        )
    }
}

/// The buttons are those of agents.
pub open spec fn targets_match(out: Seq<SkillTarget>, flat: Seq<(Seq<char>, Agent)>) -> bool {
    &&& out.len() == flat.len()
    &&& forall|i: int| 0 <= i < out.len() ==> target_of(#[trigger] out[i], flat[i].0, flat[i].1)
}

/// Where a skill can be brought to, or what is said where there is no agent.
pub fn skill_target_card(targets: &Vec<(String, Vec<Agent>)>) -> (r: (
    Vec<SkillTarget>,
    Option<&'static str>,
))
    ensures
        targets_match(r.0@, flattened(targets@)),
        r.0@.len() == 0 ==> r.1 is Some && r.1->0@ == "当前没有已发现的机器 agent。"@,
        r.0@.len() > 0 ==> r.1 is None,
{
    let mut out: Vec<SkillTarget> = Vec::new();
    let mut i: usize = 0;
    proof {
        assert(targets@.take(0) =~= Seq::empty());
    }
    while i < targets.len()
        invariant
            0 <= i <= targets@.len(),
            targets_match(out@, flattened(targets@.take(i as int))),
        decreases targets.len() - i,
    {
        let ghost before = flattened(targets@.take(i as int));
        let machine: &String = &targets[i].0;
        let agents: &Vec<Agent> = &targets[i].1;
        let ghost own = agents@.map_values(|a: Agent| (machine@, a));
        proof {
            assert(targets@.take(i + 1).drop_last() =~= targets@.take(i as int));
            assert(targets@.take(i + 1).last() == targets@[i as int]);
            assert(flattened(targets@.take(i + 1)) =~= before + own);
            assert(before + own.take(0) =~= before);
        }
        let mut k: usize = 0;
        while k < agents.len()
            invariant
                0 <= k <= agents@.len(),
                own == agents@.map_values(|a: Agent| (machine@, a)),
                targets_match(out@, before + own.take(k as int)),
            decreases agents.len() - k,
        {
            let agent: &Agent = &agents[k];
            let mut label: String = machine.clone();
            label.append(" · ");
            label.append(agent.name.as_str());
            out.push(
                SkillTarget {
                    machine: machine.clone(),
                    agent: agent.name.clone(),
                    label,
                    enabled: agent.available,
                },
            );
            proof {
                assert(before + own.take(k + 1) =~= (before + own.take(k as int)).push(
                    own[k as int],
                ));
            }
            k = k + 1;
        }
        proof {
            assert(own.take(k as int) =~= own);
        }
        i = i + 1;
    }
    proof {
        assert(targets@.take(i as int) =~= targets@);
    }
    let hint: Option<&'static str> = if out.len() == 0 {
        Some("当前没有已发现的机器 agent。")
    } else {
        None
    };
    (out, hint)
}

/// What a session is told that is to bring a skill somewhere, or to take it away.
pub fn skill_prompt(skill: &Skill, action: &str) -> (r: String)
    ensures
        r@ == "以下是技能 "@ + skill.name@ + " 的描述，请"@ + action@ + "此技能\n> "@
            + skill.description@,
{
    let mut r: String = "以下是技能 ".to_owned();
    r.append(skill.name.as_str());
    r.append(" 的描述，请");
    r.append(action);
    r.append("此技能\n> ");
    r.append(skill.description.as_str());
    r
}

/// The first machine with a name.
pub open spec fn machine_named(machines: Seq<Machine>, name: Seq<char>) -> Option<Machine>
    decreases machines.len(),
{
    if machines.len() == 0 {
        None
    } else if machines[0].name@ == name {
        Some(machines[0])
    } else {
        machine_named(machines.skip(1), name)
    }
}

fn temp_dir_of(machines: &Vec<Machine>, name: &str) -> (r: Option<String>)
    ensures
        match machine_named(machines@, name@) {
            Some(machine) => r is Some && r->0@ == machine.temp_dir@,
            None => r is None,
        },
{
    let ghost all = machines@;
    let mut i: usize = 0;
    proof {
        assert(all.skip(0) =~= all);
    }
    while i < machines.len()
        invariant
            0 <= i <= all.len(),
            all == machines@,
            machine_named(all, name@) == machine_named(all.skip(i as int), name@),
        decreases all.len() - i,
    {
        proof {
            assert(all.skip(i as int)[0] == all[i as int]);
            assert(all.skip(i as int).skip(1) =~= all.skip(i + 1));
        }
        if same(machines[i].name.as_str(), name) {
            return Some(machines[i].temp_dir.clone());
        }
        i = i + 1;
    }
    proof {
        assert(all.skip(i as int) =~= Seq::empty());
    }
    None
}

/// What is to be done with a skill, and where.
#[derive(Debug, PartialEq)]
pub struct SkillTask {
    pub skill: Skill,
    pub action: String,
    pub machine: String,
    pub agent: String,
}

/// The machines came: a session is made in the directory for temporary files of the right one. Where
/// that is not to be, it is said why.
pub fn manage_skill(core: &mut Core, task: &SkillTask, machines: Result<Vec<Machine>, String>) -> (r:
    Option<CreateSessionRequest>)
    ensures
        match machines {
            Err(error) => r is None && final(core).noted(
                *old(core),
                "读取机器信息失败："@ + error@,
                NoteLevel::Error,
            ),
            Ok(list) => match machine_named(list@, task.machine@) {
                None => r is None && final(core).noted(
                    *old(core),
                    "找不到机器 "@ + task.machine@,
                    NoteLevel::Error,
                ),
                Some(machine) => {
                    &&& *final(core) == *old(core)
                    &&& r matches Some(body)
                    &&& body.machine@ == task.machine@
                    &&& body.agent@ == task.agent@
                    &&& body.workspace@ == machine.temp_dir@
                    &&& !body.use_worktree
                    &&& body.project is None
                },
            },
        },
{
    match machines {
        Err(error) => {
            core.failed("读取机器信息失败：", error.as_str());
            None
        },
        Ok(list) => match temp_dir_of(&list, task.machine.as_str()) {
            None => {
                core.failed("找不到机器 ", task.machine.as_str());
                None
            },
            Some(workspace) => Some(
                CreateSessionRequest {
                    machine: task.machine.clone(),
                    agent: task.agent.clone(),
                    workspace,
                    use_worktree: false,
                    project: None,
                },
            ),
        },
    }
}

/// The session came: what it is told comes back. Where it could not be made, it is said why.
pub fn skill_session_created(core: &mut Core, task: &SkillTask, session: Result<String, String>) -> (r:
    Option<(String, Vec<ContentBlock>)>)
    ensures
        match session {
            Err(error) => r is None && final(core).noted(
                *old(core),
                "创建技能会话失败："@ + error@,
                NoteLevel::Error,
            ),
            Ok(id) => {
                &&& *final(core) == *old(core)
                &&& r matches Some((session, blocks))
                &&& session == id
                &&& blocks@.len() == 1
                &&& blocks@[0] matches ContentBlock::Text { text } && text@ == "以下是技能 "@
                    + task.skill.name@ + " 的描述，请"@ + task.action@ + "此技能\n> "@
                    + task.skill.description@
            },
        },
{
    match session {
        Err(error) => {
            core.failed("创建技能会话失败：", error.as_str());
            None
        },
        Ok(id) => {
            let text: String = skill_prompt(&task.skill, task.action.as_str());
            Some((id, vec![ContentBlock::Text { text }]))
        },
    }
}

/// The session was told: it is opened. Where it could not be told, it is said why.
pub fn skill_prompt_sent(core: &mut Core, task: &SkillTask, session: &str, sent: Result<(), String>)
    ensures
        match sent {
            Err(error) => final(core).noted(
                *old(core),
                "发送技能指令失败："@ + error@,
                NoteLevel::Error,
            ),
            Ok(_) => {
                let told = Core { notes: final(core).notes, ..*old(core) };
                &&& told.noted(
                    *old(core),
                    "已发起技能"@ + task.action@ + "会话"@,
                    NoteLevel::Success,
                )
                &&& final(core).open matches Some(OpenTarget::Session(open)) && open@ == session@
                &&& final(core).view.is_new()
                &&& final(core).view.detail.terminal_output.version() == old(core).generations
                &&& *final(core) == (Core {
                    open: final(core).open,
                    view: final(core).view,
                    last: state::no_ticks(),
                    generations: state::after(old(core).generations),
                    ..told
                })
            },
        },
{
    match sent {
        Err(error) => {
            core.failed("发送技能指令失败：", error.as_str());
        },
        Ok(_) => {
            let mut message: String = "已发起技能".to_owned();
            message.append(task.action.as_str());
            message.append("会话");
            core.success(message);
            open_session(core, session);
        },
    }
}

} // verus!
