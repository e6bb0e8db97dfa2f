//! What is kept in the settings: the lists of prompts, skills, plans and projects, and what the
//! built-in agent is set to.
use super::AmuxApp;
use crate::common::api::{
    ApiFormat, ConfigText, OrchestratorConfig, Project, QuickCommand, RecentWorkspace, Skill, WorkflowPlanItem,
};
use crate::common::domain::copy_text;
use crate::desktop::client::{Body, Client, Request, Verb};
use crate::desktop::dialog::{confirm, Field, Form, FormTarget, Question};
use crate::desktop::state;
use crate::desktop::state::{Core, NoteLevel, SettingsTab};
use crate::strings;
use crate::strings::{is_blank, same, trim};
use vstd::prelude::*;

verus! {

/// Something that stands in a list under a name.
pub trait Named: Sized {
    /// The name.
    spec fn key(&self) -> Seq<char>;

    /// The name.
    fn name(&self) -> (r: &str)
        ensures
            r@ == self.key(),
    ;

    /// A copy.
    fn copy(&self) -> (r: Self)
        ensures
            r == *self,
    ;
}

impl Named for QuickCommand {
    open spec fn key(&self) -> Seq<char> {
        self.name@
    }

    fn name(&self) -> (r: &str) {
        self.name.as_str()
    }

    fn copy(&self) -> (r: Self) {
        self.clone()
    }
}

impl Named for Skill {
    open spec fn key(&self) -> Seq<char> {
        self.name@
    }

    fn name(&self) -> (r: &str) {
        self.name.as_str()
    }

    fn copy(&self) -> (r: Self) {
        self.clone()
    }
}

impl Named for WorkflowPlanItem {
    open spec fn key(&self) -> Seq<char> {
        self.name@
    }

    fn name(&self) -> (r: &str) {
        self.name.as_str()
    }

    fn copy(&self) -> (r: Self) {
        self.clone()
    }
}

impl Named for Project {
    open spec fn key(&self) -> Seq<char> {
        self.name@
    }

    fn name(&self) -> (r: &str) {
        self.name.as_str()
    }

    fn copy(&self) -> (r: Self) {
        self.clone()
    }
}

/// The place of the first with a name, or the number of them.
pub open spec fn place_of<T: Named>(list: Seq<T>, name: Seq<char>) -> nat
    decreases list.len(),
{
    if list.len() == 0 || list[0].key() == name {
        0
    } else {
        1 + place_of(list.skip(1), name)
    }
}

proof fn lemma_place<T: Named>(list: Seq<T>, name: Seq<char>, n: int)
    requires
        0 <= n <= list.len(),
        forall|i: int| 0 <= i < n ==> (#[trigger] list[i]).key() != name,
        n < list.len() ==> list[n].key() == name,
    ensures
        place_of(list, name) == n,
    decreases list.len(),
{
    if n > 0 {
        let rest = list.skip(1);
        assert forall|i: int| 0 <= i < n - 1 implies (#[trigger] rest[i]).key() != name by {
            assert(rest[i] == list[i + 1]);
        }
        assert(list[0].key() != name);
        if n < list.len() {
            assert(rest[n - 1] == list[n]);
        }
        lemma_place(rest, name, n - 1);
    }
}

/// The place of the first with a name, or the number of them.
pub fn find<T: Named>(list: &Vec<T>, name: &str) -> (r: usize)
    ensures
        r == place_of(list@, name@),
        r <= list@.len(),
        r < list@.len() ==> list@[r as int].key() == name@,
{
    let mut i: usize = 0;
    while i < list.len()
        invariant
            0 <= i <= list@.len(),
            forall|k: int| 0 <= k < i ==> (#[trigger] list@[k]).key() != name@,
        decreases list.len() - i,
    {
        if same(list[i].name(), name) {
            proof {
                lemma_place(list@, name@, i as int);
            }
            return i;
        }
        i = i + 1;
    }
    proof {
        lemma_place(list@, name@, i as int);
    }
    i
}

/// A copy of a list.
pub fn copied<T: Named>(list: &Vec<T>) -> (r: Vec<T>)
    ensures
        r@ == list@,
{
    let mut out: Vec<T> = Vec::new();
    let mut i: usize = 0;
    while i < list.len()
        invariant
            0 <= i <= list@.len(),
            out@ == list@.take(i as int),
        decreases list.len() - i,
    {
        out.push(list[i].copy());
        proof {
            assert(out@ =~= list@.take(i + 1));
        }
        i = i + 1;
    }
    proof {
        assert(list@.take(i as int) =~= list@);
    }
    out
}

/// A list with something new behind the others, or in place of the first with a name.
pub open spec fn with_item<T: Named>(list: Seq<T>, target: FormTarget, item: T) -> Seq<T> {
    match target {
        FormTarget::New => list.push(item),
        FormTarget::Edit(name) => if place_of(list, name@) < list.len() {
            list.update(place_of(list, name@) as int, item)
        } else {
            list
        },
    }
}

/// A list with something new behind the others, or in place of the first with a name.
pub fn edited<T: Named>(list: &Vec<T>, target: &FormTarget, item: T) -> (r: Vec<T>)
    ensures
        r@ == with_item(list@, *target, item),
{
    let mut out: Vec<T> = copied(list);
    match target {
        FormTarget::New => {
            out.push(item);
        },
        FormTarget::Edit(name) => {
            let at: usize = find(list, name.as_str());
            if at < out.len() {
                out.set(at, item);
            }
        },
    }
    out
}

/// A list without what stands under a name.
pub open spec fn list_without<T: Named>(list: Seq<T>, name: Seq<char>) -> Seq<T> {
    list.filter(|item: T| item.key() != name)
}

/// A list without what stands under a name.
pub fn without<T: Named>(list: &Vec<T>, name: &str) -> (r: Vec<T>)
    ensures
        r@ == list_without(list@, name@),
{
    let ghost stays = |item: T| item.key() != name@;
    let mut out: Vec<T> = Vec::new();
    let mut i: usize = 0;
    proof {
        assert(list@.take(0).filter(stays) =~= Seq::empty()) by {
            reveal(Seq::filter);
        }
    }
    while i < list.len()
        invariant
            0 <= i <= list@.len(),
            stays == (|item: T| item.key() != name@),
            out@ == list@.take(i as int).filter(stays),
        decreases list.len() - i,
    {
        proof {
            reveal(Seq::filter);
            assert(list@.take(i + 1).drop_last() =~= list@.take(i as int));
            assert(list@.take(i + 1).last() == list@[i as int]);
        }
        if !same(list[i].name(), name) {
            out.push(list[i].copy());
        }
        i = i + 1;
    }
    proof {
        assert(list@.take(i as int) =~= list@);
    }
    out
}

/// What was new in a list can be found under its name, unless another stood under it before; what
/// was deleted cannot.
pub proof fn law_lists_keep_what_was_saved<T: Named>(list: Seq<T>, item: T, name: Seq<char>)
    ensures
        place_of(with_item(list, FormTarget::New, item), item.key()) <= list.len(),
        place_of(list_without(list, name), name) == list_without(list, name).len(),
{
    let grown = list.push(item);
    lemma_place_at_most(grown, item.key(), list.len() as int);
    lemma_gone(list, name);
    let less = list_without(list, name);
    lemma_place(less, name, less.len() as int);
}

proof fn lemma_place_at_most<T: Named>(list: Seq<T>, name: Seq<char>, n: int)
    requires
        0 <= n < list.len(),
        list[n].key() == name,
    ensures
        place_of(list, name) <= n,
    decreases list.len(),
{
    if n > 0 && list[0].key() != name {
        assert(list.skip(1)[n - 1] == list[n]);
        lemma_place_at_most(list.skip(1), name, n - 1);
    }
}

proof fn lemma_gone<T: Named>(list: Seq<T>, name: Seq<char>)
    ensures
        forall|i: int|
            0 <= i < list_without(list, name).len() ==> (#[trigger] list_without(list, name)[i]).key()
                != name,
    decreases list.len(),
{
    reveal(Seq::filter);
    if list.len() > 0 {
        lemma_gone(list.drop_last(), name);
    }
}

/// A list that is saved as a whole.
#[derive(Debug, PartialEq)]
pub enum SettingsList {
    Skills(Vec<Skill>),
    QuickCommands(Vec<QuickCommand>),
    Plans(Vec<WorkflowPlanItem>),
    RecentWorkspaces(Vec<RecentWorkspace>),
    /// The projects are saved one by one.
    Projects(Vec<Project>),
}

/// The path under which a list is saved.
pub open spec fn list_path(list: SettingsList) -> Option<Seq<char>> {
    match list {
        SettingsList::Skills(_) => Some("/config/skills/"@),
        SettingsList::QuickCommands(_) => Some("/config/quick_commands/"@),
        SettingsList::Plans(_) => Some("/config/workflows/"@),
        SettingsList::RecentWorkspaces(_) => Some("/config/recent_workspaces/"@),
        SettingsList::Projects(_) => None,
    }
}

/// What a request carries is the list.
pub open spec fn carries(body: Body, list: SettingsList) -> bool {
    match list {
        SettingsList::Skills(skills) => body matches Body::Skills(sent) && sent@ == skills@,
        SettingsList::QuickCommands(commands) => body matches Body::QuickCommands(sent) && sent@
            == commands@,
        SettingsList::Plans(plans) => body matches Body::Plans(sent) && sent@ == plans@,
        SettingsList::RecentWorkspaces(workspaces) => body matches Body::RecentWorkspaces(sent)
            && sent@ == workspaces@,
        SettingsList::Projects(_) => false,
    }
}

/// The request that saves a list, where there is a server to save it on.
pub fn save_list(core: &Core, list: &SettingsList) -> (r: Option<Request>)
    ensures
        r is Some == (core.client is Some && list_path(*list) is Some),
        r matches Some(request) ==> request.verb is Put && request.path@ == list_path(*list)->0
            && carries(request.body, *list),
{
    match &core.client {
        Some(client) => match list {
            SettingsList::Skills(skills) => Some(client.set_skills(skills)),
            SettingsList::QuickCommands(commands) => Some(client.set_quick_commands(commands)),
            SettingsList::Plans(plans) => Some(client.set_workflow_plans(plans)),
            SettingsList::RecentWorkspaces(workspaces) => Some(
                client.set_recent_workspaces(workspaces),
            ),
            SettingsList::Projects(_) => None,
        },
        None => None,
    }
}

/// A list was saved: it is taken up without a word. Where that failed, it is said why.
pub fn list_saved(core: &mut Core, list: SettingsList, result: Result<(), String>)
    ensures
        match result {
            Err(error) => final(core).noted(*old(core), "保存失败："@ + error@, NoteLevel::Error),
            Ok(_) => *final(core) == match list {
                SettingsList::Skills(skills) => Core {
                    settings: state::SettingsData { skills, ..old(core).settings },
                    ..*old(core)
                },
                SettingsList::QuickCommands(quick_commands) => Core {
                    settings: state::SettingsData { quick_commands, ..old(core).settings },
                    ..*old(core)
                },
                SettingsList::Plans(plans) => Core {
                    settings: state::SettingsData { plans, ..old(core).settings },
                    ..*old(core)
                },
                SettingsList::RecentWorkspaces(recent_workspaces) => Core {
                    recent_workspaces,
                    ..*old(core)
                },
                SettingsList::Projects(_) => *old(core),
            },
        },
{
    match result {
        Err(error) => {
            core.failed("保存失败：", error.as_str());
        },
        Ok(_) => {
            match list {
                SettingsList::Skills(skills) => {
                    core.settings.skills = skills;
                },
                SettingsList::QuickCommands(quick_commands) => {
                    core.settings.quick_commands = quick_commands;
                },
                SettingsList::Plans(plans) => {
                    core.settings.plans = plans;
                },
                SettingsList::RecentWorkspaces(recent_workspaces) => {
                    core.recent_workspaces = recent_workspaces;
                },
                SettingsList::Projects(_) => {},
            }
        },
    }
}

/// A form has two fields.
pub open spec fn two_fields(
    form: Form,
    first: Seq<char>,
    one: Seq<char>,
    second: Seq<char>,
    two: Seq<char>,
) -> bool {
    &&& form.fields@.len() == 2
    &&& form.fields@[0].label@ == first
    &&& form.fields@[0].value@ == one
    &&& form.fields@[1].label@ == second
    &&& form.fields@[1].value@ == two
}

fn form_of(
    title: &'static str,
    first: &'static str,
    one: &str,
    second: &'static str,
    two: &str,
) -> (r: Form)
    ensures
        r.title@ == title@,
        two_fields(r, first@, one@, second@, two@),
{
    Form {
        title,
        fields: vec![
            Field { label: first, value: one.to_owned() },
            Field { label: second, value: two.to_owned() },
        ],
    }
}

/// The form for a prompt. There is none where what it is for is gone.
pub fn open_quick_command_form(core: &Core, target: &FormTarget) -> (r: Option<Form>)
    ensures
        match *target {
            FormTarget::New => r matches Some(form) && form.title@ == "新增快捷指令"@ && two_fields(
                form,
                "指令名称"@,
                Seq::empty(),
                "指令内容"@,
                Seq::empty(),
            ),
            FormTarget::Edit(name) => {
                let at = place_of(core.settings.quick_commands@, name@);
                if at < core.settings.quick_commands@.len() {
                    r matches Some(form) && form.title@ == "编辑快捷指令"@ && two_fields(
                        form,
                        "指令名称"@,
                        core.settings.quick_commands@[at as int].name@,
                        "指令内容"@,
                        core.settings.quick_commands@[at as int].prompt@,
                    )
                } else {
                    r is None
                }
            },
        },
{
    proof {
        reveal_strlit("");
        assert(""@ =~= Seq::empty());
    }
    match target {
        FormTarget::New => Some(
            form_of("新增快捷指令", "指令名称", "", "指令内容", ""),
        ),
        FormTarget::Edit(name) => {
            let at: usize = find(&core.settings.quick_commands, name.as_str());
            if at < core.settings.quick_commands.len() {
                let item: &QuickCommand = &core.settings.quick_commands[at];
                Some(
                    form_of("编辑快捷指令", "指令名称", item.name.as_str(), "指令内容", item.prompt.as_str()),
                )
            } else {
                None
            }
        },
    }
}

/// The form for a skill. There is none where what it is for is gone.
pub fn open_skill_form(core: &Core, target: &FormTarget) -> (r: Option<Form>)
    ensures
        match *target {
            FormTarget::New => r matches Some(form) && form.title@ == "新增技能"@ && two_fields(
                form,
                "技能名称"@,
                Seq::empty(),
                "技能描述"@,
                Seq::empty(),
            ),
            FormTarget::Edit(name) => {
                let at = place_of(core.settings.skills@, name@);
                if at < core.settings.skills@.len() {
                    r matches Some(form) && form.title@ == "编辑技能"@ && two_fields(
                        form,
                        "技能名称"@,
                        core.settings.skills@[at as int].name@,
                        "技能描述"@,
                        core.settings.skills@[at as int].description@,
                    )
                } else {
                    r is None
                }
            },
        },
{
    proof {
        reveal_strlit("");
        assert(""@ =~= Seq::empty());
    }
    match target {
        FormTarget::New => Some(
            form_of("新增技能", "技能名称", "", "技能描述", ""),
        ),
        FormTarget::Edit(name) => {
            let at: usize = find(&core.settings.skills, name.as_str());
            if at < core.settings.skills.len() {
                let item: &Skill = &core.settings.skills[at];
                Some(
                    form_of("编辑技能", "技能名称", item.name.as_str(), "技能描述", item.description.as_str()),
                )
            } else {
                None
            }
        },
    }
}

/// The form for a plan. There is none where what it is for is gone.
pub fn open_plan_form(core: &Core, target: &FormTarget) -> (r: Option<Form>)
    ensures
        match *target {
            FormTarget::New => r matches Some(form) && form.title@ == "新增工作流计划"@ && two_fields(
                form,
                "计划名称"@,
                Seq::empty(),
                "计划内容"@,
                Seq::empty(),
            ),
            FormTarget::Edit(name) => {
                let at = place_of(core.settings.plans@, name@);
                if at < core.settings.plans@.len() {
                    r matches Some(form) && form.title@ == "编辑工作流计划"@ && two_fields(
                        form,
                        "计划名称"@,
                        core.settings.plans@[at as int].name@,
                        "计划内容"@,
                        core.settings.plans@[at as int].plan@,
                    )
                } else {
                    r is None
                }
            },
        },
{
    proof {
        reveal_strlit("");
        assert(""@ =~= Seq::empty());
    }
    match target {
        FormTarget::New => Some(
            form_of("新增工作流计划", "计划名称", "", "计划内容", ""),
        ),
        FormTarget::Edit(name) => {
            let at: usize = find(&core.settings.plans, name.as_str());
            if at < core.settings.plans.len() {
                let item: &WorkflowPlanItem = &core.settings.plans[at];
                Some(
                    form_of("编辑工作流计划", "计划名称", item.name.as_str(), "计划内容", item.plan.as_str()),
                )
            } else {
                None
            }
        },
    }
}

/// The prompt that a form gives: its name without the white space around it. One that is changed
/// keeps its project.
pub open spec fn command_of(
    list: Seq<QuickCommand>,
    target: FormTarget,
    name: Seq<char>,
    prompt: Seq<char>,
    command: QuickCommand,
) -> bool {
    &&& command.name@ == strings::trim_of(name)
    &&& command.prompt@ == prompt
    &&& command.project == match target {
        FormTarget::New => None,
        FormTarget::Edit(old) => if place_of(list, old@) < list.len() {
            list[place_of(list, old@) as int].project
        } else {
            None
        },
    }
}

/// Saves a prompt. The list to save comes back; where something is missing, it is said what.
pub fn save_quick_command(core: &mut Core, target: &FormTarget, name: &str, prompt: &str) -> (r:
    Option<Vec<QuickCommand>>)
    ensures
        if strings::blank(name@) {
            r is None && final(core).noted(*old(core), "请输入指令名称"@, NoteLevel::Warning)
        } else if strings::blank(prompt@) {
            r is None && final(core).noted(*old(core), "请输入指令内容"@, NoteLevel::Warning)
        } else {
            &&& *final(core) == *old(core)
            &&& r is Some
            &&& exists|command: QuickCommand|
                #![trigger with_item(old(core).settings.quick_commands@, *target, command)]
                command_of(old(core).settings.quick_commands@, *target, name@, prompt@, command)
                    && r->0@ == with_item(old(core).settings.quick_commands@, *target, command)
        },
{
    if is_blank(name) {
        core.warning("请输入指令名称".to_owned());
        return None;
    }
    if is_blank(prompt) {
        core.warning("请输入指令内容".to_owned());
        return None;
    }
    let project: Option<String> = match target {
        FormTarget::New => None,
        FormTarget::Edit(old) => {
            let at: usize = find(&core.settings.quick_commands, old.as_str());
            if at < core.settings.quick_commands.len() {
                copy_text(&core.settings.quick_commands[at].project)
            } else {
                None
            }
        },
    };
    let command: QuickCommand = QuickCommand { project, name: trim(name), prompt: prompt.to_owned() };
    Some(edited(&core.settings.quick_commands, target, command))
}

/// The question before a prompt is deleted.
pub fn delete_quick_command(name: &str) -> (r: Question)
    ensures
        r.title@ == "删除快捷指令"@,
        r.description@ == "快捷指令「"@ + name@ + "」将被删除，此操作不可撤销。"@,
        r.ok_text@ == "删除"@,
        r.danger,
{
    confirm("删除快捷指令", "快捷指令「", name, "」将被删除，此操作不可撤销。", "删除", true)
}

/// Saves a skill. The list to save comes back; where the name is missing, that is said.
pub fn save_skill(core: &mut Core, target: &FormTarget, name: &str, description: &str) -> (r: Option<
    Vec<Skill>,
>)
    ensures
        if strings::blank(name@) {
            r is None && final(core).noted(*old(core), "请输入技能名称"@, NoteLevel::Warning)
        } else {
            &&& *final(core) == *old(core)
            &&& r is Some
            &&& exists|skill: Skill|
                #![trigger with_item(old(core).settings.skills@, *target, skill)]
                skill.name@ == strings::trim_of(name@) && skill.description@ == description@ && r->0@
                    == with_item(old(core).settings.skills@, *target, skill)
        },
{
    if is_blank(name) {
        core.warning("请输入技能名称".to_owned());
        return None;
    }
    let skill: Skill = Skill { name: trim(name), description: description.to_owned() };
    Some(edited(&core.settings.skills, target, skill))
}

/// The question before a skill is deleted.
pub fn delete_skill(name: &str) -> (r: Question)
    ensures
        r.title@ == "删除技能"@,
        r.description@ == "技能「"@ + name@ + "」将被删除，此操作不可撤销。"@,
        r.ok_text@ == "删除"@,
        r.danger,
{
    confirm("删除技能", "技能「", name, "」将被删除，此操作不可撤销。", "删除", true)
}

/// The plan that a form gives. One that is changed keeps the project it was last used for.
pub open spec fn plan_of(
    list: Seq<WorkflowPlanItem>,
    target: FormTarget,
    name: Seq<char>,
    plan: Seq<char>,
    item: WorkflowPlanItem,
) -> bool {
    &&& item.name@ == strings::trim_of(name)
    &&& item.plan@ == plan
    &&& item.last_used_project == match target {
        FormTarget::New => None,
        FormTarget::Edit(old) => if place_of(list, old@) < list.len() {
            list[place_of(list, old@) as int].last_used_project
        } else {
            None
        },
    }
}

/// Saves a plan. The list to save comes back; where something is missing, it is said what.
pub fn save_plan(core: &mut Core, target: &FormTarget, name: &str, plan: &str) -> (r: Option<
    Vec<WorkflowPlanItem>,
>)
    ensures
        if strings::blank(name@) {
            r is None && final(core).noted(*old(core), "请输入计划名称"@, NoteLevel::Warning)
        } else if strings::blank(plan@) {
            r is None && final(core).noted(*old(core), "请输入计划内容"@, NoteLevel::Warning)
        } else {
            &&& *final(core) == *old(core)
            &&& r is Some
            &&& exists|item: WorkflowPlanItem|
                #![trigger with_item(old(core).settings.plans@, *target, item)]
                plan_of(old(core).settings.plans@, *target, name@, plan@, item) && r->0@
                    == with_item(old(core).settings.plans@, *target, item)
        },
{
    if is_blank(name) {
        core.warning("请输入计划名称".to_owned());
        return None;
    }
    if is_blank(plan) {
        core.warning("请输入计划内容".to_owned());
        return None;
    }
    let last_used_project: Option<String> = match target {
        FormTarget::New => None,
        FormTarget::Edit(old) => {
            let at: usize = find(&core.settings.plans, old.as_str());
            if at < core.settings.plans.len() {
                copy_text(&core.settings.plans[at].last_used_project)
            } else {
                None
            }
        },
    };
    let item: WorkflowPlanItem = WorkflowPlanItem {
        name: trim(name),
        plan: plan.to_owned(),
        last_used_project,
    };
    Some(edited(&core.settings.plans, target, item))
}

/// The question before a plan is deleted.
pub fn delete_plan(name: &str) -> (r: Question)
    ensures
        r.title@ == "删除工作流计划"@,
        r.description@ == "工作流计划「"@ + name@ + "」将被删除，此操作不可撤销。"@,
        r.ok_text@ == "删除"@,
        r.danger,
{
    confirm("删除工作流计划", "工作流计划「", name, "」将被删除，此操作不可撤销。", "删除", true)
}

/// The form for a project. The name of one that is changed stays as it is.
pub fn open_project_form(core: &Core, target: &FormTarget) -> (r: Form)
    ensures
        match *target {
            FormTarget::New => r.title@ == "新增项目"@ && two_fields(
                r,
                "项目名称"@,
                Seq::empty(),
                "项目描述"@,
                Seq::empty(),
            ),
            FormTarget::Edit(name) => {
                let at = place_of(core.settings.projects@, name@);
                &&& r.title@ == "编辑项目"@
                &&& r.fields@.len() == 1
                &&& r.fields@[0].label@ == "项目描述"@
                &&& r.fields@[0].value@ == if at < core.settings.projects@.len() {
                    core.settings.projects@[at as int].description@
                } else {
                    Seq::empty()
                }
            },
        },
{
    proof {
        reveal_strlit("");
        assert(""@ =~= Seq::empty());
    }
    match target {
        FormTarget::New => form_of("新增项目", "项目名称", "", "项目描述", ""),
        FormTarget::Edit(name) => {
            let at: usize = find(&core.settings.projects, name.as_str());
            let value: String = if at < core.settings.projects.len() {
                core.settings.projects[at].description.clone()
            } else {
                "".to_owned()
            };
            Form { title: "编辑项目", fields: vec![Field { label: "项目描述", value }] }
        },
    }
}

/// What is asked of the server for a project.
#[derive(Debug, PartialEq)]
pub enum ProjectSave {
    Create { request: Request, project: Project },
    Update { request: Request, name: String, description: String },
}

/// Saves a project: a new one by its name and its description, else the description of one. Where
/// there is no server nothing is asked; where the name is missing, that is said.
pub fn save_project(core: &mut Core, target: &FormTarget, name: &str, description: &str) -> (r: Option<
    ProjectSave,
>)
    ensures
        if old(core).client is None {
            r is None && *final(core) == *old(core)
        } else {
            match *target {
                FormTarget::New => if strings::blank(name@) {
                    r is None && final(core).noted(
                        *old(core),
                        "请输入项目名称"@,
                        NoteLevel::Warning,
                    )
                } else {
                    &&& *final(core) == *old(core)
                    &&& r matches Some(ProjectSave::Create { request, project })
                    &&& request.verb == Verb::Post
                    &&& request.path@ == "/config/projects/"@
                    &&& request.body == Body::Project(project)
                    &&& project.name@ == strings::trim_of(name@)
                    &&& project.description@ == strings::trim_of(description@)
                },
                FormTarget::Edit(old_name) => {
                    &&& *final(core) == *old(core)
                    &&& r matches Some(ProjectSave::Update { request, name, description: text })
                    &&& request.verb == Verb::Put
                    &&& request.path@ == "/config/projects/"@ + old_name@
                    &&& request.body matches Body::UpdateProject(change)
                    &&& change.description@ == strings::trim_of(description@)
                    &&& name@ == old_name@
                    &&& text@ == strings::trim_of(description@)
                },
            }
        },
{
    match &core.client {
        None => {
            return None;
        },
        Some(client) => match target {
            FormTarget::New => {
                if !is_blank(name) {
                    let project: Project = Project {
                        name: trim(name),
                        description: trim(description),
                    };
                    return Some(
                        ProjectSave::Create { request: client.create_project(&project), project },
                    );
                }
            },
            FormTarget::Edit(old) => {
                let text: String = trim(description);
                return Some(
                    ProjectSave::Update {
                        request: client.update_project(old.as_str(), text.as_str()),
                        name: old.clone(),
                        description: text,
                    },
                );
            },
        },
    }
    core.warning("请输入项目名称".to_owned());
    None
}

/// The settings with other projects.
pub open spec fn with_projects(core: Core, projects: Vec<Project>) -> Core {
    Core { settings: state::SettingsData { projects, ..core.settings }, ..core }
}

/// A project was made.
pub fn project_created(core: &mut Core, project: Project, result: Result<(), String>)
    ensures
        match result {
            Ok(_) => final(core).settings.projects@ == old(core).settings.projects@.push(project)
                && *final(core) == with_projects(*old(core), final(core).settings.projects),
            Err(error) => final(core).noted(
                *old(core),
                "保存项目失败："@ + error@,
                NoteLevel::Error,
            ),
        },
{
    match result {
        Ok(_) => {
            core.settings.projects.push(project);
        },
        Err(error) => {
            core.failed("保存项目失败：", error.as_str());
        },
    }
}

/// The description of a project was changed.
pub fn project_updated(core: &mut Core, name: &str, description: String, result: Result<(), String>)
    ensures
        match result {
            Ok(_) => {
                let before = old(core).settings.projects@;
                let after = final(core).settings.projects@;
                let at = place_of(before, name@) as int;
                &&& *final(core) == with_projects(*old(core), final(core).settings.projects)
                &&& after == if at < before.len() {
                    before.update(at, Project { name: before[at].name, description })
                } else {
                    before
                }
            },
            Err(error) => final(core).noted(
                *old(core),
                "保存项目失败："@ + error@,
                NoteLevel::Error,
            ),
        },
{
    match result {
        Ok(_) => {
            let at: usize = find(&core.settings.projects, name);
            if at < core.settings.projects.len() {
                let kept: String = core.settings.projects[at].name.clone();
                core.settings.projects.set(at, Project { name: kept, description });
            }
        },
        Err(error) => {
            core.failed("保存项目失败：", error.as_str());
        },
    }
}

/// The question before a project is deleted.
pub fn delete_project(name: &str) -> (r: Question)
    ensures
        r.title@ == "删除项目"@,
        r.description@ == "项目「"@ + name@
            + "」将被删除，其下会话将回到未归属，此操作不可撤销。"@,
        r.ok_text@ == "删除"@,
        r.danger,
{
    confirm(
        "删除项目",
        "项目「",
        name,
        "」将被删除，其下会话将回到未归属，此操作不可撤销。",
        "删除",
        true,
    )
}

/// The request that deletes a project, where there is a server.
pub fn project_deletion(core: &Core, name: &str) -> (r: Option<Request>)
    ensures
        r is Some == (core.client is Some),
        r matches Some(request) ==> request.verb == Verb::Delete && request.body is Nothing
            && request.path@ == "/config/projects/"@ + name@,
{
    match &core.client {
        Some(client) => Some(client.delete_project(name)),
        None => None,
    }
}

/// A project was deleted.
pub fn project_deleted(core: &mut Core, name: &str, result: Result<(), String>)
    ensures
        match result {
            Ok(_) => final(core).settings.projects@ == list_without(
                old(core).settings.projects@,
                name@,
            ) && *final(core) == with_projects(*old(core), final(core).settings.projects),
            Err(error) => final(core).noted(
                *old(core),
                "删除项目失败："@ + error@,
                NoteLevel::Error,
            ),
        },
{
    match result {
        Ok(_) => {
            core.settings.projects = without(&core.settings.projects, name);
        },
        Err(error) => {
            core.failed("删除项目失败：", error.as_str());
        },
    }
}

/// A list in which two have changed places.
pub open spec fn swapped<T>(list: Seq<T>, i: int, j: int) -> Seq<T> {
    list.update(i, list[j]).update(j, list[i])
}

/// The request saves the order of the projects.
pub open spec fn saves_order(request: Request, projects: Seq<Project>) -> bool {
    &&& request.verb == Verb::Post
    &&& request.path@ == "/config/projects/order"@
    &&& request.body matches Body::ProjectOrder(order)
    &&& strings::views(order.names@) == projects.map_values(|p: Project| p.name@)
}

fn order_request(client: &Client, projects: &Vec<Project>) -> (r: Request)
    ensures
        saves_order(r, projects@),
{
    let mut names: Vec<String> = Vec::new();
    let mut i: usize = 0;
    while i < projects.len()
        invariant
            0 <= i <= projects@.len(),
            names@.len() == i,
            forall|k: int| 0 <= k < i ==> (#[trigger] names@[k])@ == projects@[k].name@,
        decreases projects.len() - i,
    {
        names.push(projects[i].name.clone());
        i = i + 1;
    }
    proof {
        assert(strings::views(names@) =~= projects@.map_values(|p: Project| p.name@));
    }
    client.set_project_order(names)
}

/// Moves a project by some places: it changes places with the one that is there. The request that
/// saves the order and the order come back, unless there is no such project, no such place or no
/// server.
pub fn move_project(core: &Core, name: &str, delta: isize) -> (r: Option<(Request, Vec<Project>)>)
    ensures
        ({
            let list = core.settings.projects@;
            let at = place_of(list, name@) as int;
            let to = at + delta;
            let fits = at < list.len() && 0 <= to < list.len() && core.client is Some;
            &&& r is Some == fits
            &&& fits ==> (r->0).1@ == swapped(list, at, to) && saves_order((r->0).0, (r->0).1@)
        }),
{
    let at: usize = find(&core.settings.projects, name);
    if at >= core.settings.projects.len() {
        return None;
    }
    let to: i128 = at as i128 + delta as i128;
    if to < 0 || to >= core.settings.projects.len() as i128 {
        return None;
    }
    let client: &Client = match &core.client {
        Some(client) => client,
        None => {
            return None;
        },
    };
    let mut next: Vec<Project> = copied(&core.settings.projects);
    let one: Project = core.settings.projects[at].clone();
    let other: Project = core.settings.projects[to as usize].clone();
    next.set(at, other);
    next.set(to as usize, one);
    Some((order_request(client, &next), next))
}

/// Moves a project to where another is.
pub fn reorder_project(core: &Core, from: &str, target: &str) -> (r: Option<
    (Request, Vec<Project>),
>)
    ensures
        ({
            let list = core.settings.projects@;
            let at = place_of(list, from@) as int;
            let to = place_of(list, target@) as int;
            let fits = at < list.len() && to < list.len() && at != to && core.client is Some;
            &&& r is Some == fits
            &&& fits ==> (r->0).1@ == swapped(list, at, to) && saves_order((r->0).0, (r->0).1@)
        }),
{
    let at: usize = find(&core.settings.projects, from);
    let to: usize = find(&core.settings.projects, target);
    let total: usize = core.settings.projects.len();
    if at >= total || to >= total || at == to {
        return None;
    }
    let client: &Client = match &core.client {
        Some(client) => client,
        None => {
            return None;
        },
    };
    let mut next: Vec<Project> = copied(&core.settings.projects);
    let one: Project = core.settings.projects[at].clone();
    let other: Project = core.settings.projects[to].clone();
    next.set(at, other);
    next.set(to, one);
    Some((order_request(client, &next), next))
}

/// The projects were put in order.
pub fn projects_ordered(core: &mut Core, projects: Vec<Project>, result: Result<(), String>)
    ensures
        match result {
            Ok(_) => *final(core) == with_projects(*old(core), projects),
            Err(error) => final(core).noted(
                *old(core),
                "调整项目顺序失败："@ + error@,
                NoteLevel::Error,
            ),
        },
{
    match result {
        Ok(_) => {
            core.settings.projects = projects;
        },
        Err(error) => {
            core.failed("调整项目顺序失败：", error.as_str());
        },
    }
}

/// Two projects that change places twice stand as before.
pub proof fn law_moving_back_restores(list: Seq<Project>, i: int, j: int)
    requires
        0 <= i < list.len(),
        0 <= j < list.len(),
    ensures
        swapped(swapped(list, i, j), j, i) == list,
        swapped(list, i, j).to_multiset() == list.to_multiset(),
{
    let there = swapped(list, i, j);
    assert(swapped(there, j, i) =~= list);
    vstd::seq_lib::to_multiset_update(list, i, list[j]);
    vstd::seq_lib::to_multiset_update(list.update(i, list[j]), j, list[i]);
    broadcast use {
        vstd::multiset::group_multiset_axioms,
        vstd::multiset::group_multiset_properties,
        vstd::seq_lib::group_to_multiset_ensures,
    };
    assert(list.to_multiset().contains(list[i]));
    assert(list.to_multiset().contains(list[j]));
    assert(there.to_multiset() =~= list.to_multiset());
}

/// The form that opens for something new in a part of the settings.
pub fn open_new_form(core: &Core, tab: SettingsTab) -> (r: Option<Form>)
    ensures
        match tab {
            SettingsTab::QuickCommands => r is Some && r->0.title@ == "新增快捷指令"@ && two_fields(
                r->0,
                "指令名称"@,
                Seq::empty(),
                "指令内容"@,
                Seq::empty(),
            ),
            SettingsTab::Skills => r is Some && r->0.title@ == "新增技能"@ && two_fields(
                r->0,
                "技能名称"@,
                Seq::empty(),
                "技能描述"@,
                Seq::empty(),
            ),
            SettingsTab::WorkflowPlans => r is Some && r->0.title@ == "新增工作流计划"@
                && two_fields(
                r->0,
                "计划名称"@,
                Seq::empty(),
                "计划内容"@,
                Seq::empty(),
            ),
            SettingsTab::Projects => r is Some && r->0.title@ == "新增项目"@ && two_fields(
                r->0,
                "项目名称"@,
                Seq::empty(),
                "项目描述"@,
                Seq::empty(),
            ),
            _ => r is None,
        },
{
    match tab {
        SettingsTab::QuickCommands => open_quick_command_form(core, &FormTarget::New),
        SettingsTab::Skills => open_skill_form(core, &FormTarget::New),
        SettingsTab::WorkflowPlans => open_plan_form(core, &FormTarget::New),
        SettingsTab::Projects => Some(open_project_form(core, &FormTarget::New)),
        _ => None,
    }
}

/// What is saved of the built-in agent; before it was set up, nothing.
pub open spec fn saved_config(core: Core) -> ConfigText {
    match core.settings.orchestrator {
        Some(config) => config@,
        None => ConfigText {
            api_format: ApiFormat::ChatCompletions,
            base_url: Seq::empty(),
            api_key: Seq::empty(),
            model: Seq::empty(),
            effort: Seq::empty(),
        },
    }
}

/// The built-in agent before it was set up.
pub fn empty_orchestrator_config() -> (r: OrchestratorConfig)
    ensures
        r.api_format == ApiFormat::ChatCompletions,
        r.base_url@ == Seq::<char>::empty(),
        r.api_key@ == Seq::<char>::empty(),
        r.model@ == Seq::<char>::empty(),
        r.effort@ == Seq::<char>::empty(),
{
    OrchestratorConfig {
        api_format: ApiFormat::ChatCompletions,
        base_url: String::new(),
        api_key: String::new(),
        model: String::new(),
        effort: String::new(),
    }
}

fn saved_or_empty(core: &Core) -> (r: OrchestratorConfig)
    ensures
        r@ == saved_config(*core),
{
    match &core.settings.orchestrator {
        Some(config) => config.clone(),
        None => empty_orchestrator_config(),
    }
}

fn same_config(a: &OrchestratorConfig, b: &OrchestratorConfig) -> (r: bool)
    ensures
        r == (a@ == b@),
{
    a.api_format == b.api_format && same(a.base_url.as_str(), b.base_url.as_str()) && same(
        a.api_key.as_str(),
        b.api_key.as_str(),
    ) && same(a.model.as_str(), b.model.as_str()) && same(a.effort.as_str(), b.effort.as_str())
}

/// What stands in the form of the built-in agent.
#[derive(Debug, PartialEq)]
pub struct OrchestratorFields<'a> {
    pub base_url: &'a str,
    pub api_key: &'a str,
    pub model: &'a str,
    pub effort: &'a str,
}

impl AmuxApp {
    /// The interface of the built-in agent: the one that was chosen, else the one that is saved.
    pub open spec fn chosen_format(self) -> ApiFormat {
        match self.orchestrator_format {
            Some(format) => format,
            None => saved_config(self.core).api_format,
        }
    }

    /// The interface of the built-in agent.
    pub fn current_orchestrator_format(&self) -> (r: ApiFormat)
        ensures
            r == self.chosen_format(),
    {
        match self.orchestrator_format {
            Some(format) => format,
            None => match &self.core.settings.orchestrator {
                Some(config) => config.api_format,
                None => ApiFormat::ChatCompletions,
            },
        }
    }

    /// What the form stands for.
    pub open spec fn entered(self, fields: OrchestratorFields) -> ConfigText {
        ConfigText {
            api_format: self.chosen_format(),
            base_url: strings::trim_of(fields.base_url@),
            api_key: strings::trim_of(fields.api_key@),
            model: strings::trim_of(fields.model@),
            effort: strings::trim_of(fields.effort@),
        }
    }

    fn orchestrator_form(&self, fields: &OrchestratorFields) -> (r: OrchestratorConfig)
        ensures
            r@ == self.entered(*fields),
    {
        OrchestratorConfig {
            api_format: self.current_orchestrator_format(),
            base_url: trim(fields.base_url),
            api_key: trim(fields.api_key),
            model: trim(fields.model),
            effort: trim(fields.effort),
        }
    }

    /// Whether the form says something else than what is saved.
    pub fn orchestrator_dirty(&self, fields: &OrchestratorFields) -> (r: bool)
        ensures
            r == (saved_config(self.core) != self.entered(*fields)),
    {
        !same_config(&saved_or_empty(&self.core), &self.orchestrator_form(fields))
    }

    /// Fills the form with what is saved.
    pub fn load_orchestrator_form(&mut self) -> (r: OrchestratorConfig)
        ensures
            r@ == saved_config(old(self).core),
            *final(self) == (AmuxApp {
                orchestrator_format: Some(r.api_format),
                orchestrator_prefilled: Some(r),
                ..*old(self)
            }),
    {
        let config: OrchestratorConfig = saved_or_empty(&self.core);
        self.orchestrator_format = Some(config.api_format);
        self.orchestrator_prefilled = Some(config.clone());
        config
    }

    /// Fills the form again where what is saved came to be known, or changed, while it is shown.
    pub fn sync_orchestrator_form(&mut self) -> (r: Option<OrchestratorConfig>)
        ensures
            ({
                let shown = old(self).core.settings_open && old(self).core.settings_tab
                    == SettingsTab::Orchestrator;
                let filled = old(self).orchestrator_prefilled matches Some(config) && config@
                    == saved_config(old(self).core);
                if shown && !filled {
                    &&& r is Some
                    &&& r->0@ == saved_config(old(self).core)
                    &&& *final(self) == (AmuxApp {
                        orchestrator_format: Some(r->0.api_format),
                        orchestrator_prefilled: r,
                        ..*old(self)
                    })
                } else {
                    r is None && *final(self) == *old(self)
                }
            }),
    {
        if !self.core.settings_open || self.core.settings_tab != SettingsTab::Orchestrator {
            return None;
        }
        let saved: OrchestratorConfig = saved_or_empty(&self.core);
        let filled: bool = match &self.orchestrator_prefilled {
            Some(config) => same_config(config, &saved),
            None => false,
        };
        if filled {
            return None;
        }
        Some(self.load_orchestrator_form())
    }

    /// Saves what was entered for the built-in agent. The request and what is saved come back; where
    /// something is missing, that is said.
    pub fn save_orchestrator(&mut self, fields: &OrchestratorFields) -> (r: Option<
        (Request, OrchestratorConfig),
    >)
        ensures
            ({
                let missing = strings::blank(fields.base_url@) || strings::blank(fields.api_key@)
                    || strings::blank(fields.model@);
                if old(self).core.client is None {
                    r is None && *final(self) == *old(self)
                } else if missing {
                    &&& r is None
                    &&& final(self).core.noted(
                        old(self).core,
                        "保存失败：请填写 Base URL、API Key 与模型名称。"@,
                        NoteLevel::Error,
                    )
                    &&& *final(self) == (AmuxApp { core: final(self).core, ..*old(self) })
                } else {
                    &&& *final(self) == *old(self)
                    &&& r is Some
                    &&& (r->0).0.verb == Verb::Put
                    &&& (r->0).0.path@ == "/config/agent/"@
                    &&& (r->0).0.body == Body::Orchestrator((r->0).1)
                    &&& (r->0).1@ == old(self).entered(*fields)
                }
            }),
    {
        match &self.core.client {
            None => {
                return None;
            },
            Some(client) => {
                if !(is_blank(fields.base_url) || is_blank(fields.api_key) || is_blank(
                    fields.model,
                )) {
                    let config: OrchestratorConfig = self.orchestrator_form(fields);
                    return Some((client.set_orchestrator(&config), config));
                }
            },
        }
        self.core.error("保存失败：请填写 Base URL、API Key 与模型名称。".to_owned());
        None
    }
}

/// The built-in agent was set up.
pub fn orchestrator_saved(core: &mut Core, config: OrchestratorConfig, result: Result<(), String>)
    ensures
        match result {
            Ok(_) => final(core).noted(
                Core {
                    settings: state::SettingsData {
                        orchestrator: Some(config),
                        ..old(core).settings
                    },
                    ..*old(core)
                },
                "内置智能体设置已保存"@,
                NoteLevel::Success,
            ),
            Err(error) => final(core).noted(*old(core), "保存失败："@ + error@, NoteLevel::Error),
        },
{
    match result {
        Ok(_) => {
            core.settings.orchestrator = Some(config);
            core.success("内置智能体设置已保存".to_owned());
        },
        Err(error) => {
            core.failed("保存失败：", error.as_str());
        },
    }
}

} // verus!
