//! The form for a new session: what is suggested for its directory, and how the session is made.
pub mod laws;

use super::AmuxApp;
use crate::common::api::{CreateSessionRequest, Project, RecentWorkspace, WorkflowPlanItem};
use crate::common::domain::{copy_text, FsEntry};
use crate::desktop::app::forms;
use crate::desktop::app::forms::{copied, find};
use crate::desktop::client::{Body, Request, Verb};
use crate::desktop::poll::{open_session, open_workflow, refresh_workflow_setup, Fetch};
use crate::desktop::state;
use crate::desktop::state::{
    matching_prefix, Core, DirectoryListing, NewSessionForm, NoteLevel, OpenTarget,
};
use crate::desktop::ui;
use crate::desktop::ui::split_dir_query;
use crate::strings;
use crate::strings::{is_blank, same, trim};
use vstd::prelude::*;

verus! {

/// The directories that were used lately, without one.
pub open spec fn recent_without(list: Seq<RecentWorkspace>, target: RecentWorkspace) -> Seq<
    RecentWorkspace,
> {
    list.filter(
        |item: RecentWorkspace|
            !(item.machine@ == target.machine@ && item.workspace@ == target.workspace@),
    )
}

/// Forgets a directory that was used lately. The list to save comes back.
pub fn delete_recent_workspace(core: &Core, target: &RecentWorkspace) -> (r: Vec<RecentWorkspace>)
    ensures
        r@ == recent_without(core.recent_workspaces@, *target),
{
    let ghost all = core.recent_workspaces@;
    let ghost stays = |item: RecentWorkspace|
        !(item.machine@ == target.machine@ && item.workspace@ == target.workspace@);
    let mut out: Vec<RecentWorkspace> = Vec::new();
    let mut i: usize = 0;
    proof {
        assert(all.take(0).filter(stays) =~= Seq::empty()) by {
            reveal(Seq::filter);
        }
    }
    while i < core.recent_workspaces.len()
        invariant
            0 <= i <= all.len(),
            all == core.recent_workspaces@,
            stays == (|item: RecentWorkspace|
                !(item.machine@ == target.machine@ && item.workspace@ == target.workspace@)),
            out@ == all.take(i as int).filter(stays),
        decreases all.len() - i,
    {
        proof {
            reveal(Seq::filter);
            assert(all.take(i + 1).drop_last() =~= all.take(i as int));
            assert(all.take(i + 1).last() == all[i as int]);
        }
        let item: &RecentWorkspace = &core.recent_workspaces[i];
        if !(same(item.machine.as_str(), target.machine.as_str()) && same(
            item.workspace.as_str(),
            target.workspace.as_str(),
        )) {
            out.push(item.clone());
        }
        i = i + 1;
    }
    proof {
        assert(all.take(i as int) =~= all);
    }
    out
}

/// A project that is still there; none where it is not.
pub open spec fn known_project(projects: Seq<Project>, name: Option<String>) -> Option<String> {
    match name {
        Some(one) => if forms::place_of(projects, one@) < projects.len() {
            name
        } else {
            None
        },
        None => None,
    }
}

fn still_there(projects: &Vec<Project>, name: &Option<String>) -> (r: Option<String>)
    ensures
        r == known_project(projects@, *name),
{
    match name {
        Some(one) => {
            if find(projects, one.as_str()) < projects.len() {
                copy_text(name)
            } else {
                None
            }
        },
        None => None,
    }
}

/// Takes up a plan: what stands in the form afterwards. The project it was last used for is chosen.
pub fn set_plan(core: &mut Core, plan: &WorkflowPlanItem) -> (r: String)
    ensures
        r@ == plan.plan@,
        *final(core) == (Core {
            new_session: NewSessionForm {
                project: known_project(old(core).settings.projects@, plan.last_used_project),
                ..old(core).new_session
            },
            ..*old(core)
        }),
{
    core.new_session.project = still_there(&core.settings.projects, &plan.last_used_project);
    plan.plan.clone()
}

/// Nothing is suggested.
pub open spec fn without_suggestions(before: Core, after: Core) -> bool {
    &&& after.new_session.suggestions@.len() == 0
    &&& after == (Core {
        new_session: NewSessionForm {
            suggestions: after.new_session.suggestions,
            suggestion: None,
            ..before.new_session
        },
        ..before
    })
}

fn drop_suggestions(core: &mut Core)
    ensures
        without_suggestions(*old(core), *final(core)),
{
    core.new_session.suggestions = Vec::new();
    core.new_session.suggestion = None;
}

/// The entries of a directory are the ones that are suggested from.
pub open spec fn lists(core: Core, machine: Seq<char>, dir: Seq<char>) -> bool {
    core.new_session.suggestion matches Some(listing) && listing.machine@ == machine
        && listing.dir@ == dir
}

fn is_listed(core: &Core, machine: &str, dir: &str) -> (r: bool)
    ensures
        r == lists(*core, machine@, dir@),
{
    match &core.new_session.suggestion {
        Some(listing) => same(listing.machine.as_str(), machine) && same(listing.dir.as_str(), dir),
        None => false,
    }
}

fn copied_entries(entries: &Vec<FsEntry>) -> (r: Vec<FsEntry>)
    ensures
        r@ == entries@,
{
    let mut out: Vec<FsEntry> = Vec::new();
    let mut i: usize = 0;
    while i < entries.len()
        invariant
            0 <= i <= entries@.len(),
            out@ == entries@.take(i as int),
        decreases entries.len() - i,
    {
        out.push(entries[i].clone());
        proof {
            assert(out@ =~= entries@.take(i + 1));
        }
        i = i + 1;
    }
    proof {
        assert(entries@.take(i as int) =~= entries@);
    }
    out
}

/// What was typed is further on in the same directory: what is suggested comes from the entries that
/// are at hand.
pub open spec fn narrowed(before: Core, after: Core, prefix: Seq<char>) -> bool {
    &&& after.new_session.suggestion_prefix@ == prefix
    &&& before.new_session.suggestion is Some
    &&& after.new_session.suggestions@ == state::beginning_with(
        before.new_session.suggestion->0.entries@,
        prefix,
    )
    &&& after == (Core {
        new_session: NewSessionForm {
            suggestions: after.new_session.suggestions,
            suggestion_prefix: after.new_session.suggestion_prefix,
            ..before.new_session
        },
        ..before
    })
}

/// Another directory was typed: its entries are awaited, and nothing is suggested until they come.
pub open spec fn awaits(before: Core, after: Core, machine: Seq<char>, dir: Seq<char>, prefix: Seq<
    char,
>) -> bool {
    &&& lists(after, machine, dir)
    &&& after.new_session.suggestion->0.entries@.len() == 0
    &&& after.new_session.suggestion_prefix@ == prefix
    &&& after.new_session.suggestions@.len() == 0
    &&& after == (Core {
        new_session: NewSessionForm {
            suggestions: after.new_session.suggestions,
            suggestion: after.new_session.suggestion,
            suggestion_prefix: after.new_session.suggestion_prefix,
            ..before.new_session
        },
        ..before
    })
}

fn narrow(core: &mut Core, prefix: String)
    requires
        old(core).new_session.suggestion is Some,
    ensures
        narrowed(*old(core), *final(core), prefix@),
{
    let entries: Vec<FsEntry> = match &core.new_session.suggestion {
        Some(listing) => copied_entries(&listing.entries),
        None => Vec::new(),
    };
    core.new_session.suggestions = matching_prefix(entries, prefix.as_str());
    core.new_session.suggestion_prefix = prefix;
}

fn await_entries(core: &mut Core, machine: &str, dir: &str, prefix: String)
    ensures
        awaits(*old(core), *final(core), machine@, dir@, prefix@),
{
    core.new_session.suggestion = Some(
        DirectoryListing {
            machine: machine.to_owned(),
            dir: dir.to_owned(),
            entries: Vec::new(),
        },
    );
    core.new_session.suggestion_prefix = prefix;
    core.new_session.suggestions = Vec::new();
}

/// The directory whose entries are to be fetched.
#[derive(Debug, PartialEq)]
pub struct DirectoryWanted {
    pub machine: String,
    pub dir: String,
}

/// The entries of a directory came. What is no longer asked for is dropped, and where they could not
/// be fetched they are asked for again the next time.
pub fn suggestions_listed(
    core: &mut Core,
    wanted: DirectoryWanted,
    result: Result<Vec<FsEntry>, String>,
)
    ensures
        if !lists(*old(core), wanted.machine@, wanted.dir@) {
            *final(core) == *old(core)
        } else {
            match result {
                Ok(entries) => {
                    &&& lists(*final(core), wanted.machine@, wanted.dir@)
                    &&& final(core).new_session.suggestion->0.entries@ == entries@
                    &&& final(core).new_session.suggestions@ == state::beginning_with(
                        entries@,
                        old(core).new_session.suggestion_prefix@,
                    )
                    &&& *final(core) == (Core {
                        new_session: NewSessionForm {
                            suggestions: final(core).new_session.suggestions,
                            suggestion: final(core).new_session.suggestion,
                            ..old(core).new_session
                        },
                        ..*old(core)
                    })
                },
                Err(_) => without_suggestions(*old(core), *final(core)),
            }
        },
{
    if !is_listed(core, wanted.machine.as_str(), wanted.dir.as_str()) {
        return;
    }
    match result {
        Ok(entries) => {
            core.new_session.suggestions = matching_prefix(
                copied_entries(&entries),
                core.new_session.suggestion_prefix.as_str(),
            );
            core.new_session.suggestion = Some(
                DirectoryListing { machine: wanted.machine, dir: wanted.dir, entries },
            );
        },
        Err(_) => {
            drop_suggestions(core);
        },
    }
}

/// What is asked of the server for a new session.
#[derive(Debug, PartialEq)]
pub enum Creation {
    Session { request: Request },
    Workflow {
        request: Request,
        /// The project that it is to belong to.
        project: Option<String>,
        /// The name of the plan that was taken up as it is.
        selected: Option<String>,
    },
}

/// The name of the first plan with a text.
pub open spec fn plan_name(plans: Seq<WorkflowPlanItem>, plan: Seq<char>) -> Option<Seq<char>>
    decreases plans.len(),
{
    if plans.len() == 0 {
        None
    } else if plans[0].plan@ == plan {
        Some(plans[0].name@)
    } else {
        plan_name(plans.skip(1), plan)
    }
}

fn name_of_plan(plans: &Vec<WorkflowPlanItem>, plan: &str) -> (r: Option<String>)
    ensures
        match plan_name(plans@, plan@) {
            Some(name) => r is Some && r->0@ == name,
            None => r is None,
        },
{
    let ghost all = plans@;
    let mut i: usize = 0;
    proof {
        assert(all.skip(0) =~= all);
    }
    while i < plans.len()
        invariant
            0 <= i <= all.len(),
            all == plans@,
            plan_name(all, plan@) == plan_name(all.skip(i as int), plan@),
        decreases all.len() - i,
    {
        proof {
            assert(all.skip(i as int)[0] == all[i as int]);
            assert(all.skip(i as int).skip(1) =~= all.skip(i + 1));
        }
        if same(plans[i].plan.as_str(), plan) {
            return Some(plans[i].name.clone());
        }
        i = i + 1;
    }
    proof {
        assert(all.skip(i as int) =~= Seq::empty());
    }
    None
}

/// The body of the request for a session is what was entered.
pub open spec fn asks_for(body: CreateSessionRequest, form: NewSessionForm, workspace: Seq<char>) -> bool {
    &&& form.machine is Some && body.machine@ == form.machine->0@
    &&& form.agent is Some && body.agent@ == form.agent->0@
    &&& body.workspace@ == strings::trim_of(workspace)
    &&& body.use_worktree == form.use_worktree
    &&& body.project == form.project
}

/// Makes a new session of what was entered, once it is complete: a workflow by its plan, or a session
/// by its machine, its agent and its directory.
pub fn create_session(core: &Core, workspace: &str, plan: &str) -> (r: Option<Creation>)
    ensures
        ({
            let form = core.new_session;
            let complete = if form.workflow_mode {
                !strings::blank(plan@)
            } else {
                form.machine is Some && form.agent is Some && !strings::blank(workspace@)
            };
            &&& r is Some == (core.client is Some && complete)
            &&& r matches Some(creation) ==> match creation {
                Creation::Workflow { request, project, selected } => {
                    &&& form.workflow_mode
                    &&& request.verb == Verb::Post
                    &&& request.path@ == "/workflows"@
                    &&& request.body matches Body::CreateWorkflow(body)
                    &&& body.plan@ == strings::trim_of(plan@)
                    &&& body.title is None
                    &&& body.project == form.project
                    &&& project == form.project
                    &&& match plan_name(core.settings.plans@, strings::trim_of(plan@)) {
                        Some(name) => selected is Some && selected->0@ == name,
                        None => selected is None,
                    }
                },
                Creation::Session { request } => {
                    &&& !form.workflow_mode
                    &&& request.verb == Verb::Post
                    &&& request.path@ == "/sessions"@
                    &&& request.body matches Body::CreateSession(body)
                    &&& asks_for(body, form, workspace@)
                    &&& form.machine is Some && body.machine@ == form.machine->0@
                    &&& form.agent is Some && body.agent@ == form.agent->0@
                    &&& body.workspace@ == strings::trim_of(workspace@)
                    &&& body.use_worktree <==> core.new_session.use_worktree
                    &&& body.project == core.new_session.project
                },
            }
        }),
{
    match &core.client {
        None => None,
        Some(client) => {
            if core.new_session.workflow_mode {
                if is_blank(plan) {
                    return None;
                }
                let text: String = trim(plan);
                let selected: Option<String> = name_of_plan(&core.settings.plans, text.as_str());
                return Some(
                    Creation::Workflow {
                        request: client.create_workflow(
                            text,
                            None,
                            copy_text(&core.new_session.project),
                        ),
                        project: copy_text(&core.new_session.project),
                        selected,
                    },
                );
            }
            if is_blank(workspace) {
                return None;
            }
            match (&core.new_session.machine, &core.new_session.agent) {
                (Some(machine), Some(agent)) => Some(
                    Creation::Session {
                        request: client.create_session(
                            CreateSessionRequest {
                                machine: machine.clone(),
                                agent: agent.clone(),
                                workspace: trim(workspace),
                                use_worktree: core.new_session.use_worktree,
                                project: copy_text(&core.new_session.project),
                            },
                        ),
                    },
                ),
                _ => None,
            }
        },
    }
}

/// The plans after one of them was used for a project.
pub open spec fn plans_used(plans: Seq<WorkflowPlanItem>, name: Seq<char>, project: Option<String>) -> Seq<
    WorkflowPlanItem,
> {
    let at = forms::place_of(plans, name) as int;
    if at < plans.len() {
        plans.update(at, WorkflowPlanItem { last_used_project: project, ..plans[at] })
    } else {
        plans
    }
}

/// A session was made: it is opened, the form is empty but for the kind of session, and the list is
/// due. The plans to save come back where the workflow was made from one of them.
pub fn session_created(
    core: &mut Core,
    result: Result<OpenTarget, String>,
    selected: &Option<String>,
    project: &Option<String>,
) -> (r: Option<Vec<WorkflowPlanItem>>)
    ensures
        match result {
            Err(error) => r is None && final(core).noted(
                *old(core),
                "创建会话失败："@ + error@,
                NoteLevel::Error,
            ),
            Ok(target) => {
                let plans = old(core).settings.plans@;
                &&& final(core).open is Some && final(core).open->0.same_as(target)
                &&& final(core).view.is_new()
                &&& final(core).view.detail.terminal_output.version() == old(core).generations
                &&& final(core).new_session.is_blank()
                &&& final(core).new_session.workflow_mode == old(core).new_session.workflow_mode
                &&& *final(core) == (Core {
                    open: final(core).open,
                    view: final(core).view,
                    new_session: final(core).new_session,
                    last: state::no_ticks(),
                    generations: state::after(old(core).generations),
                    ..*old(core)
                })
                &&& r is Some == (selected matches Some(name) && forms::place_of(plans, name@)
                    < plans.len())
                &&& r is Some ==> r->0@ == plans_used(plans, selected->0@, *project)
            },
        },
{
    match result {
        Err(error) => {
            core.failed("创建会话失败：", error.as_str());
            None
        },
        Ok(target) => {
            let mut used: Option<Vec<WorkflowPlanItem>> = None;
            match selected {
                Some(name) => {
                    let at: usize = find(&core.settings.plans, name.as_str());
                    if at < core.settings.plans.len() {
                        let mut plans: Vec<WorkflowPlanItem> = copied(&core.settings.plans);
                        let item: WorkflowPlanItem = WorkflowPlanItem {
                            name: core.settings.plans[at].name.clone(),
                            plan: core.settings.plans[at].plan.clone(),
                            last_used_project: copy_text(project),
                        };
                        plans.set(at, item);
                        used = Some(plans);
                    }
                },
                None => {},
            }
            let workflow_mode: bool = core.new_session.workflow_mode;
            core.new_session = NewSessionForm::default();
            core.new_session.workflow_mode = workflow_mode;
            match target {
                OpenTarget::Session(id) => {
                    open_session(core, id.as_str());
                },
                OpenTarget::Workflow(id) => {
                    open_workflow(core, id.as_str());
                },
            }
            used
        },
    }
}

impl AmuxApp {
    /// Chooses the kind of session. What a workflow needs is fetched.
    pub fn set_mode(&mut self, workflow: bool) -> (r: Vec<Fetch>)
        ensures
            r@ == if workflow && old(self).core.client is Some {
                seq![Fetch::Orchestrator, Fetch::Plans]
            } else {
                Seq::empty()
            },
            final(self).core.new_session.suggestions@.len() == 0,
            *final(self) == (AmuxApp {
                core: Core {
                    new_session: NewSessionForm {
                        workflow_mode: workflow,
                        suggestions: final(self).core.new_session.suggestions,
                        ..old(self).core.new_session
                    },
                    ..old(self).core
                },
                workspace_recent_open: false,
                ..*old(self)
            }),
    {
        self.workspace_recent_open = false;
        self.core.new_session.workflow_mode = workflow;
        self.core.new_session.suggestions = Vec::new();
        if workflow && self.core.client.is_some() {
            return refresh_workflow_setup();
        }
        let none: Vec<Fetch> = Vec::new();
        proof {
            assert(none@ =~= Seq::empty());
        }
        none
    }

    /// Takes up a directory that was used lately: what stands in the form afterwards. The project it
    /// was last used for is chosen, and nothing more is suggested.
    pub fn select_recent_workspace(&mut self, target: &RecentWorkspace) -> (r: String)
        ensures
            r@ == target.workspace@,
            without_suggestions(
                Core {
                    new_session: NewSessionForm {
                        project: known_project(
                            old(self).core.settings.projects@,
                            target.last_used_project,
                        ),
                        ..old(self).core.new_session
                    },
                    ..old(self).core
                },
                final(self).core,
            ),
            *final(self) == (AmuxApp {
                core: final(self).core,
                workspace_recent_open: false,
                ..*old(self)
            }),
    {
        self.core.new_session.project = still_there(
            &self.core.settings.projects,
            &target.last_used_project,
        );
        self.dismiss_workspace_popups();
        target.workspace.clone()
    }

    /// Offers the directories that were used lately, where nothing was typed.
    pub fn show_recent_workspaces(&mut self, entered: &str)
        ensures
            !strings::blank(entered@) ==> *final(self) == *old(self),
            strings::blank(entered@) ==> without_suggestions(old(self).core, final(self).core)
                && *final(self) == (AmuxApp {
                core: final(self).core,
                workspace_recent_open: true,
                ..*old(self)
            }),
    {
        if !is_blank(entered) {
            return;
        }
        self.workspace_recent_open = true;
        drop_suggestions(&mut self.core);
    }

    /// Nothing is offered or suggested.
    pub fn dismiss_workspace_popups(&mut self)
        ensures
            without_suggestions(old(self).core, final(self).core),
            *final(self) == (AmuxApp {
                core: final(self).core,
                workspace_recent_open: false,
                ..*old(self)
            }),
    {
        self.workspace_recent_open = false;
        drop_suggestions(&mut self.core);
    }

    /// Something was typed for the directory: what is in the directory that was typed so far is
    /// suggested, as far as it begins with the rest. The directory comes back where its entries are
    /// to be fetched: they are fetched when the directory changes, and not while one types on in it.
    pub fn refresh_workspace_suggestions(&mut self, text: &str) -> (r: Option<DirectoryWanted>)
        ensures
            match (ui::typed_dir(text@), old(self).core.new_session.machine) {
                (Some((dir, prefix)), Some(machine)) => {
                    if lists(old(self).core, machine@, dir) {
                        &&& r is None
                        &&& narrowed(old(self).core, final(self).core, prefix)
                        &&& *final(self) == (AmuxApp { core: final(self).core, ..*old(self) })
                    } else {
                        &&& awaits(old(self).core, final(self).core, machine@, dir, prefix)
                        &&& *final(self) == (AmuxApp {
                            core: final(self).core,
                            workspace_recent_open: false,
                            ..*old(self)
                        })
                        &&& r is Some == (old(self).core.client is Some)
                        &&& r matches Some(wanted) ==> wanted.machine@ == machine@ && wanted.dir@
                            == dir
                    }
                },
                _ => {
                    &&& r is None
                    &&& without_suggestions(old(self).core, final(self).core)
                    &&& *final(self) == (AmuxApp { core: final(self).core, ..*old(self) })
                },
            },
    {
        let machine: Option<String> = copy_text(&self.core.new_session.machine);
        match (split_dir_query(text), machine) {
            (Some((dir, prefix)), Some(machine)) => {
                if is_listed(&self.core, machine.as_str(), dir.as_str()) {
                    narrow(&mut self.core, prefix);
                    return None;
                }
                self.workspace_recent_open = false;
                await_entries(&mut self.core, machine.as_str(), dir.as_str(), prefix);
                if self.core.client.is_none() {
                    return None;
                }
                Some(DirectoryWanted { machine, dir })
            },
            _ => {
                drop_suggestions(&mut self.core);
                None
            },
        }
    }
}

/// The entries of a directory are fetched once: from when they are awaited, typing on in the
/// directory only chooses among those that are at hand.
pub proof fn law_a_directory_is_fetched_once(
    before: Core,
    awaiting: Core,
    after: Core,
    machine: Seq<char>,
    dir: Seq<char>,
    prefix: Seq<char>,
    more: Seq<char>,
)
    requires
        awaits(before, awaiting, machine, dir, prefix),
        narrowed(awaiting, after, more),
    ensures
        lists(awaiting, machine, dir),
        lists(after, machine, dir),
        after.new_session.suggestion == awaiting.new_session.suggestion,
{
}

} // verus!
