//! What is done to entries of the list, to agents and to the connection.
use super::AmuxApp;
use crate::common::api::{Agent, ConfigureSessionRequest, ConfigureWorkflowRequest};
use crate::desktop::client::{Body, Request, Verb};
use crate::desktop::config::Connection;
use crate::desktop::dialog::{confirm, Question};
use crate::desktop::poll;
use crate::desktop::state;
use crate::desktop::state::{Core, ListEntry, NoteLevel, OpenTarget};
use crate::strings;
use crate::strings::{is_blank, same, trim};
use vstd::prelude::*;

verus! {

/// The question before an entry is deleted.
pub fn confirm_delete(entry: &ListEntry) -> (r: Question)
    ensures
        r.title@ == if entry is Workflow {
            "删除工作流会话"@
        } else {
            "删除会话"@
        },
        r.description@ == "「"@ + (if strings::blank(entry.titled()) {
            "未命名会话"@
        } else {
            entry.titled()
        }) + (if entry is Workflow {
            "」将被删除，其关联的普通会话也会一并删除，此操作不可撤销。"@
        } else {
            "」将被删除，会话记录与其 worktree 会被清理，此操作不可撤销。"@
        }),
        r.ok_text@ == "删除"@,
        r.danger,
{
    let title: String = entry.title();
    let label: String = if is_blank(title.as_str()) {
        "未命名会话".to_owned()
    } else {
        title
    };
    match entry {
        ListEntry::Workflow(_) => confirm(
            "删除工作流会话",
            "「",
            label.as_str(),
            "」将被删除，其关联的普通会话也会一并删除，此操作不可撤销。",
            "删除",
            true,
        ),
        ListEntry::Session(_) => confirm(
            "删除会话",
            "「",
            label.as_str(),
            "」将被删除，会话记录与其 worktree 会被清理，此操作不可撤销。",
            "删除",
            true,
        ),
    }
}

/// The request that deletes an entry, where there is a server.
pub fn delete_entry(core: &Core, entry: &ListEntry) -> (r: Option<Request>)
    ensures
        r is Some == (core.client is Some),
        r matches Some(request) ==> request.verb is Delete && request.body is Nothing
            && request.path@ == match entry {
            ListEntry::Session(session) => "/sessions/"@ + session.id@,
            ListEntry::Workflow(workflow) => "/workflows/"@ + workflow.id@,
        },
{
    match &core.client {
        Some(client) => Some(poll::delete(client, entry)),
        None => None,
    }
}

/// The open session has an identity.
pub open spec fn is_open_id(core: Core, id: Seq<char>) -> bool {
    core.open matches Some(target) && target.key() == id
}

/// An entry was deleted: where it was open, nothing is, and the list is due.
pub fn entry_deleted(core: &mut Core, id: &str, result: Result<(), String>)
    ensures
        match result {
            Ok(_) => final(core).noted(
                Core {
                    open: if is_open_id(*old(core), id@) {
                        None
                    } else {
                        old(core).open
                    },
                    side_panel: if is_open_id(*old(core), id@) {
                        None
                    } else {
                        old(core).side_panel
                    },
                    last: state::Ticks { list: None, ..old(core).last },
                    ..*old(core)
                },
                "已删除"@,
                NoteLevel::Success,
            ),
            Err(error) => final(core).noted(*old(core), "删除失败："@ + error@, NoteLevel::Error),
        },
{
    match result {
        Ok(_) => {
            let open: bool = match &core.open {
                Some(OpenTarget::Session(open)) => same(open.as_str(), id),
                Some(OpenTarget::Workflow(open)) => same(open.as_str(), id),
                None => false,
            };
            if open {
                core.open = None;
                core.side_panel = None;
            }
            core.last.list = None;
            core.success("已删除".to_owned());
        },
        Err(error) => {
            core.failed("删除失败：", error.as_str());
        },
    }
}

/// The path under which a session or a workflow is configured.
pub open spec fn configure_path(target: OpenTarget) -> Seq<char> {
    match target {
        OpenTarget::Session(id) => "/sessions/"@ + id@ + "/configure"@,
        OpenTarget::Workflow(id) => "/workflows/"@ + id@ + "/configure"@,
    }
}

/// What a request carries that changes the title or the project of an entry, and nothing else.
pub open spec fn change_of(
    target: OpenTarget,
    title: Option<String>,
    project: Option<Option<String>>,
) -> Body {
    match target {
        OpenTarget::Session(_) => Body::ConfigureSession(
            ConfigureSessionRequest { title, config: None, project },
        ),
        OpenTarget::Workflow(_) => Body::ConfigureWorkflow(
            ConfigureWorkflowRequest { title, project },
        ),
    }
}

fn configure(
    core: &Core,
    target: &OpenTarget,
    title: Option<String>,
    project: Option<Option<String>>,
) -> (r: Option<Request>)
    ensures
        r is Some == (core.client is Some),
        r matches Some(request) ==> request.verb == Verb::Post && request.path@ == configure_path(
            *target,
        ) && request.body == change_of(*target, title, project),
{
    match &core.client {
        Some(client) => match target {
            OpenTarget::Session(id) => Some(
                client.configure_session(id.as_str(), title, None, project),
            ),
            OpenTarget::Workflow(id) => Some(
                client.configure_workflow(id.as_str(), title, project),
            ),
        },
        None => None,
    }
}

/// The request that changes the title of an entry, where there is a server.
pub fn configure_title(core: &Core, target: &OpenTarget, title: String) -> (r: Option<Request>)
    ensures
        r is Some == (core.client is Some),
        r matches Some(request) ==> request.verb == Verb::Post && request.path@ == configure_path(
            *target,
        ) && request.body == change_of(*target, Some(title), None),
{
    configure(core, target, Some(title), None)
}

/// The request that puts an entry in a project, or in none, where there is a server.
pub fn configure_project(core: &Core, target: &OpenTarget, project: Option<String>) -> (r: Option<
    Request,
>)
    ensures
        r is Some == (core.client is Some),
        r matches Some(request) ==> request.verb == Verb::Post && request.path@ == configure_path(
            *target,
        ) && request.body == change_of(*target, None, Some(project)),
{
    configure(core, target, None, Some(project))
}

/// The list is due, or it is said why something failed.
pub open spec fn list_due_or(before: Core, after: Core, result: Result<(), String>, what: Seq<char>) -> bool {
    match result {
        Ok(_) => after == (Core { last: state::Ticks { list: None, ..before.last }, ..before }),
        Err(error) => after.noted(before, what + error@, NoteLevel::Error),
    }
}

/// The title of an entry was changed.
pub fn rename(core: &mut Core, result: Result<(), String>)
    ensures
        list_due_or(*old(core), *final(core), result, "重命名失败："@),
{
    match result {
        Ok(_) => {
            core.last.list = None;
        },
        Err(error) => {
            core.failed("重命名失败：", error.as_str());
        },
    }
}

/// The project of an entry was changed.
pub fn set_entry_project(core: &mut Core, result: Result<(), String>)
    ensures
        list_due_or(*old(core), *final(core), result, "设置所属项目失败："@),
{
    match result {
        Ok(_) => {
            core.last.list = None;
        },
        Err(error) => {
            core.failed("设置所属项目失败：", error.as_str());
        },
    }
}

/// The request that has a machine look for its agents again, where there is a server.
pub fn rediscover(core: &Core, machine: &str) -> (r: Option<Request>)
    ensures
        r is Some == (core.client is Some),
        r matches Some(request) ==> request.verb == Verb::Post && request.body is Empty
            && request.path@ == "/machines/"@
            + machine@ + "/agents/rediscover"@,
{
    match &core.client {
        Some(client) => Some(client.rediscover(machine)),
        None => None,
    }
}

/// The agents of the machines but one.
pub open spec fn of_others(agents: Seq<(String, Vec<Agent>)>, machine: Seq<char>) -> Seq<
    (String, Vec<Agent>),
> {
    agents.filter(|e: (String, Vec<Agent>)| e.0@ != machine)
}

/// A machine looked for its agents: they stand behind those of the others.
pub fn rediscovered(core: &mut Core, machine: String, result: Result<Vec<Agent>, String>)
    ensures
        match result {
            Ok(agents) => final(core).settings.agents@ == of_others(
                old(core).settings.agents@,
                machine@,
            ).push((machine, agents)) && *final(core) == (Core {
                settings: state::SettingsData {
                    agents: final(core).settings.agents,
                    ..old(core).settings
                },
                ..*old(core)
            }),
            Err(error) => final(core).noted(
                *old(core),
                "重新发现失败："@ + error@,
                NoteLevel::Error,
            ),
        },
{
    match result {
        Ok(agents) => {
            let mut all: Vec<(String, Vec<Agent>)> = Vec::new();
            std::mem::swap(&mut all, &mut core.settings.agents);
            let ghost given = all@;
            let ghost other = |e: (String, Vec<Agent>)| e.0@ != machine@;
            let mut out: Vec<(String, Vec<Agent>)> = Vec::new();
            proof {
                assert(given.take(0).filter(other) =~= Seq::empty()) by {
                    reveal(Seq::filter);
                }
            }
            for entry in it: all
                invariant
                    it.seq() == given,
                    other == (|e: (String, Vec<Agent>)| e.0@ != machine@),
                    out@ == given.take(it.index() as int).filter(other),
            {
                proof {
                    reveal(Seq::filter);
                    let n = it.index() as int;
                    assert(given.take(n + 1).drop_last() =~= given.take(n));
                    assert(given.take(n + 1).last() == entry);
                }
                if !same(entry.0.as_str(), machine.as_str()) {
                    out.push(entry);
                }
            }
            proof {
                assert(given.take(given.len() as int) =~= given);
            }
            out.push((machine, agents));
            core.settings.agents = out;
        },
        Err(error) => {
            core.failed("重新发现失败：", error.as_str());
        },
    }
}

/// The request that starts an agent again, where there is a server.
pub fn restart_agent(core: &Core, machine: &str, agent: &str) -> (r: Option<Request>)
    ensures
        r is Some == (core.client is Some),
        r matches Some(request) ==> request.verb == Verb::Post && request.body is Empty
            && request.path@ == "/machines/"@
            + machine@ + "/agents/"@ + agent@ + "/restart"@,
{
    match &core.client {
        Some(client) => Some(client.restart_agent(machine, agent)),
        None => None,
    }
}

/// An agent was started again.
pub fn agent_restarted(core: &mut Core, machine: &str, agent: &str, result: Result<(), String>)
    ensures
        match result {
            Ok(_) => final(core).noted(
                *old(core),
                "已重启 "@ + agent@ + "@"@ + machine@,
                NoteLevel::Success,
            ),
            Err(error) => final(core).noted(*old(core), "重启失败："@ + error@, NoteLevel::Error),
        },
{
    match result {
        Ok(_) => {
            let mut message: String = "已重启 ".to_owned();
            message.append(agent);
            message.append("@");
            message.append(machine);
            core.success(message);
        },
        Err(error) => {
            core.failed("重启失败：", error.as_str());
        },
    }
}

/// The connection that was entered.
pub fn entered_connection(server: &str, token: &str) -> (r: Connection)
    ensures
        r.server@ == strings::trim_of(server@),
        r.token@ == strings::trim_of(token@),
{
    Connection { server: trim(server), token: trim(token) }
}

impl AmuxApp {
    /// A connection is taken up: it is tried at once.
    pub open spec fn reconnects(self, before: AmuxApp, connection: Connection) -> bool {
        &&& self.core.connects(connection)
        &&& self.core == (Core {
            connection: self.core.connection,
            client: self.core.client,
            status: self.core.status,
            last: state::Ticks { list: None, ..before.core.last },
            ..before.core
        })
        &&& self == (AmuxApp { core: self.core, settings_dirty: false, ..before })
    }

    fn take_connection(&mut self, connection: Connection)
        ensures
            final(self).reconnects(*old(self), connection),
    {
        self.core.apply_connection(connection);
        self.core.last.list = None;
        self.settings_dirty = false;
    }

    /// The connection was written to disk from the settings.
    pub fn save_connection(&mut self, connection: Connection, result: Result<(), String>)
        ensures
            match result {
                Ok(_) => {
                    let taken = AmuxApp {
                        core: Core { notes: old(self).core.notes, ..final(self).core },
                        ..*final(self)
                    };
                    taken.reconnects(*old(self), connection) && final(self).core.noted(
                        taken.core,
                        "连接设置已保存"@,
                        NoteLevel::Success,
                    )
                },
                Err(error) => final(self).core.noted(
                    old(self).core,
                    "保存失败："@ + error@,
                    NoteLevel::Error,
                ) && *final(self) == (AmuxApp { core: final(self).core, ..*old(self) }),
            },
    {
        match result {
            Ok(_) => {
                self.take_connection(connection);
                self.core.success("连接设置已保存".to_owned());
            },
            Err(error) => {
                self.core.failed("保存失败：", error.as_str());
            },
        }
    }

    /// The connection was written to disk from the page on which one connects.
    pub fn login(&mut self, connection: Connection, result: Result<(), String>)
        ensures
            match result {
                Ok(_) => final(self).reconnects(*old(self), connection),
                Err(error) => final(self).core.noted(
                    old(self).core,
                    "保存失败："@ + error@,
                    NoteLevel::Error,
                ) && *final(self) == (AmuxApp { core: final(self).core, ..*old(self) }),
            },
    {
        match result {
            Ok(_) => {
                self.take_connection(connection);
            },
            Err(error) => {
                self.core.failed("保存失败：", error.as_str());
            },
        }
    }

    /// The address or the token was changed.
    pub fn connection_edited(&mut self)
        ensures
            *final(self) == (AmuxApp { settings_dirty: true, ..*old(self) }),
    {
        self.settings_dirty = true;
    }
}

} // verus!
