//! What holds of the state of the client as a whole.
use super::tree::{NodeChange, WorkspaceNode};
use super::{
    Core, ListEntry, NewSessionForm, NoteLevel, OpenTarget, OpenView, SettingsTab, SidePanel, ViewKey,
};
use crate::common::api::Session;
use crate::desktop::config::Connection;
use crate::desktop::state;
use crate::desktop::state::tree;
use crate::strings;
use vstd::prelude::*;

verus! {

/// An entry of the list is known by the id, the title and the time of what it stands for.
pub proof fn law_entries_stand_for_sessions_and_workflows(entry: ListEntry)
    ensures
        entry matches ListEntry::Session(session) ==> entry.key() == session.id@ && entry.titled()
            == session.title@ && entry.changed() == session.updated_at,
        entry matches ListEntry::Workflow(workflow) ==> entry.key() == workflow.id@ && entry.titled()
            == workflow.title@ && entry.changed() == workflow.updated_at,
{
}

/// Entries with the same contents stand for the same: two sessions where they are equal, two workflows
/// with the same id, title and time, and never a session and a workflow.
pub proof fn law_same_entries_stand_for_the_same(a: ListEntry, b: ListEntry)
    ensures
        a is Session && b is Session ==> (a.same_as(b) <==> a->Session_0 == b->Session_0),
        a is Workflow && b is Workflow ==> (a.same_as(b) <==> a->Workflow_0.same_as(b->Workflow_0)),
        a.same_as(b) ==> (a is Session <==> b is Session),
        a.same_as(b) ==> a.key() == b.key() && a.titled() == b.titled() && a.changed() == b.changed(),
{
}

/// A session and a workflow of the same id are not the same; to be the same is an equality.
pub proof fn law_targets_are_told_apart(a: OpenTarget, b: OpenTarget, c: OpenTarget)
    ensures
        a.same_as(a),
        a.same_as(b) ==> b.same_as(a),
        a.same_as(b) && b.same_as(c) ==> a.same_as(c),
        a.same_as(b) ==> a.key() == b.key() && (a is Session <==> b is Session),
        a.key() == b.key() && (a is Session <==> b is Session) ==> a.same_as(b),
        a matches OpenTarget::Session(id) ==> a.key() == id@,
        a matches OpenTarget::Workflow(id) ==> a.key() == id@,
{
}

/// Views are the same where they show the same: the same settings, the same session, or a new one.
pub proof fn law_views_are_told_apart(a: ViewKey, b: ViewKey)
    ensures
        a.same_as(b) <==> (a is NewSession && b is NewSession) || (a is Settings && b is Settings
            && a->Settings_0 == b->Settings_0) || (a is Interaction && b is Interaction
            && a->Interaction_0.same_as(b->Interaction_0)),
{
}

/// A workflow has its details and its activities beside it, a session all panels; each panel is there
/// once.
pub proof fn law_panels_of_sessions_and_workflows(panel: SidePanel, i: int, j: int)
    ensures
        panel.fits(false),
        panel.fits(true) <==> panel == SidePanel::Detail || panel == SidePanel::Activities,
        state::panels().contains(panel),
        0 <= i < j < state::panels().len() ==> state::panels()[i] != state::panels()[j],
{
    let all = state::panels();
    match panel {
        SidePanel::Workspace => assert(all[0] == panel),
        SidePanel::Diff => assert(all[1] == panel),
        SidePanel::Detail => assert(all[2] == panel),
        SidePanel::Activities => assert(all[3] == panel),
        SidePanel::Plan => assert(all[4] == panel),
        SidePanel::Terminal => assert(all[5] == panel),
    }
}

/// A session that was just opened shows nothing of another one.
pub proof fn law_opened_views_are_empty(view: OpenView)
    requires
        view.is_new(),
    ensures
        view.session is None && view.workflow is None,
        view.detail.history@.len() == 0 && view.detail.activities@.len() == 0
            && view.detail.plan@.len() == 0,
        view.detail.config_options@.len() == 0 && view.detail.slash_commands@.len() == 0,
        view.detail.ongoing is None && view.detail.context_size == 0
            && view.detail.context_window_size == 0,
        view.detail.diff is None && view.detail.terminals@.len() == 0
            && view.detail.active_terminal is None,
        view.detail.terminal_output.output().len() == 0,
        view.detail.workspace_tree@.len() == 0 && view.detail.file_content is None,
        view.detail.history_paging.page_size == 20 && !view.detail.history_paging.has_older
            && !view.detail.history_paging.loading_older && view.detail.history_paging.shift is None,
        view.detail.activities_paging == view.detail.history_paging,
{
}

/// A form that was just emptied asks for nothing, and in a new one a session is asked for.
pub proof fn law_empty_forms_ask_for_nothing(form: NewSessionForm)
    ensures
        form.is_blank() <==> form.machine is None && form.agent is None && !form.use_worktree
            && form.project is None && form.suggestions@.len() == 0 && form.suggestion is None
            && form.suggestion_prefix@.len() == 0,
        form.is_new() <==> form.is_blank() && !form.workflow_mode,
{
}

/// A client that was just started holds nothing and shows the form of a new session, and all is due.
pub proof fn law_new_clients_hold_nothing(core: Core, interval: u64, now: u64)
    requires
        core.is_new(),
    ensures
        core.entries@.len() == 0 && core.recent_workspaces@.len() == 0 && core.open is None,
        core.view.is_new() && core.new_session.is_new() && core.settings.is_new(),
        core.settings.machines@.len() == 0 && core.settings.agents@.len() == 0
            && core.settings.skills@.len() == 0 && core.settings.plans@.len() == 0
            && core.settings.quick_commands@.len() == 0 && core.settings.orchestrator is None
            && !core.settings.orchestrator_loaded && core.settings.projects@.len() == 0,
        !core.settings_open && core.settings_tab == SettingsTab::Connection,
        core.shown() is NewSession && core.loaded_view is None,
        core.notes@.len() == 0 && core.alerts@.len() == 0,
        core.list_loaded == 20 && core.side_panel is None,
        core.expanded_workflows.names().len() == 0 && core.project_groups.names().len() == 0
            && core.collapsed_project_groups.names().len() == 0,
        core.list_paging.page_size == 20 && !core.list_paging.has_older
            && !core.list_paging.loading_older && core.list_paging.shift is None,
        state::due_at(core.last.list, interval, now),
        state::due_at(core.last.history, interval, now),
        state::due_at(core.last.ongoing, interval, now),
        state::due_at(core.last.activities, interval, now),
        state::due_at(core.last.plan, interval, now),
        state::due_at(core.last.options, interval, now),
        state::due_at(core.last.terminal, interval, now),
        core.last.terminal_cursor == 0,
{
}

/// What was never refreshed is due; what was is due once its interval is over.
pub proof fn law_views_fall_due(at: u64, interval: u64, now: u64)
    requires
        interval > 0,
    ensures
        state::due_at(None, interval, now),
        state::due_at(Some(at), interval, now) <==> at + interval <= now,
{
}

/// The next number is the one behind, and the first again after the last.
pub proof fn law_numbers_go_round(n: u64)
    ensures
        n < u64::MAX ==> state::after(n) == n + 1,
        n == u64::MAX ==> state::after(n) == 0,
{
}

/// The settings are shown where they are open, else what is open, else the form of a new session.
pub proof fn law_what_is_shown(core: Core)
    ensures
        core.shown() is Settings <==> core.settings_open,
        core.settings_open ==> core.shown() == ViewKey::Settings(core.settings_tab),
        core.shown() is Interaction <==> !core.settings_open && core.open is Some,
        !core.settings_open && core.open is Some ==> core.shown() == ViewKey::Interaction(
            core.open->0,
        ),
        core.shown() is NewSession <==> !core.settings_open && core.open is None,
        core.on_workflow() <==> core.open is Some && core.open->0 is Workflow,
{
}

/// A client is made for a connection if and only if its address and its token are given, and then for
/// these.
pub proof fn law_connections_need_address_and_token(core: Core, connection: Connection)
    requires
        core.connects(connection),
    ensures
        core.connection == connection,
        core.client is Some <==> !strings::blank(connection.server@) && !strings::blank(
            connection.token@,
        ),
        core.client is Some ==> core.status is Connecting && core.client->0.address()
            == connection.base() && core.client->0.secret() == connection.token@,
        core.client is None ==> core.status is Unconfigured,
{
}

proof fn lemma_trim_slashes(s: Seq<char>) -> (n: int)
    ensures
        0 <= n <= s.len(),
        strings::trim_end_char(s, '/') == s.take(n),
        n > 0 ==> s[n - 1] != '/',
        forall|i: int| n <= i < s.len() ==> #[trigger] s[i] == '/',
    decreases s.len(),
{
    if s.len() > 0 && s.last() == '/' {
        let less = s.drop_last();
        let n = lemma_trim_slashes(less);
        assert(less.take(n) =~= s.take(n));
        assert forall|i: int| n <= i < s.len() implies #[trigger] s[i] == '/' by {
            if i < less.len() {
                assert(less[i] == s[i]);
            }
        }
        n
    } else {
        assert(s.take(s.len() as int) =~= s);
        s.len() as int
    }
}

/// The address of a server is what was entered without white space around it and without the slashes
/// at its end.
pub proof fn law_addresses_end_without_a_slash(connection: Connection)
    ensures
        connection.base().is_prefix_of(strings::trim_of(connection.server@)),
        connection.base().len() > 0 ==> connection.base().last() != '/',
        forall|i: int|
            connection.base().len() <= i < strings::trim_of(connection.server@).len()
                ==> #[trigger] strings::trim_of(connection.server@)[i] == '/',
{
    let s = strings::trim_of(connection.server@);
    let n = lemma_trim_slashes(s);
    assert(s.take(n) =~= s.subrange(0, n));
}

/// A message is put behind those that wait, with its level, and nothing else changes.
pub proof fn law_notes_wait_in_order(before: Core, after: Core, message: Seq<char>, level: NoteLevel)
    requires
        after.noted(before, message, level),
    ensures
        after.notes@.len() == before.notes@.len() + 1,
        forall|i: int|
            0 <= i < before.notes@.len() ==> #[trigger] after.notes@[i] == before.notes@[i],
        after.notes@.last().message@ == message,
        after.notes@.last().level == level,
        after == (Core { notes: after.notes, ..before }),
{
    assert forall|i: int| 0 <= i < before.notes@.len() implies #[trigger] after.notes@[i]
        == before.notes@[i] by {
        assert(after.notes@.drop_last()[i] == after.notes@[i]);
    }
}

proof fn lemma_first_entry(entries: Seq<ListEntry>, id: Seq<char>)
    ensures
        match state::first_entry(entries, id) {
            Some(entry) => entries.contains(entry) && entry.key() == id,
            None => forall|k: int| 0 <= k < entries.len() ==> (#[trigger] entries[k]).key() != id,
        },
    decreases entries.len(),
{
    if entries.len() > 0 {
        let rest = entries.skip(1);
        lemma_first_entry(rest, id);
        if entries[0].key() != id {
            match state::first_entry(rest, id) {
                Some(entry) => {
                    let k = rest.index_of(entry);
                    assert(entries[k + 1] == entry);
                },
                None => {
                    assert forall|k: int| 0 <= k < entries.len() implies (
                    #[trigger] entries[k]).key() != id by {
                        if k > 0 {
                            assert(rest[k - 1] == entries[k]);
                        }
                    }
                },
            }
        }
    }
}

proof fn lemma_first_session(sessions: Seq<Session>, id: Seq<char>)
    ensures
        match state::first_session(sessions, id) {
            Some(session) => sessions.contains(session) && session.id@ == id,
            None => forall|k: int| 0 <= k < sessions.len() ==> (#[trigger] sessions[k]).id@ != id,
        },
    decreases sessions.len(),
{
    if sessions.len() > 0 {
        let rest = sessions.skip(1);
        lemma_first_session(rest, id);
        if sessions[0].id@ != id {
            match state::first_session(rest, id) {
                Some(session) => {
                    let k = rest.index_of(session);
                    assert(sessions[k + 1] == session);
                },
                None => {
                    assert forall|k: int| 0 <= k < sessions.len() implies (
                    #[trigger] sessions[k]).id@ != id by {
                        if k > 0 {
                            assert(rest[k - 1] == sessions[k]);
                        }
                    }
                },
            }
        }
    }
}

proof fn lemma_first_linked(entries: Seq<ListEntry>, id: Seq<char>)
    ensures
        match state::first_linked(entries, id) {
            Some(session) => session.id@ == id && exists|k: int|
                0 <= k < entries.len() && (#[trigger] entries[k] matches ListEntry::Workflow(
                    workflow,
                ) && workflow.linked_sessions@.contains(session)),
            None => forall|k: int|
                0 <= k < entries.len() ==> (#[trigger] entries[k] matches ListEntry::Workflow(
                    workflow,
                ) ==> state::first_session(workflow.linked_sessions@, id) is None),
        },
    decreases entries.len(),
{
    if entries.len() > 0 {
        let rest = entries.skip(1);
        lemma_first_linked(rest, id);
        if let ListEntry::Workflow(workflow) = entries[0] {
            lemma_first_session(workflow.linked_sessions@, id);
        }
        match state::first_linked(entries, id) {
            Some(session) => {
                if entries[0] matches ListEntry::Workflow(workflow) && state::first_session(
                    workflow.linked_sessions@,
                    id,
                ) is Some {
                    assert(entries[0] is Workflow);
                } else {
                    let k = choose|k: int|
                        0 <= k < rest.len() && (#[trigger] rest[k] matches ListEntry::Workflow(
                            workflow,
                        ) && workflow.linked_sessions@.contains(session));
                    assert(entries[k + 1] == rest[k]);
                }
            },
            None => {
                assert forall|k: int| 0 <= k < entries.len() implies (
                #[trigger] entries[k] matches ListEntry::Workflow(workflow)
                    ==> state::first_session(workflow.linked_sessions@, id) is None) by {
                    if k > 0 {
                        assert(rest[k - 1] == entries[k]);
                    }
                }
            },
        }
    }
}

/// An entry is found by its id where the list has it, and else among the sessions that workflows of
/// the list made. Where neither has it none is found.
pub proof fn law_entries_are_found_by_their_ids(entries: Seq<ListEntry>, id: Seq<char>)
    ensures
        state::entry_of(entries, id) matches Some(entry) ==> entry.key() == id,
        (exists|k: int| 0 <= k < entries.len() && (#[trigger] entries[k]).key() == id) ==> (
        state::entry_of(entries, id) matches Some(entry) && entries.contains(entry)),
        (forall|k: int| 0 <= k < entries.len() ==> (#[trigger] entries[k]).key() != id) ==> match
            state::entry_of(entries, id) {
            Some(entry) => entry matches ListEntry::Session(session) && exists|k: int|
                0 <= k < entries.len() && (#[trigger] entries[k] matches ListEntry::Workflow(
                    workflow,
                ) && workflow.linked_sessions@.contains(session)),
            None => forall|k: int, n: int|
                0 <= k < entries.len() && entries[k] is Workflow && 0 <= n
                    < entries[k]->Workflow_0.linked_sessions@.len() ==> (
                #[trigger] entries[k]->Workflow_0.linked_sessions@[n]).id@ != id,
        },
{
    lemma_first_entry(entries, id);
    lemma_first_linked(entries, id);
    if state::entry_of(entries, id) is None {
        assert forall|k: int, n: int|
            0 <= k < entries.len() && entries[k] is Workflow && 0 <= n
                < entries[k]->Workflow_0.linked_sessions@.len() implies (
        #[trigger] entries[k]->Workflow_0.linked_sessions@[n]).id@ != id by {
            assert(entries[k] matches ListEntry::Workflow(workflow));
            lemma_first_session(entries[k]->Workflow_0.linked_sessions@, id);
        }
    }
}

/// A directory that is opened keeps what is known of it; one that is closed forgets it, and is
/// listed again when it is opened again. Its own entry stays.
pub proof fn law_directories_are_opened_and_closed(
    a: WorkspaceNode,
    b: WorkspaceNode,
    c: WorkspaceNode,
)
    requires
        tree::changed(a, b, NodeChange::Toggle),
        tree::changed(b, c, NodeChange::Toggle),
    ensures
        b.expanded != a.expanded,
        c.expanded == a.expanded,
        b.entry == a.entry && c.entry == a.entry,
        !a.expanded ==> b.children == a.children,
        a.expanded ==> b.children is None,
        c.children is None,
{
}

/// A directory that was listed has its entries below it, each closed and not listed yet, in their
/// order; whether it is open stays.
pub proof fn law_listed_directories_hold_their_entries(
    before: WorkspaceNode,
    after: WorkspaceNode,
    entries: Vec<crate::common::domain::FsEntry>,
    i: int,
)
    requires
        tree::changed(before, after, NodeChange::Fill(entries)),
        0 <= i < entries@.len(),
    ensures
        after.entry == before.entry && after.expanded == before.expanded,
        after.children matches Some(nodes) && nodes@.len() == entries@.len() && nodes@[i].entry
            == entries@[i] && !nodes@[i].expanded && nodes@[i].children is None,
{
    assert(after.children->0@[i].entry == entries@[i]);
}

/// A tree holds a path where one of its nodes has it, at whatever depth.
pub proof fn law_trees_are_searched_at_every_depth(
    nodes: Seq<WorkspaceNode>,
    path: Seq<char>,
    i: int,
)
    requires
        0 <= i < nodes.len(),
    ensures
        nodes[i].entry.path@ == path ==> tree::holds(nodes, path),
        nodes[i].children is Some && tree::holds(nodes[i].children->0@, path) ==> tree::holds(
            nodes,
            path,
        ),
        !tree::holds(Seq::empty(), path),
        tree::leads_to(nodes[i], path) ==> tree::holds(nodes, path),
{
}

/// Where a node of the tree is exchanged the first that has its path is, at whatever depth; nodes that
/// do not lead there stay as they are.
pub proof fn law_one_node_of_the_tree_is_exchanged(
    before: Seq<WorkspaceNode>,
    after: Seq<WorkspaceNode>,
    path: Seq<char>,
    was: WorkspaceNode,
    now: WorkspaceNode,
    j: int,
)
    requires
        tree::exchanged(before, after, path, was, now),
        0 <= j < before.len(),
    ensures
        after.len() == before.len(),
        tree::holds(before, path),
        !tree::leads_to(before[j], path) ==> after[j] == before[j],
        before[j].entry.path@ == path && (forall|i: int| 0 <= i < j ==> !tree::leads_to(
            #[trigger] before[i],
            path,
        )) ==> before[j] == was && after[j] == now,
{
    let i = choose|i: int|
        {
            &&& 0 <= i < before.len()
            &&& tree::leads_to(#[trigger] before[i], path)
            &&& forall|j: int| 0 <= j < i ==> !tree::leads_to(#[trigger] before[j], path)
            &&& forall|j: int| 0 <= j < before.len() && j != i ==> #[trigger] after[j] == before[j]
            &&& if before[i].entry.path@ == path {
                before[i] == was && after[i] == now
            } else {
                &&& after[i].entry == before[i].entry
                &&& after[i].expanded == before[i].expanded
                &&& before[i].children is Some
                &&& after[i].children is Some
                &&& tree::exchanged(
                    before[i].children->0@,
                    after[i].children->0@,
                    path,
                    was,
                    now,
                )
            }
        };
    if before[j].entry.path@ == path {
        assert(tree::leads_to(before[j], path));
    }
}

} // verus!
