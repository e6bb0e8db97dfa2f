//! What holds of the client as its user works with it.
use super::forms::{Named, OrchestratorFields, SettingsList};
use super::{AmuxApp, PanelNeeds};
use crate::common::api::{Agent, ApiFormat, ConfigText, Project, QuickCommand, WorkflowPlanItem};
use crate::common::domain::{GitDiffHunk, GitDiffLineKind};
use crate::desktop::app;
use crate::desktop::app::browse;
use crate::desktop::app::creation;
use crate::desktop::app::entries;
use crate::desktop::app::forms;
use crate::desktop::app::review;
use crate::desktop::client::{Body, Request, Verb};
use crate::desktop::config::Connection;
use crate::desktop::dialog::{Form, FormTarget};
use crate::desktop::diff::LineSelection;
use crate::desktop::poll;
use crate::desktop::state;
use crate::desktop::state::tree;
use crate::desktop::state::tree::WorkspaceNode;
use crate::desktop::state::{Core, NoteLevel, OpenTarget, Paging, SessionView, SidePanel};
use crate::percent;
use crate::strings;
use vstd::prelude::*;
use vstd::utf8::encode_utf8;

verus! {

/// A view fetches what it shows: without a client nothing, the settings what their page shows, a
/// session what one talks with, and the form of a new session what can be chosen in it.
pub proof fn law_views_fetch_what_they_show(core: Core)
    ensures
        core.client is None ==> app::needs(core).len() == 0,
        core.client is Some && core.settings_open ==> app::needs(core) == poll::settings_needs(
            core.settings_tab,
        ),
        core.client is Some && !core.settings_open && core.open is Some ==> app::needs(core).len()
            == 5 && app::needs(core)[0] is Machines && app::needs(core)[1] is Orchestrator
            && app::needs(core)[2] is QuickCommands && app::needs(core)[3] is SessionControls
            && app::needs(core)[4] is Terminals,
        core.client is Some && !core.settings_open && core.open is None ==> app::needs(core).len()
            >= 3 && app::needs(core)[0] is Machines && app::needs(core)[1] is RecentWorkspaces
            && app::needs(core)[2] is Projects && (if core.new_session.workflow_mode {
            app::needs(core).len() == 5 && app::needs(core)[3] is Orchestrator
                && app::needs(core)[4] is Plans
        } else {
            app::needs(core).len() == 3
        }),
{
}

/// Older items are asked for where the view comes within a page of their end of the list: the top of
/// a conversation, the bottom of a list.
pub proof fn law_older_items_are_asked_for_in_time(
    loaded: usize,
    older_at_top: bool,
    top: usize,
    bottom: usize,
    page_size: usize,
)
    ensures
        ({
            let near = app::near_older_end(loaded, older_at_top, top, bottom, page_size);
            &&& near ==> loaded > 0
            &&& loaded > 0 && older_at_top ==> (near <==> top <= page_size)
            &&& loaded > 0 && !older_at_top ==> (near <==> loaded - bottom <= page_size)
        }),
{
}

/// How far older items moved the others is told once, when they have been loaded. Following a list
/// sets its page size and forgets that, and nothing else.
pub proof fn law_moved_lists_are_told_once(paging: Paging, page_size: usize)
    ensures
        !paging.loading_older ==> app::moved_by(paging) == paging.shift && app::moved_by(
            app::followed(paging, page_size),
        ) is None,
        paging.loading_older ==> app::moved_by(paging) is None && app::followed(
            paging,
            page_size,
        ).shift == paging.shift,
        app::followed(paging, page_size).page_size == page_size,
        app::followed(paging, page_size).has_older == paging.has_older,
        app::followed(paging, page_size).loading_older == paging.loading_older,
{
}

/// The conversation and the activities are followed while they are shown, once they have been shown
/// from their end.
pub proof fn law_lists_are_followed_while_they_are_shown(app: AmuxApp)
    ensures
        app.follows_dialog() <==> app.core.client is Some && app.core.open is Some
            && !app.dialog_scroll_on_entry,
        app.follows_activities() <==> app.core.client is Some && app.core.open is Some
            && app.core.side_panel == Some(SidePanel::Activities) && !app.activities_scroll_on_entry,
{
}

/// A panel that is opened is the one that is shown, and what it shows is due at once.
pub proof fn law_opened_panels_are_refreshed(app: AmuxApp, panel: SidePanel)
    ensures
        ({
            let after = app::with_panel(app, panel);
            &&& after.core.side_panel == Some(panel)
            &&& panel == SidePanel::Activities ==> after.core.last.activities is None
                && after.activities_scroll_on_entry
            &&& panel == SidePanel::Plan ==> after.core.last.plan is None
            &&& panel != SidePanel::Activities ==> after.core.last.activities
                == app.core.last.activities && after.activities_scroll_on_entry
                == app.activities_scroll_on_entry
            &&& panel != SidePanel::Plan ==> after.core.last.plan == app.core.last.plan
            &&& after.core.last.history == app.core.last.history && after.core.last.list
                == app.core.last.list && after.core.last.ongoing == app.core.last.ongoing
                && after.core.last.options == app.core.last.options
            &&& after.core == (Core {
                side_panel: after.core.side_panel,
                last: after.core.last,
                ..app.core
            })
            &&& app::needs_of(panel) == match panel {
                SidePanel::Workspace => PanelNeeds::Workspace,
                SidePanel::Terminal => PanelNeeds::Terminals,
                SidePanel::Diff => PanelNeeds::Changes,
                SidePanel::Detail => PanelNeeds::Context,
                _ => PanelNeeds::Nothing,
            }
        }),
{
}

/// What a session or a workflow is called and which project it is for is changed where it is, and
/// only what is to change is said.
pub proof fn law_changes_speak_to_their_session(
    id: String,
    title: Option<String>,
    project: Option<Option<String>>,
)
    ensures
        entries::configure_path(OpenTarget::Session(id)) == "/sessions/"@ + id@ + "/configure"@,
        entries::configure_path(OpenTarget::Workflow(id)) == "/workflows/"@ + id@ + "/configure"@,
        entries::change_of(OpenTarget::Session(id), title, project) matches Body::ConfigureSession(
            change,
        ) && change.title == title && change.config is None && change.project == project,
        entries::change_of(OpenTarget::Workflow(id), title, project)
            matches Body::ConfigureWorkflow(change) && change.title == title && change.project
            == project,
{
}

/// What changed an entry makes the list due, and what could not is told.
pub proof fn law_changed_entries_make_the_list_due(
    before: Core,
    after: Core,
    result: Result<(), String>,
    what: Seq<char>,
    now: u64,
)
    requires
        entries::list_due_or(before, after, result, what),
    ensures
        result is Ok ==> state::due_at(after.last.list, state::SESSION_LIST_INTERVAL, now)
            && after.last.history == before.last.history && after.entries == before.entries
            && after.notes == before.notes && after.open == before.open,
        result matches Err(error) ==> after.notes@.len() == before.notes@.len() + 1
            && after.notes@.last().message@ == what + error@ && after.notes@.last().level
            == NoteLevel::Error && after.last == before.last,
{
}

/// What is open is known by its id, session or workflow.
pub proof fn law_what_is_open_is_known_by_its_id(core: Core, id: Seq<char>)
    ensures
        entries::is_open_id(core, id) <==> match core.open {
            Some(OpenTarget::Session(open)) => open@ == id,
            Some(OpenTarget::Workflow(open)) => open@ == id,
            None => false,
        },
        browse::open_session_id(core) == match core.open {
            Some(OpenTarget::Session(open)) => Some(open@),
            _ => None,
        },
{
}

/// The agents of one machine are taken from the list; those of the others stay in their order.
pub proof fn law_agents_of_other_machines_stay(
    agents: Seq<(String, Vec<Agent>)>,
    one: (String, Vec<Agent>),
    machine: Seq<char>,
)
    ensures
        entries::of_others(Seq::empty(), machine).len() == 0,
        one.0@ == machine ==> entries::of_others(agents.push(one), machine) == entries::of_others(
            agents,
            machine,
        ),
        one.0@ != machine ==> entries::of_others(agents.push(one), machine) == entries::of_others(
            agents,
            machine,
        ).push(one),
{
    reveal(Seq::filter);
    assert(agents.push(one).drop_last() =~= agents);
}

/// A connection that was saved is tried, nothing counts as changed any more, and the list is due.
pub proof fn law_saved_connections_are_tried(
    before: AmuxApp,
    after: AmuxApp,
    connection: Connection,
)
    requires
        after.reconnects(before, connection),
    ensures
        after.core.connection == connection,
        after.core.client is Some <==> !strings::blank(connection.server@) && !strings::blank(
            connection.token@,
        ),
        after.core.client is Some ==> after.core.status is Connecting,
        !after.settings_dirty,
        after.core.last.list is None,
        after.core.open == before.core.open && after.core.entries == before.core.entries
            && after.core.settings == before.core.settings && after.core.notes == before.core.notes,
        after.renaming_id == before.renaming_id && after.attachments == before.attachments,
{
}

/// A new item stands behind the others. An item that is changed takes the place of the first of its
/// name, and the others stay.
pub proof fn law_saved_items_take_their_places<T: Named>(
    list: Seq<T>,
    name: String,
    item: T,
    k: int,
)
    requires
        0 <= k < list.len(),
    ensures
        forms::with_item(list, FormTarget::New, item) == list.push(item),
        forms::with_item(list, FormTarget::Edit(name), item).len() == list.len(),
        list[k].key() != name@ ==> forms::with_item(list, FormTarget::Edit(name), item)[k]
            == list[k],
        list[k].key() == name@ && (forall|j: int| 0 <= j < k ==> (#[trigger] list[j]).key() != name@)
            ==> forms::with_item(list, FormTarget::Edit(name), item) == list.update(k, item),
        (forall|j: int| 0 <= j < list.len() ==> (#[trigger] list[j]).key() != name@)
            ==> forms::with_item(list, FormTarget::Edit(name), item) == list,
{
    creation::laws::law_the_first_of_a_name_is_found(list, name@);
    let at = forms::place_of(list, name@) as int;
    if list[k].key() == name@ {
        assert(at <= k);
        if forall|j: int| 0 <= j < k ==> (#[trigger] list[j]).key() != name@ {
            if at < k {
                assert(list[at].key() == name@);
            }
        }
    }
    if forall|j: int| 0 <= j < list.len() ==> (#[trigger] list[j]).key() != name@ {
        if at < list.len() {
            assert(list[at].key() == name@);
        }
    }
}

/// What is deleted goes, under its name and wherever it stands; the others stay in their order.
pub proof fn law_deleted_items_go<T: Named>(list: Seq<T>, item: T, name: Seq<char>)
    ensures
        forms::list_without(Seq::<T>::empty(), name).len() == 0,
        item.key() == name ==> forms::list_without(list.push(item), name) == forms::list_without(
            list,
            name,
        ),
        item.key() != name ==> forms::list_without(list.push(item), name) == forms::list_without(
            list,
            name,
        ).push(item),
{
    reveal(Seq::filter);
    assert(list.push(item).drop_last() =~= list);
}

/// Each list of the settings is saved at its own address and carries itself; projects are saved one by
/// one.
pub proof fn law_lists_are_saved_at_their_addresses(list: SettingsList, body: Body)
    ensures
        list is Skills ==> forms::list_path(list) == Some("/config/skills/"@),
        list is QuickCommands ==> forms::list_path(list) == Some("/config/quick_commands/"@),
        list is Plans ==> forms::list_path(list) == Some("/config/workflows/"@),
        list is RecentWorkspaces ==> forms::list_path(list) == Some("/config/recent_workspaces/"@),
        list is Projects ==> forms::list_path(list) is None,
        forms::carries(body, list) <==> match (list, body) {
            (SettingsList::Skills(own), Body::Skills(sent)) => own@ == sent@,
            (SettingsList::QuickCommands(own), Body::QuickCommands(sent)) => own@ == sent@,
            (SettingsList::Plans(own), Body::Plans(sent)) => own@ == sent@,
            (SettingsList::RecentWorkspaces(own), Body::RecentWorkspaces(sent)) => own@ == sent@,
            _ => false,
        },
{
}

/// A quick command is saved under the name that was entered, with what it says; one that is changed
/// keeps its project.
pub proof fn law_commands_are_saved_as_entered(
    list: Seq<QuickCommand>,
    target: FormTarget,
    name: Seq<char>,
    prompt: Seq<char>,
    command: QuickCommand,
    k: int,
)
    requires
        forms::command_of(list, target, name, prompt, command),
    ensures
        command.name@ == strings::trim_of(name),
        command.prompt@ == prompt,
        target is New ==> command.project is None,
        target matches FormTarget::Edit(old) ==> 0 <= k < list.len() && list[k].name@ == old@ && (
        forall|j: int| 0 <= j < k ==> (#[trigger] list[j]).name@ != old@) ==> command.project
            == list[k].project,
{
    if let FormTarget::Edit(old) = target {
        creation::laws::law_the_first_of_a_name_is_found(list, old@);
        let at = forms::place_of(list, old@) as int;
        if 0 <= k < list.len() && list[k].name@ == old@ && (forall|j: int|
            0 <= j < k ==> (#[trigger] list[j]).name@ != old@) {
            assert(list[k].key() == old@);
            if at < k {
                assert(list[at].key() == list[at].name@);
            }
        }
    }
}

/// A plan is saved under the name that was entered, with its text; one that is changed remembers the
/// project that it was used for.
pub proof fn law_plans_are_saved_as_entered(
    list: Seq<WorkflowPlanItem>,
    target: FormTarget,
    name: Seq<char>,
    plan: Seq<char>,
    item: WorkflowPlanItem,
    k: int,
)
    requires
        forms::plan_of(list, target, name, plan, item),
    ensures
        item.name@ == strings::trim_of(name),
        item.plan@ == plan,
        target is New ==> item.last_used_project is None,
        target matches FormTarget::Edit(old) ==> 0 <= k < list.len() && list[k].name@ == old@ && (
        forall|j: int| 0 <= j < k ==> (#[trigger] list[j]).name@ != old@) ==> item.last_used_project
            == list[k].last_used_project,
{
    if let FormTarget::Edit(old) = target {
        creation::laws::law_the_first_of_a_name_is_found(list, old@);
        let at = forms::place_of(list, old@) as int;
        if 0 <= k < list.len() && list[k].name@ == old@ && (forall|j: int|
            0 <= j < k ==> (#[trigger] list[j]).name@ != old@) {
            assert(list[k].key() == old@);
            if at < k {
                assert(list[at].key() == list[at].name@);
            }
        }
    }
}

/// Two projects that are exchanged take each other's place, and the others stay.
pub proof fn law_exchanged_projects_take_each_others_place(
    list: Seq<Project>,
    i: int,
    j: int,
    k: int,
)
    requires
        0 <= i < list.len(),
        0 <= j < list.len(),
        0 <= k < list.len(),
    ensures
        forms::swapped(list, i, j).len() == list.len(),
        forms::swapped(list, i, j)[i] == list[j],
        forms::swapped(list, i, j)[j] == list[i],
        k != i && k != j ==> forms::swapped(list, i, j)[k] == list[k],
{
}

/// The order of the projects is saved by their names.
pub proof fn law_the_order_of_projects_is_saved(request: Request, projects: Seq<Project>, k: int)
    requires
        forms::saves_order(request, projects),
        0 <= k < projects.len(),
    ensures
        request.verb == Verb::Post,
        request.path@ == "/config/projects/order"@,
        request.body matches Body::ProjectOrder(order) && order.names@.len() == projects.len()
            && order.names@[k]@ == projects[k].name@,
{
    let order = request.body->ProjectOrder_0;
    assert(strings::views(order.names@).len() == projects.len());
    assert(strings::views(order.names@)[k] == order.names@[k]@);
}

/// What is entered of the model is taken without white space around it, in the format that was
/// chosen, or in the saved one where none was. Where nothing was saved the fields are empty.
pub proof fn law_the_model_is_taken_as_entered(app: AmuxApp, fields: OrchestratorFields)
    ensures
        app.entered(fields).base_url == strings::trim_of(fields.base_url@),
        app.entered(fields).api_key == strings::trim_of(fields.api_key@),
        app.entered(fields).model == strings::trim_of(fields.model@),
        app.entered(fields).effort == strings::trim_of(fields.effort@),
        app.orchestrator_format matches Some(format) ==> app.entered(fields).api_format == format,
        app.orchestrator_format is None ==> app.entered(fields).api_format == forms::saved_config(
            app.core,
        ).api_format,
        app.core.settings.orchestrator matches Some(config) ==> forms::saved_config(app.core)
            == config@,
        app.core.settings.orchestrator is None ==> forms::saved_config(app.core) == (ConfigText {
            api_format: ApiFormat::ChatCompletions,
            base_url: Seq::empty(),
            api_key: Seq::empty(),
            model: Seq::empty(),
            effort: Seq::empty(),
        }),
{
}

/// A form has two fields, each with its label and what it is filled with.
pub proof fn law_forms_are_filled(
    form: Form,
    first: Seq<char>,
    one: Seq<char>,
    second: Seq<char>,
    two: Seq<char>,
)
    requires
        forms::two_fields(form, first, one, second, two),
    ensures
        form.fields@.len() == 2,
        form.fields@[0].label@ == first && form.fields@[0].value@ == one,
        form.fields@[1].label@ == second && form.fields@[1].value@ == two,
{
}

/// A directory is asked for on its machine by its path, all kinds of entries, from the first.
pub proof fn law_directories_are_asked_for_by_their_path(machine: Seq<char>, path: Seq<char>)
    ensures
        browse::directory_path(machine, path) == "/machines/"@ + machine + "/list_dir?path="@
            + percent::percent_text(encode_utf8(path), true) + "&limit="@ + strings::decimal(500)
            + "&offset="@ + strings::decimal(0) + "&dirs_only="@ + "false"@,
{
}

/// Toggling takes a name in where it is not, and out where it is; other names stay.
pub proof fn law_toggling_changes_one_name(
    before: Map<Seq<char>, ()>,
    name: Seq<char>,
    other: Seq<char>,
)
    ensures
        browse::toggled(before, name).contains_key(name) <==> !before.contains_key(name),
        other != name ==> (browse::toggled(before, name).contains_key(other)
            <==> before.contains_key(other)),
{
}

/// A group of the list is that of a project, but for the one without a name. As many of its sessions
/// are fetched as were loaded, and a page at least.
pub proof fn law_groups_are_fetched_as_they_were(core: Core, key: Seq<char>, page: usize)
    ensures
        browse::group_project(key) is None <==> key.len() == 0,
        key.len() > 0 ==> browse::group_project(key) == Some(key),
        browse::group_limit(core, key, page) >= page,
        core.project_groups@.contains_key(key) ==> browse::group_limit(core, key, page)
            >= core.project_groups@[key].loaded,
        browse::group_limit(core, key, page) == page || core.project_groups@.contains_key(key)
            && browse::group_limit(core, key, page) == core.project_groups@[key].loaded,
{
}

/// More sessions without a project are fetched where their end is in view, there are more, none are on
/// their way and they are shown.
pub proof fn law_more_sessions_are_fetched_at_the_end(core: Core, at_end: bool)
    ensures
        browse::more_unassigned(core, at_end) <==> at_end && core.project_groups@.contains_key(
            Seq::empty(),
        ) && !core.collapsed_project_groups@.contains_key(Seq::empty())
            && core.project_groups@[Seq::empty()].has_more
            && !core.project_groups@[Seq::empty()].loading,
{
}

/// A node is found if and only if the tree holds it.
pub proof fn law_nodes_are_found_where_the_tree_holds_them(
    nodes: Seq<WorkspaceNode>,
    path: Seq<char>,
)
    ensures
        browse::node_at(nodes, path) is Some <==> tree::holds(nodes, path),
    decreases nodes,
{
    if nodes.len() > 0 {
        let less = nodes.drop_last();
        let last = nodes.last();
        law_nodes_are_found_where_the_tree_holds_them(less, path);
        assert(nodes[nodes.len() - 1] == last);
        if last.children is Some {
            assert(decreases_to!(nodes => nodes[nodes.len() - 1]));
            law_nodes_are_found_where_the_tree_holds_them(last.children->0@, path);
        }
        if tree::holds(less, path) {
            let i = choose|i: int|
                0 <= i < less.len() && ((#[trigger] less[i]).entry.path@ == path || (
                less[i].children is Some && tree::holds(less[i].children->0@, path)));
            assert(nodes[i] == less[i]);
        }
        if tree::holds(nodes, path) {
            let i = choose|i: int|
                0 <= i < nodes.len() && ((#[trigger] nodes[i]).entry.path@ == path || (
                nodes[i].children is Some && tree::holds(nodes[i].children->0@, path)));
            if i < less.len() {
                assert(less[i] == nodes[i]);
            }
        }
    }
}

/// What changes in the view of a session leaves the rest of the client as it was.
pub proof fn law_the_view_of_a_session_changes_alone(core: Core, detail: SessionView)
    ensures
        poll::with_detail(core, detail).view.detail == detail,
        poll::with_detail(core, detail).view.session == core.view.session,
        poll::with_detail(core, detail).view.workflow == core.view.workflow,
        poll::with_detail(core, detail).open == core.open,
        poll::with_detail(core, detail).entries == core.entries,
        poll::with_detail(core, detail).last == core.last,
        poll::with_detail(poll::with_detail(core, detail), core.view.detail) == core,
{
}

/// Lines that were chosen are quoted from the first to the last of them, in whichever direction they
/// were chosen, each behind the mark of its kind.
pub proof fn law_chosen_lines_are_quoted(
    hunk: GitDiffHunk,
    selection: LineSelection,
    back: LineSelection,
    k: int,
)
    requires
        back.start.line == selection.end.line,
        back.end.line == selection.start.line,
        selection.start.line <= selection.end.line < hunk.lines@.len(),
        0 <= k <= selection.end.line - selection.start.line,
    ensures
        review::ends(selection) == review::ends(back),
        ({
            let ends = review::ends(selection);
            let quoted = review::lines_between(hunk.lines@, ends.0, ends.1);
            let line = hunk.lines@[selection.start.line + k];
            &&& quoted.len() == selection.end.line - selection.start.line + 1
            &&& quoted[k] == seq![
                match line.kind {
                    GitDiffLineKind::Context => ' ',
                    GitDiffLineKind::Add => '+',
                    GitDiffLineKind::Remove => '-',
                },
            ] + line.text@
        }),
        review::chosen_code(hunk, selection) == review::chosen_code(hunk, back),
        review::chosen_code(hunk, selection) == strings::join_of(
            review::lines_between(
                hunk.lines@,
                selection.start.line as nat,
                selection.end.line as nat,
            ),
            "\n"@,
        ),
{
}

/// A path is changed where a file of the diff has it.
pub proof fn law_changed_files_are_those_of_the_diff(
    diff: crate::common::domain::GitDiffResult,
    path: Seq<char>,
    k: int,
)
    requires
        0 <= k < diff.files@.len(),
    ensures
        review::is_changed(Some(diff), diff.files@[k].path@),
        (forall|i: int| 0 <= i < diff.files@.len() ==> (#[trigger] diff.files@[i]).path@ != path)
            ==> !review::is_changed(Some(diff), path),
        !review::is_changed(None, path),
{
}

/// The projects change alone, and a table without names holds none.
pub proof fn law_projects_change_alone(
    core: Core,
    projects: Vec<Project>,
    table: crate::table::Table<()>,
    name: Seq<char>,
)
    ensures
        forms::with_projects(core, projects).settings.projects == projects,
        forms::with_projects(core, projects).settings.plans == core.settings.plans,
        forms::with_projects(core, projects).settings.machines == core.settings.machines,
        forms::with_projects(core, projects).entries == core.entries,
        forms::with_projects(core, projects).open == core.open,
        app::nothing_in(table) ==> !table@.contains_key(name),
{
}

/// A window that was just opened has nothing folded, chosen, attached or half entered, and shows the
/// trees and the contents of the panels.
pub proof fn law_a_new_window_is_empty(window: AmuxApp, name: Seq<char>)
    requires
        window.is_new(),
    ensures
        window.core.open is None,
        window.core.entries@.len() == 0,
        !window.settings_dirty,
        window.orchestrator_format is None,
        window.orchestrator_prefilled is None,
        window.renaming_id is None,
        window.terminal_stream is None,
        window.attachments@.len() == 0,
        window.slash_selected == 0,
        !window.slash_dismissed,
        !window.diff_collapsed_files@.contains_key(name),
        !window.diff_collapsed_dirs@.contains_key(name),
        !window.expanded_activities@.contains_key(name),
        window.diff_tree_visible,
        window.diff_comment_target is None,
        window.diff_line_selection is None,
        window.dialog_scroll_on_entry,
        !window.activities_scroll_on_entry,
        !window.workspace_recent_open,
        window.workspace_file is None,
        window.workspace_tree_visible,
        window.workspace_content_visible,
{
}

} // verus!
