//! What is looked at beside the conversation: files, changes, and what is folded of them.
use super::AmuxApp;
use crate::common::api::ContextInfo;
use crate::common::domain::{FsEntry, GitDiffResult};
use crate::desktop::client::{Request, Verb};
use crate::desktop::poll;
use crate::desktop::state::tree;
use crate::desktop::state::tree::{NodeChange, WorkspaceNode};
use crate::desktop::state::{Core, NoteLevel, OpenTarget, SessionView};
use crate::percent;
use crate::strings;
use crate::table::Table;
use vstd::prelude::*;
use vstd::utf8::encode_utf8;

verus! {

/// How many entries of a directory are asked for.
pub const DIRECTORY_LIMIT: usize = 500;

/// How many lines of a file are asked for.
pub const FILE_LINES: usize = 400;

/// The path under which the entries of a directory are.
pub open spec fn directory_path(machine: Seq<char>, path: Seq<char>) -> Seq<char> {
    "/machines/"@ + machine + "/list_dir?path="@ + percent::percent_text(encode_utf8(path), true)
        + "&limit="@ + strings::decimal(500) + "&offset="@ + strings::decimal(0) + "&dirs_only="@
        + "false"@
}

/// The request for the entries of the open session's directory, where there is one and a server.
pub fn load_workspace(core: &Core) -> (r: Option<Request>)
    ensures
        match (core.client, core.view.session) {
            (Some(_), Some(session)) => r matches Some(request) && request.verb == Verb::Get
                && request.body is Nothing && request.path@ == directory_path(session.machine@, session.root()),
            _ => r is None,
        },
{
    match (&core.client, &core.view.session) {
        (Some(client), Some(session)) => Some(
            client.list_dir(
                session.machine.as_str(),
                Some(session.root_dir()),
                DIRECTORY_LIMIT,
                0,
                false,
            ),
        ),
        _ => None,
    }
}

/// The entries of the session's directory came.
pub fn workspace_loaded(core: &mut Core, result: Result<Vec<FsEntry>, String>)
    ensures
        match result {
            Ok(entries) => tree::fresh(final(core).view.detail.workspace_tree@, entries@)
                && *final(core) == poll::with_detail(
                *old(core),
                SessionView {
                    workspace_tree: final(core).view.detail.workspace_tree,
                    ..old(core).view.detail
                },
            ),
            Err(error) => final(core).noted(
                *old(core),
                "读取工作目录失败："@ + error@,
                NoteLevel::Error,
            ),
        },
{
    match result {
        Ok(entries) => {
            core.view.detail.workspace_tree = WorkspaceNode::all(entries);
        },
        Err(error) => {
            core.failed("读取工作目录失败：", error.as_str());
        },
    }
}

/// A directory is in the tree and closed or open.
pub open spec fn node_at(nodes: Seq<WorkspaceNode>, path: Seq<char>) -> Option<bool>
    decreases nodes,
{
    if nodes.len() == 0 {
        None
    } else {
        match node_at(nodes.drop_last(), path) {
            Some(expanded) => Some(expanded),
            None => if nodes.last().entry.path@ == path {
                Some(nodes.last().expanded)
            } else {
                match nodes.last().children {
                    Some(children) => node_at(children@, path),
                    None => None,
                }
            },
        }
    }
}

fn expanded_at(nodes: &Vec<WorkspaceNode>, path: &str) -> (r: Option<bool>)
    ensures
        r == node_at(nodes@, path@),
    decreases nodes@,
{
    let mut i: usize = 0;
    proof {
        assert(nodes@.take(0) =~= Seq::empty());
    }
    while i < nodes.len()
        invariant
            0 <= i <= nodes@.len(),
            node_at(nodes@.take(i as int), path@) is None,
        decreases nodes.len() - i,
    {
        proof {
            assert(nodes@.take(i + 1).drop_last() =~= nodes@.take(i as int));
            assert(nodes@.take(i + 1).last() == nodes@[i as int]);
        }
        let node: &WorkspaceNode = &nodes[i];
        if strings::same(node.entry.path.as_str(), path) {
            proof {
                lemma_found_early(nodes@, path@, i + 1);
            }
            return Some(node.expanded);
        }
        match &node.children {
            Some(children) => {
                proof {
                    assert(decreases_to!(nodes@ => nodes@[i as int]));
                    assert(decreases_to!(nodes@[i as int] => nodes@[i as int].children));
                }
                match expanded_at(children, path) {
                    Some(expanded) => {
                        proof {
                            lemma_found_early(nodes@, path@, i + 1);
                        }
                        return Some(expanded);
                    },
                    None => {},
                }
            },
            None => {},
        }
        i = i + 1;
    }
    proof {
        assert(nodes@.take(i as int) =~= nodes@);
    }
    None
}

proof fn lemma_found_early(nodes: Seq<WorkspaceNode>, path: Seq<char>, n: int)
    requires
        0 <= n <= nodes.len(),
        node_at(nodes.take(n), path) is Some,
    ensures
        node_at(nodes, path) == node_at(nodes.take(n), path),
    decreases nodes.len() - n,
{
    if n < nodes.len() {
        assert(nodes.take(n + 1).drop_last() =~= nodes.take(n));
        lemma_found_early(nodes, path, n + 1);
    } else {
        assert(nodes.take(n) =~= nodes);
    }
}

/// Opens or closes a directory of the tree. The request for what is in it comes back where it was
/// opened.
pub fn toggle_workspace_dir(core: &mut Core, path: &str) -> (r: Option<Request>)
    ensures
        ({
            let before = old(core).view.detail.workspace_tree@;
            let after = final(core).view.detail.workspace_tree@;
            &&& tree::holds(before, path@) ==> tree::nodes_changed(
                before,
                after,
                path@,
                NodeChange::Toggle,
            )
            &&& !tree::holds(before, path@) ==> after == before
            &&& *final(core) == poll::with_detail(
                *old(core),
                SessionView {
                    workspace_tree: final(core).view.detail.workspace_tree,
                    ..old(core).view.detail
                },
            )
            &&& match (old(core).client, old(core).view.session) {
                (Some(_), Some(session)) => if node_at(before, path@) == Some(false) {
                    r matches Some(request) && request.verb == Verb::Get && request.body is Nothing
                && request.path@
                        == directory_path(session.machine@, path@)
                } else {
                    r is None
                },
                _ => r is None,
            }
        }),
{
    let was: Option<bool> = expanded_at(&core.view.detail.workspace_tree, path);
    let _ = WorkspaceNode::update(&mut core.view.detail.workspace_tree, path, NodeChange::Toggle);
    let opened: bool = match was {
        Some(expanded) => !expanded,
        None => false,
    };
    if !opened {
        return None;
    }
    match (&core.client, &core.view.session) {
        (Some(client), Some(session)) => Some(
            client.list_dir(session.machine.as_str(), Some(path), DIRECTORY_LIMIT, 0, false),
        ),
        _ => None,
    }
}

/// The entries of a directory of the tree came.
pub fn workspace_dir_loaded(core: &mut Core, path: &str, result: Result<Vec<FsEntry>, String>)
    ensures
        match result {
            Ok(entries) => {
                let before = old(core).view.detail.workspace_tree@;
                let after = final(core).view.detail.workspace_tree@;
                &&& tree::holds(before, path@) ==> tree::nodes_changed(
                    before,
                    after,
                    path@,
                    NodeChange::Fill(entries),
                )
                &&& !tree::holds(before, path@) ==> after == before
                &&& *final(core) == poll::with_detail(
                    *old(core),
                    SessionView {
                        workspace_tree: final(core).view.detail.workspace_tree,
                        ..old(core).view.detail
                    },
                )
            },
            Err(error) => final(core).noted(
                *old(core),
                "读取目录失败："@ + error@,
                NoteLevel::Error,
            ),
        },
{
    match result {
        Ok(entries) => {
            let _ = WorkspaceNode::update(
                &mut core.view.detail.workspace_tree,
                path,
                NodeChange::Fill(entries),
            );
        },
        Err(error) => {
            core.failed("读取目录失败：", error.as_str());
        },
    }
}

/// The contents of a file came.
pub fn file_read(core: &mut Core, result: Result<String, String>)
    ensures
        match result {
            Ok(content) => *final(core) == poll::with_detail(
                *old(core),
                SessionView { file_content: Some(content), ..old(core).view.detail },
            ),
            Err(error) => final(core).noted(
                *old(core),
                "读取文件失败："@ + error@,
                NoteLevel::Error,
            ),
        },
{
    match result {
        Ok(content) => {
            core.view.detail.file_content = Some(content);
        },
        Err(error) => {
            core.failed("读取文件失败：", error.as_str());
        },
    }
}

/// The identity of the open session, where one with an agent is open.
pub open spec fn open_session_id(core: Core) -> Option<Seq<char>> {
    match core.open {
        Some(OpenTarget::Session(id)) => Some(id@),
        _ => None,
    }
}

/// The request for how much of the context is used.
pub fn refresh_context(core: &Core) -> (r: Option<Request>)
    ensures
        match (core.client, open_session_id(*core)) {
            (Some(_), Some(id)) => r matches Some(request) && request.verb == Verb::Get
                && request.body is Nothing && request.path@ == "/sessions/"@ + id + "/context"@,
            _ => r is None,
        },
{
    match (&core.client, &core.open) {
        (Some(client), Some(OpenTarget::Session(id))) => Some(client.context(id.as_str())),
        _ => None,
    }
}

/// It came how much of the context is used. Where that failed, nothing changes.
pub fn context_refreshed(core: &mut Core, result: Result<ContextInfo, String>)
    ensures
        *final(core) == match result {
            Ok(info) => poll::with_detail(
                *old(core),
                SessionView {
                    context_size: info.context_size,
                    context_window_size: info.context_window_size,
                    ..old(core).view.detail
                },
            ),
            Err(_) => *old(core),
        },
{
    match result {
        Ok(info) => {
            core.view.detail.context_size = info.context_size;
            core.view.detail.context_window_size = info.context_window_size;
        },
        Err(_) => {},
    }
}

/// The request for the changes of the open session's files.
pub fn refresh_diff(core: &Core) -> (r: Option<Request>)
    ensures
        match (core.client, open_session_id(*core)) {
            (Some(_), Some(id)) => r matches Some(request) && request.verb == Verb::Get
                && request.body is Nothing && request.path@ == "/sessions/"@ + id + "/diff"@,
            _ => r is None,
        },
{
    match (&core.client, &core.open) {
        (Some(client), Some(OpenTarget::Session(id))) => Some(client.diff(id.as_str())),
        _ => None,
    }
}

/// The changes of the open session's files came.
pub fn diff_refreshed(core: &mut Core, result: Result<GitDiffResult, String>)
    ensures
        match result {
            Ok(diff) => *final(core) == poll::with_detail(
                *old(core),
                SessionView { diff: Some(diff), ..old(core).view.detail },
            ),
            Err(error) => final(core).noted(
                *old(core),
                "无法加载改动："@ + error@,
                NoteLevel::Error,
            ),
        },
{
    match result {
        Ok(diff) => {
            core.view.detail.diff = Some(diff);
        },
        Err(error) => {
            core.failed("无法加载改动：", error.as_str());
        },
    }
}

/// A name that is in goes out, and one that is not comes in.
pub open spec fn toggled(before: Map<Seq<char>, ()>, name: Seq<char>) -> Map<Seq<char>, ()> {
    if before.contains_key(name) {
        before.remove(name)
    } else {
        before.insert(name, ())
    }
}

/// A name that is in goes out, and one that is not comes in.
pub fn toggle_set(set: &mut Table<()>, name: &str)
    ensures
        final(set)@ == toggled(old(set)@, name@),
{
    if set.remove(name).is_none() {
        let _ = set.insert(name.to_owned(), ());
        proof {
            assert(set@ =~= toggled(old(set)@, name@));
        }
    }
}

/// What was folded and unfolded is as it was.
pub proof fn law_toggling_twice_restores(before: Map<Seq<char>, ()>, name: Seq<char>)
    ensures
        toggled(toggled(before, name), name) == before,
{
    assert(toggled(toggled(before, name), name) =~= before);
}

/// The sessions of a workflow are shown or hidden.
pub fn toggle_workflow(core: &mut Core, id: &str)
    ensures
        final(core).expanded_workflows@ == toggled(old(core).expanded_workflows@, id@),
        *final(core) == (Core { expanded_workflows: final(core).expanded_workflows, ..*old(core) }),
{
    toggle_set(&mut core.expanded_workflows, id);
}

/// The project that a group of sessions is of: none for those that belong to no project.
pub open spec fn group_project(key: Seq<char>) -> Option<Seq<char>> {
    if key.len() == 0 {
        None
    } else {
        Some(key)
    }
}

/// What is fetched for a group of sessions.
#[derive(Debug, PartialEq)]
pub struct GroupFetch {
    /// The project of the sessions.
    pub project: Option<String>,
    pub limit: usize,
}

/// How many sessions of a group are fetched when it is unfolded: as many as were loaded, and a page
/// at least.
pub open spec fn group_limit(core: Core, key: Seq<char>, page: usize) -> usize {
    if core.project_groups@.contains_key(key) && core.project_groups@[key].loaded > page {
        core.project_groups@[key].loaded
    } else {
        page
    }
}

/// Folds or unfolds a group of sessions. What is to be fetched comes back where it was unfolded and
/// there is a server.
pub fn toggle_project_group(core: &mut Core, key: &str, page: usize) -> (r: Option<GroupFetch>)
    ensures
        final(core).collapsed_project_groups@ == toggled(old(core).collapsed_project_groups@, key@),
        *final(core) == (Core {
            collapsed_project_groups: final(core).collapsed_project_groups,
            ..*old(core)
        }),
        r is Some == (old(core).collapsed_project_groups@.contains_key(key@) && old(core).client
            is Some),
        r matches Some(fetch) ==> fetch.limit == group_limit(*old(core), key@, page) && (
        fetch.project matches Some(project) ==> group_project(key@) == Some(project@)) && (
        fetch.project is None ==> group_project(key@) is None),
{
    let was_folded: bool = core.collapsed_project_groups.contains(key);
    toggle_set(&mut core.collapsed_project_groups, key);
    if !was_folded || core.client.is_none() {
        return None;
    }
    let limit: usize = match core.project_groups.get(key) {
        Some(group) => if group.loaded > page {
            group.loaded
        } else {
            page
        },
        None => page,
    };
    let project: Option<String> = if key.is_empty() {
        None
    } else {
        Some(key.to_owned())
    };
    Some(GroupFetch { project, limit })
}

/// More of the sessions that belong to no project are fetched: they are unfolded, there are more,
/// none are on their way, and the end of the list is in view.
pub open spec fn more_unassigned(core: Core, at_end: bool) -> bool {
    &&& core.project_groups@.contains_key(Seq::empty())
    &&& !core.collapsed_project_groups@.contains_key(Seq::empty())
    &&& core.project_groups@[Seq::empty()].has_more
    &&& !core.project_groups@[Seq::empty()].loading
    &&& at_end
}

/// Whether more of the sessions that belong to no project are fetched.
pub fn wants_more_unassigned(core: &Core, at_end: bool) -> (r: bool)
    ensures
        r == more_unassigned(*core, at_end),
{
    proof {
        reveal_strlit("");
        assert(""@ =~= Seq::empty());
    }
    match core.project_groups.get("") {
        Some(group) => !core.collapsed_project_groups.contains("") && group.has_more
            && !group.loading && at_end,
        None => false,
    }
}

impl AmuxApp {
    /// Looks at a file. The request for it comes back where there is a server.
    pub fn read_file(&mut self, machine: &str, path: &str) -> (r: Option<Request>)
        ensures
            old(self).core.client is None ==> r is None && *final(self) == *old(self),
            old(self).core.client is Some ==> {
                &&& r is Some
                &&& r->0.verb == Verb::Get
                &&& r->0.body is Nothing
                &&& r->0.path@ == "/machines/"@ + machine@ + "/read_file?path="@
                    + percent::percent_text(encode_utf8(path@), true) + "&limit="@
                    + strings::decimal(400) + "&offset="@ + strings::decimal(0)
                &&& final(self).workspace_file is Some && final(self).workspace_file->0@ == path@
                &&& *final(self) == (AmuxApp {
                    workspace_file: final(self).workspace_file,
                    ..*old(self)
                })
            },
    {
        match &self.core.client {
            Some(client) => {
                let request: Request = client.read_file(machine, path, FILE_LINES, 0);
                self.workspace_file = Some(path.to_owned());
                Some(request)
            },
            None => None,
        }
    }

    /// Folds or unfolds the tree of files.
    pub fn toggle_workspace_tree(&mut self)
        ensures
            *final(self) == (AmuxApp {
                workspace_tree_visible: !old(self).workspace_tree_visible,
                ..*old(self)
            }),
    {
        self.workspace_tree_visible = !self.workspace_tree_visible;
    }

    /// Folds or unfolds the file.
    pub fn toggle_workspace_content(&mut self)
        ensures
            *final(self) == (AmuxApp {
                workspace_content_visible: !old(self).workspace_content_visible,
                ..*old(self)
            }),
    {
        self.workspace_content_visible = !self.workspace_content_visible;
    }

    /// Folds or unfolds an activity.
    pub fn toggle_activity(&mut self, key: &str)
        ensures
            final(self).expanded_activities@ == toggled(old(self).expanded_activities@, key@),
            *final(self) == (AmuxApp {
                expanded_activities: final(self).expanded_activities,
                ..*old(self)
            }),
    {
        toggle_set(&mut self.expanded_activities, key);
    }
}

} // verus!
