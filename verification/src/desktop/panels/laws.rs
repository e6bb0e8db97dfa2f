//! What holds of the panels as they are shown.
use super::changes::{BlockRow, ChangeRow};
use super::details::{ActivityRow, InfoRow, InfoValue, TerminalTab};
use super::workspace::TreeRow;
use super::ListRow;
use crate::common::api::{Agent, Machine, Session, Terminal, TerminalState, Workflow};
use crate::common::domain::{
    Activity, GitChangeStatus, GitDiffFile, GitDiffHunk, GitDiffLine, GitDiffLineKind, GitDiffResult,
    SessionPlanStatus, SessionState,
};
use crate::desktop::diff;
use crate::desktop::diff::CommentTarget;
use crate::desktop::difftree::DiffNode;
use crate::desktop::panels;
use crate::desktop::panels::changes;
use crate::desktop::panels::details;
use crate::desktop::panels::workspace;
use crate::desktop::settings;
use crate::desktop::settings::{MachineCard, SkillTarget};
use crate::desktop::state::tree::WorkspaceNode;
use crate::desktop::state::{ListEntry, OpenTarget};
use crate::desktop::ui;
use crate::strings;
use vstd::prelude::*;

verus! {

/// A row is read as it is: with its name, its title, and all its marks.
pub proof fn law_rows_of_the_list_are_read_as_they_are(row: ListRow<String>)
    ensures
        row matches ListRow::Rename { id } ==> panels::row_text(row) == (ListRow::Rename {
            id: id@,
        }),
        row matches ListRow::Session { id, title, linked, selected, changed, busy }
            ==> panels::row_text(row) == (ListRow::Session {
            id: id@,
            title: title@,
            linked,
            selected,
            changed,
            busy,
        }),
        row matches ListRow::Workflow { id, title, expanded, selected, changed, busy }
            ==> panels::row_text(row) == (ListRow::Workflow {
            id: id@,
            title: title@,
            expanded,
            selected,
            changed,
            busy,
        }),
{
}

/// A session is called by its title, and without one by its directory.
pub proof fn law_sessions_are_called_by_their_title(title: Seq<char>, workspace: Seq<char>)
    ensures
        !strings::blank(title) ==> panels::called(title, workspace) == title,
        strings::blank(title) && !strings::blank(workspace) ==> panels::called(title, workspace)
            == "（未命名）"@ + ui::last_part(workspace),
        strings::blank(title) && strings::blank(workspace) ==> panels::called(title, workspace)
            == "未命名会话"@,
{
}

/// A session is a row with its title and the time of its last change. It is marked where it is open,
/// where it works, and where a workflow made it; while it is renamed its name is entered there.
pub proof fn law_sessions_are_rows_of_the_list(
    session: Session,
    linked: bool,
    open: Option<OpenTarget>,
    renaming: Option<String>,
)
    ensures
        ({
            let row = panels::session_shown(session, linked, open, renaming);
            &&& row is Rename <==> renaming is Some && renaming->0@ == session.id@
            &&& row matches ListRow::Rename { id } ==> id == session.id@
            &&& !(row is Rename) ==> (row matches ListRow::Session {
                id,
                title,
                linked: below,
                selected,
                changed,
                busy,
            } && id == session.id@ && title == panels::called(session.title@, session.workspace@)
                && below == linked && (selected <==> open is Some && open->0 is Session
                && open->0->Session_0@ == session.id@) && (busy <==> session.state
                == SessionState::Busy) && changed == if session.updated_at == 0 {
                None
            } else {
                Some(session.updated_at)
            })
        }),
{
}

/// A workflow is a row with its title and the time of its last change, marked as a session is, and
/// where it is unfolded the sessions that it made stand below it in their order.
pub proof fn law_workflows_hold_their_sessions(
    workflow: Workflow,
    open: Option<OpenTarget>,
    renaming: Option<String>,
    expanded: Map<Seq<char>, ()>,
    k: int,
)
    requires
        0 <= k < workflow.linked_sessions@.len(),
        renaming is None || renaming->0@ != workflow.id@,
    ensures
        ({
            let rows = panels::workflow_shown(workflow, open, renaming, expanded);
            &&& rows[0] matches ListRow::Workflow {
                id,
                title,
                expanded: unfolded,
                selected,
                changed,
                busy,
            } && id == workflow.id@ && (!strings::blank(workflow.title@) ==> title
                == workflow.title@) && (strings::blank(workflow.title@) ==> title
                == "未命名工作流"@) && (unfolded <==> expanded.contains_key(workflow.id@)) && (
            selected <==> open is Some && open->0 is Workflow && open->0->Workflow_0@
                == workflow.id@) && (busy <==> workflow.state == SessionState::Busy) && changed
                == if workflow.updated_at == 0 {
                None
            } else {
                Some(workflow.updated_at)
            }
            &&& !expanded.contains_key(workflow.id@) ==> rows.len() == 1
            &&& expanded.contains_key(workflow.id@) ==> rows.len() == 1
                + workflow.linked_sessions@.len() && rows[1 + k] == panels::session_shown(
                workflow.linked_sessions@[k],
                true,
                open,
                renaming,
            )
        }),
{
}

/// A workflow that is renamed is one row in which its name is entered. The list shows its entries one
/// behind the other.
pub proof fn law_the_list_shows_its_entries(
    entries: Seq<ListEntry>,
    entry: ListEntry,
    open: Option<OpenTarget>,
    renaming: Option<String>,
    expanded: Map<Seq<char>, ()>,
)
    ensures
        panels::list_shown(Seq::empty(), open, renaming, expanded).len() == 0,
        entry matches ListEntry::Session(session) ==> panels::list_shown(
            entries.push(entry),
            open,
            renaming,
            expanded,
        ) == panels::list_shown(entries, open, renaming, expanded).push(
            panels::session_shown(session, false, open, renaming),
        ),
        entry matches ListEntry::Workflow(workflow) ==> panels::list_shown(
            entries.push(entry),
            open,
            renaming,
            expanded,
        ) == panels::list_shown(entries, open, renaming, expanded) + panels::workflow_shown(
            workflow,
            open,
            renaming,
            expanded,
        ),
        entry matches ListEntry::Workflow(workflow) ==> renaming is Some && renaming->0@
            == workflow.id@ ==> panels::workflow_shown(workflow, open, renaming, expanded) == seq![
            ListRow::<Seq<char>>::Rename { id: workflow.id@ },
        ],
{
    assert(entries.push(entry).drop_last() =~= entries);
    if let ListEntry::Session(session) = entry {
        let before = panels::list_shown(entries, open, renaming, expanded);
        let row = panels::session_shown(session, false, open, renaming);
        assert(before + seq![row] =~= before.push(row));
    }
}

/// A row of the details is read as it is.
pub proof fn law_rows_of_the_details_are_read_as_they_are(row: InfoRow<String>)
    ensures
        details::row_text(row).label == row.label@,
        row.value matches InfoValue::Text(text) ==> details::row_text(row).value
            == InfoValue::<Seq<char>>::Text(text@),
        row.value matches InfoValue::Time(at) ==> details::row_text(row).value
            == InfoValue::<Seq<char>>::Time(at),
{
}

/// The details of a session: which it is, who works where, in which state, how much of the context is
/// used where that is known, and when it began and changed last.
pub proof fn law_details_of_a_session(session: Session, size: u64, window: u64)
    ensures
        ({
            let rows = details::session_details(session, size, window);
            let text = |k: int, label: Seq<char>, value: Seq<char>|
                rows[k].label == label && rows[k].value == InfoValue::<Seq<char>>::Text(value);
            let time = |k: int, label: Seq<char>, at: u64|
                rows[k].label == label && rows[k].value == InfoValue::<Seq<char>>::Time(at);
            let own = if session.worktree_dir@.len() > 0 {
                1int
            } else {
                0
            };
            let used = if size > 0 {
                1int
            } else {
                0
            };
            &&& rows.len() == 7 + own + used
            &&& text(0, "会话 ID"@, session.id@)
            &&& text(1, "Agent"@, session.agent@)
            &&& text(2, "工作目录"@, session.workspace@)
            &&& own == 1 ==> text(3, "worktree"@, session.worktree_dir@)
            &&& session.state == SessionState::Busy ==> text(3 + own, "状态"@, "工作中"@)
            &&& session.state == SessionState::Idle ==> text(3 + own, "状态"@, "空闲"@)
            &&& used == 1 ==> text(
                4 + own,
                "上下文"@,
                ui::usage_text(size as nat, window as nat)->0,
            )
            &&& time(4 + own + used, "创建时间"@, session.created_at)
            &&& text(5 + own + used, "机器"@, session.machine@)
            &&& time(6 + own + used, "最近活跃"@, session.updated_at)
        }),
{
}

/// The details of a workflow: which it is, in which state, when it began and changed last, and what it
/// is to do.
pub proof fn law_details_of_a_workflow(workflow: Workflow)
    ensures
        ({
            let rows = details::workflow_details(workflow);
            let text = |k: int, label: Seq<char>, value: Seq<char>|
                rows[k].label == label && rows[k].value == InfoValue::<Seq<char>>::Text(value);
            let time = |k: int, label: Seq<char>, at: u64|
                rows[k].label == label && rows[k].value == InfoValue::<Seq<char>>::Time(at);
            &&& rows.len() == 5
            &&& text(0, "工作流 ID"@, workflow.id@)
            &&& workflow.state == SessionState::Busy ==> text(1, "状态"@, "工作中"@)
            &&& workflow.state == SessionState::Idle ==> text(1, "状态"@, "空闲"@)
            &&& time(2, "创建时间"@, workflow.created_at)
            &&& time(3, "最近活跃"@, workflow.updated_at)
            &&& text(4, "计划"@, workflow.plan@)
        }),
{
}

/// The sessions that a workflow made are shown by their titles, and by their ids without one, each with
/// its machine.
pub proof fn law_sessions_of_a_workflow_are_shown(
    rows: Seq<(String, String)>,
    sessions: Seq<Session>,
    k: int,
)
    requires
        details::linked_match(rows, sessions),
        0 <= k < sessions.len(),
    ensures
        rows.len() == sessions.len(),
        !strings::blank(sessions[k].title@) ==> rows[k].0@ == sessions[k].title@,
        strings::blank(sessions[k].title@) ==> rows[k].0@ == sessions[k].id@,
        rows[k].1@ == sessions[k].machine@,
{
    assert((rows[k].0@, rows[k].1@) == details::linked_shown(sessions[k]));
}

/// An activity is a row: what it is, what it does and when it was. Folded it is one line, unfolded it is
/// shown as it is.
pub proof fn law_activities_are_rows(
    row: ActivityRow,
    activity: Activity,
    expanded: Map<Seq<char>, ()>,
)
    requires
        details::row_of(row, activity, expanded),
    ensures
        activity is Thinking ==> row.kind@ == "思考"@,
        activity is ToolCall ==> row.kind@ == "工具"@,
        activity is Error ==> row.kind@ == "错误"@,
        activity matches Activity::Thinking { timestamp, .. } ==> row.timestamp == timestamp,
        activity matches Activity::ToolCall { timestamp, .. } ==> row.timestamp == timestamp,
        activity matches Activity::Error { timestamp, .. } ==> row.timestamp == timestamp,
        row.key@ == strings::decimal(row.timestamp as nat) + "-"@ + row.kind@,
        row.expanded <==> expanded.contains_key(row.key@),
        row.expanded ==> row.detail@ == details::kind_and_detail(activity).1,
        !row.expanded ==> row.detail@ == strings::join_of(
            strings::words_of(details::kind_and_detail(activity).1),
            " "@,
        ),
        activity matches Activity::Thinking { thinking, .. } ==> details::kind_and_detail(activity).1
            == thinking@,
        activity matches Activity::Error { error, .. } ==> details::kind_and_detail(activity).1
            == error@,
        activity matches Activity::ToolCall { tool_name, title: None, .. }
            ==> details::kind_and_detail(activity).1 == tool_name@,
        activity matches Activity::ToolCall { tool_name, title: Some(title), .. } ==> (
        title@.len() == 0 ==> details::kind_and_detail(activity).1 == tool_name@) && (
        title@.len() != 0 ==> details::kind_and_detail(activity).1 == tool_name@ + " · "@ + title@),
{
}

/// A step of the plan is marked by how far it is.
pub proof fn law_steps_are_marked_by_how_far_they_are(status: SessionPlanStatus)
    ensures
        details::mark_of(status) == '✓' <==> status == SessionPlanStatus::Completed,
        details::mark_of(status) == '●' <==> status == SessionPlanStatus::InProgress,
        details::mark_of(status) == '○' <==> status == SessionPlanStatus::Pending,
{
}

/// A terminal is a tab with its id and its state, marked where it is the active one.
pub proof fn law_terminals_are_tabs(tab: TerminalTab, terminal: Terminal, active: Option<String>)
    requires
        details::tab_of(tab, terminal, active),
    ensures
        tab.id@ == terminal.id@,
        terminal.state == TerminalState::Running ==> tab.title@ == ui::shortened(terminal.id@, 12)
            + " "@ + "运行中"@,
        terminal.state == TerminalState::Exited ==> tab.title@ == ui::shortened(terminal.id@, 12)
            + " "@ + "已退出"@,
        tab.selected <==> active is Some && active->0@ == terminal.id@,
{
}

/// A row of the tree is read as it is.
pub proof fn law_rows_of_the_tree_are_read_as_they_are(row: TreeRow<String>)
    ensures
        row matches TreeRow::Dir { path, name, depth, expanded } ==> workspace::row_text(row) == (
        TreeRow::Dir { path: path@, name: name@, depth, expanded }),
        row matches TreeRow::File { path, name, depth, selected } ==> workspace::row_text(row) == (
        TreeRow::File { path: path@, name: name@, depth, selected }),
        row is Loading <==> workspace::row_text(row) is Loading,
{
}

/// The tree of a directory is shown entry by entry: a file as a row, marked where it is looked at, and a
/// directory as a row, below it, one step deeper, what it holds where it is unfolded, or that it is
/// being read.
pub proof fn law_the_tree_is_shown_entry_by_entry(
    nodes: Seq<WorkspaceNode>,
    node: WorkspaceNode,
    file: Option<String>,
    depth: usize,
)
    requires
        depth < usize::MAX,
    ensures
        ({
            let before = workspace::tree_rows(nodes, file, depth);
            let after = workspace::tree_rows(nodes.push(node), file, depth);
            let path = node.entry.path@;
            let name = node.entry.name@;
            let dir = TreeRow::<Seq<char>>::Dir { path, name, depth, expanded: node.expanded };
            &&& !node.entry.is_dir ==> after == before.push(
                TreeRow::File { path, name, depth, selected: file is Some && file->0@ == path },
            )
            &&& node.entry.is_dir && !node.expanded ==> after == before.push(dir)
            &&& node.entry.is_dir && node.expanded && node.children is None ==> after == before.push(
                dir,
            ).push(TreeRow::Loading)
            &&& node.entry.is_dir && node.expanded && node.children is Some ==> after
                == before.push(dir) + workspace::tree_rows(
                node.children->0@,
                file,
                (depth + 1) as usize,
            )
        }),
        workspace::tree_rows(Seq::empty(), file, depth).len() == 0,
{
    assert(nodes.push(node).drop_last() =~= nodes);
}

/// In place of the changes it is said why there are none.
pub proof fn law_why_there_are_no_changes(result: Option<GitDiffResult>)
    ensures
        result is None ==> changes::in_place_of_changes(result) == Some("正在加载改动…"@),
        result is Some && result->0.not_repo ==> changes::in_place_of_changes(result) == Some(
            "当前工作目录不是 git 仓库"@,
        ),
        result is Some && !result->0.not_repo && result->0.files@.len() == 0
            ==> changes::in_place_of_changes(result) == Some("暂无改动"@),
        changes::in_place_of_changes(result) is None <==> result is Some && !result->0.not_repo
            && result->0.files@.len() > 0,
{
}

/// All files are folded where there are some and each of them is.
pub proof fn law_all_files_are_folded(diff: GitDiffResult, folded: Map<Seq<char>, ()>, k: int)
    requires
        0 <= k < diff.files@.len(),
    ensures
        changes::all_folded(Some(diff), folded) ==> folded.contains_key(diff.files@[k].path@),
        (forall|i: int| 0 <= i < diff.files@.len() ==> folded.contains_key(
            (#[trigger] diff.files@[i]).path@,
        )) ==> changes::all_folded(Some(diff), folded),
        !changes::all_folded(None, folded),
{
}

/// A row of the changes is read as it is.
pub proof fn law_rows_of_the_changes_are_read_as_they_are(
    row: ChangeRow<String>,
    block: BlockRow<String>,
)
    ensures
        row matches ChangeRow::File { key, name, depth, file_ix } ==> changes::row_text(row) == (
        ChangeRow::File { key: key@, name: name@, depth, file_ix }),
        row matches ChangeRow::Dir { key, name, depth, collapsed } ==> changes::row_text(row) == (
        ChangeRow::Dir { key: key@, name: name@, depth, collapsed }),
        block matches BlockRow::File { path, additions, deletions, mark, selected }
            ==> changes::block_text(block) == (BlockRow::File {
            path: path@,
            additions: additions@,
            deletions: deletions@,
            mark,
            selected,
        }),
        block matches BlockRow::Hunk { header, selected } ==> changes::block_text(block) == (
        BlockRow::Hunk { header: header@, selected }),
        block matches BlockRow::Line { old, new, mark, text } ==> changes::block_text(block) == (
        BlockRow::Line { old: old@, new: new@, mark, text: text@ }),
{
}

/// The tree of the changes is shown node by node: a file as a row, a directory as a row and below it,
/// one step deeper, what it holds, unless it is folded.
pub proof fn law_the_changes_are_shown_node_by_node(
    nodes: Seq<DiffNode>,
    node: DiffNode,
    folded: Map<Seq<char>, ()>,
    depth: usize,
)
    requires
        depth < usize::MAX,
    ensures
        ({
            let before = changes::tree_rows(nodes, folded, depth);
            let after = changes::tree_rows(nodes.push(node), folded, depth);
            let closed = folded.contains_key(node.key@);
            let dir = ChangeRow::<Seq<char>>::Dir {
                key: node.key@,
                name: node.name@,
                depth,
                collapsed: closed,
            };
            &&& node.file_ix matches Some(file_ix) ==> after == before.push(
                ChangeRow::File { key: node.key@, name: node.name@, depth, file_ix },
            )
            &&& node.file_ix is None && closed ==> after == before.push(dir)
            &&& node.file_ix is None && !closed ==> after == before.push(dir) + changes::tree_rows(
                node.children@,
                folded,
                (depth + 1) as usize,
            )
        }),
        changes::tree_rows(Seq::empty(), folded, depth).len() == 0,
{
    assert(nodes.push(node).drop_last() =~= nodes);
}

/// What became of a file is told by a letter, and a line that is not in a file has no number there.
pub proof fn law_files_are_marked_by_what_became_of_them(status: GitChangeStatus, n: usize)
    ensures
        changes::status_mark(status) == 'A' <==> status == GitChangeStatus::Added,
        changes::status_mark(status) == 'D' <==> status == GitChangeStatus::Deleted,
        changes::status_mark(status) == 'M' <==> status == GitChangeStatus::Modified,
        changes::number_text(Some(n)) == strings::decimal(n as nat),
        changes::number_text(None).len() == 0,
{
}

/// A run is shown with its head, marked where it was chosen, and below it its lines, each with its
/// numbers, the mark of its kind and its text.
pub proof fn law_runs_are_shown_line_by_line(
    path: Seq<char>,
    hunk: GitDiffHunk,
    hunks: Seq<(String, String)>,
    i: int,
)
    requires
        0 <= i < hunk.lines@.len(),
    ensures
        ({
            let rows = changes::hunk_rows(path, hunk, hunks);
            let numbers = diff::numbers_at(hunk.header@, hunk.lines@, i);
            &&& rows.len() == hunk.lines@.len() + 1
            &&& rows[0] matches BlockRow::Hunk { header, selected } && header == hunk.header@ && (
            selected <==> exists|k: int|
                0 <= k < hunks.len() && (#[trigger] hunks[k]).0@ == path && hunks[k].1@
                    == hunk.header@)
            &&& rows[i + 1] matches BlockRow::Line { old, new, mark, text } && old
                == changes::number_text(numbers.old) && new == changes::number_text(numbers.new)
                && text == hunk.lines@[i].text@ && (mark == '+' <==> hunk.lines@[i].kind
                == GitDiffLineKind::Add) && (mark == '-' <==> hunk.lines@[i].kind
                == GitDiffLineKind::Remove) && (mark == ' ' <==> hunk.lines@[i].kind
                == GitDiffLineKind::Context)
        }),
{
}

/// A file is shown with how much came and went, and below it its runs in their order, unless it is
/// folded. The files are shown one behind the other.
pub proof fn law_files_are_shown_run_by_run(
    file: GitDiffFile,
    given: Seq<GitDiffHunk>,
    hunk: GitDiffHunk,
    selected: bool,
    hunks: Seq<(String, String)>,
    files: Seq<GitDiffFile>,
    folded: Map<Seq<char>, ()>,
    marked: Map<Seq<char>, ()>,
)
    ensures
        ({
            let closed = changes::file_rows(file, true, selected, hunks);
            let open = changes::file_rows(file, false, selected, hunks);
            &&& closed.len() == 1
            &&& open == closed + changes::all_hunk_rows(file.path@, file.hunks@, hunks)
            &&& closed[0] == (BlockRow::<Seq<char>>::File {
                path: file.path@,
                additions: "+"@ + strings::decimal(file.additions as nat),
                deletions: "-"@ + strings::decimal(file.deletions as nat),
                mark: changes::status_mark(file.status),
                selected,
            })
        }),
        changes::all_hunk_rows(file.path@, given.push(hunk), hunks) == changes::all_hunk_rows(
            file.path@,
            given,
            hunks,
        ) + changes::hunk_rows(file.path@, hunk, hunks),
        changes::all_hunk_rows(file.path@, Seq::empty(), hunks).len() == 0,
        changes::inline_rows(files.push(file), folded, marked, hunks) == changes::inline_rows(
            files,
            folded,
            marked,
            hunks,
        ) + changes::file_rows(
            file,
            folded.contains_key(file.path@),
            marked.contains_key(file.path@),
            hunks,
        ),
        changes::inline_rows(Seq::empty(), folded, marked, hunks).len() == 0,
{
    assert(given.push(hunk).drop_last() =~= given);
    assert(files.push(file).drop_last() =~= files);
}

/// Lines are numbered on from where their run begins: each line that is in a file has the number behind
/// that of the line before it that is, and a line that is not has none.
pub proof fn law_lines_are_numbered_on(header: Seq<char>, lines: Seq<GitDiffLine>, i: int)
    requires
        diff::countable(header, lines),
        0 <= i < lines.len(),
    ensures
        ({
            let here = diff::numbers_at(header, lines, i);
            &&& here.old is None <==> lines[i].kind == GitDiffLineKind::Add
            &&& here.new is None <==> lines[i].kind == GitDiffLineKind::Remove
            &&& i == 0 && here.old is Some ==> here.old->0 == diff::starts(header).0
            &&& i == 0 && here.new is Some ==> here.new->0 == diff::starts(header).1
            &&& i + 1 < lines.len() ==> {
                let next = diff::numbers_at(header, lines, i + 1);
                &&& here.old is Some && next.old is Some ==> next.old->0 == here.old->0 + 1
                &&& here.new is Some && next.new is Some ==> next.new->0 == here.new->0 + 1
            }
        }),
{
    lemma_counted(lines, i);
    if i + 1 < lines.len() {
        lemma_counted(lines, i + 1);
        assert(lines.take(i + 1).drop_last() =~= lines.take(i));
        assert(lines.take(i + 1).last() == lines[i]);
    }
    assert(lines.take(0) =~= Seq::empty());
}

proof fn lemma_counted(lines: Seq<GitDiffLine>, i: int)
    requires
        0 <= i <= lines.len(),
    ensures
        diff::old_lines(lines.take(i)) <= diff::old_lines(lines),
        diff::new_lines(lines.take(i)) <= diff::new_lines(lines),
    decreases lines.len() - i,
{
    if i < lines.len() {
        lemma_counted(lines, i + 1);
        assert(lines.take(i + 1).drop_last() =~= lines.take(i));
    } else {
        assert(lines.take(i) =~= lines);
    }
}

/// A comment on a file names it; one on lines quotes them.
pub proof fn law_comments_say_what_they_are_on(target: CommentTarget, comment: Seq<char>)
    ensures
        target matches CommentTarget::File { path } ==> target.message_text(comment) == path@ + " "@
            + comment,
        target matches CommentTarget::Code { code, .. } ==> target.message_text(comment)
            == "```\n"@ + code@ + "\n```\n"@ + comment,
{
}

/// A machine is shown with its platform, its host, the version that it runs and its agents.
pub proof fn law_machines_are_shown(card: MachineCard, machine: Machine, agents: Seq<Agent>)
    requires
        settings::card_of(card, machine, agents),
    ensures
        card.name@ == machine.name@,
        card.platform@ == machine.os@ + " "@ + machine.arch@,
        card.host@ == machine.hostname@ + " · amux "@ + machine.version@,
        card.agents@ == agents,
{
}

/// A skill can be given to each agent of each machine, in their order, where it is available.
pub proof fn law_skills_are_for_agents_of_machines(
    targets: Seq<(String, Vec<Agent>)>,
    more: (String, Vec<Agent>),
    out: Seq<SkillTarget>,
    k: int,
)
    requires
        settings::targets_match(out, settings::flattened(targets.push(more))),
        0 <= k < more.1@.len(),
    ensures
        settings::flattened(Seq::empty()).len() == 0,
        out.len() == settings::flattened(targets).len() + more.1@.len(),
        ({
            let target = out[settings::flattened(targets).len() + k];
            &&& target.machine@ == more.0@
            &&& target.agent@ == more.1@[k].name@
            &&& target.label@ == more.0@ + " · "@ + more.1@[k].name@
            &&& target.enabled <==> more.1@[k].available
        }),
{
    assert(targets.push(more).drop_last() =~= targets);
    let flat = settings::flattened(targets.push(more));
    let at = settings::flattened(targets).len() + k;
    assert(flat[at] == (more.0@, more.1@[k]));
    assert(settings::target_of(out[at], flat[at].0, flat[at].1));
}

/// A machine is found by its name: the first that has it.
pub proof fn law_machines_are_found_by_their_names(machines: Seq<Machine>, name: Seq<char>)
    ensures
        settings::machine_named(machines, name) is None <==> forall|k: int|
            0 <= k < machines.len() ==> (#[trigger] machines[k]).name@ != name,
        settings::machine_named(machines, name) matches Some(machine) ==> machine.name@ == name
            && machines.contains(machine),
    decreases machines.len(),
{
    if machines.len() > 0 {
        let rest = machines.skip(1);
        law_machines_are_found_by_their_names(rest, name);
        assert forall|k: int| 0 <= k < rest.len() implies rest[k] == #[trigger] machines[k + 1] by {}
        if machines[0].name@ != name {
            match settings::machine_named(rest, name) {
                Some(machine) => {
                    let k = rest.index_of(machine);
                    assert(machines[k + 1] == machine);
                },
                None => {
                    assert forall|k: int| 0 <= k < machines.len() implies (
                    #[trigger] machines[k]).name@ != name by {
                        if k > 0 {
                            assert(rest[k - 1].name@ != name);
                        }
                    }
                },
            }
        } else {
            assert(machines[0].name@ == name);
        }
    }
}

/// How much was chosen is told in files and in runs.
pub proof fn law_what_was_chosen_is_counted(files: nat, hunks: nat)
    ensures
        changes::chosen_text(files, hunks) == "已选 "@ + strings::decimal(files) + " 文件 · "@
            + strings::decimal(hunks) + " 代码块"@,
{
}

} // verus!
