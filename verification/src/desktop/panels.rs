//! What the list of sessions and the panels at the side show, row by row.
pub mod changes;
pub mod details;
pub mod laws;
pub mod workspace;

use super::sessions::is_busy;
use super::state;
use super::state::{Core, ListEntry, OpenTarget, SidePanel};
use super::ui;
use super::ui::short_cwd;
use crate::common::api::{Session, Workflow};
use crate::common::domain::SessionState;
use crate::strings;
use crate::strings::{is_blank, same};
use crate::table::Table;
use vstd::prelude::*;

verus! {

/// A row of the list of sessions, with texts of some type.
#[derive(Debug, PartialEq)]
pub enum ListRow<T> {
    /// The title is being changed.
    Rename { id: T },
    Session {
        id: T,
        title: T,
        /// It belongs to the workflow above it.
        linked: bool,
        selected: bool,
        /// When it changed last, where that is known.
        changed: Option<u64>,
        busy: bool,
    },
    Workflow {
        id: T,
        title: T,
        /// Its sessions are shown below it.
        expanded: bool,
        selected: bool,
        changed: Option<u64>,
        busy: bool,
    },
}

/// What a row says.
pub open spec fn row_text(row: ListRow<String>) -> ListRow<Seq<char>> {
    match row {
        ListRow::Rename { id } => ListRow::Rename { id: id@ },
        ListRow::Session { id, title, linked, selected, changed, busy } => ListRow::Session {
            id: id@,
            title: title@,
            linked,
            selected,
            changed,
            busy,
        },
        ListRow::Workflow { id, title, expanded, selected, changed, busy } => ListRow::Workflow {
            id: id@,
            title: title@,
            expanded,
            selected,
            changed,
            busy,
        },
    }
}

/// What rows say.
pub open spec fn rows_text(rows: Seq<ListRow<String>>) -> Seq<ListRow<Seq<char>>> {
    rows.map_values(|r: ListRow<String>| row_text(r))
}

/// What a session is called: by its title, else by its directory.
pub open spec fn called(title: Seq<char>, workspace: Seq<char>) -> Seq<char> {
    if !strings::blank(title) {
        title
    } else if strings::blank(workspace) {
        "未命名会话"@
    } else {
        "（未命名）"@ + ui::last_part(workspace)
    }
}

/// What a session is called.
pub fn session_title(title: &str, workspace: &str) -> (r: String)
    ensures
        r@ == called(title@, workspace@),
{
    if !is_blank(title) {
        return title.to_owned();
    }
    if is_blank(workspace) {
        return "未命名会话".to_owned();
    }
    let mut r: String = "（未命名）".to_owned();
    r.append(short_cwd(workspace).as_str());
    r
}

/// What a workflow is called.
pub fn workflow_title(title: &str) -> (r: String)
    ensures
        r@ == if strings::blank(title@) {
            "未命名工作流"@
        } else {
            title@
        },
{
    if is_blank(title) {
        "未命名工作流".to_owned()
    } else {
        title.to_owned()
    }
}

/// A time is shown unless it is not known.
pub open spec fn known(at: u64) -> Option<u64> {
    if at > 0 {
        Some(at)
    } else {
        None
    }
}

fn known_time(at: u64) -> (r: Option<u64>)
    ensures
        r == known(at),
{
    if at > 0 {
        Some(at)
    } else {
        None
    }
}

/// The title of an entry is being changed.
pub open spec fn renamed(renaming: Option<String>, id: Seq<char>) -> bool {
    renaming matches Some(one) && one@ == id
}

fn is_renamed(renaming: &Option<String>, id: &str) -> (r: bool)
    ensures
        r == renamed(*renaming, id@),
{
    match renaming {
        Some(one) => same(one.as_str(), id),
        None => false,
    }
}

/// The row of a session.
pub open spec fn session_shown(
    session: Session,
    linked: bool,
    open: Option<OpenTarget>,
    renaming: Option<String>,
) -> ListRow<Seq<char>> {
    if renamed(renaming, session.id@) {
        ListRow::Rename { id: session.id@ }
    } else {
        ListRow::Session {
            id: session.id@,
            title: called(session.title@, session.workspace@),
            linked,
            selected: open matches Some(OpenTarget::Session(id)) && id@ == session.id@,
            changed: known(session.updated_at),
            busy: session.state == SessionState::Busy,
        }
    }
}

/// The row of a session.
pub fn session_row(
    session: &Session,
    linked: bool,
    open: &Option<OpenTarget>,
    renaming: &Option<String>,
) -> (r: ListRow<String>)
    ensures
        row_text(r) == session_shown(*session, linked, *open, *renaming),
{
    if is_renamed(renaming, session.id.as_str()) {
        return ListRow::Rename { id: session.id.clone() };
    }
    let selected: bool = match open {
        Some(OpenTarget::Session(id)) => same(id.as_str(), session.id.as_str()),
        _ => false,
    };
    ListRow::Session {
        id: session.id.clone(),
        title: session_title(session.title.as_str(), session.workspace.as_str()),
        linked,
        selected,
        changed: known_time(session.updated_at),
        busy: is_busy(session.state),
    }
}

/// The rows of a workflow: its own, and where it is expanded those of its sessions. While its title
/// is being changed there is nothing but that.
pub open spec fn workflow_shown(
    workflow: Workflow,
    open: Option<OpenTarget>,
    renaming: Option<String>,
    expanded: Map<Seq<char>, ()>,
) -> Seq<ListRow<Seq<char>>> {
    if renamed(renaming, workflow.id@) {
        seq![ListRow::Rename { id: workflow.id@ }]
    } else {
        let head = ListRow::Workflow {
            id: workflow.id@,
            title: if strings::blank(workflow.title@) {
                "未命名工作流"@
            } else {
                workflow.title@
            },
            expanded: expanded.contains_key(workflow.id@),
            selected: open matches Some(OpenTarget::Workflow(id)) && id@ == workflow.id@,
            changed: known(workflow.updated_at),
            busy: workflow.state == SessionState::Busy,
        };
        if expanded.contains_key(workflow.id@) {
            seq![head] + workflow.linked_sessions@.map_values(
                |s: Session| session_shown(s, true, open, renaming),
            )
        } else {
            seq![head]
        }
    }
}

/// The rows of a workflow.
pub fn workflow_row(
    workflow: &Workflow,
    open: &Option<OpenTarget>,
    renaming: &Option<String>,
    expanded: &Table<()>,
) -> (r: Vec<ListRow<String>>)
    ensures
        rows_text(r@) == workflow_shown(*workflow, *open, *renaming, expanded@),
{
    let mut rows: Vec<ListRow<String>> = Vec::new();
    if is_renamed(renaming, workflow.id.as_str()) {
        rows.push(ListRow::Rename { id: workflow.id.clone() });
        proof {
            assert(rows_text(rows@) =~= workflow_shown(*workflow, *open, *renaming, expanded@));
        }
        return rows;
    }
    let selected: bool = match open {
        Some(OpenTarget::Workflow(id)) => same(id.as_str(), workflow.id.as_str()),
        _ => false,
    };
    let is_expanded: bool = expanded.contains(workflow.id.as_str());
    rows.push(
        ListRow::Workflow {
            id: workflow.id.clone(),
            title: workflow_title(workflow.title.as_str()),
            expanded: is_expanded,
            selected,
            changed: known_time(workflow.updated_at),
            busy: is_busy(workflow.state),
        },
    );
    if !is_expanded {
        proof {
            assert(rows_text(rows@) =~= workflow_shown(*workflow, *open, *renaming, expanded@));
        }
        return rows;
    }
    let ghost all = workflow.linked_sessions@;
    let ghost shown = all.map_values(|s: Session| session_shown(s, true, *open, *renaming));
    let ghost head = row_text(rows@[0]);
    let mut i: usize = 0;
    proof {
        assert(rows_text(rows@) =~= seq![head] + shown.take(0));
    }
    while i < workflow.linked_sessions.len()
        invariant
            0 <= i <= all.len(),
            all == workflow.linked_sessions@,
            shown == all.map_values(|s: Session| session_shown(s, true, *open, *renaming)),
            rows_text(rows@) == seq![head] + shown.take(i as int),
        decreases all.len() - i,
    {
        let ghost before = rows@;
        rows.push(session_row(&workflow.linked_sessions[i], true, open, renaming));
        proof {
            assert(rows_text(rows@) =~= rows_text(before).push(row_text(rows@.last())));
            assert(shown.take(i + 1) =~= shown.take(i as int).push(shown[i as int]));
            assert(rows_text(rows@) =~= seq![head] + shown.take(i + 1));
        }
        i = i + 1;
    }
    proof {
        assert(shown.take(i as int) =~= shown);
    }
    rows
}

/// The rows of an entry of the list.
pub open spec fn entry_shown(
    entry: ListEntry,
    open: Option<OpenTarget>,
    renaming: Option<String>,
    expanded: Map<Seq<char>, ()>,
) -> Seq<ListRow<Seq<char>>> {
    match entry {
        ListEntry::Session(session) => seq![session_shown(session, false, open, renaming)],
        ListEntry::Workflow(workflow) => workflow_shown(workflow, open, renaming, expanded),
    }
}

/// The rows of the list.
pub open spec fn list_shown(
    entries: Seq<ListEntry>,
    open: Option<OpenTarget>,
    renaming: Option<String>,
    expanded: Map<Seq<char>, ()>,
) -> Seq<ListRow<Seq<char>>>
    decreases entries.len(),
{
    if entries.len() == 0 {
        Seq::empty()
    } else {
        list_shown(entries.drop_last(), open, renaming, expanded) + entry_shown(
            entries.last(),
            open,
            renaming,
            expanded,
        )
    }
}

/// The list of sessions: its rows, and what is said where there are none.
#[derive(Debug, PartialEq)]
pub struct Sidebar {
    pub rows: Vec<ListRow<String>>,
    pub hint: Option<&'static str>,
}

/// The list of sessions.
pub fn render_sidebar(core: &Core, renaming: &Option<String>) -> (r: Sidebar)
    ensures
        rows_text(r.rows@) == list_shown(
            core.entries@,
            core.open,
            *renaming,
            core.expanded_workflows@,
        ),
        core.entries@.len() == 0 ==> r.hint is Some && r.hint->0@ == "暂无会话"@,
        core.entries@.len() > 0 ==> r.hint is None,
{
    let ghost all = core.entries@;
    let mut rows: Vec<ListRow<String>> = Vec::new();
    let mut i: usize = 0;
    proof {
        assert(all.take(0) =~= Seq::empty());
        assert(rows_text(rows@) =~= Seq::empty());
    }
    while i < core.entries.len()
        invariant
            0 <= i <= all.len(),
            all == core.entries@,
            rows_text(rows@) == list_shown(
                all.take(i as int),
                core.open,
                *renaming,
                core.expanded_workflows@,
            ),
        decreases all.len() - i,
    {
        let ghost before = rows@;
        proof {
            assert(all.take(i + 1).drop_last() =~= all.take(i as int));
            assert(all.take(i + 1).last() == all[i as int]);
        }
        match &core.entries[i] {
            ListEntry::Session(session) => {
                rows.push(session_row(session, false, &core.open, renaming));
                proof {
                    assert(rows_text(rows@) =~= rows_text(before) + seq![row_text(rows@.last())]);
                }
            },
            ListEntry::Workflow(workflow) => {
                let mut more: Vec<ListRow<String>> = workflow_row(
                    workflow,
                    &core.open,
                    renaming,
                    &core.expanded_workflows,
                );
                let ghost added = more@;
                rows.append(&mut more);
                proof {
                    assert(rows@ =~= before + added);
                    assert(rows_text(rows@) =~= rows_text(before) + rows_text(added));
                }
            },
        }
        i = i + 1;
    }
    proof {
        assert(all.take(i as int) =~= all);
    }
    let hint: Option<&'static str> = if core.entries.len() == 0 {
        Some("暂无会话")
    } else {
        None
    };
    Sidebar { rows, hint }
}

/// The buttons that open the panels of the open session, and which of them is open.
pub fn render_rail(core: &Core) -> (r: Vec<(SidePanel, bool)>)
    ensures
        r@ == state::panels().filter(|p: SidePanel| p.fits(core.on_workflow())).map_values(
            |p: SidePanel| (p, core.side_panel == Some(p)),
        ),
{
    let panels: Vec<SidePanel> = SidePanel::for_session(core.is_workflow());
    let ghost shown = panels@.map_values(|p: SidePanel| (p, core.side_panel == Some(p)));
    let mut out: Vec<(SidePanel, bool)> = Vec::new();
    let mut i: usize = 0;
    while i < panels.len()
        invariant
            0 <= i <= panels@.len(),
            shown == panels@.map_values(|p: SidePanel| (p, core.side_panel == Some(p))),
            out@ == shown.take(i as int),
        decreases panels.len() - i,
    {
        let panel: SidePanel = panels[i];
        let active: bool = match core.side_panel {
            Some(open) => open == panel,
            None => false,
        };
        out.push((panel, active));
        proof {
            assert(out@ =~= shown.take(i + 1));
        }
        i = i + 1;
    }
    proof {
        assert(shown.take(i as int) =~= shown);
    }
    out
}

/// What is written over a panel.
pub fn panel_header(panel: SidePanel) -> (r: &'static str)
    ensures
        r@ == match panel {
            SidePanel::Workspace => "工作目录"@,
            SidePanel::Diff => "改动审查"@,
            SidePanel::Detail => "会话详情"@,
            SidePanel::Activities => "会话活动历史"@,
            SidePanel::Plan => "会话计划"@,
            SidePanel::Terminal => "终端"@,
        },
{
    match panel {
        SidePanel::Activities => "会话活动历史",
        SidePanel::Diff => "改动审查",
        _ => panel.label(),
    }
}

} // verus!
