//! The panels with the details, the activities, the plan and the terminals of a session.
use crate::common::api::{Session, Terminal, TerminalState, Workflow};
use crate::common::domain::{
    Activity, SessionPlanEntry, SessionPlanStatus, SessionState,
};
use crate::desktop::sessions::is_busy;
use crate::desktop::state::{Core, OpenView, SessionView};
use crate::desktop::ui;
use crate::desktop::ui::{activity_timestamp, context_usage_text, one_line, truncate};
use crate::strings;
use crate::strings::{decimal_of, is_blank, same};
use crate::table::Table;
use vstd::prelude::*;

verus! {

/// What stands behind a label, with texts of some type.
#[derive(Debug, PartialEq)]
pub enum InfoValue<T> {
    Text(T),
    /// A moment, in milliseconds since 1970.
    Time(u64),
}

/// A label and what stands behind it.
#[derive(Debug, PartialEq)]
pub struct InfoRow<T> {
    pub label: T,
    pub value: InfoValue<T>,
}

/// What a row says.
pub open spec fn row_text(row: InfoRow<String>) -> InfoRow<Seq<char>> {
    InfoRow {
        label: row.label@,
        value: match row.value {
            InfoValue::Text(text) => InfoValue::Text(text@),
            InfoValue::Time(at) => InfoValue::Time(at),
        },
    }
}

/// What rows say.
pub open spec fn rows_text(rows: Seq<InfoRow<String>>) -> Seq<InfoRow<Seq<char>>> {
    rows.map_values(|r: InfoRow<String>| row_text(r))
}

/// A row with a text.
pub open spec fn info(label: Seq<char>, text: Seq<char>) -> InfoRow<Seq<char>> {
    InfoRow { label, value: InfoValue::Text(text) }
}

/// A row with a moment.
pub open spec fn moment(label: Seq<char>, at: u64) -> InfoRow<Seq<char>> {
    InfoRow { label, value: InfoValue::Time(at) }
}

/// What is said of a state.
pub open spec fn state_text(state: SessionState) -> Seq<char> {
    if state == SessionState::Busy {
        "工作中"@
    } else {
        "空闲"@
    }
}

fn state_label(state: SessionState) -> (r: &'static str)
    ensures
        r@ == state_text(state),
{
    if is_busy(state) {
        "工作中"
    } else {
        "空闲"
    }
}

fn add_text(rows: &mut Vec<InfoRow<String>>, label: &str, text: &str)
    ensures
        rows_text(final(rows)@) == rows_text(old(rows)@).push(info(label@, text@)),
{
    rows.push(InfoRow { label: label.to_owned(), value: InfoValue::Text(text.to_owned()) });
    proof {
        assert(rows_text(rows@) =~= rows_text(old(rows)@).push(info(label@, text@)));
    }
}

fn add_moment(rows: &mut Vec<InfoRow<String>>, label: &str, at: u64)
    ensures
        rows_text(final(rows)@) == rows_text(old(rows)@).push(moment(label@, at)),
{
    rows.push(InfoRow { label: label.to_owned(), value: InfoValue::Time(at) });
    proof {
        assert(rows_text(rows@) =~= rows_text(old(rows)@).push(moment(label@, at)));
    }
}

/// The details of a session. Its worktree is there where it has one, and how much of its context is
/// used where that is known.
pub open spec fn session_details(session: Session, size: u64, window: u64) -> Seq<
    InfoRow<Seq<char>>,
> {
    seq![
        info("会话 ID"@, session.id@),
        info("Agent"@, session.agent@),
        info("工作目录"@, session.workspace@),
    ] + (if session.worktree_dir@.len() > 0 {
        seq![info("worktree"@, session.worktree_dir@)]
    } else {
        seq![]
    }) + seq![info("状态"@, state_text(session.state))] + (match ui::usage_text(
        size as nat,
        window as nat,
    ) {
        Some(text) => seq![info("上下文"@, text)],
        None => seq![],
    }) + seq![
        moment("创建时间"@, session.created_at),
        info("机器"@, session.machine@),
        moment("最近活跃"@, session.updated_at),
    ]
}

/// The details of a workflow.
pub open spec fn workflow_details(workflow: Workflow) -> Seq<InfoRow<Seq<char>>> {
    seq![
        info("工作流 ID"@, workflow.id@),
        info("状态"@, state_text(workflow.state)),
        moment("创建时间"@, workflow.created_at),
        moment("最近活跃"@, workflow.updated_at),
        info("计划"@, workflow.plan@),
    ]
}

fn session_info(session: &Session, size: u64, window: u64) -> (r: Vec<InfoRow<String>>)
    ensures
        rows_text(r@) == session_details(*session, size, window),
{
    let mut rows: Vec<InfoRow<String>> = Vec::new();
    add_text(&mut rows, "会话 ID", session.id.as_str());
    add_text(&mut rows, "Agent", session.agent.as_str());
    add_text(&mut rows, "工作目录", session.workspace.as_str());
    if !session.worktree_dir.as_str().is_empty() {
        add_text(&mut rows, "worktree", session.worktree_dir.as_str());
    }
    add_text(&mut rows, "状态", state_label(session.state));
    match context_usage_text(size, window) {
        Some(text) => {
            add_text(&mut rows, "上下文", text.as_str());
        },
        None => {},
    }
    add_moment(&mut rows, "创建时间", session.created_at);
    add_text(&mut rows, "机器", session.machine.as_str());
    add_moment(&mut rows, "最近活跃", session.updated_at);
    proof {
        assert(rows_text(rows@) =~= session_details(*session, size, window));
    }
    rows
}

fn workflow_info(workflow: &Workflow) -> (r: Vec<InfoRow<String>>)
    ensures
        rows_text(r@) == workflow_details(*workflow),
{
    let mut rows: Vec<InfoRow<String>> = Vec::new();
    add_text(&mut rows, "工作流 ID", workflow.id.as_str());
    add_text(&mut rows, "状态", state_label(workflow.state));
    add_moment(&mut rows, "创建时间", workflow.created_at);
    add_moment(&mut rows, "最近活跃", workflow.updated_at);
    add_text(&mut rows, "计划", workflow.plan.as_str());
    proof {
        assert(rows_text(rows@) =~= workflow_details(*workflow));
    }
    rows
}

/// A session of a workflow: its title, or its identity where it has none, and its machine.
pub open spec fn linked_shown(session: Session) -> (Seq<char>, Seq<char>) {
    (
        if strings::blank(session.title@) {
            session.id@
        } else {
            session.title@
        },
        session.machine@,
    )
}

/// The sessions of a workflow say what they are.
pub open spec fn linked_match(rows: Seq<(String, String)>, sessions: Seq<Session>) -> bool {
    &&& rows.len() == sessions.len()
    &&& forall|i: int|
        0 <= i < rows.len() ==> ((#[trigger] rows[i]).0@, rows[i].1@) == linked_shown(sessions[i])
}

/// The panel with the details: of a session, of a workflow with its sessions, or of nothing.
#[derive(Debug, PartialEq)]
pub enum DetailPanel {
    Session(Vec<InfoRow<String>>),
    Workflow {
        rows: Vec<InfoRow<String>>,
        /// How many sessions the workflow has.
        count: String,
        /// The title and the machine of each.
        linked: Vec<(String, String)>,
    },
    Nothing(&'static str),
}

/// The panel with the details.
pub fn detail_panel(view: &OpenView) -> (r: DetailPanel)
    ensures
        match view.session {
            Some(session) => r matches DetailPanel::Session(rows) && rows_text(rows@)
                == session_details(
                session,
                view.detail.context_size,
                view.detail.context_window_size,
            ),
            None => match view.workflow {
                Some(workflow) => r matches DetailPanel::Workflow { rows, count, linked }
                    && rows_text(rows@) == workflow_details(workflow) && count@
                    == strings::decimal(workflow.linked_sessions@.len()) && linked_match(
                    linked@,
                    workflow.linked_sessions@,
                ),
                None => r matches DetailPanel::Nothing(hint) && hint@ == "未选择会话"@,
            },
        },
{
    match &view.session {
        Some(session) => {
            return DetailPanel::Session(
                session_info(session, view.detail.context_size, view.detail.context_window_size),
            );
        },
        None => {},
    }
    match &view.workflow {
        Some(workflow) => {
            let mut linked: Vec<(String, String)> = Vec::new();
            let total: usize = workflow.linked_sessions.len();
            let mut i: usize = 0;
            while i < workflow.linked_sessions.len()
                invariant
                    0 <= i <= workflow.linked_sessions@.len(),
                    linked_match(linked@, workflow.linked_sessions@.take(i as int)),
                decreases workflow.linked_sessions.len() - i,
            {
                let session: &Session = &workflow.linked_sessions[i];
                let name: String = if is_blank(session.title.as_str()) {
                    session.id.clone()
                } else {
                    session.title.clone()
                };
                linked.push((name, session.machine.clone()));
                i = i + 1;
            }
            proof {
                assert(workflow.linked_sessions@.take(i as int) =~= workflow.linked_sessions@);
            }
            DetailPanel::Workflow {
                rows: workflow_info(workflow),
                count: decimal_of(total as u64),
                linked,
            }
        },
        None => DetailPanel::Nothing("未选择会话"),
    }
}

/// What an activity is, and what it is about.
pub open spec fn kind_and_detail(activity: Activity) -> (Seq<char>, Seq<char>) {
    match activity {
        Activity::Thinking { thinking, .. } => ("思考"@, thinking@),
        Activity::ToolCall { tool_name, title, .. } => (
            "工具"@,
            if title is Some && title->0@.len() > 0 {
                tool_name@ + " · "@ + title->0@
            } else {
                tool_name@
            },
        ),
        Activity::Error { error, .. } => ("错误"@, error@),
    }
}

/// What an activity is, and what it is about.
pub fn activity_kind_detail(activity: &Activity) -> (r: (String, String))
    ensures
        (r.0@, r.1@) == kind_and_detail(*activity),
{
    match activity {
        Activity::Thinking { thinking, .. } => ("思考".to_owned(), thinking.clone()),
        Activity::ToolCall { tool_name, title, .. } => {
            let mut detail: String = tool_name.clone();
            match title {
                Some(title) => {
                    if !title.as_str().is_empty() {
                        detail.append(" · ");
                        detail.append(title.as_str());
                    }
                },
                None => {},
            }
            ("工具".to_owned(), detail)
        },
        Activity::Error { error, .. } => ("错误".to_owned(), error.clone()),
    }
}

/// An activity in one line is what it is, a colon, and what it is about.
pub proof fn law_activity_line_has_both_parts(activity: Activity)
    ensures
        ui::activity_text(activity) == kind_and_detail(activity).0 + "："@ + kind_and_detail(
            activity,
        ).1,
{
    reveal_strlit("思考：");
    reveal_strlit("工具：");
    reveal_strlit("错误：");
    reveal_strlit("思考");
    reveal_strlit("工具");
    reveal_strlit("错误");
    reveal_strlit("：");
    let (kind, detail) = kind_and_detail(activity);
    match activity {
        Activity::Thinking { .. } => {
            assert("思考："@ =~= kind + "："@);
        },
        Activity::ToolCall { .. } => {
            assert("工具："@ =~= kind + "："@);
        },
        Activity::Error { .. } => {
            assert("错误："@ =~= kind + "："@);
        },
    }
    assert(ui::activity_text(activity) =~= kind + "："@ + detail);
}

/// When an activity was made.
pub open spec fn made_at(activity: Activity) -> u64 {
    match activity {
        Activity::Thinking { timestamp, .. } => timestamp,
        Activity::ToolCall { timestamp, .. } => timestamp,
        Activity::Error { timestamp, .. } => timestamp,
    }
}

/// The name under which it is kept whether an activity is unfolded.
pub open spec fn fold_key(activity: Activity) -> Seq<char> {
    strings::decimal(made_at(activity) as nat) + "-"@ + kind_and_detail(activity).0
}

/// An activity: unfolded in full, else in one line.
#[derive(Debug, PartialEq)]
pub struct ActivityRow {
    pub key: String,
    pub timestamp: u64,
    pub expanded: bool,
    pub kind: String,
    pub detail: String,
}

/// The row is that of an activity.
pub open spec fn row_of(row: ActivityRow, activity: Activity, expanded: Map<Seq<char>, ()>) -> bool {
    &&& row.key@ == fold_key(activity)
    &&& row.timestamp == made_at(activity)
    &&& row.expanded == expanded.contains_key(fold_key(activity))
    &&& row.kind@ == kind_and_detail(activity).0
    &&& row.detail@ == if row.expanded {
        kind_and_detail(activity).1
    } else {
        strings::collapsed(kind_and_detail(activity).1)
    }
}

/// The row of an activity.
pub fn activity_row(activity: &Activity, expanded: &Table<()>) -> (r: ActivityRow)
    ensures
        row_of(r, *activity, expanded@),
{
    let timestamp: u64 = activity_timestamp(activity);
    let (kind, detail) = activity_kind_detail(activity);
    let mut key: String = decimal_of(timestamp);
    key.append("-");
    key.append(kind.as_str());
    let is_expanded: bool = expanded.contains(key.as_str());
    let detail: String = if is_expanded {
        detail
    } else {
        one_line(detail.as_str())
    };
    ActivityRow { key, timestamp, expanded: is_expanded, kind, detail }
}

/// The panel with the activities, or what is said where there are none.
pub fn activities_panel(detail: &SessionView, expanded: &Table<()>) -> (r: (
    Vec<ActivityRow>,
    Option<&'static str>,
))
    ensures
        r.0@.len() == detail.activities@.len(),
        forall|i: int|
            0 <= i < r.0@.len() ==> row_of(#[trigger] r.0@[i], detail.activities@[i], expanded@),
        detail.activities@.len() == 0 ==> r.1 is Some && r.1->0@ == "暂无活动"@,
        detail.activities@.len() > 0 ==> r.1 is None,
{
    let mut rows: Vec<ActivityRow> = Vec::new();
    let mut i: usize = 0;
    while i < detail.activities.len()
        invariant
            0 <= i <= detail.activities@.len(),
            rows@.len() == i,
            forall|k: int|
                0 <= k < i ==> row_of(#[trigger] rows@[k], detail.activities@[k], expanded@),
        decreases detail.activities.len() - i,
    {
        rows.push(activity_row(&detail.activities[i], expanded));
        i = i + 1;
    }
    let hint: Option<&'static str> = if detail.activities.len() == 0 {
        Some("暂无活动")
    } else {
        None
    };
    (rows, hint)
}

/// The mark of an entry of a plan.
pub open spec fn mark_of(status: SessionPlanStatus) -> char {
    match status {
        SessionPlanStatus::Completed => '✓',
        SessionPlanStatus::InProgress => '●',
        SessionPlanStatus::Pending => '○',
    }
}

/// An entry of a plan with its mark, and whether it is done.
#[derive(Debug, PartialEq)]
pub struct PlanRow {
    pub mark: char,
    pub content: String,
    pub done: bool,
}

/// The panel with the plan.
pub fn plan_panel(plan: &Vec<SessionPlanEntry>) -> (r: Vec<PlanRow>)
    ensures
        r@.len() == plan@.len(),
        forall|i: int|
            0 <= i < r@.len() ==> (#[trigger] r@[i]).mark == mark_of(plan@[i].status)
                && r@[i].content@ == plan@[i].content@ && r@[i].done == (plan@[i].status
                == SessionPlanStatus::Completed),
{
    let mut rows: Vec<PlanRow> = Vec::new();
    let mut i: usize = 0;
    while i < plan.len()
        invariant
            0 <= i <= plan@.len(),
            rows@.len() == i,
            forall|k: int|
                0 <= k < i ==> (#[trigger] rows@[k]).mark == mark_of(plan@[k].status)
                    && rows@[k].content@ == plan@[k].content@ && rows@[k].done == (plan@[k].status
                    == SessionPlanStatus::Completed),
        decreases plan.len() - i,
    {
        let mark: char = match plan[i].status {
            SessionPlanStatus::Completed => '✓',
            SessionPlanStatus::InProgress => '●',
            SessionPlanStatus::Pending => '○',
        };
        rows.push(
            PlanRow {
                mark,
                content: plan[i].content.clone(),
                done: plan[i].status == SessionPlanStatus::Completed,
            },
        );
        i = i + 1;
    }
    rows
}

/// A terminal that can be chosen.
#[derive(Debug, PartialEq)]
pub struct TerminalTab {
    pub id: String,
    pub title: String,
    pub selected: bool,
}

/// What is written on a terminal.
pub open spec fn tab_title(terminal: Terminal) -> Seq<char> {
    ui::shortened(terminal.id@, 12) + " "@ + (match terminal.state {
        TerminalState::Running => "运行中"@,
        TerminalState::Exited => "已退出"@,
    })
}

/// The tab is that of a terminal.
pub open spec fn tab_of(tab: TerminalTab, terminal: Terminal, active: Option<String>) -> bool {
    &&& tab.id@ == terminal.id@
    &&& tab.title@ == tab_title(terminal)
    &&& tab.selected == (active matches Some(id) && id@ == terminal.id@)
}

/// The tab of a terminal.
pub fn terminal_tab(terminal: &Terminal, active: &Option<String>) -> (r: TerminalTab)
    ensures
        tab_of(r, *terminal, *active),
{
    let mut title: String = truncate(terminal.id.as_str(), 12);
    title.append(" ");
    match terminal.state {
        TerminalState::Running => {
            title.append("运行中");
        },
        TerminalState::Exited => {
            title.append("已退出");
        },
    }
    let selected: bool = match active {
        Some(id) => same(id.as_str(), terminal.id.as_str()),
        None => false,
    };
    TerminalTab { id: terminal.id.clone(), title, selected }
}

/// The panel with the terminals: their tabs, whether a new one can be opened, and what is said where
/// there is none.
#[derive(Debug, PartialEq)]
pub struct TerminalPanel {
    pub tabs: Vec<TerminalTab>,
    pub can_open: bool,
    pub hint: Option<&'static str>,
}

/// The panel with the terminals.
pub fn terminal_panel(core: &Core) -> (r: TerminalPanel)
    ensures
        r.tabs@.len() == core.view.detail.terminals@.len(),
        forall|i: int|
            0 <= i < r.tabs@.len() ==> tab_of(
                #[trigger] r.tabs@[i],
                core.view.detail.terminals@[i],
                core.view.detail.active_terminal,
            ),
        r.can_open == (core.view.session is Some),
        core.view.detail.terminals@.len() > 0 ==> r.hint is None,
        core.view.detail.terminals@.len() == 0 ==> r.hint is Some && r.hint->0@
            == if core.view.session is Some {
            "暂无终端，点击 + 新建"@
        } else {
            "未选择会话"@
        },
{
    let mut tabs: Vec<TerminalTab> = Vec::new();
    let mut i: usize = 0;
    while i < core.view.detail.terminals.len()
        invariant
            0 <= i <= core.view.detail.terminals@.len(),
            tabs@.len() == i,
            forall|k: int|
                0 <= k < i ==> tab_of(
                    #[trigger] tabs@[k],
                    core.view.detail.terminals@[k],
                    core.view.detail.active_terminal,
                ),
        decreases core.view.detail.terminals.len() - i,
    {
        tabs.push(terminal_tab(&core.view.detail.terminals[i], &core.view.detail.active_terminal));
        i = i + 1;
    }
    let can_open: bool = core.view.session.is_some();
    let hint: Option<&'static str> = if core.view.detail.terminals.len() > 0 {
        None
    } else if can_open {
        Some("暂无终端，点击 + 新建")
    } else {
        Some("未选择会话")
    };
    TerminalPanel { tabs, can_open, hint }
}

} // verus!
