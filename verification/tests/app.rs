//! What the windows show and what the user's actions do.

use amux::common::api::{
    Agent, ApiFormat, ConfigureSessionRequest, ConfigureWorkflowRequest, Machine, OrchestratorConfig, Project, QuickCommand, RecentWorkspace, Session,
    Skill, Workflow, WorkflowPlanItem, ContextInfo,
};
use amux::common::domain::{
    Activity, ContentBlock, FsEntry, GitChangeStatus, GitDiffFile, GitDiffHunk, GitDiffLine,
    GitDiffLineKind, GitDiffResult, HistoryItem, SessionConfigKind, SessionConfigOption,
    SessionConfigOptionValue, SessionConfigSelectEntry, SessionPlanEntry, SessionPlanPriority,
    SessionPlanStatus, SessionState, SlashCommand,
};
use amux::desktop::app::browse::{
    context_refreshed, diff_refreshed, file_read, load_workspace, refresh_context, refresh_diff,
    toggle_project_group, toggle_set, toggle_workflow, toggle_workspace_dir, wants_more_unassigned,
    workspace_dir_loaded, workspace_loaded,
};
use amux::desktop::app::composer::{
    apply_config_option, blocks_sent, cancel, cancelled, effect_of, option_applied, query_of,
    send_blocks, send_quick_command, DroppedPath, Pasted, SlashEffect, SlashKey,
};
use amux::desktop::app::creation::{
    create_session, delete_recent_workspace, session_created, set_plan, suggestions_listed,
    Creation,
};
use amux::desktop::app::entries::{
    agent_restarted, configure_project, configure_title, confirm_delete, delete_entry, entered_connection, entry_deleted,
    rediscover, rediscovered, rename, restart_agent,
};
use amux::desktop::app::forms::{
    delete_project, edited, empty_orchestrator_config, list_saved, move_project, open_new_form,
    open_quick_command_form, open_skill_form, orchestrator_saved, project_created,
    project_deletion, reorder_project,
    save_list, save_plan, save_project, save_quick_command, save_skill, without,
    OrchestratorFields, ProjectSave, SettingsList,
};
use amux::desktop::app::{
    load_view_data, sync_list_paging, sync_view_data, AmuxApp, ListInView, PagingWanted,
    PanelNeeds,
};
use amux::desktop::client::Body;
use amux::desktop::config::Connection;
use amux::desktop::dialog::{confirm, FormTarget, CANCEL_TEXT};
use amux::desktop::diff::{CommentTarget, LineRef};
use amux::desktop::login::{page, render, Page};
use amux::desktop::panels::changes::{
    all_collapsed, diff_file_block, diff_footer, diff_inline, diff_review, diff_tree,
    number_gutter, BlockRow, ChangeRow,
};
use amux::desktop::panels::details::{
    activities_panel, activity_kind_detail, detail_panel, plan_panel, terminal_panel, DetailPanel,
    InfoValue,
};
use amux::desktop::panels::workspace::{workspace_nodes, workspace_panel, Shown, TreeRow};
use amux::desktop::panels::{
    panel_header, render_rail, render_sidebar, session_row, session_title, workflow_row,
    workflow_title, ListRow,
};
use amux::desktop::poll::{self, Fetch};
use amux::desktop::sessions::{
    activity_bar, agent_selector, attachment_labels, config_option_menu, config_value_label, dialog,
    direct_form,
    machine_agent_available, machine_selector, quick_buttons, quick_label, recent_workspaces,
    rows_in_view, select_machine, session_view, slash_menu, suggestion_value, toggle_project,
    workflow_form, AgentChoices, DirectForm, WorkflowForm,
};
use amux::desktop::settings::{
    api_formats, confirm_rediscover, empty_hint, format_index, machines_tab, manage_skill,
    project_moves, quick_command_scope, skill_prompt, skill_prompt_sent, skill_session_created,
    skill_target_card, skill_targets, tab_action, tab_heading, SkillTask,
};
use amux::desktop::state::tree::{NodeChange, WorkspaceNode};
use amux::desktop::state::{
    matching_prefix, ConnectionStatus, Core, ListEntry, NoteLevel, OpenTarget, Paging, SettingsTab,
    SidePanel,
};
use amux::desktop::terminal_view::grid::Rgb;
use amux::desktop::theme;
use amux::table::Table;

fn connection() -> Connection {
    Connection { server: "http://s".into(), token: "t".into() }
}

fn online() -> AmuxApp {
    let mut app = AmuxApp::new(connection());
    app.core.status = ConnectionStatus::Online;
    app
}

fn session(id: &str) -> Session {
    Session {
        id: id.into(),
        machine: "pc".into(),
        agent: "codex".into(),
        title: String::new(),
        state: SessionState::Idle,
        project: None,
        workspace: "/home/me/project".into(),
        worktree_dir: String::new(),
        created_at: 1,
        updated_at: 2,
    }
}

fn workflow(id: &str) -> Workflow {
    Workflow {
        id: id.into(),
        title: String::new(),
        state: SessionState::Busy,
        plan: "do".into(),
        project: None,
        created_at: 1,
        updated_at: 3,
        linked_sessions: vec![session("linked")],
    }
}

/// An app with session `s1` open.
fn opened() -> AmuxApp {
    let mut app = online();
    app.core.entries = vec![ListEntry::Session(session("s1")), ListEntry::Workflow(workflow("w1"))];
    poll::open_session(&mut app.core, "s1");
    app.core.view.session = Some(session("s1"));
    app
}

fn machine(name: &str) -> Machine {
    Machine {
        name: name.into(),
        os: "linux".into(),
        arch: "x86_64".into(),
        hostname: "host".into(),
        temp_dir: "/tmp".into(),
        version: "0.1.0".into(),
    }
}

fn with_machine(core: &mut Core) {
    poll::refresh_machines(
        core,
        vec![machine("pc")],
        vec![Ok(vec![Agent { name: "codex".into(), available: true }])],
    );
}

fn names_of(set: &Table<()>) -> Vec<String> {
    (0..set.len()).map(|i| set.at(i).0.to_string()).collect()
}

#[test]
fn a_view_is_fetched_for_once() {
    let mut app = online();
    let first = load_view_data(&mut app.core);
    assert!(first.contains(&Fetch::Machines));
    assert!(sync_view_data(&mut app.core).is_empty());
    poll::open_session(&mut app.core, "s1");
    assert!(sync_view_data(&mut app.core).contains(&Fetch::QuickCommands));
    assert!(sync_view_data(&mut app.core).is_empty());
}

#[test]
fn lists_are_paged_by_what_is_in_view() {
    let mut paging = Paging::default();
    paging.has_older = true;
    let (_, wanted) = sync_list_paging(&mut paging, 40, true, 0, 20, 20);
    assert!(wanted);
    let mut still = Paging::default();
    let (_, wanted) = sync_list_paging(&mut still, 40, true, 0, 20, 20);
    assert!(!wanted, "nothing is older");
    paging.shift = Some(3);
    let (shift, _) = sync_list_paging(&mut paging, 40, true, 10, 30, 20);
    assert_eq!(shift, Some(3));
    assert_eq!(paging.shift, None);
}

#[test]
fn following_the_views_fetches_what_is_older() {
    let mut app = opened();
    app.dialog_scroll_on_entry = false;
    let detail = &mut app.core.view.detail;
    detail.history = vec![HistoryItem::UserMessage {
        id: "1".into(),
        content: vec![ContentBlock::Text { text: "q".into() }],
        timestamp: 1,
    }];
    detail.history_paging.has_older = true;
    detail.history_paging.shift = Some(2);
    detail.activities_paging.shift = Some(4);
    let view = ListInView { top: 0, bottom: 1, page_size: 7 };
    assert_eq!(
        app.sync_paging(true, view, view),
        PagingWanted {
            unassigned: false,
            history: true,
            history_shift: Some(2),
            activities: false,
            activities_shift: None,
        }
    );
    let detail = &app.core.view.detail;
    assert_eq!(detail.history_paging.page_size, 7);
    assert_eq!(detail.history_paging.shift, None);
    assert_eq!(detail.activities_paging.shift, Some(4), "activities are not shown");
    app.open_side_panel(SidePanel::Activities);
    app.activities_scroll_on_entry = false;
    let wanted = app.sync_paging(true, view, view);
    assert_eq!(wanted.history_shift, None);
    assert_eq!(wanted.activities_shift, Some(4));
    app.dialog_scroll_on_entry = true;
    assert!(!app.sync_paging(true, view, view).history);
}

#[test]
fn settings_open_on_a_tab_and_fetch_it() {
    let mut app = online();
    let (_, fetches) = app.open_settings(Some(SettingsTab::Skills));
    assert!(app.core.settings_open);
    assert_eq!(app.core.settings_tab, SettingsTab::Skills);
    assert!(fetches.contains(&Fetch::Skills));
    let (_, fetches) = app.select_settings_tab(SettingsTab::Machines);
    assert!(fetches.contains(&Fetch::Machines));
    app.close_settings();
    assert!(!app.core.settings_open);
}

#[test]
fn entries_are_opened_and_renamed() {
    let mut app = opened();
    app.open_entry("w1");
    assert_eq!(app.core.open, Some(OpenTarget::Workflow("w1".into())));
    assert!(app.core.is_workflow());
    app.open_new_session();
    assert_eq!(app.core.open, None);
    app.begin_rename("s1");
    assert_eq!(app.renaming_id.as_deref(), Some("s1"));
    assert_eq!(
        app.commit_rename(" new "),
        Some((OpenTarget::Session("s1".into()), "new".into()))
    );
    assert_eq!(app.renaming_id, None);
    app.begin_rename("s1");
    assert_eq!(app.commit_rename("  "), None);
    app.begin_rename("s1");
    app.cancel_rename();
    assert_eq!(app.commit_rename("x"), None);
    rename(&mut app.core, Err("no".into()));
    assert_eq!(app.core.next_note().unwrap().level, NoteLevel::Error);
}

#[test]
fn panels_are_toggled_and_ask_for_their_data() {
    let mut app = opened();
    assert_eq!(app.toggle_side_panel(SidePanel::Diff), PanelNeeds::Changes);
    assert_eq!(app.core.side_panel, Some(SidePanel::Diff));
    assert_eq!(app.toggle_side_panel(SidePanel::Diff), PanelNeeds::Nothing);
    assert_eq!(app.core.side_panel, None);
    assert_eq!(app.open_side_panel(SidePanel::Workspace), PanelNeeds::Workspace);
    assert_eq!(app.open_side_panel(SidePanel::Terminal), PanelNeeds::Terminals);
    assert_eq!(app.open_side_panel(SidePanel::Detail), PanelNeeds::Context);
}

#[test]
fn sidebar_lists_entries_with_their_linked_sessions() {
    let mut app = opened();
    let side = render_sidebar(&app.core, &None);
    assert_eq!(side.rows.len(), 2);
    assert_eq!(side.hint, None);
    toggle_workflow(&mut app.core, "w1");
    assert_eq!(render_sidebar(&app.core, &None).rows.len(), 3);
    let row = session_row(&session("s1"), false, &app.core.open, &None);
    assert_eq!(
        row,
        ListRow::Session {
            id: "s1".into(),
            title: session_title("", "/home/me/project"),
            linked: false,
            selected: true,
            changed: Some(2),
            busy: false,
        }
    );
    let rows = workflow_row(&workflow("w1"), &None, &Some("w1".into()), &Table::new());
    assert_eq!(rows, [ListRow::Rename { id: "w1".into() }]);
    assert_eq!(session_title("t", "/w"), "t");
    assert_eq!(workflow_title("t"), "t");
    assert!(!workflow_title("").is_empty());
    assert!(render_sidebar(&online().core, &None).hint.is_some());
}

#[test]
fn rail_marks_the_open_panel() {
    let mut app = opened();
    app.open_side_panel(SidePanel::Detail);
    let rail = render_rail(&app.core);
    assert_eq!(rail.len(), 6);
    assert!(rail.iter().all(|(panel, on)| *on == (*panel == SidePanel::Detail)));
    app.open_entry("w1");
    assert!(render_rail(&app.core).len() < 6);
    assert_eq!(panel_header(SidePanel::Plan), SidePanel::Plan.label());
    for panel in SidePanel::all() {
        assert!(panel.default_width() > 0);
        assert!(panel.label().starts_with(panel.short_label()) || !panel.short_label().is_empty());
    }
}

fn entry(path: &str, is_dir: bool) -> FsEntry {
    let name = path.rsplit('/').next().unwrap().to_string();
    FsEntry { name, path: path.into(), is_dir, size: 0 }
}

#[test]
fn workspace_is_browsed_as_a_tree() {
    let mut app = opened();
    assert!(load_workspace(&app.core).unwrap().path.contains("dirsOnly=false")
        || load_workspace(&app.core).unwrap().path.contains("limit=500"));
    workspace_loaded(&mut app.core, Ok(vec![entry("/w/src", true), entry("/w/a.rs", false)]));
    let rows = workspace_nodes(&app.core.view.detail.workspace_tree, &None, 0);
    assert_eq!(
        rows,
        [
            TreeRow::Dir { path: "/w/src".into(), name: "src".into(), depth: 0, expanded: false },
            TreeRow::File { path: "/w/a.rs".into(), name: "a.rs".into(), depth: 0, selected: false },
        ]
    );
    assert!(toggle_workspace_dir(&mut app.core, "/w/src").is_some());
    let rows = workspace_nodes(&app.core.view.detail.workspace_tree, &None, 0);
    assert!(rows.contains(&TreeRow::Loading));
    workspace_dir_loaded(&mut app.core, "/w/src", Ok(vec![entry("/w/src/b.rs", false)]));
    let rows = workspace_nodes(&app.core.view.detail.workspace_tree, &Some("/w/src/b.rs".into()), 0);
    assert_eq!(rows.len(), 3);
    assert_eq!(
        rows[1],
        TreeRow::File { path: "/w/src/b.rs".into(), name: "b.rs".into(), depth: 1, selected: true }
    );
    assert!(toggle_workspace_dir(&mut app.core, "/w/src").is_none());
    let panel = workspace_panel(&app.core, &None, true, true);
    assert!(matches!(panel.tree, Some(Shown::Content(_))));
    assert!(matches!(panel.content, Some(Shown::Hint(_))));
    assert!(app.read_file("pc", "/w/a.rs").is_some());
    file_read(&mut app.core, Ok("text".into()));
    assert_eq!(app.core.view.detail.file_content.as_deref(), Some("text"));
    assert_eq!(WorkspaceNode::find(&app.core.view.detail.workspace_tree, "/w/a.rs"), Some(1));
    let mut nodes = WorkspaceNode::all(vec![entry("/x", true)]);
    assert!(WorkspaceNode::update(&mut nodes, "/x", NodeChange::Toggle));
    assert!(nodes[0].expanded);
    assert!(!WorkspaceNode::update(&mut nodes, "/y", NodeChange::Toggle));
    nodes[0].children = Some(WorkspaceNode::all(vec![entry("/x/b", true)]));
    WorkspaceNode::find_mut(&mut nodes, "/x/b").unwrap().expanded = true;
    assert!(nodes[0].children.as_ref().unwrap()[0].expanded);
    assert!(WorkspaceNode::find_mut(&mut nodes, "/y").is_none());
}

#[test]
fn toggling_twice_restores() {
    let mut set: Table<()> = Table::new();
    toggle_set(&mut set, "a");
    assert_eq!(names_of(&set), ["a"]);
    toggle_set(&mut set, "b");
    toggle_set(&mut set, "b");
    assert_eq!(names_of(&set), ["a"]);
}

#[test]
fn project_groups_fetch_when_they_open() {
    let mut app = opened();
    let before = names_of(&app.core.collapsed_project_groups);
    toggle_project_group(&mut app.core, "p", 20);
    assert_ne!(names_of(&app.core.collapsed_project_groups), before);
    let again = toggle_project_group(&mut app.core, "p", 20);
    assert_eq!(names_of(&app.core.collapsed_project_groups), before);
    assert_eq!(again.map(|fetch| fetch.limit), Some(20));
    assert!(!wants_more_unassigned(&app.core, false));
}

fn diff_file(path: &str) -> GitDiffFile {
    GitDiffFile {
        path: path.into(),
        status: GitChangeStatus::Modified,
        additions: 1,
        deletions: 0,
        patch: String::new(),
        hunks: vec![GitDiffHunk {
            header: "@@ -1,1 +1,2 @@".into(),
            patch: String::new(),
            lines: vec![
                GitDiffLine { kind: GitDiffLineKind::Context, text: "a".into() },
                GitDiffLine { kind: GitDiffLineKind::Add, text: "b".into() },
            ],
        }],
    }
}

fn reviewed() -> AmuxApp {
    let mut app = opened();
    assert!(refresh_diff(&app.core).is_some());
    let result = GitDiffResult { files: vec![diff_file("src/a.rs"), diff_file("b.rs")], not_repo: false };
    diff_refreshed(&mut app.core, Ok(result));
    app
}

#[test]
fn changes_are_shown_as_a_tree_and_as_blocks() {
    let mut app = reviewed();
    let files = app.core.view.detail.diff.as_ref().unwrap().files.clone();
    let rows = diff_tree(&files, &app.diff_collapsed_dirs);
    assert_eq!(
        rows,
        [
            ChangeRow::Dir { key: "src".into(), name: "src".into(), depth: 0, collapsed: false },
            ChangeRow::File { key: "src/a.rs".into(), name: "a.rs".into(), depth: 1, file_ix: 0 },
            ChangeRow::File { key: "b.rs".into(), name: "b.rs".into(), depth: 0, file_ix: 1 },
        ]
    );
    app.toggle_diff_dir("src");
    assert_eq!(diff_tree(&files, &app.diff_collapsed_dirs).len(), 2);
    let block = diff_file_block(&files[0], false, false, &Vec::new());
    assert_eq!(block.len(), 4);
    assert!(matches!(&block[0], BlockRow::File { path, .. } if path == "src/a.rs"));
    assert!(matches!(&block[3], BlockRow::Line { mark: '+', text, .. } if text == "b"));
    assert_eq!(diff_file_block(&files[0], true, false, &Vec::new()).len(), 1);
    assert_eq!(diff_inline(&files, &Table::new(), &Table::new(), &Vec::new()).len(), 8);
    assert_eq!(number_gutter(None).trim(), "");
    assert_eq!(number_gutter(Some(12)).trim(), "12");
    assert!(!all_collapsed(&app.core.view.detail.diff, &app.diff_collapsed_files));
    app.toggle_all_diffs();
    assert!(all_collapsed(&app.core.view.detail.diff, &app.diff_collapsed_files));
    app.toggle_all_diffs();
    assert!(names_of(&app.diff_collapsed_files).is_empty());
    let review = diff_review(&app.core.view.detail.diff, true, &Table::new(), 1, 2);
    assert_eq!(review.hint, None);
    assert_eq!(review.footer, Some(diff_footer(1, 2)));
    assert!(diff_review(&None, true, &Table::new(), 0, 0).hint.is_some());
}

#[test]
fn chosen_lines_are_commented_on() {
    let mut app = reviewed();
    let at = |line| LineRef { path: "src/a.rs".into(), hunk_header: "@@ -1,1 +1,2 @@".into(), line };
    app.begin_diff_line_selection(at(1));
    app.extend_diff_line_selection(at(0));
    app.finish_diff_line_selection(&diff_file("src/a.rs").hunks[0]);
    let Some(CommentTarget::Code { code, .. }) = &app.diff_comment_target else { panic!() };
    assert_eq!(code, " a\n+b");
    let blocks = app.submit_diff_comment("why").unwrap();
    assert_eq!(blocks, [ContentBlock::Text { text: "```\n a\n+b\n```\nwhy".into() }]);
    assert_eq!(app.diff_comment_target, None);
    app.begin_diff_file_comment("b.rs");
    assert_eq!(app.diff_comment_target, Some(CommentTarget::File { path: "b.rs".into() }));
    assert!(app.submit_diff_comment("  ").is_none());
    app.cancel_diff_comment();
    assert_eq!(app.diff_comment_target, None);
}

#[test]
fn details_show_the_session_or_the_workflow() {
    let mut app = opened();
    assert!(refresh_context(&app.core).is_some());
    context_refreshed(&mut app.core, Ok(ContextInfo { context_size: 53000, context_window_size: 200000 }));
    let DetailPanel::Session(rows) = detail_panel(&app.core.view) else { panic!() };
    assert!(rows.iter().any(|row| row.value == InfoValue::Text("53,000 / 200,000 token（26.5%）".into())));
    assert!(rows.iter().any(|row| row.value == InfoValue::Time(2)));
    app.core.view.session = None;
    app.core.view.workflow = Some(workflow("w1"));
    let DetailPanel::Workflow { linked, .. } = detail_panel(&app.core.view) else { panic!() };
    assert_eq!(linked.len(), 1);
    app.core.view.workflow = None;
    assert!(matches!(detail_panel(&app.core.view), DetailPanel::Nothing(_)));
}

#[test]
fn activities_and_plans_are_listed() {
    let mut app = opened();
    let thinking = Activity::Thinking { id: "1".into(), timestamp: 5, thinking: "hm".into() };
    let (kind, detail) = activity_kind_detail(&thinking);
    assert!(!kind.is_empty());
    assert_eq!(detail, "hm");
    app.core.view.detail.activities = vec![thinking.clone()];
    app.toggle_activity("1");
    let (rows, hint) = activities_panel(&app.core.view.detail, &app.expanded_activities);
    assert_eq!(rows.len(), 1);
    assert_eq!(hint, None);
    assert_eq!(rows[0].timestamp, 5);
    app.core.view.detail.activities = Vec::new();
    assert!(activities_panel(&app.core.view.detail, &Table::new()).1.is_some());
    let plan = plan_panel(&vec![
        SessionPlanEntry {
            content: "a".into(),
            priority: SessionPlanPriority::High,
            status: SessionPlanStatus::Completed,
        },
        SessionPlanEntry {
            content: "b".into(),
            priority: SessionPlanPriority::Low,
            status: SessionPlanStatus::Pending,
        },
    ]);
    assert!(plan[0].done && !plan[1].done);
    assert_ne!(plan[0].mark, plan[1].mark);
    assert!(terminal_panel(&app.core).tabs.is_empty());
    let bar = activity_bar(&Some(thinking)).unwrap();
    assert!(!bar.failed && bar.spinner);
    assert_eq!(activity_bar(&None), None);
}

#[test]
fn sessions_are_created_from_the_form() {
    let mut app = online();
    with_machine(&mut app.core);
    assert_eq!(machine_selector(&app.core).len(), 1);
    select_machine(&mut app.core.new_session, "pc");
    assert!(machine_agent_available(&app.core, "pc", "codex"));
    assert!(!machine_agent_available(&app.core, "pc", "other"));
    let AgentChoices::Agents(agents) = agent_selector(&app.core) else { panic!() };
    assert_eq!(agents[0].name, "codex");
    app.core.new_session.agent = Some("codex".into());
    assert_eq!(direct_form(&app.core, "/w"), DirectForm::Form { can_create: true });
    assert_eq!(direct_form(&app.core, ""), DirectForm::Form { can_create: false });
    toggle_project(&mut app.core.new_session, "p");
    assert_eq!(app.core.new_session.project.as_deref(), Some("p"));
    let Some(Creation::Session { request }) = create_session(&app.core, " /w ", "") else {
        panic!()
    };
    let Body::CreateSession(body) = request.body else { panic!() };
    assert_eq!(body.workspace, "/w");
    assert_eq!(body.machine, "pc");
    assert_eq!(body.project.as_deref(), Some("p"));
    assert_eq!(request.path, "/sessions");
    session_created(&mut app.core, Ok(OpenTarget::Session("new".into())), &None, &None);
    assert_eq!(app.core.open, Some(OpenTarget::Session("new".into())));
    let mut failed = online();
    session_created(&mut failed.core, Err("no".into()), &None, &None);
    assert_eq!(failed.core.open, None);
    assert!(failed.core.alerts.len() + failed.core.notes.len() > 0);
}

#[test]
fn workflows_need_an_orchestrator() {
    let mut app = online();
    let fetches = app.set_mode(true);
    assert!(fetches.contains(&Fetch::Orchestrator));
    poll::fetched(&mut app.core, poll::Fetched::Orchestrator(None));
    assert!(matches!(workflow_form(&app.core, "plan"), WorkflowForm::NotConfigured { .. }));
    let config = OrchestratorConfig { api_key: "k".into(), base_url: "https://a".into(), model: "m".into(), ..empty_orchestrator_config() };
    poll::fetched(&mut app.core, poll::Fetched::Orchestrator(Some(config)));
    assert_eq!(workflow_form(&app.core, "plan"), WorkflowForm::Form { can_create: true });
    assert_eq!(workflow_form(&app.core, " "), WorkflowForm::Form { can_create: false });
    let item = WorkflowPlanItem { name: "n".into(), plan: "text".into(), last_used_project: Some("p".into()) };
    assert_eq!(set_plan(&mut app.core, &item), "text");
    let Some(Creation::Workflow { request, selected, .. }) = create_session(&app.core, "", " text ")
    else {
        panic!()
    };
    let Body::CreateWorkflow(body) = request.body else { panic!() };
    assert_eq!((body.plan.as_str(), body.title), ("text", None));
    assert_eq!(selected, None);
}

#[test]
fn directories_are_suggested_and_fetched_once() {
    let mut app = online();
    with_machine(&mut app.core);
    select_machine(&mut app.core.new_session, "pc");
    let wanted = app.refresh_workspace_suggestions("/home/p").unwrap();
    assert_eq!(wanted.dir, "/home/");
    suggestions_listed(&mut app.core, wanted, Ok(vec![entry("/home/proj", true), entry("/home/other", true)]));
    assert_eq!(app.core.new_session.suggestions.len(), 1);
    assert!(app.refresh_workspace_suggestions("/home/pr").is_none());
    assert_eq!(app.core.new_session.suggestions.len(), 1);
    assert!(suggestion_value(&entry("/home/proj", true)).starts_with("/home/proj"));
    assert_eq!(rows_in_view(100), 8);
    assert_eq!(rows_in_view(3), 3);
    assert_eq!(matching_prefix(vec![entry("/a", true), entry("/b", true)], "b").len(), 1);
    app.dismiss_workspace_popups();
    assert!(app.core.new_session.suggestions.is_empty());
}

#[test]
fn recent_workspaces_are_offered_and_forgotten() {
    let recent = |workspace: &str, last_used| RecentWorkspace {
        machine: "pc".into(),
        workspace: workspace.into(),
        last_used_project: Some("p".into()),
        last_used,
    };
    let mut app = online();
    with_machine(&mut app.core);
    select_machine(&mut app.core.new_session, "pc");
    app.core.recent_workspaces = vec![recent("/a", 1), recent("/b", 2)];
    assert_eq!(recent_workspaces(&app.core).len(), 2);
    app.show_recent_workspaces("");
    assert!(app.workspace_recent_open);
    assert_eq!(app.select_recent_workspace(&recent("/a", 1)), "/a");
    let left = delete_recent_workspace(&app.core, &recent("/a", 1));
    assert_eq!(left, [recent("/b", 2)]);
}

#[test]
fn prompts_are_sent_with_their_attachments() {
    let mut app = opened();
    let hello = || vec![ContentBlock::Text { text: "hello".into() }];
    let request = send_blocks(&app.core, hello()).unwrap();
    assert_eq!(request.path, "/sessions/s1");
    let Body::Prompt(prompt) = request.body else { panic!() };
    assert_eq!(prompt.input, hello());
    assert!(app.send("  ").is_none());
    app.attach_paths(&vec![DroppedPath { path: "/w/a b.txt".into(), name: Some("a b.txt".into()) }]);
    app.attach_image("image/png", &vec![1, 2]);
    assert_eq!(attachment_labels(&app.attachments).len(), 2);
    app.remove_attachment(1);
    let blocks = app.send("hi").unwrap();
    assert_eq!(blocks.len(), 2);
    assert!(blocks.contains(&ContentBlock::Text { text: "hi".into() }));
    assert!(app.attachments.is_empty());
    assert!(!app.paste_into_composer(&Pasted::Other));
    assert!(app.paste_into_composer(&Pasted::Image { mime_type: "image/png".into(), bytes: vec![0xff] }));
    let ContentBlock::Resource { blob, .. } = &app.attachments[0].block else { panic!() };
    assert_eq!(blob.as_deref(), Some("/w=="));
    app.clear_attachments();
    assert!(app.attachments.is_empty());
    assert_eq!(send_quick_command("go".into()), [ContentBlock::Text { text: "go".into() }]);
    blocks_sent(&mut app.core, Err("down".into()));
    assert_eq!(app.core.next_note().unwrap().level, NoteLevel::Error);
    let request = cancel(&app.core).unwrap();
    assert_eq!(request.path, "/sessions/s1/cancel");
    assert_eq!(request.body, Body::Empty);
    app.open_entry("w1");
    let Body::Prompt(told) = cancel(&app.core).unwrap().body else { panic!() };
    assert_eq!(told.input, [ContentBlock::Text { text: "取消当前进行中的全部工作".into() }]);
    cancelled(&mut app.core, Ok(()));
    option_applied(&mut app.core, Ok(()));
}

#[test]
fn slash_commands_are_found_whatever_their_case() {
    let mut app = opened();
    let command = |name: &str| SlashCommand { name: name.into(), description: String::new(), hint: None };
    app.core.view.detail.slash_commands = vec![command("Goal"), command("ÜBER"), command("help")];
    let found: Vec<String> = app.slash_candidates("/go").into_iter().map(|one| one.name).collect();
    assert_eq!(found, ["Goal"]);
    let found: Vec<String> = app.slash_candidates("/Üb").into_iter().map(|one| one.name).collect();
    assert_eq!(found, ["ÜBER"]);
    assert!(app.slash_candidates("go").is_empty());
    assert_eq!(query_of("/Go"), Some("Go".into()));
    assert_eq!(query_of("go"), None);
    assert_eq!(effect_of("down", 0, 3), SlashEffect::Mark(1));
    assert_eq!(effect_of("escape", 0, 3), SlashEffect::Dismiss);
    assert_eq!(effect_of("enter", 2, 3), SlashEffect::Apply(2));
    assert_eq!(effect_of("x", 2, 3), SlashEffect::Pass);
    let offered = app.slash_candidates("/");
    assert_eq!(offered.len(), 3);
    assert_eq!(app.composer_key_down("down", &offered), SlashKey::Taken);
    let SlashKey::Apply(text) = app.composer_key_down("enter", &offered) else { panic!() };
    assert_eq!(text, "/ÜBER ");
    assert_eq!(app.composer_key_down("enter", &Vec::new()), SlashKey::Pass);
    app.input_changed();
    assert_eq!(app.slash_selected, 0);
    assert!(slash_menu(&offered, 1)[1].selected);
}

fn option() -> SessionConfigOption {
    SessionConfigOption {
        id: "model".into(),
        name: "模型".into(),
        description: None,
        category: None,
        kind: SessionConfigKind::Select {
            current_value: "a".into(),
            options: vec![
                SessionConfigSelectEntry { value: "a".into(), name: "A".into() },
                SessionConfigSelectEntry { value: "b".into(), name: "B".into() },
            ],
        },
    }
}

#[test]
fn options_take_their_new_value_at_once() {
    let mut app = opened();
    app.core.view.detail.config_options = vec![option()];
    assert_eq!(config_value_label(&option()), Some("A".into()));
    let value = SessionConfigOptionValue::ValueId { value: "b".into() };
    let request = apply_config_option(&mut app.core, "model", &value).unwrap();
    assert_eq!(request.path, "/sessions/s1/configure");
    let Body::ConfigureSession(change) = request.body else { panic!() };
    assert_eq!((change.title, change.project), (None, None));
    let setting = change.config.unwrap();
    assert_eq!((setting.config_id.as_str(), setting.value), ("model", value));
    let option = &app.core.view.detail.config_options[0];
    assert_eq!(config_value_label(option), Some("B".into()));
    let menu = config_option_menu(option).unwrap();
    assert_eq!(menu.label, "B");
    let marked: Vec<(&str, bool)> =
        menu.entries.iter().map(|entry| (entry.name.as_str(), entry.selected)).collect();
    assert_eq!(marked, [("a", false), ("b", true)]);
    let switch = SessionConfigOption {
        id: "fast".into(),
        name: "Fast".into(),
        description: None,
        category: None,
        kind: SessionConfigKind::Boolean { current_value: true },
    };
    assert_eq!(config_option_menu(&switch), None);
}

#[test]
fn the_dialog_shows_both_sides() {
    let mut app = opened();
    assert!(dialog(&app.core).1.is_some());
    let say = |text: &str| vec![ContentBlock::Text { text: text.into() }];
    app.core.view.detail.history = vec![
        HistoryItem::UserMessage { id: "1".into(), content: say("q"), timestamp: 1 },
        HistoryItem::AgentMessage { id: "2".into(), content: say("a"), timestamp: 2 },
    ];
    let (bubbles, hint) = dialog(&app.core);
    assert_eq!(hint, None);
    assert!(bubbles[0].own && !bubbles[1].own);
    assert_eq!(bubbles[1].text, "a");
    let header = session_view(&app.core);
    assert!(!header.subtitle.is_empty());
    let quick = QuickCommand { project: None, name: "qc".into(), prompt: "p".into() };
    let other = QuickCommand { project: Some("x".into()), name: "no".into(), prompt: "p".into() };
    app.core.settings.quick_commands = vec![quick.clone(), other];
    assert_eq!(quick_buttons(&app.core), [quick.clone()]);
    assert_eq!(quick_label(&quick), "qc");
}

#[test]
fn settings_tabs_say_what_they_are_for() {
    for tab in SettingsTab::all() {
        assert!(!tab.label().is_empty());
        assert!(!tab_heading(tab).0.is_empty());
    }
    assert_eq!(tab_action(SettingsTab::Connection), None);
    assert!(tab_action(SettingsTab::Skills).is_some());
    let mut app = online();
    app.open_settings(Some(SettingsTab::Skills));
    assert!(empty_hint(&app.core).is_some());
    assert_eq!(api_formats().len(), 3);
    for (index, format) in api_formats().into_iter().enumerate() {
        assert_eq!(format_index(format), index);
    }
    with_machine(&mut app.core);
    let cards = machines_tab(&app.core);
    assert_eq!(cards[0].name, "pc");
    assert_eq!(cards[0].agents.len(), 1);
    assert!(confirm_rediscover("pc").description.contains("pc"));
    assert!(open_new_form(&app.core, SettingsTab::Skills).is_some());
    assert!(open_new_form(&app.core, SettingsTab::Connection).is_none());
}

#[test]
fn saved_lists_hold_what_was_saved() {
    let mut app = online();
    let saved = save_skill(&mut app.core, &FormTarget::New, " s ", "d").unwrap();
    assert_eq!(saved, [Skill { name: "s".into(), description: "d".into() }]);
    assert!(save_list(&app.core, &SettingsList::Skills(saved.clone())).is_some());
    list_saved(&mut app.core, SettingsList::Skills(saved), Ok(()));
    assert_eq!(app.core.settings.skills.len(), 1);
    assert!(save_skill(&mut app.core, &FormTarget::New, " ", "d").is_none());
    let form = open_skill_form(&app.core, &FormTarget::Edit("s".into())).unwrap();
    assert_eq!(form.fields[0].value, "s");
    assert!(open_skill_form(&app.core, &FormTarget::Edit("gone".into())).is_none());
    let twice = edited(&app.core.settings.skills, &FormTarget::Edit("s".into()), Skill { name: "t".into(), description: "e".into() });
    assert_eq!(twice.len(), 1);
    assert_eq!(twice[0].name, "t");
    assert!(without(&twice, "t").is_empty());
    let plans = save_plan(&mut app.core, &FormTarget::New, "p", "text").unwrap();
    assert_eq!(plans[0].plan, "text");
    app.core.settings.quick_commands = vec![QuickCommand { project: Some("x".into()), name: "q".into(), prompt: "1".into() }];
    let changed = save_quick_command(&mut app.core, &FormTarget::Edit("q".into()), "q", "2").unwrap();
    assert_eq!(changed, [QuickCommand { project: Some("x".into()), name: "q".into(), prompt: "2".into() }]);
    assert!(open_quick_command_form(&app.core, &FormTarget::New).is_some());
    assert!(!quick_command_scope(&changed[0]).is_empty());
}

fn project(name: &str) -> Project {
    Project { name: name.into(), description: String::new() }
}

#[test]
fn projects_are_made_and_moved() {
    let mut app = online();
    let Some(ProjectSave::Create { request, project: made }) =
        save_project(&mut app.core, &FormTarget::New, "p", "d")
    else {
        panic!()
    };
    assert_eq!(request.path, "/config/projects/");
    assert_eq!(request.body, Body::Project(Project { name: "p".into(), description: "d".into() }));
    let Some(ProjectSave::Update { request, .. }) =
        save_project(&mut app.core, &FormTarget::Edit("p".into()), "", " e ")
    else {
        panic!()
    };
    let Body::UpdateProject(change) = request.body else { panic!() };
    assert_eq!(change.description, "e");
    project_created(&mut app.core, made, Ok(()));
    assert_eq!(app.core.settings.projects[0].name, "p");
    app.core.settings.projects = vec![project("a"), project("b"), project("c")];
    let names = |list: Vec<Project>| list.into_iter().map(|one| one.name).collect::<Vec<_>>();
    let (request, down) = move_project(&app.core, "a", 1).unwrap();
    let Body::ProjectOrder(order) = request.body else { panic!() };
    assert_eq!(order.names, ["b", "a", "c"]);
    assert_eq!(names(down.clone()), ["b", "a", "c"]);
    app.core.settings.projects = down;
    assert_eq!(names(move_project(&app.core, "a", -1).unwrap().1), ["a", "b", "c"]);
    assert!(move_project(&app.core, "c", 1).is_none());
    assert_eq!(names(reorder_project(&app.core, "c", "b").unwrap().1), ["c", "a", "b"]);
    assert_eq!(project_moves(&app.core.settings.projects, 0), (false, true));
    assert!(delete_project("a").danger);
    assert_eq!(project_deletion(&app.core, "a").unwrap().path, "/config/projects/a");
}

#[test]
fn the_orchestrator_form_knows_when_it_was_changed() {
    let mut app = online();
    let config = OrchestratorConfig {
        api_format: ApiFormat::Messages,
        base_url: "https://a".into(),
        api_key: "k".into(),
        model: "m".into(),
        effort: String::new(),
    };
    poll::fetched(&mut app.core, poll::Fetched::Orchestrator(Some(config.clone())));
    assert_eq!(app.load_orchestrator_form(), config);
    assert_eq!(app.current_orchestrator_format(), ApiFormat::Messages);
    let same = OrchestratorFields { base_url: "https://a", api_key: "k", model: "m", effort: "" };
    assert!(!app.orchestrator_dirty(&same));
    let other = OrchestratorFields { model: "n", ..same };
    assert!(app.orchestrator_dirty(&other));
    let (request, body) = app.save_orchestrator(&other).unwrap();
    assert_eq!(request.path, "/config/agent/");
    assert_eq!(body.model, "n");
    assert_eq!(request.body, Body::Orchestrator(body.clone()));
    orchestrator_saved(&mut app.core, body, Ok(()));
    assert_eq!(app.core.settings.orchestrator.as_ref().unwrap().model, "n");
    let blank = OrchestratorFields { base_url: "", api_key: "k", model: "m", effort: "" };
    assert!(app.save_orchestrator(&blank).is_none());
}

#[test]
fn skills_are_managed_in_a_session_of_their_own() {
    let mut app = online();
    with_machine(&mut app.core);
    let targets = skill_targets(&app.core);
    let (cards, hint) = skill_target_card(&targets);
    assert_eq!(cards.len(), 1);
    assert_eq!(hint, None);
    let skill = Skill { name: "s".into(), description: "d".into() };
    let task = SkillTask { skill: skill.clone(), action: "安装".into(), machine: "pc".into(), agent: "codex".into() };
    let request = manage_skill(&mut app.core, &task, Ok(vec![machine("pc")])).unwrap();
    assert_eq!(request.workspace, "/tmp");
    let (id, blocks) = skill_session_created(&mut app.core, &task, Ok("x".into())).unwrap();
    assert_eq!(id, "x");
    assert_eq!(blocks, [ContentBlock::Text { text: skill_prompt(&skill, "安装") }]);
    skill_prompt_sent(&mut app.core, &task, "x", Ok(()));
    let gone = SkillTask { machine: "other".into(), ..task };
    assert!(manage_skill(&mut app.core, &gone, Ok(vec![machine("pc")])).is_none());
    assert!(manage_skill(&mut app.core, &gone, Err("down".into())).is_none());
}

#[test]
fn entries_are_deleted_after_a_question() {
    let mut app = opened();
    let entry = app.core.entry("s1").unwrap();
    let question = confirm_delete(&entry);
    assert!(question.danger);
    assert_eq!(delete_entry(&app.core, &entry).unwrap().path, "/sessions/s1");
    entry_deleted(&mut app.core, "s1", Ok(()));
    assert_eq!(app.core.open, None);
    assert_eq!(app.core.last.list, None);
    let ask = confirm("t", "a ", "n", " b", "ok", false);
    assert_eq!(ask.description, "a n b");
    assert_eq!(CANCEL_TEXT, "取消");
    let workflow = OpenTarget::Workflow("w1".into());
    assert_eq!(
        configure_title(&app.core, &workflow, "new".into()).unwrap().body,
        Body::ConfigureWorkflow(ConfigureWorkflowRequest {
            title: Some("new".into()),
            project: None,
        })
    );
    let session = OpenTarget::Session("s1".into());
    assert_eq!(
        configure_project(&app.core, &session, None).unwrap().body,
        Body::ConfigureSession(ConfigureSessionRequest {
            title: None,
            config: None,
            project: Some(None),
        })
    );
}

#[test]
fn agents_are_sought_again_and_restarted() {
    let mut app = online();
    with_machine(&mut app.core);
    assert!(rediscover(&app.core, "pc").is_some());
    rediscovered(&mut app.core, "pc".into(), Ok(vec![Agent { name: "nano".into(), available: true }]));
    assert_eq!(app.core.settings.agents[0].1[0].name, "nano");
    assert!(restart_agent(&app.core, "pc", "nano").is_some());
    agent_restarted(&mut app.core, "pc", "nano", Ok(()));
    assert_eq!(app.core.next_note().map(|note| note.level), Some(NoteLevel::Success));
}

#[test]
fn logging_in_leads_to_the_main_page() {
    let mut app = AmuxApp::new(Connection::default());
    assert_eq!(page(&app.core), Page::Login);
    let entered = entered_connection(" http://s ", " t ");
    assert_eq!(entered, Connection { server: "http://s".into(), token: "t".into() });
    let shown = render(&app.core, "", "");
    assert!(!shown.can_enter);
    assert!(render(&app.core, "http://s", "t").can_enter);
    app.login(entered, Ok(()));
    poll::connection_checked(&mut app.core, Ok(()), 1);
    assert!(matches!(page(&app.core), Page::Main { .. }));
    app.connection_edited();
    app.save_connection(connection(), Err("disk".into()));
    assert_eq!(app.core.next_note().unwrap().level, NoteLevel::Error);
}

fn palette(background: &str) -> theme::Colors<String> {
    let c = || "#102030".to_string();
    theme::Colors {
        background: background.into(),
        foreground: c(),
        popover: c(),
        popover_foreground: c(),
        primary: c(),
        primary_foreground: c(),
        secondary: c(),
        secondary_foreground: c(),
        muted: c(),
        muted_foreground: c(),
        accent: c(),
        accent_foreground: c(),
        destructive: c(),
        destructive_foreground: c(),
        border: c(),
        input: c(),
        ring: c(),
        scrollbar_thumb: c(),
        scrollbar_thumb_hover: c(),
        link: c(),
        success: c(),
        success_foreground: c(),
        warning: c(),
        warning_foreground: c(),
        diff_add: "#00ff00".into(),
        diff_remove: "#ff0000".into(),
    }
}

#[test]
fn colours_are_read_and_derived() {
    assert_eq!(theme::color("#0a0B0c"), Some(Rgb { r: 10, g: 11, b: 12 }));
    assert_eq!(theme::color("red"), None);
    assert_eq!(theme::color("0a0b0c"), None);
    assert_eq!(theme::color("#"), None);
    assert!(theme::shared(&palette("white")).is_none());
    let colors = theme::shared(&palette("#ffffff")).unwrap();
    let tokens = theme::apply(&colors);
    assert_eq!(tokens.background.color, Rgb { r: 255, g: 255, b: 255 });
    assert_eq!(tokens.background.cover, 100);
    let added = theme::diff_line_background(&colors, GitDiffLineKind::Add);
    assert_eq!(added.color, Rgb { r: 0, g: 255, b: 0 });
    assert_eq!(added.cover, 100);
}
