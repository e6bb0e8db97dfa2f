//! Client, configuration, paging, polling and texts of the desktop client.

use amux::common::api::{
    ActivitiesPage, Agent, CreateSessionRequest, HistoryPage, Machine, OrchestratorConfig, QuickCommand, RecentWorkspace,
    Session, SessionList, Skill, Workflow, WorkflowList, WorkflowPlanItem, ApiFormat,
};
use amux::common::domain::{
    Activity, ContentBlock, GitChangeStatus, GitDiffFile, GitDiffLine, GitDiffLineKind,
    HistoryItem, SessionConfigKind, SessionConfigOption, SessionConfigSelectEntry, SessionState,
    SlashCommand,
};
use amux::desktop::client::{
    decode, ensure_success, error_message, parse_failed, urlencode, Answer, Body, Client, Request,
    Verb,
};
use amux::desktop::config::{
    app_dir, connection_path, load, save_failed, Connection, SaveFailure,
};
use amux::desktop::diff::{self, CommentTarget};
use amux::desktop::difftree::{build, DiffNode};
use amux::desktop::poll::{self, merge_newest, prepend_older, Fetch, Fetched, Tick};
use amux::desktop::state::{
    due, ConnectionStatus, Core, ListEntry, OpenTarget, Paging, SettingsTab, SidePanel, ViewKey,
};
use amux::desktop::ui;

#[test]
fn urlencode_escapes_spaces_and_keeps_path_separators() {
    assert_eq!(urlencode("/home/me/My Docs"), "/home/me/My%20Docs");
    assert_eq!(urlencode("中文"), "%E4%B8%AD%E6%96%87");
}

#[test]
fn error_message_includes_status_and_body() {
    assert_eq!(error_message(404, "会话不存在\n"), "HTTP 404: 会话不存在");
    assert_eq!(error_message(500, ""), "HTTP 500");
}

#[test]
fn client_sends_bearer_token_and_decodes_responses() {
    let client = Client::new(&Connection {
        server: "http://127.0.0.1:34567/".into(),
        token: "tk".into(),
    });
    assert_eq!(client.authorization(), "Bearer tk");
    let machines = client.machines();
    assert_eq!(machines, Request { verb: Verb::Get, path: "/machines".into(), body: Body::Nothing });
    assert_eq!(client.url(&machines), "http://127.0.0.1:34567/machines");
    let ok = Answer::Came { status: 200, text: Ok("[]".into()) };
    assert_eq!(decode(ok), Ok("[]".into()));
    let denied = || Answer::Came { status: 401, text: Ok("unauthorized".into()) };
    let error = decode(denied()).unwrap_err();
    assert!(error.contains("401"), "{error}");
    assert!(ensure_success(denied()).is_err());
    assert!(ensure_success(Answer::Came { status: 204, text: Ok(String::new()) }).is_ok());
    assert!(decode(Answer::Missing("refused".into())).unwrap_err().contains("refused"));
    assert!(decode(Answer::Came { status: 200, text: Err("cut".into()) }).is_err());
    assert!(parse_failed("eof").contains("eof"));
}

#[test]
fn requests_name_their_endpoints() {
    let client = Client::new(&Connection { server: "http://a".into(), token: "t".into() });
    assert_eq!(client.sessions(20, 40).path, "/sessions?limit=20&offset=40");
    assert_eq!(client.session("s1").path, "/sessions/s1");
    assert_eq!(client.delete_session("s1").verb, Verb::Delete);
    let wanted = || CreateSessionRequest {
        machine: "pc".into(),
        agent: "codex".into(),
        workspace: "/w".into(),
        use_worktree: true,
        project: None,
    };
    assert_eq!(
        client.create_session(wanted()),
        Request {
            verb: Verb::Post,
            path: "/sessions".into(),
            body: Body::CreateSession(wanted()),
        }
    );
    assert_eq!(client.cancel("s1").body, Body::Empty);
    assert_eq!(client.skills().path, "/config/skills/");
    let skills = vec![Skill { name: "s".into(), description: "d".into() }];
    let saving = client.set_skills(&skills);
    assert_eq!((saving.verb, saving.body), (Verb::Put, Body::Skills(skills)));
    assert_eq!(client.agents("pc").path, "/machines/pc/agents");
    let listing = client.list_dir("pc", Some("/a b"), 500, 0, true);
    assert!(listing.path.starts_with("/machines/pc/"), "{listing:?}");
    assert!(listing.path.contains("/a%20b"), "{listing:?}");
}

#[test]
fn connection_roundtrip() {
    assert_eq!(load(None), Connection::default());
    let connection = Connection {
        server: "https://amux.example.com:34567/".into(),
        token: "tk".into(),
    };
    let loaded = load(Some(connection.clone()));
    assert_eq!(loaded, connection);
    assert!(loaded.is_configured());
    assert_eq!(loaded.base_url(), "https://amux.example.com:34567");
    assert_eq!(app_dir("/h"), "/h/app");
    assert_eq!(connection_path("/h"), "/h/app/server.json");
}

#[test]
fn incomplete_connection_is_not_configured() {
    assert!(!Connection::default().is_configured());
    assert!(!Connection {
        server: "https://x".into(),
        token: "  ".into()
    }
    .is_configured());
}

#[test]
fn saving_failures_say_what_failed() {
    assert_eq!(
        save_failed(SaveFailure::Directory, "/p", "denied"),
        "创建配置目录失败: denied"
    );
    assert_eq!(save_failed(SaveFailure::Encoding, "/p", "odd"), "序列化失败: odd");
    assert_eq!(save_failed(SaveFailure::Write, "/p", "full"), "写入 /p 失败: full");
}

#[test]
fn comments_follow_documented_message_shapes() {
    let file = CommentTarget::File {
        path: "src/a.rs".into(),
    };
    assert_eq!(file.message("请补充测试"), "src/a.rs 请补充测试");

    let code = CommentTarget::Code {
        path: "src/a.rs".into(),
        hunk_header: "@@ -1,2 +1,2 @@".into(),
        code: "-let old = 1;\n+let new = 1;".into(),
    };
    assert_eq!(
        code.message("这里需要说明"),
        "```\n-let old = 1;\n+let new = 1;\n```\n这里需要说明"
    );
}

#[test]
fn context_usage_text_hides_missing_and_formats_usage() {
    assert_eq!(ui::context_usage_text(0, 0), None);
    assert_eq!(ui::context_usage_text(53000, 0), Some("53,000 token".into()));
    assert_eq!(
        ui::context_usage_text(53000, 200000),
        Some("53,000 / 200,000 token（26.5%）".into())
    );
}

#[test]
fn one_line_collapses_whitespace() {
    assert_eq!(ui::one_line("a\n b\t c"), "a b c");
}

#[test]
fn short_cwd_handles_platform_separators() {
    assert_eq!(ui::short_cwd("/home/user/project"), "project");
    assert_eq!(ui::short_cwd("/"), "/");
    assert_eq!(ui::short_cwd(""), "");
}

fn line(kind: GitDiffLineKind, text: &str) -> GitDiffLine {
    GitDiffLine {
        kind,
        text: text.to_string(),
    }
}

#[test]
fn diff_numbers_start_at_hunk_header_and_advance_per_side() {
    let lines = vec![
        line(GitDiffLineKind::Remove, "old a"),
        line(GitDiffLineKind::Add, "new a"),
        line(GitDiffLineKind::Add, "new b"),
        line(GitDiffLineKind::Context, "shared"),
        line(GitDiffLineKind::Remove, "old b"),
    ];
    let numbers = diff::line_numbers("@@ -10,3 +20,4 @@ fn main()", &lines);
    assert_eq!(
        numbers,
        vec![
            diff::LineNumbers {
                old: Some(10),
                new: None
            },
            diff::LineNumbers {
                old: None,
                new: Some(20)
            },
            diff::LineNumbers {
                old: None,
                new: Some(21)
            },
            diff::LineNumbers {
                old: Some(11),
                new: Some(22)
            },
            diff::LineNumbers {
                old: Some(12),
                new: None
            },
        ]
    );
}

#[test]
fn diff_numbers_fall_back_to_first_line_for_unparsable_header() {
    let numbers = diff::line_numbers("@@", &vec![line(GitDiffLineKind::Context, "x")]);
    assert_eq!(
        numbers,
        vec![diff::LineNumbers {
            old: Some(1),
            new: Some(1)
        }]
    );
}

#[test]
fn numbers_of_a_hunk_fit_unless_they_would_overflow() {
    let lines = vec![line(GitDiffLineKind::Context, "x")];
    assert_eq!(diff::hunk_start("@@ -5 +7,2 @@"), (5, 7));
    assert!(diff::numbers_fit("@@ -5 +7,2 @@", &lines));
    let last = format!("@@ -{} +1 @@", usize::MAX);
    assert!(!diff::numbers_fit(&last, &lines));
}

fn file(path: &str) -> GitDiffFile {
    GitDiffFile {
        path: path.to_string(),
        status: GitChangeStatus::Modified,
        additions: 1,
        deletions: 1,
        patch: String::new(),
        hunks: Vec::new(),
    }
}

fn keys(nodes: &[DiffNode]) -> Vec<String> {
    let mut collected = Vec::new();
    for node in nodes {
        collected.push(node.key.clone());
        collected.extend(keys(&node.children));
    }
    collected
}

#[test]
fn merges_directories_without_branches() {
    let files = vec![
        file("src/catalog/helper/query.rs"),
        file("src/catalog/schema.rs"),
        file("src/storage/s3/parquet.rs"),
    ];
    let tree = build(&files);
    assert_eq!(
        keys(&tree),
        [
            "src",
            "src/catalog",
            "src/catalog/helper",
            "src/catalog/helper/query.rs",
            "src/catalog/schema.rs",
            "src/storage/s3",
            "src/storage/s3/parquet.rs",
        ]
    );
    let src = &tree[0];
    assert_eq!(
        src.children.iter().map(|node| node.name.as_str()).collect::<Vec<_>>(),
        ["catalog", "storage/s3"]
    );
    let catalog = &src.children[0];
    assert_eq!(
        catalog.children.iter().map(|node| node.name.as_str()).collect::<Vec<_>>(),
        ["helper", "schema.rs"]
    );
    assert_eq!(catalog.children[1].file_ix, Some(1));
    assert_eq!(catalog.children[0].children[0].file_ix, Some(0));
}

#[test]
fn keeps_root_files_and_indices() {
    let files = vec![file("Cargo.toml"), file("src/main.rs")];
    let tree = build(&files);
    assert_eq!(keys(&tree), ["src", "src/main.rs", "Cargo.toml"]);
    assert_eq!(tree[1].file_ix, Some(0));
}

fn id<'a>(item: &'a (&'a str, &'a str)) -> &'a str {
    item.0
}

fn item(id: &'static str, content: &'static str) -> (&'static str, &'static str) {
    (id, content)
}

#[test]
fn first_page_fills_empty_window() {
    let mut items = Vec::new();
    let mut paging = Paging::default();

    merge_newest(
        &mut items,
        &mut paging,
        vec![item("a", "1"), item("b", "1")],
        true,
        |item| id(item),
    );

    assert_eq!(items, vec![item("a", "1"), item("b", "1")]);
    assert!(paging.has_older);
}

#[test]
fn refresh_updates_existing_entries_and_appends_newer() {
    let mut items = vec![item("a", "1"), item("b", "1")];
    let mut paging = Paging::default();

    merge_newest(
        &mut items,
        &mut paging,
        vec![item("b", "2"), item("c", "1")],
        false,
        |item| id(item),
    );

    assert_eq!(items, vec![item("a", "1"), item("b", "2"), item("c", "1")]);
    assert!(!paging.has_older);
}

#[test]
fn refresh_keeps_moved_entry_once_at_new_position() {
    let mut items = vec![item("a", "1"), item("b", "1")];
    let mut paging = Paging::default();

    merge_newest(
        &mut items,
        &mut paging,
        vec![item("b", "1"), item("a", "2")],
        false,
        |item| id(item),
    );

    assert_eq!(items, vec![item("b", "1"), item("a", "2")]);
}

#[test]
fn shorter_page_keeps_window_contiguous() {
    let mut items = vec![item("a", "1"), item("b", "1"), item("c", "1")];
    let mut paging = Paging::default();

    merge_newest(&mut items, &mut paging, vec![item("c", "1")], true, |item| id(item));

    assert_eq!(items, vec![item("a", "1"), item("b", "1"), item("c", "1")]);
}

#[test]
fn prepending_records_shift() {
    let mut items = vec![item("c", "1"), item("d", "1")];
    let mut paging = Paging::default();

    prepend_older(
        &mut items,
        &mut paging,
        vec![item("a", "1"), item("b", "1")],
    );

    assert_eq!(
        items,
        vec![
            item("a", "1"),
            item("b", "1"),
            item("c", "1"),
            item("d", "1")
        ]
    );
    assert_eq!(paging.shift, Some(2));
}

#[test]
fn the_same_page_twice_changes_nothing() {
    let mut items = vec![item("a", "1"), item("b", "1")];
    let mut paging = Paging::default();
    let page = || vec![item("b", "2"), item("c", "1")];
    merge_newest(&mut items, &mut paging, page(), true, |item| id(item));
    let once = items.clone();
    let after = paging;
    merge_newest(&mut items, &mut paging, page(), true, |item| id(item));
    assert_eq!(items, once);
    assert_eq!(paging, after);
}

/// A core that is online, with nothing open.
fn online_core() -> Core {
    let mut core = Core::new(Connection { server: "http://s".into(), token: "tk".into() });
    core.status = ConnectionStatus::Online;
    core
}

fn opened_core() -> Core {
    let mut core = online_core();
    core.open = Some(OpenTarget::Session("s1".to_string()));
    core
}

fn session(id: &str, updated_at: u64) -> Session {
    Session {
        id: id.into(),
        machine: "pc".into(),
        agent: "codex".into(),
        title: "t".into(),
        state: SessionState::Idle,
        project: None,
        workspace: "/tmp".into(),
        worktree_dir: String::new(),
        created_at: 1,
        updated_at,
    }
}

fn workflow(id: &str, updated_at: u64) -> Workflow {
    Workflow {
        id: id.into(),
        title: String::new(),
        state: SessionState::Idle,
        plan: "p".into(),
        project: None,
        created_at: 1,
        updated_at,
        linked_sessions: Vec::new(),
    }
}

/// Takes one step of the refresh and answers what it asks for; what was asked for comes back.
fn tick(core: &mut Core, now: u64) -> Vec<&'static str> {
    let mut asked = Vec::new();
    let Tick::Refresh { list, open } = poll::tick(core, now) else { return asked };
    if list {
        asked.push("list");
        let limit = poll::list_limit(core);
        poll::refresh_list(
            core,
            limit,
            Ok(SessionList { sessions: Vec::new(), has_more: false }),
            Ok(WorkflowList { workflows: Vec::new(), has_more: false }),
            now,
        );
    }
    let Some(open) = open else { return asked };
    poll::session_refreshed(core, &open.target, Ok(session("s1", 1)));
    if open.history {
        asked.push("history");
        let page = HistoryPage { items: Vec::new(), has_more: false, next_offset: None };
        poll::refresh_history(core, &open.target, Ok(page), now);
    }
    if open.activities {
        asked.push("activities");
        let page = ActivitiesPage { activities: Vec::new(), has_more: false, next_offset: None };
        poll::refresh_activities(core, &open.target, Ok(page), now);
    }
    if open.plan {
        asked.push("plan");
        poll::plan_refreshed(core, &open.target, Ok(Vec::new()), now);
    }
    if open.ongoing {
        asked.push("ongoing");
        poll::ongoing_refreshed(core, &open.target, Ok(None), now);
    }
    if open.options {
        asked.push("options");
        let option = SessionConfigOption {
            id: "model".into(),
            name: "模型".into(),
            description: None,
            category: None,
            kind: SessionConfigKind::Select {
                current_value: "a".into(),
                options: vec![SessionConfigSelectEntry { value: "a".into(), name: "A".into() }],
            },
        };
        if poll::options_refreshed(core, &open.target, Ok(vec![option]), now) {
            asked.push("slash");
            let command = SlashCommand { name: "goal".into(), description: "目标".into(), hint: None };
            poll::slash_commands_refreshed(core, &open.target, Ok(vec![command]));
        }
    }
    asked
}

fn count(asked: &[&str], what: &str) -> usize {
    asked.iter().filter(|one| **one == what).count()
}

#[test]
fn options_and_slash_commands_are_throttled() {
    let mut core = opened_core();
    let mut asked = Vec::new();
    for _ in 0..3 {
        asked.extend(tick(&mut core, 1_000));
    }
    assert_eq!(count(&asked, "options"), 1);
    assert_eq!(count(&asked, "slash"), 1);
    assert_eq!(count(&asked, "plan"), 0);
    assert_eq!(core.view.detail.config_options.len(), 1);
    assert_eq!(core.view.detail.slash_commands.len(), 1);
    let later = tick(&mut core, 1_000 + 5_000);
    assert_eq!(count(&later, "options"), 1);
}

#[test]
fn tick_does_not_poll_settings_data() {
    let mut core = opened_core();
    core.settings_open = true;
    core.settings_tab = SettingsTab::Machines;
    core.side_panel = Some(SidePanel::Detail);
    for _ in 0..3 {
        tick(&mut core, 1_000);
    }
    assert!(core.settings.machines.is_empty());
    assert!(core.settings.agents.is_empty());
    assert!(!core.settings.orchestrator_loaded);
    assert!(core.settings.plans.is_empty());
    assert!(core.settings.quick_commands.is_empty());
    assert!(core.settings.skills.is_empty());
    assert!(core.recent_workspaces.is_empty());
    assert_eq!(core.view.detail.context_size, 0);
}

fn machine() -> Machine {
    Machine {
        name: "pc".into(),
        os: "linux".into(),
        arch: "x86_64".into(),
        hostname: "pc".into(),
        temp_dir: "/tmp".into(),
        version: "0.1.0".into(),
    }
}

fn agent() -> Agent {
    Agent { name: "codex".into(), available: true }
}

/// Answers what a view asks for.
fn serve(core: &mut Core, wanted: Vec<Fetch>) {
    for fetch in wanted {
        match fetch {
            Fetch::Machines => {
                poll::refresh_machines(core, vec![machine()], vec![Ok(vec![agent()])]);
            }
            Fetch::RecentWorkspaces => poll::fetched(
                core,
                Fetched::RecentWorkspaces(vec![RecentWorkspace {
                    machine: "pc".into(),
                    workspace: "/tmp/proj".into(),
                    last_used_project: None,
                    last_used: 1,
                }]),
            ),
            Fetch::Projects => poll::fetched(core, Fetched::Projects(Vec::new())),
            Fetch::Orchestrator => poll::fetched(
                core,
                Fetched::Orchestrator(Some(OrchestratorConfig {
                    api_format: ApiFormat::ChatCompletions,
                    base_url: "https://api.example.com/v1".into(),
                    api_key: "sk".into(),
                    model: "m".into(),
                    effort: "high".into(),
                })),
            ),
            Fetch::Plans => poll::fetched(
                core,
                Fetched::Plans(vec![WorkflowPlanItem {
                    name: "plan".into(),
                    plan: "做点什么".into(),
                    last_used_project: None,
                }]),
            ),
            Fetch::QuickCommands => poll::fetched(
                core,
                Fetched::QuickCommands(vec![QuickCommand {
                    project: None,
                    name: "qc".into(),
                    prompt: "快点做".into(),
                }]),
            ),
            Fetch::Skills => poll::fetched(
                core,
                Fetched::Skills(vec![Skill { name: "skill".into(), description: "描述".into() }]),
            ),
            Fetch::SessionControls | Fetch::Terminals => {}
        }
    }
}

fn wanted(list: &[Fetch], what: Fetch) -> usize {
    list.iter().filter(|one| **one == what).count()
}

#[test]
fn settings_load_fetches_only_the_selected_tab() {
    let mut core = online_core();
    let skills = poll::refresh_settings(SettingsTab::Skills);
    assert_eq!(wanted(&skills, Fetch::Skills), 1);
    assert_eq!(wanted(&skills, Fetch::QuickCommands), 0);
    serve(&mut core, skills);
    assert_eq!(core.settings.skills.len(), 1);

    let machines = poll::refresh_settings(SettingsTab::Machines);
    assert_eq!(wanted(&machines, Fetch::Machines), 1);
    serve(&mut core, machines);
    assert_eq!(core.settings.machines.len(), 1);
    assert_eq!(core.settings.agents[0].1.len(), 1);
}

#[test]
fn new_session_load_fetches_machines_agents_and_recent_workspaces() {
    let mut core = online_core();
    let list = poll::refresh_new_session();
    assert_eq!(wanted(&list, Fetch::Machines), 1);
    assert_eq!(wanted(&list, Fetch::RecentWorkspaces), 1);
    assert_eq!(wanted(&list, Fetch::Orchestrator), 0);
    assert_eq!(wanted(&list, Fetch::Plans), 0);
    serve(&mut core, list);
    assert_eq!(core.settings.machines.len(), 1);
    assert_eq!(core.recent_workspaces.len(), 1);
}

#[test]
fn workflow_setup_load_fetches_orchestrator_and_plans() {
    let mut core = online_core();
    let list = poll::refresh_workflow_setup();
    assert_eq!(wanted(&list, Fetch::Orchestrator), 1);
    assert_eq!(wanted(&list, Fetch::Plans), 1);
    serve(&mut core, list);
    assert!(core.settings.orchestrator_loaded);
    assert_eq!(core.settings.plans.len(), 1);
}

#[test]
fn interaction_load_fetches_agents_and_quick_commands() {
    let mut core = online_core();
    let list = poll::refresh_interaction();
    assert_eq!(wanted(&list, Fetch::Machines), 1);
    assert_eq!(wanted(&list, Fetch::QuickCommands), 1);
    assert_eq!(wanted(&list, Fetch::Orchestrator), 1);
    serve(&mut core, list);
    assert_eq!(core.settings.quick_commands.len(), 1);
    assert!(core.settings.agents[0].1[0].available);
}

#[test]
fn connection_is_checked_until_it_holds() {
    let mut core = Core::new(Connection { server: "http://s".into(), token: "tk".into() });
    assert_eq!(poll::tick(&core, 1), Tick::Connect);
    poll::connection_checked(&mut core, Err("refused".into()), 1);
    assert!(matches!(&core.status, ConnectionStatus::Failed(cause) if cause.contains("refused")));
    assert_eq!(poll::tick(&core, 2), Tick::Nothing);
    assert_eq!(poll::tick(&core, 1 + 5_000), Tick::Connect);
    poll::connection_checked(&mut core, Ok(()), 5_001);
    assert_eq!(core.status, ConnectionStatus::Online);
    let empty = Core::new(Connection::default());
    assert_eq!(empty.status, ConnectionStatus::Unconfigured);
    assert_eq!(poll::tick(&empty, 1), Tick::Nothing);
}

#[test]
fn the_list_holds_the_latest_entries_of_both_sorts() {
    let mut core = online_core();
    poll::refresh_list(
        &mut core,
        20,
        Ok(SessionList { sessions: vec![session("s1", 5), session("s2", 1)], has_more: false }),
        Ok(WorkflowList { workflows: vec![workflow("w1", 3)], has_more: false }),
        10,
    );
    let ids: Vec<&str> = core.entries.iter().map(|entry| entry.id()).collect();
    assert_eq!(ids, ["s1", "w1", "s2"]);
    assert!(matches!(core.entry("w1"), Some(ListEntry::Workflow(_))));
    assert!(core.entry("nope").is_none());
}

#[test]
fn answers_for_another_view_are_dropped() {
    let mut core = online_core();
    poll::open_session(&mut core, "s1");
    assert_eq!(core.view_key(), ViewKey::Interaction(OpenTarget::Session("s1".into())));
    let late = OpenTarget::Session("other".into());
    let page = HistoryPage {
        items: vec![HistoryItem::UserMessage { id: "m".into(), content: Vec::new(), timestamp: 1 }],
        has_more: false,
        next_offset: None,
    };
    poll::refresh_history(&mut core, &late, Ok(page.clone()), 1);
    assert!(core.view.detail.history.is_empty());
    poll::refresh_history(&mut core, &OpenTarget::Session("s1".into()), Ok(page), 1);
    assert_eq!(core.view.detail.history.len(), 1);
}

#[test]
fn older_pages_are_loaded_one_at_a_time() {
    let mut paging = Paging::default();
    assert_eq!(poll::begin_older_page(&mut paging, 20), None);
    paging.has_older = true;
    assert_eq!(poll::begin_older_page(&mut paging, 20), Some((20, 20)));
    assert!(paging.loading_older);
    assert_eq!(poll::begin_older_page(&mut paging, 20), None);
}

#[test]
fn things_are_due_after_their_interval() {
    assert!(due(None, 5_000, 0));
    assert!(!due(Some(1_000), 5_000, 5_999));
    assert!(due(Some(1_000), 5_000, 6_000));
}

#[test]
fn texts_of_blocks_and_activities() {
    let blocks = vec![
        ContentBlock::Text { text: "a".into() },
        ContentBlock::ResourceLink {
            uri: "file:///x".into(),
            name: "x".into(),
            mime_type: None,
            title: None,
            description: None,
        },
    ];
    let text = ui::blocks_text(&blocks);
    assert!(text.starts_with('a') && text.contains('x'), "{text}");
    let item = HistoryItem::AgentMessage { id: "i".into(), content: blocks, timestamp: 9 };
    assert_eq!(ui::history_text(&item), text);
    assert_eq!(ui::history_timestamp(&item), 9);
    let error = Activity::Error { id: "e".into(), timestamp: 4, error: "bad".into() };
    assert!(ui::activity_line(&error).contains("bad"));
    assert_eq!(ui::activity_timestamp(&error), 4);
}

#[test]
fn numbers_and_times_are_readable() {
    assert_eq!(ui::group_digits(0), "0");
    assert_eq!(ui::group_digits(999), "999");
    assert_eq!(ui::group_digits(1_234_567), "1,234,567");
    assert_eq!(ui::truncate("abcdef", 3), "abc…");
    let time = ui::timestamp(1_700_000_000_000);
    assert!(time.starts_with("11-14 ") || time.starts_with("11-15 "), "{time}");
    assert_eq!(time.len(), 11, "{time}");
    let zone = jiff::tz::TimeZone::system();
    for seconds in [0, 951_782_400, 1_700_000_000, 253_402_207_200] {
        let ahead = zone.to_offset(jiff::Timestamp::from_second(seconds).unwrap()).seconds();
        let local = seconds + i64::from(ahead);
        let clock = format!("{:02}:{:02}", local.div_euclid(3600).rem_euclid(24), local.div_euclid(60).rem_euclid(60));
        let shown = ui::timestamp(seconds as u64 * 1000 + 999);
        assert!(shown.ends_with(&clock), "{shown}");
    }
    assert!(["02-28 ", "02-29 ", "03-01 "].contains(&&ui::timestamp(951_782_400_000)[..6]));
    assert_eq!(ui::timestamp(253_402_207_201_000), "");
    assert_eq!(ui::availability_label(true), "可用");
    assert_ne!(ui::availability_label(false), "可用");
}

#[test]
fn entered_directories_are_split_from_what_is_sought_in_them() {
    assert_eq!(ui::split_dir_query("/home/me/pro"), Some(("/home/me/".into(), "pro".into())));
    assert_eq!(ui::split_dir_query("pro"), None);
}

#[test]
fn broken_file_falls_back_to_default() {
    let read = serde_json::from_str::<serde_json::Value>("{ not json")
        .ok()
        .map(|_| Connection { server: "http://s".into(), token: "t".into() });
    assert_eq!(load(read), Connection::default());
}

#[test]
fn a_file_stands_once_in_the_tree_under_its_path() {
    fn keys(nodes: &[DiffNode], ix: usize) -> Vec<String> {
        let own = nodes.iter().filter(|node| node.file_ix == Some(ix)).map(|node| node.key.clone());
        own.chain(nodes.iter().flat_map(|node| keys(&node.children, ix))).collect()
    }
    let files = vec![file("a//b"), file("a/c"), file("d"), file("a/c/e/"), file("d")];
    let tree = build(&files);
    for (ix, file) in files.iter().enumerate() {
        assert_eq!(keys(&tree, ix), [file.path.clone()]);
    }
}

#[test]
fn another_output_has_another_number() {
    let mut core = Core::new(Connection::default());
    let mut seen = Vec::new();
    for id in ["s1", "s2", "s1"] {
        poll::open_session(&mut core, id);
        let number = core.view.detail.terminal_output.generation();
        assert!(!seen.contains(&number));
        seen.push(number);
    }
}
