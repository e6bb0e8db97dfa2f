//! Shared types, texts and paths.

use amux::common::api::{ApiFormat, OrchestratorConfig, Session};
use amux::common::daemon::header;
use amux::common::domain::{
    default_fs_list_limit, default_fs_read_limit, generate_title, parse_session_state,
    ContentBlock, GitDiffLineKind, OpResult, SessionState,
};
use amux::common::jsonrpc::{server_error, JsonRpcId, JsonRpcNotification, JsonRpcRequest, JsonRpcResponse};
use amux::common::log::{log_dir, log_path, DEFAULT_FILTER};
use amux::common::model::{
    effort_params, reasoning_text, records_of, text_of, AssistantPart, LoopMessage, LoopRecord,
    LoopStep, ModelReply, ReasoningPart, ToolLoop, ToolRequest, MAX_TOOL_TURNS,
};
use amux::common::paths::{
    amux_home, config_file, daemon_dir, join_path, logs_dir, worktrees_dir,
};
use amux::common::text::truncate;
use amux::daemon::frames;
use logforth::Filter;

#[test]
fn state_roundtrip() {
    for state in [SessionState::Idle, SessionState::Busy] {
        assert_eq!(parse_session_state(state.as_str()), Some(state));
    }
    assert_eq!(parse_session_state("running"), None);
}

#[test]
fn state_names_are_the_wire_names() {
    assert_eq!(SessionState::Idle.as_str(), "idle");
    assert_eq!(SessionState::Busy.as_str(), "busy");
    assert_eq!(parse_session_state(""), None);
    assert_eq!(parse_session_state("Idle"), None);
}

#[test]
fn title_from_first_line_collapses_whitespace_and_truncates() {
    assert_eq!(generate_title("实现登录功能\n然后写测试"), "实现登录功能");
    assert_eq!(generate_title("  多  个   空格  \n第二行"), "多 个 空格");
    assert_eq!(generate_title(""), "");
    let long = "这".repeat(50);
    let title = generate_title(&long);
    assert_eq!(title.chars().count(), 41);
    assert!(title.ends_with('…'));
}

#[test]
fn title_of_forty_characters_is_kept_whole() {
    let exact = "a".repeat(40);
    assert_eq!(generate_title(&exact), exact);
    let over = "a".repeat(41);
    assert_eq!(generate_title(&over), format!("{exact}…"));
    for input in ["  a  b \n c", &over, "", &"ab ".repeat(20)] {
        let title = generate_title(input);
        assert_eq!(generate_title(&title), title);
    }
}

#[test]
fn log_path_lives_under_amux_logs() {
    let path = log_path(&amux_home(None, Some("/home/me")), "daemon");
    assert!(path.ends_with("logs/daemon.log"), "{path:?}");
}

#[test]
fn log_files_lie_in_the_log_directory() {
    assert_eq!(log_dir("/h/.amux"), "/h/.amux/logs");
    assert_eq!(log_path("/h/.amux", "app"), "/h/.amux/logs/app.log");
}

#[test]
fn default_filter_prioritizes_amux_logs_over_dependencies() {
    let filter = logforth::filter::rustlog::RustLogFilterBuilder::from_spec(DEFAULT_FILTER).build();
    let allows = |level, target| {
        let criteria = logforth::record::FilterCriteria::builder()
            .level(level)
            .target(target)
            .build();
        matches!(
            filter.enabled(&criteria, &[]),
            logforth::filter::FilterResult::Accept | logforth::filter::FilterResult::Neutral
        )
    };

    assert!(allows(logforth::record::Level::Info, "amux_daemon::connection"));
    assert!(allows(logforth::record::Level::Info, "amux_server::acp"));
    assert!(!allows(logforth::record::Level::Info, "tokio"));
    assert!(allows(logforth::record::Level::Warn, "tokio"));
}

#[test]
fn truncate_keeps_short_text_and_marks_cut() {
    assert_eq!(truncate("abc", 5), "abc");
    assert_eq!(truncate("abcdef", 3), "abc…");
    assert_eq!(truncate("中文测试", 2), "中文…");
}

#[test]
fn truncate_at_the_limit_and_at_nothing() {
    assert_eq!(truncate("abc", 3), "abc");
    assert_eq!(truncate("abc", 0), "…");
    assert_eq!(truncate("", 0), "");
}

#[test]
fn defaults_live_under_dot_amux() {
    let home = amux_home(None, Some("/home/me"));
    assert!(home.ends_with(".amux"));
    assert!(worktrees_dir(&home).ends_with("worktrees"));
    assert!(logs_dir(&home).ends_with("logs"));
    assert!(config_file(&home, "skills").ends_with("config/skills.json"));
}

#[test]
fn home_is_the_chosen_directory_where_one_is_chosen() {
    assert_eq!(amux_home(Some("/srv/amux"), Some("/home/me")), "/srv/amux");
    assert_eq!(amux_home(Some(""), Some("/home/me")), "/home/me/.amux");
    assert_eq!(amux_home(None, None), "./.amux");
    assert_eq!(daemon_dir("/h"), "/h/daemon");
    assert_eq!(config_file("/h", "skills"), "/h/config/skills.json");
}

#[test]
fn joining_an_absolute_path_replaces_the_base() {
    assert_eq!(join_path("/a", "b"), "/a/b");
    assert_eq!(join_path("/a/", "b"), "/a/b");
    assert_eq!(join_path("/a", "/b"), "/b");
}

#[test]
fn machine_header_round_trips_non_ascii_names() {
    let name = "开发机 A";
    let encoded = header::encode_machine(name);
    assert!(encoded.is_ascii() && !encoded.contains(' '), "{encoded}");
    assert_eq!(encoded, "%E5%BC%80%E5%8F%91%E6%9C%BA%20A");
    assert_eq!(header::decode_machine(&encoded).as_deref(), Some(name));
    assert_eq!(header::decode_machine("pc-1.local").as_deref(), Some("pc-1.local"));
    assert_eq!(header::decode_machine("%FF"), None);
}

#[test]
fn machine_header_escapes_reserved_characters() {
    assert_eq!(header::encode_machine("a/b%c"), "a%2Fb%25c");
    assert_eq!(header::decode_machine("a%2Fb%25c").as_deref(), Some("a/b%c"));
    assert_eq!(header::encode_machine("A-z_0.9~"), "A-z_0.9~");
    assert_eq!(header::decode_machine("50%").as_deref(), Some("50%"));
}

fn config(api_format: ApiFormat, effort: &str) -> OrchestratorConfig {
    OrchestratorConfig {
        api_format,
        base_url: String::new(),
        api_key: String::new(),
        model: String::new(),
        effort: effort.to_string(),
    }
}

#[test]
fn agent_config_round_trips_through_auth_meta() {
    let config = OrchestratorConfig {
        api_format: ApiFormat::Responses,
        base_url: "https://api.deepseek.com/v1".into(),
        api_key: "sk-xxx".into(),
        model: "deepseek-v4-flash".into(),
        effort: "high".into(),
    };
    let meta = config.auth_meta();
    assert_eq!(meta["amuxApiFormat"], "responses");
    assert_eq!(meta["amuxModel"], "deepseek-v4-flash");
    assert_eq!(OrchestratorConfig::from_auth_meta(meta).unwrap(), config);
}

#[test]
fn agent_config_rejects_missing_required_fields() {
    let mut meta = serde_json::Map::new();
    meta.insert("amuxModel".into(), "m".into());
    assert!(OrchestratorConfig::from_auth_meta(meta).is_err());
}

#[test]
fn agent_config_rejects_unknown_formats_and_blank_fields() {
    let full = OrchestratorConfig {
        api_format: ApiFormat::Messages,
        base_url: "https://a".into(),
        api_key: "k".into(),
        model: "m".into(),
        effort: "".into(),
    };
    assert!(full.validate().is_ok());
    let mut meta = full.auth_meta();
    meta.insert("amuxApiFormat".into(), "smoke_signals".into());
    assert!(OrchestratorConfig::from_auth_meta(meta).is_err());
    let mut meta = full.auth_meta();
    meta.insert("amuxApiKey".into(), serde_json::Value::from(5));
    assert!(OrchestratorConfig::from_auth_meta(meta).is_err());
    let blank = OrchestratorConfig { model: "  ".into(), ..full.clone() };
    assert!(blank.validate().is_err());
    assert!(OrchestratorConfig::from_auth_meta(blank.auth_meta()).is_err());
}

#[test]
fn effort_maps_to_each_api_format() {
    let value = |text: Option<String>| {
        text.map(|text| serde_json::from_str::<serde_json::Value>(&text).unwrap())
    };
    let chat = value(effort_params(&config(ApiFormat::ChatCompletions, "high"))).unwrap();
    assert_eq!(chat["reasoning_effort"], "high");
    assert_eq!(chat.as_object().unwrap().len(), 1);
    let responses = value(effort_params(&config(ApiFormat::Responses, "high"))).unwrap();
    assert_eq!(responses["reasoning"]["effort"], "high");
    assert_eq!(responses.as_object().unwrap().len(), 1);
    assert_eq!(responses["reasoning"].as_object().unwrap().len(), 1);
    let messages = value(effort_params(&config(ApiFormat::Messages, "high"))).unwrap();
    assert_eq!(messages["output_config"]["effort"], "high");
    assert_eq!(messages.as_object().unwrap().len(), 1);
    assert_eq!(messages["output_config"].as_object().unwrap().len(), 1);
    assert_eq!(effort_params(&config(ApiFormat::Responses, "")), None);
    assert_eq!(effort_params(&config(ApiFormat::Responses, "  ")), None);
}

#[test]
fn effort_is_trimmed_and_quoted() {
    let text = effort_params(&config(ApiFormat::ChatCompletions, " \"x\" ")).unwrap();
    assert_eq!(text, r#"{"reasoning_effort":"\"x\""}"#);
}

fn call(id: &str, name: &str) -> ToolRequest {
    ToolRequest { id: id.into(), name: name.into(), arguments: "{}".into() }
}

#[test]
fn tool_loop_records_thinking_and_tool_call_before_dispatch() {
    let (mut turns, first) = ToolLoop::new(vec![LoopMessage::User("开始".into())]);
    assert_eq!(first, LoopStep::Ask);
    let mut seen: Vec<String> = Vec::new();
    let (records, step) = turns.replied(Ok(ModelReply {
        message_id: None,
        parts: vec![
            AssistantPart::Reasoning(vec![ReasoningPart::Text("先看关联会话".into())]),
            AssistantPart::ToolCall(call("call_001", "list_sessions")),
        ],
    }));
    for record in records {
        match record {
            LoopRecord::Thinking(text) => seen.push(format!("thinking:{text}")),
            LoopRecord::Text(text) => seen.push(format!("text:{text}")),
        }
    }
    let LoopStep::Call(wanted) = step else { panic!("{step:?}") };
    seen.push(format!("tool_call:{}", wanted.name));
    assert_eq!(turns.tool_done(Ok(format!("{} 结果", wanted.name))), LoopStep::Ask);
    let (_, step) = turns.replied(Ok(ModelReply {
        message_id: None,
        parts: vec![AssistantPart::Text("完成".into())],
    }));
    assert_eq!(step, LoopStep::Finished(Ok("完成".into())));
    assert_eq!(seen, ["thinking:先看关联会话", "tool_call:list_sessions"]);
}

#[test]
fn a_format_may_be_the_one_member_of_an_object() {
    let config = OrchestratorConfig {
        api_format: ApiFormat::Messages,
        base_url: "https://a".into(),
        api_key: "k".into(),
        model: "m".into(),
        effort: String::new(),
    };
    let with = |format: &str| {
        let mut meta = config.auth_meta();
        meta.insert("amuxApiFormat".into(), serde_json::from_str(format).unwrap());
        OrchestratorConfig::from_auth_meta(meta)
    };
    assert_eq!(with(r#"{"messages":null}"#), Ok(config.clone()));
    assert!(with(r#"{"messages":1}"#).is_err());
    assert!(with(r#"{"messages":null,"responses":null}"#).is_err());
    assert!(with(r#"{"other":null}"#).is_err());
    assert!(with("{}").is_err());
}

#[test]
fn thoughts_are_recorded_before_the_text() {
    let parts = vec![
        AssistantPart::Text("a".into()),
        AssistantPart::Reasoning(vec![ReasoningPart::Text("想".into())]),
        AssistantPart::Reasoning(vec![ReasoningPart::Encrypted("x".into())]),
        AssistantPart::Text("b".into()),
    ];
    assert_eq!(
        records_of(&parts),
        [LoopRecord::Thinking("想".into()), LoopRecord::Text("ab".into())]
    );
    assert_eq!(text_of(&parts), "ab");
    assert!(records_of(&vec![]).is_empty());
}

#[test]
fn tool_loop_runs_calls_in_order_and_sends_results_together() {
    let (mut turns, _) = ToolLoop::new(vec![LoopMessage::User("go".into())]);
    let (_, step) = turns.replied(Ok(ModelReply {
        message_id: None,
        parts: vec![
            AssistantPart::ToolCall(call("1", "a")),
            AssistantPart::ToolCall(call("2", "b")),
        ],
    }));
    assert_eq!(step, LoopStep::Call(call("1", "a")));
    assert_eq!(turns.tool_done(Ok("one".into())), LoopStep::Call(call("2", "b")));
    assert_eq!(turns.tool_done(Err("broken".into())), LoopStep::Ask);
    let Some(LoopMessage::Results(results)) = &turns.prompt else { panic!() };
    assert_eq!(results.len(), 2);
    assert_eq!(results[0].text, "one");
    assert!(results[1].text.contains("broken"));
}

#[test]
fn tool_loop_ends_at_the_limit_or_with_the_failure() {
    let (mut turns, _) = ToolLoop::new(vec![LoopMessage::User("go".into())]);
    for _ in 0..MAX_TOOL_TURNS {
        let (_, step) = turns.replied(Ok(ModelReply {
            message_id: None,
            parts: vec![AssistantPart::ToolCall(call("1", "a"))],
        }));
        assert_eq!(step, LoopStep::Call(call("1", "a")));
        let next = turns.tool_done(Ok(String::new()));
        if turns.turns == MAX_TOOL_TURNS {
            let LoopStep::Finished(Ok(text)) = next else { panic!("{next:?}") };
            assert!(text.contains("32 次上限"));
        } else {
            assert_eq!(next, LoopStep::Ask);
        }
    }
    let (_, nothing) = ToolLoop::new(Vec::new());
    assert_eq!(nothing, LoopStep::Finished(Err("对话历史为空".into())));
    let (mut turns, _) = ToolLoop::new(vec![LoopMessage::User("go".into())]);
    let (records, step) = turns.replied(Err("down".into()));
    assert!(records.is_empty());
    assert_eq!(step, LoopStep::Finished(Err("模型调用失败: down".into())));
}

#[test]
fn reasoning_is_the_readable_parts() {
    let parts = vec![
        ReasoningPart::Text("a".into()),
        ReasoningPart::Encrypted("secret".into()),
        ReasoningPart::Summary("b".into()),
    ];
    let text = reasoning_text(&parts);
    assert!(text.contains('a') && text.contains('b'), "{text}");
    assert!(!text.contains("secret"), "{text}");
}

#[test]
fn error_response_roundtrip() {
    let resp = JsonRpcResponse::error(JsonRpcId::Number(7), server_error::GIT_FAILED, "boom".into());
    assert!(resp.result.is_none());
    assert_eq!(resp.error.unwrap().code, server_error::GIT_FAILED);
    let text = frames::error_response(JsonRpcId::Number(7), server_error::GIT_FAILED, "boom");
    assert!(!text.contains("result"));
    let back: serde_json::Value = serde_json::from_str(&text).unwrap();
    assert_eq!(back["error"]["code"], server_error::GIT_FAILED);
    assert_eq!(back["id"], 7);
}

#[test]
fn requests_and_notifications_carry_the_version() {
    let request = JsonRpcRequest::new(1, "agent.list".into(), serde_json::Value::Null);
    assert_eq!(request.jsonrpc, "2.0");
    assert_eq!(request.id, JsonRpcId::Number(1));
    assert_eq!(request.method, "agent.list");
    let note = JsonRpcNotification::new("acp".into(), serde_json::Value::Bool(true));
    assert_eq!(note.jsonrpc, "2.0");
    assert_eq!(note.params, Some(serde_json::Value::Bool(true)));
    let ok = JsonRpcResponse::ok(JsonRpcId::from(3), serde_json::Value::Bool(true));
    assert_eq!(ok.id, JsonRpcId::Number(3));
    assert!(ok.error.is_none());
}

#[test]
fn small_values_are_as_documented() {
    assert_eq!(GitDiffLineKind::Add.prefix(), '+');
    assert_eq!(GitDiffLineKind::Remove.prefix(), '-');
    assert_eq!(GitDiffLineKind::Context.prefix(), ' ');
    assert_eq!(default_fs_list_limit(), 200);
    assert_eq!(default_fs_read_limit(), 400);
    assert_eq!(OpResult::ok(), OpResult { ok: true, message: None });
    assert_eq!(ApiFormat::ChatCompletions.as_str(), "chat_completions");
    let block = ContentBlock::Text { text: "hi".into() };
    assert_eq!(block.clone(), block);
}

#[test]
fn root_of_a_session_is_its_worktree_where_it_has_one() {
    let mut session = Session {
        id: "s1".into(),
        machine: "pc".into(),
        agent: "codex".into(),
        title: "t".into(),
        state: SessionState::Idle,
        project: None,
        workspace: "/w".into(),
        worktree_dir: String::new(),
        created_at: 1,
        updated_at: 2,
    };
    assert_eq!(session.root_dir(), "/w");
    session.worktree_dir = "/t".into();
    assert_eq!(session.root_dir(), "/t");
}
