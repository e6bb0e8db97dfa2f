//! Agents, connection, files, outbox, terminals and worktrees of the daemon.

use amux::common::daemon::{method, notify};
use amux::common::domain::{
    FsEntry, TerminalIdParams, TerminalInputParams, TerminalOpenParams, TerminalResizeParams,
};
use amux::common::jsonrpc::{rpc_error, server_error, JsonRpcId, JsonRpcNotification, JsonRpcRequest};
use amux::daemon::agents::{
    launch_spec, start_failed, write_failed, AgentRegistry, Launch, Programs, StartFailure,
    KNOWN_AGENTS,
};
use amux::daemon::connection::{
    call_of, connect_failed, dispatch, dispatch_read, execute, handle_notification, handle_request, handshake,
    received, with_daemon_path, Call, ConnectFailure, Dispatch, Reception, SocketMessage,
    Work,
};
use amux::daemon::daemon_lock::{acquire_in, lock_path, lock_path_in, LockAttempt};
use amux::daemon::frames;
use amux::daemon::fs::{canonical_path, FoundDir, FoundFile, FsBrowser};
use amux::daemon::machine::{hostname, machine_info, Platform};
use amux::daemon::outbox::{FrameSeq, Outbox};
use amux::daemon::rpc::RpcError;
use amux::daemon::terminal::{
    check_open, input_closed, open_failed, resize_failed, OpenFailure, PumpStep, TerminalRegistry,
};
use amux::encoding::base64_round_trip;

const NOTHING: Programs = Programs { codex: false, npx: false, bun: false };
const ALL: Programs = Programs { codex: true, npx: true, bun: true };

#[test]
fn unknown_agent_has_no_launch_spec() {
    assert!(launch_spec("unknown").is_none());
    assert!(launch_spec("codex").is_some());
}

#[test]
fn list_only_reports_installed_agents() {
    for programs in [NOTHING, ALL, Programs { codex: true, npx: false, bun: true }] {
        let registry: AgentRegistry<()> = AgentRegistry::new();
        let list = registry.list(programs);
        for agent in list.agents {
            assert!(KNOWN_AGENTS.contains(&agent.name.as_str()));
            assert!(!agent.running);
        }
    }
    let registry: AgentRegistry<()> = AgentRegistry::new();
    let names = |programs| -> Vec<String> {
        registry.list(programs).agents.into_iter().map(|agent| agent.name).collect()
    };
    assert_eq!(names(NOTHING), ["nano"]);
    assert_eq!(names(ALL), ["nano", "codex"]);
}

#[test]
fn forward_to_agent_requires_running_agent() {
    let registry: AgentRegistry<&str> = AgentRegistry::new();
    let error = registry.forward_to_agent("codex").unwrap_err();
    assert!(error.contains("未启动"), "{error}");
}

#[test]
fn exit_of_an_earlier_run_leaves_the_later_one() {
    let mut registry: AgentRegistry<&str> = AgentRegistry::new();
    let first = registry.started("codex", "one");
    assert_eq!(registry.forward_to_agent("codex"), Ok(&"one"));
    let (before, launch) = registry.restart("codex", ALL).ok().unwrap();
    assert_eq!(before.unwrap().process, "one");
    assert!(matches!(launch, Launch::External(_)));
    let second = registry.started("codex", "two");
    assert!(second > first);
    assert!(!registry.on_exit("codex", first));
    assert_eq!(registry.forward_to_agent("codex"), Ok(&"two"));
    assert!(registry.on_exit("codex", second));
    assert!(registry.forward_to_agent("codex").is_err());
}

#[test]
fn agents_that_are_not_installed_do_not_start() {
    let mut registry: AgentRegistry<()> = AgentRegistry::new();
    let error = registry.restart("codex", NOTHING).err().unwrap();
    assert_eq!(error, "本机未安装 agent: codex");
    let (before, launch) = registry.restart("nano", NOTHING).ok().unwrap();
    assert!(before.is_none());
    assert!(matches!(launch, Launch::Nano));
    registry.started("nano", ());
    assert_eq!(registry.shutdown_all().len(), 1);
    assert!(registry.terminate("nano").is_none());
}

#[test]
fn agent_failures_name_the_agent() {
    assert!(write_failed("codex", "pipe").contains("pipe"));
    for failure in [
        StartFailure::Spawn,
        StartFailure::NoPid,
        StartFailure::NoStdin,
        StartFailure::NoStdout,
        StartFailure::NoStderr,
    ] {
        assert!(!start_failed(failure, "codex", "cause").is_empty());
    }
}

#[test]
fn server_url_defaults_to_daemon_endpoint() {
    assert_eq!(
        with_daemon_path("ws://127.0.0.1:34567"),
        "ws://127.0.0.1:34567/daemon"
    );
    assert_eq!(
        with_daemon_path("wss://example.com:443/"),
        "wss://example.com:443/"
    );
    assert_eq!(
        with_daemon_path("ws://example.com/custom"),
        "ws://example.com/custom"
    );
}

#[test]
fn machine_header_is_url_encoded() {
    let opening = handshake("ws://127.0.0.1:1", "test-token", "开发机 A");
    assert_eq!(opening.url, "ws://127.0.0.1:1/daemon");
    assert_eq!(opening.authorization, "Bearer test-token");
    assert_eq!(opening.machine, "%E5%BC%80%E5%8F%91%E6%9C%BA%20A");
    assert_eq!(connect_failed(ConnectFailure::Handshake, "401"), "握手失败: 401");
}

#[test]
fn only_text_is_dispatched_and_closing_stops() {
    assert!(matches!(received(SocketMessage::Text("{}".into())), Reception::Dispatch(text) if text == "{}"));
    assert!(matches!(received(SocketMessage::Ping), Reception::Ignore));
    assert!(matches!(received(SocketMessage::Binary), Reception::Ignore));
    assert!(matches!(received(SocketMessage::Close), Reception::Stop));
}

#[test]
fn invalid_acp_notification_does_not_break_connection() {
    let note = |name: &str, params| JsonRpcNotification {
        jsonrpc: "2.0".into(),
        method: name.into(),
        params,
    };
    assert!(matches!(
        handle_notification(note(notify::ACP, Some(serde_json::Value::Null))),
        Dispatch::Forward(_)
    ));
    assert!(matches!(handle_notification(note(notify::ACP, None)), Dispatch::NoParams));
    assert!(matches!(
        handle_notification(note("other", None)),
        Dispatch::UnknownNotification(name) if name == "other"
    ));
    assert!(matches!(dispatch("{", None, None), Dispatch::NotJson));
    assert!(matches!(dispatch(r#"{"id":1,"result":{}}"#, None, None), Dispatch::NoMethod));
    assert!(matches!(dispatch("[\"method\"]", None, None), Dispatch::NoMethod));
    assert!(matches!(dispatch(r#"{"method":1}"#, None, None), Dispatch::Unreadable));
    let request =
        || JsonRpcRequest::new(1, method::MACHINE_INFO.into(), serde_json::Value::Null);
    assert!(matches!(
        dispatch(r#"{"method":"machine.info","id":1}"#, Some(request()), None),
        Dispatch::Request(request) if request.method == method::MACHINE_INFO
    ));
    assert!(matches!(
        dispatch(r#"{"method":"acp"}"#, None, Some(note(notify::ACP, None))),
        Dispatch::NoParams
    ));
    assert!(matches!(dispatch_read(None, Some(request()), None), Dispatch::NotJson));
    assert!(matches!(dispatch_read(Some(false), Some(request()), None), Dispatch::NoMethod));
}

#[test]
fn daemon_serves_methods_by_name() {
    assert_eq!(call_of("machine.info"), Ok(Call::MachineInfo));
    assert_eq!(call_of("git.worktree.remove"), Ok(Call::GitWorktreeRemove));
    assert_eq!(call_of("terminal.close"), Ok(Call::TerminalClose));
    let unknown = call_of("nope.method").unwrap_err();
    assert_eq!(unknown.code, -32601);
    let bad = execute(Work::BadParams("cols".into())).unwrap_err();
    assert_eq!(bad.code, -32602);
    let text = handle_request(JsonRpcId::Number(5), Err(bad));
    let value: serde_json::Value = serde_json::from_str(&text).unwrap();
    assert_eq!(value["error"]["code"], -32602);
    assert_eq!(value["id"], 5);
    let text = handle_request(JsonRpcId::String("x".into()), execute(Work::Done("{\"a\":1}".into())));
    let value: serde_json::Value = serde_json::from_str(&text).unwrap();
    assert_eq!(value["result"]["a"], 1);
    assert_eq!(value["id"], "x");
}

#[test]
fn failures_have_their_codes() {
    assert_eq!(execute(Work::AgentFailed("a".into())).unwrap_err(), RpcError::agent_unavailable("a".into()));
    assert_eq!(execute(Work::GitFailed("g".into())).unwrap_err().code, server_error::GIT_FAILED);
    assert_eq!(execute(Work::FsFailed("f".into())).unwrap_err().code, server_error::FS_FAILED);
    assert_eq!(execute(Work::NotWritten("n".into())).unwrap_err().code, rpc_error::INTERNAL_ERROR);
    let refused = RpcError::invalid_input("i".into());
    assert_eq!(refused.code, server_error::INVALID_INPUT);
    assert_eq!(execute(Work::Refused(refused.clone())).unwrap_err(), refused);
    assert_eq!(RpcError::invalid_params("p".into()).code, rpc_error::INVALID_PARAMS);
    assert_eq!(RpcError::internal("p".into()).code, rpc_error::INTERNAL_ERROR);
    assert_eq!(RpcError::git("p".into()).code, server_error::GIT_FAILED);
    assert_eq!(RpcError::fs("p".into()).message, "p");
}

#[test]
fn lock_path_uses_raw_machine_name() {
    let path = lock_path_in("/tmp/amux", "开发机 A");
    assert_eq!(path.rsplit('/').next(), Some("开发机 A.lock"));
}

#[test]
fn a_held_lock_is_refused() {
    assert_eq!(lock_path("/h/.amux", "pc"), "/h/.amux/daemon/pc.lock");
    assert_eq!(acquire_in("/d", "pc", LockAttempt::Locked), Ok(()));
    let error = acquire_in("/d", "pc", LockAttempt::Held).unwrap_err();
    assert!(error.contains("已有 Daemon 正在运行"), "{error}");
    for attempt in [
        LockAttempt::NoDirectory("denied".into()),
        LockAttempt::NotOpened("denied".into()),
        LockAttempt::Failed("denied".into()),
    ] {
        assert!(acquire_in("/d", "pc", attempt).unwrap_err().contains("denied"));
    }
}

#[test]
fn acp_notification_frame_shape() {
    let frame = frames::acp_frame("codex", r#"{"jsonrpc":"2.0","id":1}"#);
    let value: serde_json::Value = serde_json::from_str(&frame).unwrap();
    assert_eq!(value["jsonrpc"], "2.0");
    assert_eq!(value["method"], "acp");
    assert_eq!(value["params"]["agent"], "codex");
    assert_eq!(value["params"]["raw"], r#"{"jsonrpc":"2.0","id":1}"#);
    assert!(value.get("id").is_none());
}

#[test]
fn frames_hold_what_they_are_given() {
    let note = frames::notification(notify::TERMINAL_EXIT, r#"{"terminalId":"t"}"#);
    let value: serde_json::Value = serde_json::from_str(&note).unwrap();
    assert_eq!(value["method"], "terminal.exit");
    assert_eq!(value["params"]["terminalId"], "t");
    let answer = frames::response(JsonRpcId::Number(9), "[1,2]");
    let value: serde_json::Value = serde_json::from_str(&answer).unwrap();
    assert_eq!(value["result"][1], 2);
    let refusal = frames::error_response(JsonRpcId::Number(9), -1, "a \"b\"\n\u{1}");
    let value: serde_json::Value = serde_json::from_str(&refusal).unwrap();
    assert_eq!(value["error"]["message"], "a \"b\"\n\u{1}");
}

fn entry(dir: &str, name: &str, is_dir: bool) -> FsEntry {
    FsEntry { name: name.into(), path: format!("{dir}/{name}"), is_dir, size: 1 }
}

fn names(entries: &[FsEntry]) -> Vec<&str> {
    entries.iter().map(|entry| entry.name.as_str()).collect()
}

#[test]
fn list_sorts_directories_and_paginates() {
    let dir = "/tmp/amux-fs-list";
    let found = || {
        FoundDir::Entries(vec![
            entry(dir, "z.txt", false),
            entry(dir, "src", true),
            entry(dir, "a.txt", false),
        ])
    };
    let result = FsBrowser::new().list(Some(dir), found(), 2, 0, false).unwrap();
    assert_eq!(result.path, dir);
    assert_eq!(result.entries.len(), 2);
    assert_eq!(result.entries[0].name, "src");
    assert_eq!(result.entries[1].name, "a.txt");
    assert_eq!(result.entries[0].path, format!("{dir}/src"));
    assert!(result.has_more);
    assert_eq!(result.next_offset, 2);

    let next = FsBrowser::new()
        .list(Some(dir), found(), 2, result.next_offset, false)
        .unwrap();
    assert_eq!(names(&next.entries), ["z.txt"]);
    assert!(!next.has_more);
}

#[test]
fn list_dirs_only_filters_before_paging() {
    let dir = "/tmp/amux-fs-dirs-only";
    let found = || {
        FoundDir::Entries(vec![
            entry(dir, "f1.txt", false),
            entry(dir, "b", true),
            entry(dir, "f2.txt", false),
            entry(dir, "a", true),
            entry(dir, "f3.txt", false),
        ])
    };
    let first = FsBrowser::new().list(Some(dir), found(), 1, 0, true).unwrap();
    assert_eq!(names(&first.entries), ["a"]);
    assert!(first.entries[0].is_dir);
    assert!(first.has_more);

    let second = FsBrowser::new()
        .list(Some(dir), found(), 1, first.next_offset, true)
        .unwrap();
    assert_eq!(names(&second.entries), ["b"]);
    assert!(!second.has_more);
}

#[test]
fn list_accepts_any_absolute_path() {
    let result = FsBrowser::new()
        .list(Some("/tmp/amux-fs-anywhere"), FoundDir::Entries(vec![]), 10, 0, false)
        .unwrap();
    assert!(result.entries.is_empty());
    let etc = FsBrowser::new()
        .list(Some("/etc"), FoundDir::Entries(vec![entry("/etc", "passwd", false)]), 500, 0, false)
        .unwrap();
    assert!(etc.entries.iter().any(|entry| entry.name == "passwd"));
}

#[test]
fn directories_that_cannot_be_listed_say_why() {
    let browser = FsBrowser::new();
    for found in [
        FoundDir::Inaccessible("gone".into()),
        FoundDir::Unreadable("gone".into()),
        FoundDir::EntryUnreadable("gone".into()),
        FoundDir::EntryUnknown("gone".into()),
        FoundDir::NotADirectory("gone".into()),
    ] {
        let error = browser.list(Some("/x"), found, 10, 0, false).unwrap_err();
        assert!(error.contains("gone"), "{error}");
    }
    assert_eq!(canonical_path(""), ".");
    assert_eq!(canonical_path("/a"), "/a");
}

#[test]
fn read_returns_line_pages() {
    let browser = FsBrowser::new();
    let file = "/tmp/amux-fs-read/notes.txt";
    let bytes = || FoundFile::Bytes(b"one\ntwo\nthree\n".to_vec());
    let first = browser.read(file, bytes(), 0, 2).unwrap();
    assert_eq!(first.content, "one\ntwo\n");
    assert!(first.has_more);
    assert_eq!(first.next_offset, 2);

    let second = browser.read(file, bytes(), first.next_offset, 2).unwrap();
    assert_eq!(second.content, "three\n");
    assert!(!second.has_more);
}

#[test]
fn pages_of_a_text_make_it_up() {
    let browser = FsBrowser::new();
    let text = "a\n\nb\nc\nd";
    let mut whole = String::new();
    let mut offset = 0;
    loop {
        let page = browser.page("/f", text, offset, 2);
        whole.push_str(&page.content);
        if !page.has_more {
            break;
        }
        offset = page.next_offset;
    }
    assert_eq!(whole, text);
}

#[test]
fn files_that_cannot_be_read_say_why() {
    let browser = FsBrowser::new();
    assert!(browser.read("/x", FoundFile::Inaccessible("gone".into()), 0, 1).unwrap_err().contains("gone"));
    assert!(browser.read("/x", FoundFile::Unreadable("gone".into()), 0, 1).unwrap_err().contains("gone"));
    assert!(browser.read("/x", FoundFile::NotAFile, 0, 1).is_err());
    let binary = browser.read("/x", FoundFile::Bytes(vec![0x61, 0xff]), 0, 1).unwrap_err();
    assert_eq!(binary, "文件不是 UTF-8 文本");
}

#[test]
fn machine_info_carries_platform_and_name() {
    let platform = Platform {
        os: "linux",
        arch: "x86_64",
        host_set: None,
        host_file: Some("pc\n"),
        temp_dir: "/tmp",
        version: "0.1.0",
    };
    let info = machine_info("localpc", &platform);
    assert_eq!(info.name, "localpc");
    assert!(!info.os.is_empty());
    assert!(!info.arch.is_empty());
    assert!(!info.temp_dir.is_empty());
    assert_eq!(info.version, "0.1.0");
    assert_eq!(info.hostname, "pc");
}

#[test]
fn host_name_comes_from_the_first_source_that_has_one() {
    assert_eq!(hostname(Some("a"), Some("b")), "a");
    assert_eq!(hostname(Some(""), Some(" b \n")), "b");
    assert_eq!(hostname(None, Some("  ")), "unknown");
    assert_eq!(hostname(None, None), "unknown");
}

#[test]
fn drops_oldest_frame_when_full() {
    let mut outbox = Outbox::with_capacity(2);
    outbox.push("a".into());
    outbox.push("b".into());
    outbox.push("c".into());
    assert_eq!(outbox.len(), 2);
    assert_eq!(outbox.peek().unwrap().1, "b");
    let (seq, _) = outbox.peek().unwrap();
    outbox.ack(seq);
    assert_eq!(outbox.peek().unwrap().1, "c");
}

#[test]
fn ack_mismatch_keeps_frame() {
    let mut outbox = Outbox::new();
    outbox.push("only".into());
    let (seq, _) = outbox.peek().unwrap();
    outbox.ack(FrameSeq(seq.0 + 1));
    assert_eq!(outbox.len(), 1);
}

#[test]
fn acknowledged_frames_leave_in_order() {
    let mut outbox = Outbox::default();
    assert!(outbox.peek().is_none());
    for frame in ["a", "b", "c"] {
        outbox.push(frame.into());
    }
    let mut seen = Vec::new();
    while let Some((seq, frame)) = outbox.peek() {
        seen.push(frame);
        outbox.ack(seq);
    }
    assert_eq!(seen, ["a", "b", "c"]);
    assert_eq!(outbox.len(), 0);
}

#[test]
fn method_not_found_mentions_method() {
    let error = RpcError::method_not_found("fs.list");
    assert_eq!(error.code, rpc_error::METHOD_NOT_FOUND);
    assert!(error.message.contains("fs.list"));
}

#[test]
fn base64_roundtrip() {
    let raw: Vec<u8> = (0u8..=255).collect();
    assert_eq!(base64_round_trip(&raw).unwrap(), raw);
}

#[test]
fn missing_terminal_reports_not_found() {
    let registry: TerminalRegistry<()> = TerminalRegistry::new();
    let error = registry
        .input(&TerminalInputParams { terminal_id: "nope".into(), data: String::new() })
        .err()
        .unwrap();
    assert_eq!(error.code, server_error::TERMINAL_NOT_FOUND);
}

#[test]
fn terminals_are_found_until_they_end() {
    let mut registry: TerminalRegistry<u32> = TerminalRegistry::new();
    let id = registry.open(7);
    assert!(!id.is_empty());
    let (handle, bytes) = registry
        .input(&TerminalInputParams { terminal_id: id.clone(), data: "aGk=".into() })
        .ok()
        .unwrap();
    assert_eq!((*handle, bytes), (7, b"hi".to_vec()));
    let error = registry
        .input(&TerminalInputParams { terminal_id: id.clone(), data: "*".into() })
        .err()
        .unwrap();
    assert_eq!(error.code, rpc_error::INVALID_PARAMS);
    let resize = TerminalResizeParams { terminal_id: id.clone(), cols: 80, rows: 24 };
    assert_eq!(registry.resize(&resize), Ok(&7));
    let flat = TerminalResizeParams { terminal_id: id.clone(), cols: 0, rows: 24 };
    assert!(registry.resize(&flat).is_err());
    let PumpStep::Output(frame) = registry.pump(&id, b"\xff") else { panic!() };
    let value: serde_json::Value = serde_json::from_str(&frame).unwrap();
    assert_eq!(value["method"], notify::TERMINAL_OUTPUT);
    assert_eq!(value["params"]["terminalId"], id.as_str());
    assert_eq!(value["params"]["data"], "/w==");
    let PumpStep::Exit(handle, frame) = registry.pump(&id, b"") else { panic!() };
    assert_eq!(handle, Some(7));
    let value: serde_json::Value = serde_json::from_str(&frame).unwrap();
    assert_eq!(value["method"], notify::TERMINAL_EXIT);
    let gone = registry.close(&TerminalIdParams { terminal_id: id }).unwrap_err();
    assert_eq!(gone.code, server_error::TERMINAL_NOT_FOUND);
    registry.register("t".into(), 1);
    assert_eq!(registry.close(&TerminalIdParams { terminal_id: "t".into() }), Ok(1));
    registry.register("u".into(), 2);
    assert_eq!(registry.shutdown_all(), [2]);
}

#[test]
fn terminals_open_in_directories_with_a_size() {
    let params = |cols, rows| TerminalOpenParams { cwd: "/tmp".into(), cols, rows };
    assert_eq!(check_open(&params(80, 24), true), Ok(()));
    assert!(check_open(&params(0, 24), true).is_err());
    assert!(check_open(&params(80, 0), true).is_err());
    assert!(check_open(&params(80, 24), false).is_err());
    for failure in [
        OpenFailure::Pty,
        OpenFailure::Shell,
        OpenFailure::Writer,
        OpenFailure::Reader,
        OpenFailure::WaitThread,
        OpenFailure::InputThread,
        OpenFailure::OutputThread,
    ] {
        assert!(open_failed(failure, "why").message.contains("why"));
    }
    assert!(resize_failed("why").message.contains("why"));
    assert!(!input_closed().message.is_empty());
}

#[test]
fn acp_forward_carries_agent_and_raw_message() {
    let frame =
        frames::acp_frame("codex", r#"{"jsonrpc":"2.0","id":1,"method":"initialize"}"#);
    let frame: serde_json::Value = serde_json::from_str(&frame).unwrap();
    let json = &frame["params"];
    assert_eq!(json["agent"], "codex");
    assert!(json["raw"].as_str().unwrap().contains("initialize"));
}

#[test]
fn terminal_output_notification_shape() {
    let mut registry: TerminalRegistry<u8> = TerminalRegistry::new();
    let PumpStep::Output(frame) = registry.pump("t1", b"hi") else { panic!() };
    let frame: serde_json::Value = serde_json::from_str(&frame).unwrap();
    let json = &frame["params"];
    assert_eq!(json["terminalId"], "t1");
    assert_eq!(json["data"], "aGk=");
}
