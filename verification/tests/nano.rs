//! The built-in agent: its sessions, its turns and its shell.

use amux::common::api::{ApiFormat, OrchestratorConfig, AMUX_AUTH_METHOD};
use amux::common::model::LoopMessage;
use amux::daemon::nano::runtime::{
    checked_timeout, idle_meta, stop_reason, timeout_description, tool_call_id, tool_status, unknown_tool,
    Conversation, RunEnd, StopReason, ToolStatus,
};
use amux::daemon::nano::shell::{
    char_boundary_at_or_after, Capture, Execution, Stream, MAX_BYTES, MAX_LINES,
    MAX_TIMEOUT_SECONDS,
};
use amux::daemon::nano::{AcpError, Nano, PromptPart};

fn meta() -> serde_json::Map<String, serde_json::Value> {
    OrchestratorConfig {
        api_format: ApiFormat::ChatCompletions,
        base_url: "http://127.0.0.1:1".into(),
        api_key: "k".into(),
        model: "m".into(),
        effort: String::new(),
    }
    .auth_meta()
}

fn logged_in() -> Nano {
    let mut nano = Nano::new();
    nano.login(AMUX_AUTH_METHOD, meta()).unwrap();
    nano
}

#[test]
fn session_new_before_login_is_auth_required() {
    let mut nano = Nano::new();
    let error = nano.new_session("/tmp".into()).unwrap_err();
    assert_eq!(error, AcpError::AuthRequired);
    assert_eq!(error.code(), -32000);
    assert!(nano.config().is_err());
}

#[test]
fn auth_login_then_session_lifecycle() {
    let mut nano = logged_in();
    let id = nano.new_session("/tmp".into()).unwrap();
    assert!(nano.delete_session(&id).is_some());
    assert!(nano.delete_session(&id).is_none());
    assert!(nano.resume_session(id.clone(), "/tmp".into()).is_ok());
    assert!(nano.close_session(&id).is_some());
    assert!(nano.open_session("s".into(), "/tmp".into()).is_ok());
    assert_eq!(nano.logout().len(), 1);
    assert!(nano.config().is_err());
}

#[test]
fn login_is_refused_for_other_methods_and_bad_settings() {
    let mut nano = Nano::new();
    assert!(nano.login("password", meta()).is_err());
    let error = nano.login(AMUX_AUTH_METHOD, serde_json::Map::new()).unwrap_err();
    assert!(matches!(error, AcpError::InvalidParams(_)), "{error:?}");
    assert!(nano.config().is_err());
}

fn text(text: &str) -> PromptPart {
    PromptPart::Text(text.into())
}

#[test]
fn cancelling_inflight_model_request_returns_idle_and_allows_next_prompt() {
    let mut nano = logged_in();
    let id = nano.new_session("/tmp".into()).unwrap();
    for _ in 0..2 {
        let turn = nano.prompt(&id, &vec![text("开始")]).ok().unwrap();
        assert_eq!(turn.text, "开始");
        assert_eq!(turn.cwd, "/tmp");
        assert!(nano.prompt(&id, &vec![text("again")]).is_err());
        assert_eq!(nano.cancel(&id), Some(turn.number));
        assert_eq!(stop_reason(true, false), StopReason::Cancelled);
        assert!(nano.finish(&id, turn.number, vec![LoopMessage::User("开始".into())]));
        assert_eq!(nano.cancel(&id), None);
    }
}

#[test]
fn the_end_of_an_earlier_turn_is_ignored() {
    let mut nano = logged_in();
    let id = nano.new_session("/tmp".into()).unwrap();
    let old = nano.prompt(&id, &vec![text("a")]).ok().unwrap();
    nano.delete_session(&id);
    nano.resume_session(id.clone(), "/tmp".into()).unwrap();
    let new = nano.prompt(&id, &vec![text("b")]).ok().unwrap();
    assert_ne!(old.number, new.number);
    assert!(!nano.finish(&id, old.number, Vec::new()));
    assert_eq!(nano.cancel(&id), Some(new.number));
    assert!(nano.prompt("missing", &vec![text("a")]).is_err());
}

#[test]
fn prompts_are_text_only() {
    let mut nano = logged_in();
    let id = nano.new_session("/tmp".into()).unwrap();
    assert!(nano.prompt(&id, &vec![PromptPart::Other("image".into())]).is_err());
    let turn = nano.prompt(&id, &vec![text("a"), text("b")]).ok().unwrap();
    assert_eq!(turn.text, "a\nb");
}

#[test]
fn history_is_kept_however_a_turn_ends() {
    let before = || vec![LoopMessage::User("之前".into())];
    let ask = || Conversation::new(before(), "执行".into());
    let asked = LoopMessage::User("执行".into());
    assert_eq!(ask().stopped(), [before()[0].clone(), asked.clone()]);
    let (history, failure) = ask().ended(RunEnd::Failed("down".into()));
    assert_eq!(history, [before()[0].clone(), asked.clone()]);
    assert!(failure.unwrap().contains("down"));
    let (history, failure) = ask().ended(RunEnd::NotSetUp("no key".into()));
    assert_eq!(history, before());
    assert_eq!(failure.as_deref(), Some("no key"));
    let whole = vec![asked.clone(), LoopMessage::User("more".into())];
    let (history, failure) = ask().ended(RunEnd::Answered(Some(whole.clone())));
    assert_eq!(history.len(), 3);
    assert_eq!(failure, None);
    let mut running = ask();
    running.about_to_ask(vec![before()[0].clone(), asked.clone()], LoopMessage::User("r".into()));
    assert_eq!(running.stopped().len(), 3);
}

#[test]
fn tools_answer_with_their_status() {
    assert_eq!(tool_status(false), ToolStatus::Completed);
    assert_eq!(tool_status(true), ToolStatus::Failed);
    assert_eq!(tool_call_id(Some("given".into()), "own".into()), "given");
    assert_eq!(tool_call_id(None, "own".into()), "own");
    assert!(unknown_tool("rm").contains("rm"));
    assert_eq!(stop_reason(false, false), StopReason::EndTurn);
    assert!(matches!(stop_reason(false, true), StopReason::Other(_)));
    let meta = idle_meta(&Some("down".into())).unwrap();
    assert_eq!(meta.len(), 1);
    assert_eq!(meta["_nanoError"], "down");
    assert!(idle_meta(&None).is_none());
    assert_eq!(checked_timeout(None), Ok(None));
    assert_eq!(checked_timeout(Some(5)), Ok(Some(5)));
    assert!(checked_timeout(Some(0)).is_err());
    assert!(checked_timeout(Some(MAX_TIMEOUT_SECONDS)).is_ok());
    assert!(checked_timeout(Some(MAX_TIMEOUT_SECONDS + 1)).is_err());
    assert!(timeout_description().contains("86400"));
}

/// A stream's output with the file it is kept in.
#[derive(Default)]
struct Kept {
    file: Vec<u8>,
}

impl Kept {
    fn append(&mut self, capture: &mut Capture, bytes: &[u8]) {
        let opened = if capture.needs_spill(bytes) { Some("/tmp/full.log".to_string()) } else { None };
        let write = capture.append(bytes, opened);
        self.file.extend(write);
    }
}

#[test]
fn capture_keeps_tail_and_saves_full_output() {
    let mut capture = Capture::new();
    let mut kept = Kept::default();
    for index in 0..MAX_LINES + 100 {
        kept.append(&mut capture, format!("{index}\n").as_bytes());
    }
    kept.file.extend(capture.finish(None));
    let text = capture.text();
    assert!(text.contains("输出已截断"));
    assert!(text.trim_end().ends_with(&(MAX_LINES + 99).to_string()));
    assert!(!text.contains("\n0\n"));
    assert!(text.contains("完整输出：/tmp/full.log"), "{}", &text[..200]);
    let full = String::from_utf8(kept.file).unwrap();
    assert_eq!(full.lines().count(), MAX_LINES + 100);
    assert_eq!(capture.total_lines(), MAX_LINES + 100);
}

#[test]
fn capture_preserves_split_utf8_and_bounds_display() {
    let mut capture = Capture::new();
    let mut kept = Kept::default();
    let text = "中文输出\n";
    for byte in text.bytes() {
        kept.append(&mut capture, &[byte]);
    }
    assert_eq!(capture.text(), text);

    for _ in 0..MAX_BYTES / 3 + 10 {
        kept.append(&mut capture, "中".as_bytes());
    }
    kept.file.extend(capture.finish(None));
    let text = capture.text();
    assert!(!text.contains('\u{fffd}'));
    assert!(text.trim_end().ends_with('中'));
}

#[test]
fn boundaries_are_found_at_or_after() {
    let bytes = "a中b".as_bytes();
    assert_eq!(char_boundary_at_or_after(bytes, 0), 0);
    assert_eq!(char_boundary_at_or_after(bytes, 1), 1);
    assert_eq!(char_boundary_at_or_after(bytes, 2), 4);
    assert_eq!(char_boundary_at_or_after(bytes, 4), 4);
}

#[test]
fn execute_reports_cwd_stdin_exit_and_both_streams() {
    let mut run = Execution::new(None);
    assert!(run.waits_for_exit());
    assert!(!run.waits_for_deadline());
    assert!(run.reads(Stream::Stdout) && run.reads(Stream::Stderr));
    run.read(Stream::Stdout, b"from cwd", None);
    run.read(Stream::Stderr, b"error", None);
    run.exited("exit status: 7".into());
    assert!(!run.done());
    run.read(Stream::Stdout, b"", None);
    run.read(Stream::Stderr, b"", None);
    assert!(run.done());
    assert_eq!(run.result(), "exit: exit status: 7\nfrom cwd\nerror");
}

#[test]
fn execute_truncates_and_points_to_full_output() {
    let mut run = Execution::new(None);
    let mut file = Vec::new();
    for n in 1..=5000 {
        let line = format!("{n}\n");
        let opened = if run.needs_spill(Stream::Stdout, line.as_bytes()) {
            Some("/tmp/spill".to_string())
        } else {
            None
        };
        file.extend(run.read(Stream::Stdout, line.as_bytes(), opened));
    }
    run.exited("exit status: 0".into());
    let output = run.result();
    assert!(output.contains("输出已截断"));
    assert!(output.trim_end().ends_with("5000"));
    assert_eq!(String::from_utf8(file).unwrap().lines().count(), 5000);
}

#[test]
fn execute_honours_timeout() {
    let mut run = Execution::new(Some(1));
    assert!(run.waits_for_deadline());
    run.deadline();
    assert!(!run.waits_for_deadline());
    run.exited("signal: 9 (SIGKILL)".into());
    let output = run.result();
    assert!(output.starts_with("timeout: 超过 1 秒已终止进程组"), "{output}");
}

#[test]
fn execute_does_not_wait_forever_for_inherited_pipe() {
    let mut run = Execution::new(None);
    run.read(Stream::Stdout, b"done", None);
    assert!(!run.ends_when_idle());
    run.exited("exit status: 0".into());
    assert!(run.ends_when_idle());
    assert_eq!(run.result(), "exit: exit status: 0\ndone\n");
}
