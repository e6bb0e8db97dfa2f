//! The terminal on the screen: what it shows, what keys send and how output streams in.

use amux::common::api::{
    OpenTerminalRequest, Terminal, TerminalInputRequest, TerminalOutput, TerminalResizeRequest,
    TerminalState,
};
use amux::desktop::app::terminals::{
    close_terminal, create_terminal, new_terminal, open_terminal, resize_terminal,
    select_terminal, send_terminal_input, stream_terminal_output, terminal_closed,
    terminal_key_down, terminal_stream_current, OutputStream, StreamChange, StreamNext,
    TerminalKey, TerminalStreamKey,
};
use amux::desktop::app::AmuxApp;
use amux::desktop::client::Body;
use amux::desktop::config::Connection;
use amux::desktop::poll;
use amux::desktop::state::{ConnectionStatus, Core, OpenTarget, SidePanel, TerminalBuffer};
use amux::desktop::terminal_view::grid::{Rgb, Tint, COLORS};
use amux::desktop::terminal_view::{
    color_to_rgb, csi_modifier, default_palette, exit_badge, indexed_palette, keystroke_to_bytes,
    paste_bytes, rgb_from_hex, Keystroke, Modifiers, Row, TermStyle, TerminalScreen,
};

const STYLE: TermStyle = TermStyle { dark: true, bg: Rgb { r: 1, g: 2, b: 3 } };

fn grid_text(screen: &TerminalScreen) -> String {
    let rows: Vec<String> = screen
        .snapshot_rows(&STYLE)
        .iter()
        .map(|row| row.text.trim_end().to_string())
        .collect();
    rows.join("\n").trim_end().to_string()
}

#[test]
fn control_sequences_are_interpreted_instead_of_printed() {
    let mut counter = 0;
    let mut buffer = TerminalBuffer::new(&mut counter);
    buffer.append(b"hello\x1b[2K\x1b[1;1Hhi\r\nthere");
    let mut screen = TerminalScreen::new(&mut counter);

    screen.sync(&buffer);

    assert_eq!(grid_text(&screen), "hi\nthere");
}

#[test]
fn incremental_and_single_shot_feeds_agree() {
    let mut counter = 0;
    let mut buffer = TerminalBuffer::new(&mut counter);
    buffer.append(b"abc");
    let mut screen = TerminalScreen::new(&mut counter);
    screen.sync(&buffer);

    buffer.append(b"\x1b[1;1HZ");
    screen.sync(&buffer);

    assert_eq!(grid_text(&screen), "Zbc");
    let mut whole = TerminalScreen::new(&mut counter);
    whole.sync(&buffer);
    assert_eq!(whole.snapshot_rows(&STYLE), screen.snapshot_rows(&STYLE));
}

#[test]
fn rebuilt_buffer_discards_previous_grid() {
    let mut counter = 0;
    let mut buffer = TerminalBuffer::new(&mut counter);
    buffer.append(b"old");
    let mut screen = TerminalScreen::new(&mut counter);
    screen.sync(&buffer);

    buffer.reset(&mut counter);
    buffer.append(b"new");
    screen.sync(&buffer);

    assert_eq!(grid_text(&screen), "new");
}

fn shown(bytes: &[u8]) -> TerminalScreen {
    let mut counter = 0;
    let mut buffer = TerminalBuffer::new(&mut counter);
    buffer.append(bytes);
    let mut screen = TerminalScreen::new(&mut counter);
    screen.sync(&buffer);
    screen
}

fn runs_make_up(row: &Row) -> bool {
    row.runs.iter().map(|run| run.len).sum::<usize>() == row.text.len()
}

#[test]
fn cells_are_drawn_in_runs_of_one_style() {
    let screen = shown(b"\x1b[31;1mred\x1b[0m plain \x1b[7minv\x1b[0m");
    let rows = screen.snapshot_rows(&STYLE);
    assert!(rows.iter().all(runs_make_up));
    assert!(rows[0].text.starts_with("red plain inv"));
    let first = rows[0].runs[0];
    assert_eq!(first.len, 3);
    assert!(first.style.bold);
    assert_eq!(first.style.fg, default_palette(1, true));
    assert_eq!(first.style.bg, STYLE.bg);
    let inverse = rows[0].runs[2];
    assert_eq!(inverse.len, 4, "three cells and the cursor");
    assert_eq!(inverse.style.fg, STYLE.bg);
}

#[test]
fn the_cursor_stands_behind_what_was_written() {
    let screen = shown(b"ab\r\nc");
    assert_eq!(screen.cursor_cell(), (1, 1));
}

#[test]
fn programs_choose_colours_and_bracketed_paste() {
    let screen = shown(b"\x1b]4;1;rgb:11/22/33\x07\x1b[31mx\x1b[?2004h");
    assert!(screen.bracketed_paste());
    let rows = screen.snapshot_rows(&STYLE);
    assert_eq!(rows[0].runs[0].style.fg, Rgb { r: 0x11, g: 0x22, b: 0x33 });
    assert!(!shown(b"x").bracketed_paste());
}

#[test]
fn scrolling_shows_what_went_off_the_top() {
    let mut text = String::new();
    for n in 0..60 {
        text.push_str(&format!("line{n}\r\n"));
    }
    let mut screen = shown(text.as_bytes());
    assert!(!grid_text(&screen).contains("line0\n"));
    screen.scroll(1000);
    assert!(grid_text(&screen).starts_with("line0\n"));
    screen.resize(40, 10);
    assert_eq!(screen.snapshot_rows(&STYLE).len(), 10);
}

#[test]
fn colours_come_from_the_palette() {
    assert_eq!(rgb_from_hex(0x0a0b0c), Rgb { r: 10, g: 11, b: 12 });
    let colors: Vec<Option<Rgb>> = vec![None; COLORS];
    assert_eq!(indexed_palette(16, &colors, true), Rgb { r: 0, g: 0, b: 0 });
    assert_eq!(indexed_palette(231, &colors, true), Rgb { r: 255, g: 255, b: 255 });
    assert_eq!(indexed_palette(232, &colors, true), Rgb { r: 8, g: 8, b: 8 });
    assert_eq!(indexed_palette(255, &colors, true), Rgb { r: 238, g: 238, b: 238 });
    assert_eq!(indexed_palette(1, &colors, true), default_palette(1, true));
    let own = Rgb { r: 9, g: 9, b: 9 };
    assert_eq!(color_to_rgb(Tint::Spec(own), &colors, &STYLE), own);
    assert_eq!(color_to_rgb(Tint::Named(257), &colors, &STYLE), STYLE.bg);
    let mut chosen = colors.clone();
    chosen[5] = Some(own);
    assert_eq!(color_to_rgb(Tint::Indexed(5), &chosen, &STYLE), own);
}

#[test]
fn composed_text_is_marked_until_it_is_entered() {
    let mut counter = 0;
    let mut screen = TerminalScreen::new(&mut counter);
    assert_eq!(screen.marked_text_range(), None);
    screen.replace_and_mark_text_in_range("中文");
    assert_eq!(screen.marked_text_range(), Some((0, 2)));
    assert_eq!(screen.replace_text_in_range("中"), Some("中".as_bytes().to_vec()));
    assert_eq!(screen.marked_text_range(), None);
    assert_eq!(screen.replace_text_in_range(""), None);
    screen.replace_and_mark_text_in_range("x");
    screen.unmark_text();
    assert_eq!(screen.marked_text_range(), None);
}

const NONE: Modifiers = Modifiers { control: false, alt: false, shift: false, platform: false };

fn stroke(modifiers: Modifiers, key: &str, key_char: Option<&str>) -> Keystroke {
    Keystroke { modifiers, key: key.into(), key_char: key_char.map(String::from) }
}

fn sent(modifiers: Modifiers, key: &str) -> Option<Vec<u8>> {
    keystroke_to_bytes(&stroke(modifiers, key, None))
}

#[test]
fn keys_send_their_sequences() {
    let control = Modifiers { control: true, ..NONE };
    let shift = Modifiers { shift: true, ..NONE };
    assert_eq!(sent(NONE, "enter"), Some(b"\r".to_vec()));
    assert_eq!(sent(NONE, "up"), Some(b"\x1b[A".to_vec()));
    assert_eq!(sent(control, "up"), Some(b"\x1b[1;5A".to_vec()));
    assert_eq!(sent(shift, "delete"), Some(b"\x1b[3;2~".to_vec()));
    assert_eq!(sent(control, "space"), Some(vec![0]));
    assert_eq!(sent(NONE, "shift"), None);
    let alt = Modifiers { alt: true, ..NONE };
    assert_eq!(keystroke_to_bytes(&stroke(alt, "x", Some("x"))), Some(b"\x1bx".to_vec()));
    assert_eq!(keystroke_to_bytes(&stroke(NONE, "a", Some("A"))), Some(b"A".to_vec()));
    assert_eq!(sent(control, "c"), Some(vec![3]));
    assert_eq!(sent(NONE, "backspace"), Some(vec![0x7f]));
    assert_eq!(csi_modifier(&NONE), None);
    assert_eq!(csi_modifier(&Modifiers { control: true, alt: true, shift: true, platform: false }), Some(8));
    assert_eq!(sent(Modifiers { platform: true, ..NONE }, "c"), None);
}

#[test]
fn pasted_text_is_bracketed_where_the_program_asks() {
    assert_eq!(paste_bytes("a\nb", false), Some(b"a\rb".to_vec()));
    assert_eq!(paste_bytes("a", true), Some(b"\x1b[200~a\x1b[201~".to_vec()));
    assert_eq!(paste_bytes("", true), None);
}

#[test]
fn paste_shortcut_is_the_platforms_own() {
    let mac = stroke(Modifiers { platform: true, ..NONE }, "v", None);
    assert_eq!(terminal_key_down(&mac, true), TerminalKey::Paste);
    let other = stroke(Modifiers { control: true, shift: true, ..NONE }, "v", None);
    assert_eq!(terminal_key_down(&other, false), TerminalKey::Paste);
    let enter = stroke(NONE, "enter", None);
    assert_eq!(terminal_key_down(&enter, false), TerminalKey::Send(b"\r".to_vec()));
}

fn app() -> AmuxApp {
    let mut app = AmuxApp::new(Connection { server: "http://s".into(), token: "t".into() });
    app.core.status = ConnectionStatus::Online;
    app.core.open = Some(OpenTarget::Session("s1".into()));
    app
}

fn terminal(id: &str, state: TerminalState) -> Terminal {
    Terminal { id: id.into(), cwd: "/".into(), cols: 100, rows: 30, state }
}

fn key(terminal: &str) -> TerminalStreamKey {
    TerminalStreamKey { session: "s1".into(), terminal: terminal.into() }
}

fn with_terminal() -> AmuxApp {
    let mut app = app();
    app.core.side_panel = Some(SidePanel::Terminal);
    poll::set_terminals(&mut app.core, vec![terminal("t1", TerminalState::Running)]);
    select_terminal(&mut app.core, "t1");
    app
}

#[test]
fn output_is_taken_only_for_the_current_terminal() {
    let mut app = with_terminal();
    assert!(terminal_stream_current(&app.core, &key("t1")));
    let mut stream = OutputStream::new();
    let output = TerminalOutput { data: "aGk=".into(), next_cursor: 2, truncated: false };
    assert!(stream.receive(&mut app.core, &key("t1"), &output));
    assert_eq!(app.core.view.detail.terminal_output.bytes(), b"hi");
    assert!(!stream.receive(&mut app.core, &key("other"), &output));
    assert_eq!(app.core.view.detail.terminal_output.bytes(), b"hi");
    app.draw_terminal();
    assert_eq!(grid_text(&app.terminal), "hi");
}

fn size(cols: u16, rows: u16) -> Body {
    Body::TerminalResize(TerminalResizeRequest { cols, rows })
}

#[test]
fn streams_start_and_stop_with_the_terminal_shown() {
    let mut app = with_terminal();
    assert_eq!(app.sync_terminal_stream(), StreamChange::Start(key("t1")));
    assert_eq!(app.sync_terminal_stream(), StreamChange::Keep);
    app.core.side_panel = None;
    assert_eq!(app.sync_terminal_stream(), StreamChange::Stop);
    let mut core: Core = with_terminal().core;
    assert_eq!(stream_terminal_output(&mut core, &key("t1"), Err("cut".into())), StreamNext::Retry(500));
    assert_eq!(stream_terminal_output(&mut core, &key("gone"), Err("cut".into())), StreamNext::Stop);
}

#[test]
fn terminals_are_opened_closed_and_written_to() {
    let mut app = with_terminal();
    let request = send_terminal_input(&app.core, &b"ls".to_vec()).unwrap();
    assert!(request.path.contains("/terminals/t1"), "{request:?}");
    assert_eq!(request.body, Body::TerminalInput(TerminalInputRequest { data: "bHM=".into() }));
    assert!(close_terminal(&app.core, "t1").is_some());
    assert_eq!(resize_terminal(&app.core, "t1", 90, 40).unwrap().body, size(90, 40));
    terminal_closed(&mut app.core, "t1", Ok(()));
    assert_eq!(app.core.view.detail.active_terminal, None);
    assert!(open_terminal(&mut app.core).is_some());
    assert_eq!(
        new_terminal(&mut app.core).unwrap().body,
        Body::OpenTerminal(OpenTerminalRequest { cwd: None, cols: 100, rows: 30 })
    );
    assert!(create_terminal(&mut app.core, Ok("t2".into())));
    assert_eq!(app.core.view.detail.active_terminal.as_deref(), Some("t2"));
    assert!(!create_terminal(&mut app.core, Err("no".into())));
    assert!(app.core.next_note().is_some());
}

#[test]
fn the_size_of_the_view_is_the_size_of_the_terminal() {
    let mut app = with_terminal();
    let request = app.sync_terminal_size(80, 24).unwrap();
    assert_eq!(request.body, size(80, 24));
    assert!(request.path.ends_with("/resize"), "{request:?}");
    assert!(app.sync_terminal_size(100, 30).is_none());
    assert!(app.sync_terminal_size(0, 24).is_none());
    let small = app.sync_terminal_size(1, 1).unwrap();
    assert_eq!(small.body, size(20, 5));
}

#[test]
fn an_ended_terminal_is_marked() {
    let mut app = with_terminal();
    assert_eq!(exit_badge(&app.core.view.detail), None);
    poll::set_terminals(&mut app.core, vec![terminal("t1", TerminalState::Exited)]);
    assert!(exit_badge(&app.core.view.detail).is_some());
}

#[test]
fn a_new_client_has_drawn_no_output() {
    let mut app = AmuxApp::new(Connection { server: "http://s".into(), token: "t".into() });
    assert_eq!(app.core.generations, 2);
    assert_eq!(app.core.view.detail.terminal_output.generation(), 0);
    assert_eq!(app.terminal.marked_text_range(), None);
    app.terminal.replace_and_mark_text_in_range("ni");
    app.core.view.detail.terminal_output.append(b"hello");
    app.draw_terminal();
    assert_eq!(app.terminal.marked_text_range(), Some((0, 2)), "what is composed stays");
    assert_eq!(app.terminal.cursor_cell(), (5, 0));
}
