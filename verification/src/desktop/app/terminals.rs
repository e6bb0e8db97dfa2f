//! The terminals of the open session: which one is looked at, what is typed, and what it puts out.
pub mod laws;

use super::AmuxApp;
use crate::common::api::{
    OpenTerminalRequest, Terminal, TerminalOutput, TerminalResizeRequest,
};
use crate::desktop::client::{Body, Request, Verb};
use crate::desktop::poll;
use crate::desktop::state;
use crate::desktop::state::{
    ConnectionStatus, Core, NoteLevel, OpenTarget, SessionView, SidePanel,
};
use crate::desktop::terminal_view;
use crate::desktop::terminal_view::grid;
use crate::desktop::terminal_view::{
    keystroke_to_bytes, Keystroke, MAX_COLS, MAX_ROWS, MIN_COLS, MIN_ROWS,
};
use crate::encoding;
use crate::encoding::{base64_decode, base64_encode};
use crate::strings::{same, starts_with};
use vstd::prelude::*;

verus! {

/// How long it takes until the output of a terminal is followed again, in milliseconds.
pub const RETRY_DELAY: u64 = 500;

/// The size of a terminal that is opened.
pub const NEW_COLS: u16 = 100;

pub const NEW_ROWS: u16 = 30;

/// The terminal whose output is followed.
#[derive(Debug, PartialEq, Eq)]
pub struct TerminalStreamKey {
    pub session: String,
    pub terminal: String,
}

impl TerminalStreamKey {
    /// The key is that of a terminal of a session.
    pub open spec fn is_of(self, session: Seq<char>, terminal: Seq<char>) -> bool {
        self.session@ == session && self.terminal@ == terminal
    }
}

impl Clone for TerminalStreamKey {
    fn clone(&self) -> (r: Self)
        ensures
            r == *self,
    {
        TerminalStreamKey { session: self.session.clone(), terminal: self.terminal.clone() }
    }
}

/// What becomes of a key that was pressed in a terminal.
#[derive(Debug, PartialEq)]
pub enum TerminalKey {
    Paste,
    Send(Vec<u8>),
    Ignore,
}

/// A key that was pressed in a terminal: with the key that goes with commands on the platform, `v`
/// pastes. The others are sent as they are.
pub fn terminal_key_down(keystroke: &Keystroke, is_mac: bool) -> (r: TerminalKey)
    ensures
        ({
            let held = if is_mac {
                keystroke.modifiers.platform
            } else {
                keystroke.modifiers.control
            };
            if held && keystroke.key@ == "v"@ {
                r is Paste
            } else {
                match terminal_view::key_bytes(*keystroke) {
                    Some(bytes) => r matches TerminalKey::Send(sent) && sent@ == bytes,
                    None => r is Ignore,
                }
            }
        }),
{
    let held: bool = if is_mac {
        keystroke.modifiers.platform
    } else {
        keystroke.modifiers.control
    };
    if held && same(keystroke.key.as_str(), "v") {
        return TerminalKey::Paste;
    }
    match keystroke_to_bytes(keystroke) {
        Some(bytes) => TerminalKey::Send(bytes),
        None => TerminalKey::Ignore,
    }
}

/// The output begins anew for the terminal that is looked at, or for none.
pub open spec fn looks_at(before: Core, after: Core, terminal: Option<Seq<char>>) -> bool {
    let detail = after.view.detail;
    &&& match terminal {
        Some(id) => detail.active_terminal is Some && detail.active_terminal->0@ == id,
        None => detail.active_terminal is None,
    }
    &&& detail.terminal_output.output().len() == 0
    &&& detail.terminal_output.version() == before.generations
    &&& after == (Core {
        generations: state::after(before.generations),
        ..poll::with_detail(
            before,
            SessionView {
                active_terminal: detail.active_terminal,
                terminal_output: detail.terminal_output,
                ..before.view.detail
            },
        )
    })
}

/// Looks at another terminal.
pub fn select_terminal(core: &mut Core, terminal: &str)
    ensures
        looks_at(*old(core), *final(core), Some(terminal@)),
{
    core.view.detail.active_terminal = Some(terminal.to_owned());
    core.view.detail.terminal_output.reset(&mut core.generations);
}

/// A terminal is the one that is looked at.
pub open spec fn is_active(core: Core, terminal: Seq<char>) -> bool {
    core.view.detail.active_terminal matches Some(id) && id@ == terminal
}

fn active(core: &Core, terminal: &str) -> (r: bool)
    ensures
        r == is_active(*core, terminal@),
{
    match &core.view.detail.active_terminal {
        Some(id) => same(id.as_str(), terminal),
        None => false,
    }
}

/// The identity of the open session, where one with an agent is open and there is a server.
pub open spec fn session_at_hand(core: Core) -> Option<Seq<char>> {
    match (core.client, core.open) {
        (Some(_), Some(OpenTarget::Session(id))) => Some(id@),
        _ => None,
    }
}

/// The request that closes a terminal.
pub fn close_terminal(core: &Core, terminal: &str) -> (r: Option<Request>)
    ensures
        match session_at_hand(*core) {
            Some(id) => r matches Some(request) && request.verb == Verb::Delete && request.body is Nothing
                && request.path@
                == "/sessions/"@ + id + "/terminals/"@ + terminal@,
            None => r is None,
        },
{
    match (&core.client, &core.open) {
        (Some(client), Some(OpenTarget::Session(id))) => Some(
            client.close_terminal(id.as_str(), terminal),
        ),
        _ => None,
    }
}

/// A terminal was closed: it is no longer looked at. Where that failed, it is said why as well.
pub fn terminal_closed(core: &mut Core, terminal: &str, result: Result<(), String>)
    ensures
        ({
            let told = Core { notes: final(core).notes, ..*old(core) };
            &&& match result {
                Ok(_) => told == *old(core),
                Err(error) => told.noted(
                    *old(core),
                    "关闭终端失败："@ + error@,
                    NoteLevel::Error,
                ),
            }
            &&& if is_active(*old(core), terminal@) {
                looks_at(told, *final(core), None)
            } else {
                *final(core) == told
            }
        }),
{
    match &result {
        Ok(_) => {},
        Err(error) => {
            core.failed("关闭终端失败：", error.as_str());
        },
    }
    if active(core, terminal) {
        core.view.detail.active_terminal = None;
        core.view.detail.terminal_output.reset(&mut core.generations);
    }
}

/// A size within the sizes that a window can give to a terminal.
pub open spec fn within(cols: u16, rows: u16) -> (u16, u16) {
    (
        if cols < MIN_COLS {
            MIN_COLS
        } else if cols > MAX_COLS {
            MAX_COLS
        } else {
            cols
        },
        if rows < MIN_ROWS {
            MIN_ROWS
        } else if rows > MAX_ROWS {
            MAX_ROWS
        } else {
            rows
        },
    )
}

/// The size of the terminal that is looked at.
pub open spec fn active_size(core: Core) -> Option<(u16, u16)> {
    match core.view.detail.active_terminal {
        Some(id) => match terminal_view::first_terminal(core.view.detail.terminals@, id@) {
            Some(terminal) => Some((terminal.cols, terminal.rows)),
            None => None,
        },
        None => None,
    }
}

fn size_of_active(core: &Core) -> (r: Option<(u16, u16)>)
    ensures
        r == active_size(*core),
{
    match &core.view.detail.active_terminal {
        Some(id) => {
            let terminals: &Vec<Terminal> = &core.view.detail.terminals;
            size_in(terminals, id.as_str())
        },
        None => None,
    }
}

fn size_in(terminals: &Vec<Terminal>, id: &str) -> (r: Option<(u16, u16)>)
    ensures
        r == match terminal_view::first_terminal(terminals@, id@) {
            Some(terminal) => Some((terminal.cols, terminal.rows)),
            None => None,
        },
{
    let ghost all = terminals@;
    let mut i: usize = 0;
    proof {
        assert(all.skip(0) =~= all);
    }
    while i < terminals.len()
        invariant
            0 <= i <= all.len(),
            all == terminals@,
            terminal_view::first_terminal(all, id@) == terminal_view::first_terminal(
                all.skip(i as int),
                id@,
            ),
        decreases all.len() - i,
    {
        proof {
            assert(all.skip(i as int)[0] == all[i as int]);
            assert(all.skip(i as int).skip(1) =~= all.skip(i + 1));
        }
        if same(terminals[i].id.as_str(), id) {
            return Some((terminals[i].cols, terminals[i].rows));
        }
        i = i + 1;
    }
    proof {
        assert(all.skip(i as int) =~= Seq::empty());
    }
    None
}

/// The request that gives a terminal another size.
pub fn resize_terminal(core: &Core, terminal: &str, cols: u16, rows: u16) -> (r: Option<Request>)
    ensures
        match session_at_hand(*core) {
            Some(id) => r matches Some(request) && request.verb == Verb::Post && request.path@
                == "/sessions/"@ + id + "/terminals/"@ + terminal@ + "/resize"@ && request.body == (
            Body::TerminalResize(TerminalResizeRequest { cols, rows })),
            None => r is None,
        },
{
    match (&core.client, &core.open) {
        (Some(client), Some(OpenTarget::Session(id))) => Some(
            client.resize_terminal(id.as_str(), terminal, cols, rows),
        ),
        _ => None,
    }
}

/// A terminal got another size.
pub fn terminal_resized(core: &mut Core, result: Result<(), String>)
    ensures
        match result {
            Ok(_) => *final(core) == *old(core),
            Err(error) => final(core).noted(
                *old(core),
                "调整终端尺寸失败："@ + error@,
                NoteLevel::Error,
            ),
        },
{
    match result {
        Ok(_) => {},
        Err(error) => {
            core.failed("调整终端尺寸失败：", error.as_str());
        },
    }
}

/// Shows the terminals. The request for their list comes back.
pub fn open_terminal(core: &mut Core) -> (r: Option<Request>)
    ensures
        match session_at_hand(*old(core)) {
            Some(id) => (r matches Some(request) && request.verb == Verb::Get && request.body is Nothing
                && request.path@
                == "/sessions/"@ + id + "/terminals"@) && *final(core) == (Core {
                side_panel: Some(SidePanel::Terminal),
                ..*old(core)
            }),
            None => r is None && *final(core) == *old(core),
        },
{
    let request: Request = match (&core.client, &core.open) {
        (Some(client), Some(OpenTarget::Session(id))) => client.terminals(id.as_str()),
        _ => {
            return None;
        },
    };
    core.side_panel = Some(SidePanel::Terminal);
    Some(request)
}

/// Opens another terminal. The request for it comes back.
pub fn new_terminal(core: &mut Core) -> (r: Option<Request>)
    ensures
        match session_at_hand(*old(core)) {
            Some(id) => (r matches Some(request) && request.verb == Verb::Post && request.path@
                == "/sessions/"@ + id + "/terminals"@ && request.body == (Body::OpenTerminal(
                OpenTerminalRequest { cwd: None, cols: NEW_COLS, rows: NEW_ROWS },
            ))) && *final(core) == (Core {
                side_panel: Some(SidePanel::Terminal),
                ..*old(core)
            }),
            None => r is None && *final(core) == *old(core),
        },
{
    let request: Request = match (&core.client, &core.open) {
        (Some(client), Some(OpenTarget::Session(id))) => client.open_terminal(
            id.as_str(),
            None,
            NEW_COLS,
            NEW_ROWS,
        ),
        _ => {
            return None;
        },
    };
    core.side_panel = Some(SidePanel::Terminal);
    Some(request)
}

/// A terminal was opened: it is looked at, and the list of terminals is to be fetched.
pub fn create_terminal(core: &mut Core, result: Result<String, String>) -> (r: bool)
    ensures
        r == (result is Ok),
        match result {
            Ok(id) => looks_at(*old(core), *final(core), Some(id@)),
            Err(error) => final(core).noted(
                *old(core),
                "打开终端失败："@ + error@,
                NoteLevel::Error,
            ),
        },
{
    match result {
        Ok(id) => {
            core.view.detail.terminal_output.reset(&mut core.generations);
            core.view.detail.active_terminal = Some(id);
            true
        },
        Err(error) => {
            core.failed("打开终端失败：", error.as_str());
            false
        },
    }
}

/// What is typed into the terminal that is looked at: the request, which carries the bytes in
/// base64.
pub fn send_terminal_input(core: &Core, data: &Vec<u8>) -> (r: Option<Request>)
    ensures
        match (session_at_hand(*core), core.view.detail.active_terminal) {
            (Some(id), Some(terminal)) => r matches Some(request) && request.verb == Verb::Post
                && request.path@ == "/sessions/"@ + id + "/terminals/"@ + terminal@ && (
            request.body matches Body::TerminalInput(typed) && typed.data@ == encoding::base64_text(
                data@,
            )),
            _ => r is None,
        },
{
    match (&core.client, &core.open, &core.view.detail.active_terminal) {
        (Some(client), Some(OpenTarget::Session(id)), Some(terminal)) => Some(
            client.terminal_input(id.as_str(), terminal.as_str(), base64_encode(data)),
        ),
        _ => None,
    }
}

/// Something was typed into a terminal.
pub fn terminal_input_sent(core: &mut Core, result: Result<(), String>)
    ensures
        match result {
            Ok(_) => *final(core) == *old(core),
            Err(error) => final(core).noted(
                *old(core),
                "终端输入失败："@ + error@,
                NoteLevel::Error,
            ),
        },
{
    match result {
        Ok(_) => {},
        Err(error) => {
            core.failed("终端输入失败：", error.as_str());
        },
    }
}

/// The terminal whose output is to be followed: the one that is looked at, while the panel of
/// terminals is open and the server can be reached.
pub open spec fn wanted(core: Core) -> Option<(Seq<char>, Seq<char>)> {
    if core.status is Online && core.side_panel == Some(SidePanel::Terminal) {
        match (core.open, core.view.detail.active_terminal) {
            (Some(OpenTarget::Session(session)), Some(terminal)) => Some((session@, terminal@)),
            _ => None,
        }
    } else {
        None
    }
}

fn wanted_stream(core: &Core) -> (r: Option<TerminalStreamKey>)
    ensures
        match wanted(*core) {
            Some(key) => r is Some && r->0.is_of(key.0, key.1),
            None => r is None,
        },
{
    match &core.status {
        ConnectionStatus::Online => {},
        _ => {
            return None;
        },
    }
    match core.side_panel {
        Some(SidePanel::Terminal) => {},
        _ => {
            return None;
        },
    }
    match (&core.open, &core.view.detail.active_terminal) {
        (Some(OpenTarget::Session(session)), Some(terminal)) => Some(
            TerminalStreamKey { session: session.clone(), terminal: terminal.clone() },
        ),
        _ => None,
    }
}

/// The output of a terminal is still wanted.
pub open spec fn current(core: Core, key: TerminalStreamKey) -> bool {
    wanted(core) == Some((key.session@, key.terminal@))
}

/// Whether the output of a terminal is still wanted.
pub fn terminal_stream_current(core: &Core, key: &TerminalStreamKey) -> (r: bool)
    ensures
        r == current(*core, *key),
{
    match wanted_stream(core) {
        Some(next) => same(next.session.as_str(), key.session.as_str()) && same(
            next.terminal.as_str(),
            key.terminal.as_str(),
        ),
        None => false,
    }
}

/// What is done about the output that is followed.
#[derive(Debug, PartialEq)]
pub enum StreamChange {
    /// It is the right one.
    Keep,
    /// What was followed, if anything, is no longer.
    Stop,
    /// In place of what was followed, if anything, another is.
    Start(TerminalStreamKey),
}

/// What has come of the output of a terminal since it is followed.
#[derive(Debug, Clone, Copy, PartialEq, Eq, Structural)]
pub struct OutputStream {
    /// Nothing has come yet.
    pub first: bool,
    pub last_cursor: Option<u64>,
}

impl OutputStream {
    /// Nothing has come yet.
    pub fn new() -> (r: Self)
        ensures
            r == (OutputStream { first: true, last_cursor: None }),
    {
        OutputStream { first: true, last_cursor: None }
    }

    /// Output is behind what has come already.
    pub open spec fn is_behind(self, output: TerminalOutput) -> bool {
        self.last_cursor matches Some(cursor) && output.next_cursor <= cursor
    }

    /// Output came. It is dropped where it is no longer wanted or came before; else the first of it,
    /// and what follows a gap, begins the buffer anew, and the rest is added.
    pub fn receive(&mut self, core: &mut Core, key: &TerminalStreamKey, output: &TerminalOutput) -> (r:
        bool)
        ensures
            r == (current(*old(core), *key) && !old(self).is_behind(*output)),
            !r ==> *final(core) == *old(core) && *final(self) == *old(self),
            r ==> {
                let before = old(core).view.detail.terminal_output;
                let after = final(core).view.detail.terminal_output;
                let bytes = decoded(output.data@);
                let anew = old(self).first || output.truncated;
                &&& *final(self) == (OutputStream {
                    first: false,
                    last_cursor: Some(output.next_cursor),
                })
                &&& anew ==> after.output() == bytes && after.version() == old(core).generations
                &&& !anew ==> after.output() == before.output() + bytes && after.version()
                    == before.version()
                &&& *final(core) == (Core {
                    generations: if anew {
                        state::after(old(core).generations)
                    } else {
                        old(core).generations
                    },
                    ..poll::with_detail(
                        *old(core),
                        SessionView { terminal_output: after, ..old(core).view.detail },
                    )
                })
            },
    {
        if !terminal_stream_current(core, key) {
            return false;
        }
        match self.last_cursor {
            Some(cursor) => {
                if output.next_cursor <= cursor {
                    return false;
                }
            },
            None => {},
        }
        let bytes: Vec<u8> = match base64_decode(output.data.as_str()) {
            Ok(bytes) => bytes,
            Err(_) => Vec::new(),
        };
        proof {
            assert(bytes@ =~= decoded(output.data@));
        }
        if self.first || output.truncated {
            core.view.detail.terminal_output.reset(&mut core.generations);
            proof {
                assert(core.view.detail.terminal_output.output() =~= Seq::empty());
            }
        }
        self.first = false;
        self.last_cursor = Some(output.next_cursor);
        core.view.detail.terminal_output.append(bytes.as_slice());
        proof {
            let after = core.view.detail.terminal_output.output();
            if old(self).first || output.truncated {
                assert(after =~= decoded(output.data@));
            }
        }
        true
    }
}

/// The bytes that a text stands for; none where it is not base64.
pub open spec fn decoded(data: Seq<char>) -> Seq<u8> {
    match encoding::base64_bytes(data) {
        Ok(bytes) => bytes,
        Err(_) => Seq::empty(),
    }
}

/// What is done when the output of a terminal ended.
#[derive(Debug, Clone, Copy, PartialEq, Eq, Structural)]
pub enum StreamNext {
    Stop,
    /// It is followed again after so many milliseconds.
    Retry(u64),
}

/// The output of a terminal ended. Where it is still wanted it is followed again, unless the server
/// refuses the token, or the terminal is gone: then it is no longer looked at.
pub fn stream_terminal_output(
    core: &mut Core,
    key: &TerminalStreamKey,
    result: Result<(), String>,
) -> (r: StreamNext)
    ensures
        ({
            let wanted = current(*old(core), *key);
            let refused = result is Err && "HTTP 401"@.is_prefix_of(result->Err_0@);
            let gone = result is Err && "HTTP 404"@.is_prefix_of(result->Err_0@);
            if !wanted {
                r == StreamNext::Stop && *final(core) == *old(core)
            } else if refused {
                r == StreamNext::Stop && *final(core) == (Core {
                    status: ConnectionStatus::Failed(result->Err_0),
                    ..*old(core)
                })
            } else if gone {
                r == StreamNext::Stop && looks_at(*old(core), *final(core), None)
            } else {
                r == StreamNext::Retry(RETRY_DELAY) && *final(core) == *old(core)
            }
        }),
{
    if !terminal_stream_current(core, key) {
        return StreamNext::Stop;
    }
    match result {
        Ok(_) => StreamNext::Retry(RETRY_DELAY),
        Err(error) => {
            if starts_with(error.as_str(), "HTTP 401") {
                core.status = ConnectionStatus::Failed(error);
                return StreamNext::Stop;
            }
            if starts_with(error.as_str(), "HTTP 404") {
                core.view.detail.active_terminal = None;
                core.view.detail.terminal_output.reset(&mut core.generations);
                return StreamNext::Stop;
            }
            StreamNext::Retry(RETRY_DELAY)
        },
    }
}

impl AmuxApp {
    /// The window gave room for so many columns and rows. The grid takes the size, and the request
    /// for the terminal that is looked at comes back where it has another. A window that has no
    /// room yet changes nothing.
    pub fn sync_terminal_size(&mut self, cols: u16, rows: u16) -> (r: Option<Request>)
        requires
            old(self).terminal.inv(),
        ensures
            final(self).terminal.inv(),
            cols == 0 || rows == 0 ==> r is None && *final(self) == *old(self),
            cols > 0 && rows > 0 ==> {
                &&& final(self).terminal.size() == within(cols, rows)
                &&& final(self).terminal.version() == old(self).terminal.version()
                &&& final(self).terminal.composing() == old(self).terminal.composing()
                &&& final(self).terminal.story() == if within(cols, rows) == old(
                    self,
                ).terminal.size() {
                    old(self).terminal.story()
                } else {
                    old(self).terminal.story().then_did(
                        grid::Step::Resize(
                            within(cols, rows).0 as usize,
                            within(cols, rows).1 as usize,
                        ),
                    )
                }
                &&& *final(self) == (AmuxApp { terminal: final(self).terminal, ..*old(self) })
                &&& match (active_size(old(self).core), session_at_hand(old(self).core)) {
                    (Some(size), Some(id)) => if size == within(cols, rows) {
                        r is None
                    } else {
                        r matches Some(request) && request.verb == Verb::Post && request.path@
                            == "/sessions/"@ + id + "/terminals/"@ + old(
                            self,
                        ).core.view.detail.active_terminal->0@ + "/resize"@ && request.body == (
                        Body::TerminalResize(
                            TerminalResizeRequest {
                                cols: within(cols, rows).0,
                                rows: within(cols, rows).1,
                            },
                        ))
                    },
                    _ => r is None,
                }
            },
    {
        if cols == 0 || rows == 0 {
            return None;
        }
        let cols: u16 = if cols < MIN_COLS {
            MIN_COLS
        } else if cols > MAX_COLS {
            MAX_COLS
        } else {
            cols
        };
        let rows: u16 = if rows < MIN_ROWS {
            MIN_ROWS
        } else if rows > MAX_ROWS {
            MAX_ROWS
        } else {
            rows
        };
        self.terminal.resize(cols, rows);
        match (size_of_active(&self.core), &self.core.view.detail.active_terminal) {
            (Some((had_cols, had_rows)), Some(terminal)) => {
                if had_cols == cols && had_rows == rows {
                    return None;
                }
                resize_terminal(&self.core, terminal.as_str(), cols, rows)
            },
            _ => None,
        }
    }

    /// Follows the output of the terminal that is looked at, and of no other.
    pub fn sync_terminal_stream(&mut self) -> (r: StreamChange)
        ensures
            *final(self) == (AmuxApp { terminal_stream: final(self).terminal_stream, ..*old(self) }),
            match wanted(old(self).core) {
                Some(key) => if old(self).terminal_stream matches Some(kept) && kept.is_of(
                    key.0,
                    key.1,
                ) {
                    r is Keep && *final(self) == *old(self)
                } else if old(self).core.client is Some {
                    &&& r matches StreamChange::Start(started)
                    &&& started.is_of(key.0, key.1)
                    &&& final(self).terminal_stream == Some(started)
                } else {
                    r is Stop && final(self).terminal_stream is None
                },
                None => r is Stop && final(self).terminal_stream is None,
            },
    {
        match wanted_stream(&self.core) {
            Some(next) => {
                let kept: bool = match &self.terminal_stream {
                    Some(key) => same(key.session.as_str(), next.session.as_str()) && same(
                        key.terminal.as_str(),
                        next.terminal.as_str(),
                    ),
                    None => false,
                };
                if kept {
                    return StreamChange::Keep;
                }
                if self.core.client.is_none() {
                    self.terminal_stream = None;
                    return StreamChange::Stop;
                }
                self.terminal_stream = Some(next.clone());
                StreamChange::Start(next)
            },
            None => {
                self.terminal_stream = None;
                StreamChange::Stop
            },
        }
    }

    /// Draws what the terminal that is looked at has put out.
    pub fn draw_terminal(&mut self)
        requires
            old(self).terminal.inv(),
        ensures
            final(self).terminal.inv(),
            ({
                let buffer = old(self).core.view.detail.terminal_output;
                let before = old(self).terminal;
                let after = final(self).terminal;
                &&& after.version() == buffer.version()
                &&& after.size() == before.size()
                &&& after.composing() == before.composing()
                &&& after.story() == before.story_with(&buffer)
                &&& before.version() != buffer.version() || before.story().written().is_prefix_of(
                    buffer.output(),
                ) ==> after.story().written() == buffer.output()
            }),
            *final(self) == (AmuxApp { terminal: final(self).terminal, ..*old(self) }),
    {
        self.terminal.sync(&self.core.view.detail.terminal_output);
    }
}

} // verus!
