//! What holds of the terminals of a session.
use super::{TerminalOutput, OutputStream, TerminalStreamKey};
use crate::desktop::app::terminals;
use crate::desktop::state;
use crate::desktop::state::{Core, OpenTarget, SidePanel};
use crate::desktop::terminal_view;
use crate::encoding;
use vstd::prelude::*;

verus! {

/// A terminal that is looked at is the active one and begins with no output of another; nothing else
/// of the client changes but the numbers that outputs are told apart by.
pub proof fn law_terminals_are_looked_at_anew(
    before: Core,
    after: Core,
    terminal: Option<Seq<char>>,
)
    requires
        terminals::looks_at(before, after, terminal),
    ensures
        terminal matches Some(id) ==> after.view.detail.active_terminal is Some
            && after.view.detail.active_terminal->0@ == id,
        terminal is None ==> after.view.detail.active_terminal is None,
        after.view.detail.terminal_output.output().len() == 0,
        after.view.detail.terminal_output.version() == before.generations,
        after.generations == state::after(before.generations),
        after.view.detail.terminals == before.view.detail.terminals,
        after.view.detail.history == before.view.detail.history,
        after.view.session == before.view.session && after.open == before.open && after.entries
            == before.entries && after.last == before.last && after.notes == before.notes
            && after.side_panel == before.side_panel,
{
}

/// A terminal is the active one where it bears its name. Terminals are those of the open session.
pub proof fn law_terminals_are_of_the_open_session(core: Core, terminal: Seq<char>)
    ensures
        terminals::is_active(core, terminal) <==> core.view.detail.active_terminal is Some
            && core.view.detail.active_terminal->0@ == terminal,
        terminals::session_at_hand(core) is Some <==> core.client is Some && core.open is Some
            && core.open->0 is Session,
        core.open matches Some(OpenTarget::Session(id)) ==> core.client is Some
            ==> terminals::session_at_hand(core) == Some(id@),
{
}

/// A terminal has as many columns and rows as fit, but between 20 and 500 columns and between 5 and
/// 200 rows.
pub proof fn law_terminals_have_the_size_that_fits(cols: u16, rows: u16)
    ensures
        ({
            let size = terminals::within(cols, rows);
            &&& 20 <= size.0 <= 500 && 5 <= size.1 <= 200
            &&& 20 <= cols <= 500 ==> size.0 == cols
            &&& 5 <= rows <= 200 ==> size.1 == rows
            &&& cols < 20 ==> size.0 == 20
            &&& cols > 500 ==> size.0 == 500
            &&& rows < 5 ==> size.1 == 5
            &&& rows > 200 ==> size.1 == 200
        }),
{
}

/// The size of the active terminal is that of the first of its name.
pub proof fn law_the_active_terminal_has_its_size(core: Core, k: int)
    requires
        0 <= k < core.view.detail.terminals@.len(),
        core.view.detail.active_terminal is Some,
        core.view.detail.terminals@[k].id@ == core.view.detail.active_terminal->0@,
        forall|j: int|
            0 <= j < k ==> (#[trigger] core.view.detail.terminals@[j]).id@
                != core.view.detail.active_terminal->0@,
    ensures
        terminals::active_size(core) == Some(
            (core.view.detail.terminals@[k].cols, core.view.detail.terminals@[k].rows),
        ),
{
    terminal_view::laws::lemma_first_terminal(
        core.view.detail.terminals@,
        core.view.detail.active_terminal->0@,
    );
    let id = core.view.detail.active_terminal->0@;
    let all = core.view.detail.terminals@;
    let found = terminal_view::first_terminal(all, id);
    assert(all[k].id@ == id);
    let n = choose|n: int|
        0 <= n < all.len() && #[trigger] all[n] == found->0 && found->0.id@ == id && forall|j: int|
            0 <= j < n ==> (#[trigger] all[j]).id@ != id;
    if n < k {
        assert(all[n].id@ != id);
    }
    if k < n {
        assert(all[k].id@ != id);
    }
}

/// Output is followed of the active terminal of the open session while the panel of the terminals is
/// open and there is a connection, and of no other.
pub proof fn law_output_is_followed_while_it_is_shown(core: Core, key: TerminalStreamKey)
    ensures
        terminals::current(core, key) <==> core.status is Online && core.side_panel == Some(
            SidePanel::Terminal,
        ) && (core.open matches Some(OpenTarget::Session(session)) && session@ == key.session@) && (
        core.view.detail.active_terminal matches Some(terminal) && terminal@ == key.terminal@),
        terminals::wanted(core) is None <==> !(core.status is Online && core.side_panel == Some(
            SidePanel::Terminal,
        ) && core.open is Some && core.open->0 is Session
            && core.view.detail.active_terminal is Some),
        forall|session: Seq<char>, terminal: Seq<char>| #[trigger]
            key.is_of(session, terminal) <==> key.session@ == session && key.terminal@ == terminal,
{
}

/// Output that was there already is told by its place: only what goes on behind the last is taken.
pub proof fn law_output_goes_on_behind_the_last(stream: OutputStream, output: TerminalOutput)
    ensures
        stream.is_behind(output) <==> stream.last_cursor is Some && output.next_cursor
            <= stream.last_cursor->0,
        encoding::base64_bytes(output.data@) matches Ok(bytes) ==> terminals::decoded(output.data@)
            == bytes,
        encoding::base64_bytes(output.data@) is Err ==> terminals::decoded(output.data@).len() == 0,
{
}

} // verus!
