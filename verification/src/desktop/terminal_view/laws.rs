//! What holds of a shown terminal as a whole.
use super::{Drawn, Keystroke, Modifiers, Run, TermStyle, TerminalScreen};
use crate::common::api::{Terminal, TerminalState};
use crate::desktop::state::TerminalBuffer;
use crate::desktop::terminal_view;
use crate::desktop::terminal_view::grid;
use crate::desktop::terminal_view::grid::{Cell, Frame, Rgb, Step, Story, Tint};
use vstd::prelude::*;

verus! {

/// Without a modifier each named key sends the sequence that terminals have for it.
pub proof fn law_named_keys_send_their_sequences(stroke: Keystroke)
    requires
        !stroke.modifiers.shift && !stroke.modifiers.alt && !stroke.modifiers.control,
    ensures
        stroke.key@ == "enter"@ ==> terminal_view::key_bytes(stroke) == Some(seq![13u8]),
        stroke.key@ == "backspace"@ ==> terminal_view::key_bytes(stroke) == Some(seq![127u8]),
        stroke.key@ == "escape"@ ==> terminal_view::key_bytes(stroke) == Some(seq![27u8]),
        stroke.key@ == "left"@ ==> terminal_view::key_bytes(stroke) == Some(
            seq![27u8, 91u8, 'D' as u8],
        ),
        stroke.key@ == "right"@ ==> terminal_view::key_bytes(stroke) == Some(
            seq![27u8, 91u8, 'C' as u8],
        ),
        stroke.key@ == "up"@ ==> terminal_view::key_bytes(stroke) == Some(
            seq![27u8, 91u8, 'A' as u8],
        ),
        stroke.key@ == "down"@ ==> terminal_view::key_bytes(stroke) == Some(
            seq![27u8, 91u8, 'B' as u8],
        ),
        stroke.key@ == "home"@ ==> terminal_view::key_bytes(stroke) == Some(
            seq![27u8, 91u8, 'H' as u8],
        ),
        stroke.key@ == "end"@ ==> terminal_view::key_bytes(stroke) == Some(
            seq![27u8, 91u8, 'F' as u8],
        ),
        stroke.key@ == "delete"@ ==> terminal_view::key_bytes(stroke) == Some(
            seq![27u8, 91u8, '3' as u8, '~' as u8],
        ),
        stroke.key@ == "pageup"@ ==> terminal_view::key_bytes(stroke) == Some(
            seq![27u8, 91u8, '5' as u8, '~' as u8],
        ),
        stroke.key@ == "pagedown"@ ==> terminal_view::key_bytes(stroke) == Some(
            seq![27u8, 91u8, '6' as u8, '~' as u8],
        ),
{
    lemma_names();
}

proof fn lemma_names()
    ensures
        "enter"@ == seq!['e', 'n', 't', 'e', 'r'],
        "backspace"@ == seq!['b', 'a', 'c', 'k', 's', 'p', 'a', 'c', 'e'],
        "escape"@ == seq!['e', 's', 'c', 'a', 'p', 'e'],
        "left"@ == seq!['l', 'e', 'f', 't'],
        "right"@ == seq!['r', 'i', 'g', 'h', 't'],
        "up"@ == seq!['u', 'p'],
        "down"@ == seq!['d', 'o', 'w', 'n'],
        "home"@ == seq!['h', 'o', 'm', 'e'],
        "end"@ == seq!['e', 'n', 'd'],
        "delete"@ == seq!['d', 'e', 'l', 'e', 't', 'e'],
        "pageup"@ == seq!['p', 'a', 'g', 'e', 'u', 'p'],
        "pagedown"@ == seq!['p', 'a', 'g', 'e', 'd', 'o', 'w', 'n'],
        "space"@ == seq!['s', 'p', 'a', 'c', 'e'],
        "alt"@ == seq!['a', 'l', 't'],
        "control"@ == seq!['c', 'o', 'n', 't', 'r', 'o', 'l'],
        "shift"@ == seq!['s', 'h', 'i', 'f', 't'],
        "platform"@ == seq!['p', 'l', 'a', 't', 'f', 'o', 'r', 'm'],
        "function"@ == seq!['f', 'u', 'n', 'c', 't', 'i', 'o', 'n'],
        "capslock"@ == seq!['c', 'a', 'p', 's', 'l', 'o', 'c', 'k'],
{
    reveal_strlit("enter");
    reveal_strlit("backspace");
    reveal_strlit("escape");
    reveal_strlit("left");
    reveal_strlit("right");
    reveal_strlit("up");
    reveal_strlit("down");
    reveal_strlit("home");
    reveal_strlit("end");
    reveal_strlit("delete");
    reveal_strlit("pageup");
    reveal_strlit("pagedown");
    reveal_strlit("space");
    reveal_strlit("alt");
    reveal_strlit("control");
    reveal_strlit("shift");
    reveal_strlit("platform");
    reveal_strlit("function");
    reveal_strlit("capslock");
}

/// A modifier is told to the program by a number: one, and one more for shift, two for alt and four
/// for control. Keys that move the cursor and the delete key carry it; turning pages, entering,
/// deleting backwards and escaping do not.
pub proof fn law_modifiers_are_told_by_their_number(stroke: Keystroke)
    requires
        stroke.modifiers.shift || stroke.modifiers.alt || stroke.modifiers.control,
    ensures
        ({
            let number = ('1' as u8 + (if stroke.modifiers.shift {
                1int
            } else {
                0
            }) + (if stroke.modifiers.alt {
                2int
            } else {
                0
            }) + (if stroke.modifiers.control {
                4int
            } else {
                0
            })) as u8;
            let moved = |letter: char|
                terminal_view::key_bytes(stroke) == Some(
                    seq![27u8, '[' as u8, '1' as u8, ';' as u8, number, letter as u8],
                );
            let plain = terminal_view::key_bytes(
                Keystroke {
                    modifiers: Modifiers {
                        shift: false,
                        alt: false,
                        control: false,
                        ..stroke.modifiers
                    },
                    ..stroke
                },
            );
            &&& stroke.key@ == "left"@ ==> moved('D')
            &&& stroke.key@ == "right"@ ==> moved('C')
            &&& stroke.key@ == "up"@ ==> moved('A')
            &&& stroke.key@ == "down"@ ==> moved('B')
            &&& stroke.key@ == "home"@ ==> moved('H')
            &&& stroke.key@ == "end"@ ==> moved('F')
            &&& stroke.key@ == "delete"@ ==> terminal_view::key_bytes(stroke) == Some(
                seq![27u8, '[' as u8, '3' as u8, ';' as u8, number, '~' as u8],
            )
            &&& stroke.key@ == "pageup"@ || stroke.key@ == "pagedown"@ || stroke.key@ == "enter"@
                || stroke.key@ == "backspace"@ || stroke.key@ == "escape"@
                ==> terminal_view::key_bytes(stroke) == plain && plain is Some
        }),
{
    lemma_names();
}

/// With control a letter sends its place in the alphabet, small or large, and the space bar
/// nothing but a zero. A modifier alone sends nothing.
pub proof fn law_control_sends_places_in_the_alphabet(stroke: Keystroke)
    requires
        stroke.modifiers.control,
    ensures
        stroke.key@.len() == 1 && 'a' <= stroke.key@[0] <= 'z' ==> terminal_view::key_bytes(stroke)
            == Some(seq![(stroke.key@[0] as int - 'a' as int + 1) as u8]),
        stroke.key@.len() == 1 && 'A' <= stroke.key@[0] <= 'Z' ==> terminal_view::key_bytes(stroke)
            == Some(seq![(stroke.key@[0] as int - 'A' as int + 1) as u8]),
        stroke.key@ == "space"@ ==> terminal_view::key_bytes(stroke) == Some(seq![0u8]),
        stroke.key@ == "alt"@ || stroke.key@ == "control"@ || stroke.key@ == "shift"@ || stroke.key@
            == "platform"@ || stroke.key@ == "function"@ || stroke.key@ == "capslock"@
            ==> terminal_view::key_bytes(stroke) is None,
{
    lemma_names();
}

/// Without control a key that has no name sends the character that it gives, in UTF-8, and with alt
/// an escape before it.
pub proof fn law_characters_are_sent_as_they_are(stroke: Keystroke, c: char)
    requires
        !stroke.modifiers.control,
        stroke.key@.len() == 1 || stroke.key@ == "space"@,
        stroke.key_char matches Some(text) && text@.len() > 0 && text@[0] == c,
    ensures
        !stroke.modifiers.alt ==> terminal_view::key_bytes(stroke) == Some(
            vstd::utf8::encode_utf8(seq![c]),
        ),
        stroke.modifiers.alt ==> terminal_view::key_bytes(stroke) == Some(
            seq![27u8] + vstd::utf8::encode_utf8(seq![c]),
        ),
{
    lemma_names();
}

/// A program that asks for it is told where pasted text begins and ends, and gets the text as it is.
pub proof fn law_bracketed_text_is_pasted_whole(text: Seq<char>)
    ensures
        terminal_view::pasted(text, true) == seq!['\x1b', '[', '2', '0', '0', '~'] + text + seq![
            '\x1b',
            '[',
            '2',
            '0',
            '1',
            '~',
        ],
{
    reveal_strlit("\x1b[200~");
    reveal_strlit("\x1b[201~");
    assert("\x1b[200~"@ =~= seq!['\x1b', '[', '2', '0', '0', '~']);
    assert("\x1b[201~"@ =~= seq!['\x1b', '[', '2', '0', '1', '~']);
}

/// To other programs pasted text is typed: each line end is one enter key, and nothing else changes.
pub proof fn law_pasted_lines_are_entered(a: Seq<char>, b: Seq<char>)
    requires
        !a.contains('\n'),
        !a.contains('\r'),
    ensures
        terminal_view::pasted(a, false) == a,
        terminal_view::pasted(a + seq!['\n'] + b, false) == a + seq!['\r'] + terminal_view::pasted(
            b,
            false,
        ),
        terminal_view::pasted(a + seq!['\r', '\n'] + b, false) == a + seq!['\r']
            + terminal_view::pasted(b, false),
    decreases a.len(),
{
    if a.len() == 0 {
        assert((a + seq!['\n'] + b).skip(1) =~= b);
        assert((a + seq!['\r', '\n'] + b).skip(2) =~= b);
        assert(a =~= Seq::empty());
        assert(a + seq!['\r'] + terminal_view::entered(b) =~= seq!['\r'] + terminal_view::entered(b));
    } else {
        let rest = a.skip(1);
        let first = a[0];
        assert(a.contains(first));
        if rest.contains('\n') {
            let k = rest.index_of('\n');
            assert(a[k + 1] == '\n');
        }
        if rest.contains('\r') {
            let k = rest.index_of('\r');
            assert(a[k + 1] == '\r');
        }
        law_pasted_lines_are_entered(rest, b);
        let one = a + seq!['\n'] + b;
        let two = a + seq!['\r', '\n'] + b;
        assert(one.skip(1) =~= rest + seq!['\n'] + b);
        assert(two.skip(1) =~= rest + seq!['\r', '\n'] + b);
        assert(one[0] == first && two[0] == first);
        assert(seq![first] + rest =~= a);
        assert(terminal_view::entered(a) =~= a);
        assert(terminal_view::entered(one) =~= a + seq!['\r'] + terminal_view::entered(b));
        assert(terminal_view::entered(two) =~= a + seq!['\r'] + terminal_view::entered(b));
    }
}

/// The number of a color holds its parts, the red one highest.
pub proof fn law_a_color_is_its_number(hex: u32)
    requires
        hex <= 0xff_ffff,
    ensures
        ({
            let color = terminal_view::color_with(hex);
            hex == color.r * 65536 + color.g * 256 + color.b
        }),
{
}

/// The sixteen named colors of the terminal, in a dark and in a light theme; all others are drawn in
/// the color of plain text but for the one behind text.
pub proof fn law_named_colors(slot: usize, dark: bool)
    ensures
        ({
            let named = if dark {
                seq![
                    0x2a2a2bu32, 0xcd3131, 0x0dbc79, 0xe5e510, 0x2472c8, 0xbc3fbc, 0x11a8cd,
                    0xe5e5e5, 0x767676, 0xf14c4c, 0x23d18b, 0xf5f543, 0x3b8eea, 0xd670d6, 0x29b8db,
                    0xd4d4d4,
                ]
            } else {
                seq![
                    0x000000u32, 0xcd3131, 0x00bc00, 0x949800, 0x0451a5, 0xbc05bc, 0x0598bc,
                    0x555555, 0x666666, 0xcd3131, 0x05bc79, 0x949800, 0x0451a5, 0xbc05bc, 0x0598bc,
                    0x383a42,
                ]
            };
            &&& slot < 16 ==> terminal_view::palette(slot, dark) == named[slot as int]
            &&& slot >= 16 && slot != 257 ==> terminal_view::palette(slot, dark) == named[15]
            &&& terminal_view::palette(257, dark) == if dark {
                0x161617u32
            } else {
                0xffffffu32
            }
        }),
{
}

/// A color that the program chose is drawn as it chose it. The others up to the sixteenth are the
/// named ones, then come a cube of six by six by six and twenty-four grays.
pub proof fn law_numbered_colors(i: u8, colors: Seq<Option<Rgb>>, dark: bool)
    requires
        colors.len() == 269,
    ensures
        ({
            let drawn = terminal_view::numbered(i, colors, dark);
            &&& colors[i as int] is Some ==> drawn == colors[i as int]->0
            &&& colors[i as int] is None && i < 16 ==> drawn == terminal_view::color_with(
                terminal_view::palette(i as usize, dark),
            )
            &&& colors[i as int] is None && 16 <= i < 232 ==> drawn.r % 51 == 0 && drawn.g % 51 == 0
                && drawn.b % 51 == 0 && i == 16 + drawn.r / 51 * 36 + drawn.g / 51 * 6 + drawn.b
                / 51
            &&& colors[i as int] is None && i >= 232 ==> drawn.r == drawn.g && drawn.g == drawn.b
                && drawn.r == 8 + (i - 232) * 10
        }),
{
}

/// A named color that the program did not choose is that of the palette, and the one behind text that
/// of the theme.
pub proof fn law_colors_are_drawn(color: Tint, colors: Seq<Option<Rgb>>, style: TermStyle)
    ensures
        ({
            let drawn = terminal_view::drawn(color, colors, style);
            &&& color matches Tint::Spec(rgb) ==> drawn == rgb
            &&& color matches Tint::Indexed(i) ==> drawn == terminal_view::numbered(
                i,
                colors,
                style.dark,
            )
            &&& color matches Tint::Named(slot) ==> match colors[slot as int] {
                Some(rgb) => drawn == rgb,
                None => drawn == if slot == 257 {
                    style.bg
                } else {
                    terminal_view::color_with(terminal_view::palette(slot, style.dark))
                },
            }
        }),
{
}

/// The cursor turns the colors of its cell round, and so does a cell that is inverse itself; both
/// together do what one does. Text is bold, slanted or underlined as its cell says.
pub proof fn law_the_cursor_turns_colors_round(
    cell: Cell,
    colors: Seq<Option<Rgb>>,
    style: TermStyle,
)
    ensures
        ({
            let plain = terminal_view::style_of(cell, false, colors, style);
            let under = terminal_view::style_of(cell, true, colors, style);
            let inverse = cell.flags & 0x1 != 0;
            &&& under.fg == terminal_view::drawn(cell.bg, colors, style)
            &&& under.bg == terminal_view::drawn(cell.fg, colors, style)
            &&& inverse ==> plain == under
            &&& !inverse ==> plain.fg == under.bg && plain.bg == under.fg
            &&& plain.bold <==> cell.flags & 0x2 != 0
            &&& plain.italic <==> cell.flags & 0x4 != 0
            &&& plain.underline <==> cell.flags & 0x7808 != 0
            &&& under.bold == plain.bold && under.italic == plain.italic && under.underline
                == plain.underline
        }),
{
}

/// A row shows the characters of its cells in their order, each once, and no cells of other rows. What
/// only fills the place beside a wide character is not shown.
pub proof fn law_a_row_shows_its_cells(
    cells: Seq<Cell>,
    frame: Frame,
    colors: Seq<Option<Rgb>>,
    style: TermStyle,
    row: int,
)
    ensures
        terminal_view::chars_in(terminal_view::drawn_row(cells, frame, colors, style, row))
            == cells.filter(
            |cell: Cell| cell.line + frame.offset == row && cell.flags & 0x440 == 0,
        ).map_values(|cell: Cell| cell.c),
    decreases cells.len(),
{
    reveal(Seq::filter);
    let fits = |cell: Cell| cell.line + frame.offset == row && cell.flags & 0x440 == 0;
    let c = |cell: Cell| cell.c;
    if cells.len() > 0 {
        let less = cells.drop_last();
        law_a_row_shows_its_cells(less, frame, colors, style, row);
        let before = terminal_view::drawn_row(less, frame, colors, style, row);
        let after = terminal_view::drawn_row(cells, frame, colors, style, row);
        if fits(cells.last()) {
            assert(terminal_view::chars_in(after) =~= terminal_view::chars_in(before).push(
                cells.last().c,
            ));
            assert(cells.filter(fits).map_values(c) =~= less.filter(fits).map_values(c).push(
                cells.last().c,
            ));
        }
    } else {
        assert(terminal_view::chars_in(
            terminal_view::drawn_row(cells, frame, colors, style, row),
        ) =~= cells.filter(fits).map_values(c));
    }
}

/// Text that is composed is counted as the platform counts it: a character beyond the first 65536
/// counts twice, and texts one behind the other count together.
pub proof fn law_composed_text_is_counted(a: Seq<char>, c: char)
    ensures
        terminal_view::units(Seq::empty()) == 0,
        terminal_view::units(a.push(c)) == terminal_view::units(a) + if c as u32 <= 0xffff {
            1nat
        } else {
            2nat
        },
    decreases a.len(),
{
    if a.len() == 0 {
        assert(a.push(c).drop_first() =~= Seq::empty());
        assert(terminal_view::units(Seq::<char>::empty()) == 0);
        assert(terminal_view::units(a.push(c).drop_first()) == 0);
    } else {
        law_composed_text_is_counted(a.drop_first(), c);
        assert(a.push(c).drop_first() =~= a.drop_first().push(c));
    }
}

/// A terminal is marked as ended if and only if it is the active one and its process has exited.
pub proof fn law_ended_terminals_are_marked(terminals: Seq<Terminal>, active: Option<String>)
    ensures
        terminal_view::ended(terminals, active) <==> active is Some && exists|k: int|
            0 <= k < terminals.len() && (#[trigger] terminals[k]).id@ == active->0@
                && terminals[k].state == TerminalState::Exited && forall|j: int|
                0 <= j < k ==> (#[trigger] terminals[j]).id@ != active->0@,
{
    if active is Some {
        lemma_first_terminal(terminals, active->0@);
    }
}

pub proof fn lemma_first_terminal(terminals: Seq<Terminal>, id: Seq<char>)
    ensures
        match terminal_view::first_terminal(terminals, id) {
            Some(terminal) => exists|k: int|
                0 <= k < terminals.len() && #[trigger] terminals[k] == terminal && terminal.id@ == id
                    && forall|j: int| 0 <= j < k ==> (#[trigger] terminals[j]).id@ != id,
            None => forall|k: int| 0 <= k < terminals.len() ==> (#[trigger] terminals[k]).id@ != id,
        },
    decreases terminals.len(),
{
    if terminals.len() > 0 {
        let rest = terminals.skip(1);
        lemma_first_terminal(rest, id);
        if terminals[0].id@ == id {
            assert(terminals[0] == terminals[0]);
        } else {
            match terminal_view::first_terminal(rest, id) {
                Some(terminal) => {
                    let k = choose|k: int|
                        0 <= k < rest.len() && #[trigger] rest[k] == terminal && terminal.id@ == id
                            && forall|j: int| 0 <= j < k ==> (#[trigger] rest[j]).id@ != id;
                    assert(terminals[k + 1] == terminal);
                    assert forall|j: int| 0 <= j < k + 1 implies (#[trigger] terminals[j]).id@
                        != id by {
                        if j > 0 {
                            assert(rest[j - 1] == terminals[j]);
                        }
                    }
                },
                None => {
                    assert forall|k: int| 0 <= k < terminals.len() implies (
                    #[trigger] terminals[k]).id@ != id by {
                        if k > 0 {
                            assert(rest[k - 1] == terminals[k]);
                        }
                    }
                },
            }
        }
    }
}

/// The cursor is drawn where the program put it, in the lines that are in view, and where it is to be
/// seen; it stands in no line above the view.
pub proof fn law_the_cursor_is_drawn_where_it_stands(cell: Cell, frame: Frame)
    ensures
        !frame.cursor_shown ==> !terminal_view::under_cursor(cell, frame),
        frame.cursor_shown && frame.offset == 0 ==> (terminal_view::under_cursor(cell, frame)
            <==> cell.line == frame.cursor_line && cell.column == frame.cursor_column),
        terminal_view::under_cursor(cell, frame) ==> cell.column == frame.cursor_column && cell.line
            - frame.cursor_line == frame.offset,
        frame.cursor_shown && cell.column == frame.cursor_column && cell.line - frame.cursor_line
            == frame.offset ==> terminal_view::under_cursor(cell, frame),
        terminal_view::cursor_place(frame).0 == frame.cursor_column,
        terminal_view::cursor_place(frame).1 >= 0,
        frame.cursor_line >= 0 ==> terminal_view::cursor_place(frame).1 == frame.cursor_line
            + frame.offset,
        frame.cursor_line + frame.offset < 0 ==> terminal_view::cursor_place(frame).1 == 0,
{
}

/// What was written to a grid is what was written to it in all, in order; changing its size and
/// scrolling write nothing.
pub proof fn law_what_was_written_stays_written(
    story: Story,
    bytes: Seq<u8>,
    cols: usize,
    rows: usize,
    lines: i32,
)
    ensures
        story.then_did(Step::Write(bytes)).written() == story.written() + bytes,
        story.then_did(Step::Resize(cols, rows)).written() == story.written(),
        story.then_did(Step::Scroll(lines)).written() == story.written(),
        (Story { steps: Seq::empty(), ..story }).written().len() == 0,
{
    grid::lemma_one_step_more(story, Step::Write(bytes));
    grid::lemma_one_step_more(story, Step::Resize(cols, rows));
    grid::lemma_one_step_more(story, Step::Scroll(lines));
}

/// The screen shows the output from its beginning where that began anew, at the size that the screen has;
/// and else only what came since is added to what it shows. Drawing the same output twice changes
/// nothing.
pub proof fn law_the_screen_keeps_up_with_the_output(
    screen: &TerminalScreen,
    buffer: &TerminalBuffer,
)
    ensures
        ({
            let after = screen.story_with(buffer);
            &&& screen.version() != buffer.version() ==> after.written() == buffer.output()
                && after.cols == screen.size().0 && after.rows == screen.size().1
            &&& screen.version() == buffer.version() && screen.story().written().is_prefix_of(
                buffer.output(),
            ) ==> after.written() == buffer.output() && after.cols == screen.story().cols
                && after.rows == screen.story().rows
            &&& screen.version() == buffer.version() && screen.story().written().len()
                >= buffer.output().len() ==> after == screen.story()
            &&& screen.version() == buffer.version() ==> screen.story().steps.is_prefix_of(
                after.steps,
            )
        }),
{
    let output = buffer.output();
    let story = screen.story();
    let after = screen.story_with(buffer);
    let fresh = Story {
        cols: screen.size().0 as usize,
        rows: screen.size().1 as usize,
        steps: Seq::empty(),
    };
    grid::lemma_one_step_more(fresh, Step::Write(output));
    assert(fresh.written() + output =~= output);
    let drawn = story.written().len() as int;
    if drawn < output.len() {
        grid::lemma_one_step_more(story, Step::Write(output.skip(drawn)));
        if story.written().is_prefix_of(output) {
            assert(story.written() + output.skip(drawn) =~= output);
        }
    } else if story.written().is_prefix_of(output) {
        assert(story.written() =~= output);
    }
    if screen.version() == buffer.version() {
        assert(story.steps =~= after.steps.subrange(0, story.steps.len() as int));
    } else if output.len() == 0 {
        assert(fresh.written() =~= output);
    }
}

/// A row is drawn in runs: one for each stretch of cells of one style, as long as its text is in bytes.
pub proof fn law_runs_are_as_long_as_their_text(runs: Seq<Run>, cells: Seq<Drawn>, i: int)
    requires
        terminal_view::runs_match(runs, terminal_view::spans_of(cells)),
        0 <= i < runs.len(),
    ensures
        runs.len() == terminal_view::spans_of(cells).len(),
        runs[i].style == terminal_view::spans_of(cells)[i].style,
        runs[i].len == vstd::utf8::encode_utf8(terminal_view::spans_of(cells)[i].text).len(),
{
}

/// A cell more goes on with the last stretch where it has its style, and else begins one.
pub proof fn law_stretches_have_one_style(cells: Seq<Drawn>, cell: Drawn)
    ensures
        ({
            let before = terminal_view::spans_of(cells);
            let after = terminal_view::spans_of(cells.push(cell));
            let goes_on = before.len() > 0 && before.last().style == cell.1;
            &&& goes_on ==> after.len() == before.len() && after.drop_last() == before.drop_last()
                && after.last().text == before.last().text.push(cell.0)
            &&& !goes_on ==> after.len() == before.len() + 1 && after.drop_last() == before
                && after.last().text == seq![cell.0]
            &&& after.last().style == cell.1
        }),
{
    assert(cells.push(cell).drop_last() =~= cells);
    let before = terminal_view::spans_of(cells);
    let after = terminal_view::spans_of(cells.push(cell));
    if before.len() > 0 && before.last().style == cell.1 {
        assert(after.drop_last() =~= before.drop_last());
    } else {
        assert(after.drop_last() =~= before);
    }
}

} // verus!
