//! A terminal as it is shown: its grid keeps up with the output, its cells become rows of text in
//! colors, and keys become the bytes that programs expect.
pub mod grid;
pub mod laws;

use super::state;
use super::state::{next_terminal_generation, SessionView, TerminalBuffer};
use crate::common::api::{Terminal, TerminalState};
use crate::strings::{bytes_of, chars_of, same, string_of};
use grid::{Cell, Frame, Grid, Rgb, Tint, COLORS, SCROLLBACK_LINES};
use vstd::prelude::*;

verus! {

/// The size of a grid before the window was measured.
pub const INITIAL_COLS: u16 = 100;

pub const INITIAL_ROWS: u16 = 30;

/// The sizes that a window can give to a terminal.
pub const MIN_COLS: u16 = 20;

pub const MAX_COLS: u16 = 500;

pub const MIN_ROWS: u16 = 5;

pub const MAX_ROWS: u16 = 200;

/// The place in the palette of the color behind text.
pub const BACKGROUND: usize = 257;

/// The bits of the ways in which a cell is drawn.
pub const INVERSE: u16 = 0x1;

pub const BOLD: u16 = 0x2;

pub const ITALIC: u16 = 0x4;

/// The five kinds of underlining.
pub const UNDERLINES: u16 = 0x7808;

/// The cell is the second half of a wide character, or the place that one did not fit in.
pub const SPACERS: u16 = 0x440;

/// What the colors depend on: whether the theme is a dark one, and its background.
#[derive(Debug, Clone, Copy, PartialEq, Eq, Structural)]
pub struct TermStyle {
    pub dark: bool,
    pub bg: Rgb,
}

/// The color with a number of the form `0xrrggbb`.
pub open spec fn color_with(hex: u32) -> Rgb {
    Rgb { r: (hex / 65536 % 256) as u8, g: (hex / 256 % 256) as u8, b: (hex % 256) as u8 }
}

/// The color with a number of the form `0xrrggbb`.
pub fn rgb_from_hex(hex: u32) -> (r: Rgb)
    ensures
        r == color_with(hex),
{
    Rgb { r: (hex / 65536 % 256) as u8, g: (hex / 256 % 256) as u8, b: (hex % 256) as u8 }
}

/// The color of text in a theme.
pub open spec fn plain_text(dark: bool) -> u32 {
    if dark {
        0xd4d4d4
    } else {
        0x383a42
    }
}

/// The colors of the palette, for dark themes and for light ones. Those that are not listed are
/// that of text.
pub open spec fn palette(slot: usize, dark: bool) -> u32 {
    match (slot, dark) {
        (0, true) => 0x2a2a2b,
        (0, false) => 0x000000,
        (1, true) => 0xcd3131,
        (1, false) => 0xcd3131,
        (2, true) => 0x0dbc79,
        (2, false) => 0x00bc00,
        (3, true) => 0xe5e510,
        (3, false) => 0x949800,
        (4, true) => 0x2472c8,
        (4, false) => 0x0451a5,
        (5, true) => 0xbc3fbc,
        (5, false) => 0xbc05bc,
        (6, true) => 0x11a8cd,
        (6, false) => 0x0598bc,
        (7, true) => 0xe5e5e5,
        (7, false) => 0x555555,
        (8, true) => 0x767676,
        (8, false) => 0x666666,
        (9, true) => 0xf14c4c,
        (9, false) => 0xcd3131,
        (10, true) => 0x23d18b,
        (10, false) => 0x05bc79,
        (11, true) => 0xf5f543,
        (11, false) => 0x949800,
        (12, true) => 0x3b8eea,
        (12, false) => 0x0451a5,
        (13, true) => 0xd670d6,
        (13, false) => 0xbc05bc,
        (14, true) => 0x29b8db,
        (14, false) => 0x0598bc,
        (257, true) => 0x161617,
        (257, false) => 0xffffff,
        _ => plain_text(dark),
    }
}

/// The color of the palette with a place.
pub fn default_palette(slot: usize, dark: bool) -> (r: Rgb)
    ensures
        r == color_with(palette(slot, dark)),
{
    let hex: u32 = match (slot, dark) {
        (0, true) => 0x2a2a2b,
        (0, false) => 0x000000,
        (1, true) => 0xcd3131,
        (1, false) => 0xcd3131,
        (2, true) => 0x0dbc79,
        (2, false) => 0x00bc00,
        (3, true) => 0xe5e510,
        (3, false) => 0x949800,
        (4, true) => 0x2472c8,
        (4, false) => 0x0451a5,
        (5, true) => 0xbc3fbc,
        (5, false) => 0xbc05bc,
        (6, true) => 0x11a8cd,
        (6, false) => 0x0598bc,
        (7, true) => 0xe5e5e5,
        (7, false) => 0x555555,
        (8, true) => 0x767676,
        (8, false) => 0x666666,
        (9, true) => 0xf14c4c,
        (9, false) => 0xcd3131,
        (10, true) => 0x23d18b,
        (10, false) => 0x05bc79,
        (11, true) => 0xf5f543,
        (11, false) => 0x949800,
        (12, true) => 0x3b8eea,
        (12, false) => 0x0451a5,
        (13, true) => 0xd670d6,
        (13, false) => 0xbc05bc,
        (14, true) => 0x29b8db,
        (14, false) => 0x0598bc,
        (257, true) => 0x161617,
        (257, false) => 0xffffff,
        (_, true) => 0xd4d4d4,
        (_, false) => 0x383a42,
    };
    rgb_from_hex(hex)
}

/// A color by its number: the sixteen of the palette, a cube with six steps each of red, green and
/// blue, and a ramp of grays. A color that was set anew is what it was set to.
pub open spec fn numbered(i: u8, colors: Seq<Option<Rgb>>, dark: bool) -> Rgb {
    match colors[i as int] {
        Some(rgb) => rgb,
        None => if i < 16 {
            color_with(palette(i as usize, dark))
        } else if i < 232 {
            Rgb {
                r: ((i - 16) / 36 * 51) as u8,
                g: ((i - 16) % 36 / 6 * 51) as u8,
                b: ((i - 16) % 6 * 51) as u8,
            }
        } else {
            let gray = (8 + (i - 232) * 10) as u8;
            Rgb { r: gray, g: gray, b: gray }
        },
    }
}

/// The color with a number.
pub fn indexed_palette(i: u8, colors: &Vec<Option<Rgb>>, dark: bool) -> (r: Rgb)
    requires
        colors@.len() == COLORS,
    ensures
        r == numbered(i, colors@, dark),
{
    match colors[i as usize] {
        Some(rgb) => rgb,
        None => {
            if i < 16 {
                default_palette(i as usize, dark)
            } else if i < 232 {
                let n: u8 = i - 16;
                Rgb { r: n / 36 * 51, g: n % 36 / 6 * 51, b: n % 6 * 51 }
            } else {
                let gray: u8 = 8 + (i - 232) * 10;
                Rgb { r: gray, g: gray, b: gray }
            }
        },
    }
}

/// The color that is drawn. Text and what is behind it follow the theme unless they were set anew.
pub open spec fn drawn(color: Tint, colors: Seq<Option<Rgb>>, style: TermStyle) -> Rgb {
    match color {
        Tint::Named(slot) => match colors[slot as int] {
            Some(rgb) => rgb,
            None => if slot == BACKGROUND {
                style.bg
            } else {
                color_with(palette(slot, style.dark))
            },
        },
        Tint::Spec(rgb) => rgb,
        Tint::Indexed(i) => numbered(i, colors, style.dark),
    }
}

/// The color that is drawn.
pub fn color_to_rgb(color: Tint, colors: &Vec<Option<Rgb>>, style: &TermStyle) -> (r: Rgb)
    requires
        colors@.len() == COLORS,
        grid::placed(color),
    ensures
        r == drawn(color, colors@, *style),
{
    match color {
        Tint::Named(slot) => match colors[slot] {
            Some(rgb) => rgb,
            None => if slot == BACKGROUND {
                style.bg
            } else {
                default_palette(slot, style.dark)
            },
        },
        Tint::Spec(rgb) => rgb,
        Tint::Indexed(i) => indexed_palette(i, colors, style.dark),
    }
}

/// How a cell is drawn.
#[derive(Debug, Clone, Copy, PartialEq, Eq, Structural)]
pub struct CellStyle {
    pub fg: Rgb,
    pub bg: Rgb,
    pub bold: bool,
    pub italic: bool,
    pub underline: bool,
}

/// One of some bits is set.
pub open spec fn flagged(flags: u16, bits: u16) -> bool {
    flags & bits != 0
}

/// How a cell is drawn. The colors change places under the cursor, and where the cell asks for it.
pub open spec fn style_of(
    cell: Cell,
    is_cursor: bool,
    colors: Seq<Option<Rgb>>,
    style: TermStyle,
) -> CellStyle {
    let turned = flagged(cell.flags, INVERSE) || is_cursor;
    let fg = drawn(cell.fg, colors, style);
    let bg = drawn(cell.bg, colors, style);
    CellStyle {
        fg: if turned {
            bg
        } else {
            fg
        },
        bg: if turned {
            fg
        } else {
            bg
        },
        bold: flagged(cell.flags, BOLD),
        italic: flagged(cell.flags, ITALIC),
        underline: flagged(cell.flags, UNDERLINES),
    }
}

impl CellStyle {
    /// How a cell is drawn.
    pub fn of(cell: &Cell, is_cursor: bool, colors: &Vec<Option<Rgb>>, style: &TermStyle) -> (r:
        Self)
        requires
            colors@.len() == COLORS,
            grid::placed(cell.fg),
            grid::placed(cell.bg),
        ensures
            r == style_of(*cell, is_cursor, colors@, *style),
    {
        let fg: Rgb = color_to_rgb(cell.fg, colors, style);
        let bg: Rgb = color_to_rgb(cell.bg, colors, style);
        let bold: bool = cell.flags & BOLD != 0;
        let italic: bool = cell.flags & ITALIC != 0;
        let underline: bool = cell.flags & UNDERLINES != 0;
        if cell.flags & INVERSE != 0 || is_cursor {
            CellStyle { fg: bg, bg: fg, bold, italic, underline }
        } else {
            CellStyle { fg, bg, bold, italic, underline }
        }
    }
}

/// A character and how it is drawn.
pub type Drawn = (char, CellStyle);

/// The row of the view that a cell stands in.
pub open spec fn row_of(cell: Cell, frame: Frame) -> int {
    cell.line + frame.offset
}

/// A cell is shown in a row: it is in that row, and no more than a place next to a wide character.
pub open spec fn shown_in(cell: Cell, frame: Frame, row: int) -> bool {
    row_of(cell, frame) == row && !flagged(cell.flags, SPACERS)
}

/// The cursor is on a cell.
pub open spec fn under_cursor(cell: Cell, frame: Frame) -> bool {
    &&& frame.cursor_shown
    &&& cell.line == frame.cursor_line + frame.offset
    &&& cell.column == frame.cursor_column
}

/// What is drawn in a row, from left to right.
pub open spec fn drawn_row(
    cells: Seq<Cell>,
    frame: Frame,
    colors: Seq<Option<Rgb>>,
    style: TermStyle,
    row: int,
) -> Seq<Drawn>
    decreases cells.len(),
{
    if cells.len() == 0 {
        Seq::empty()
    } else {
        let before = drawn_row(cells.drop_last(), frame, colors, style, row);
        let cell = cells.last();
        if shown_in(cell, frame, row) {
            before.push((cell.c, style_of(cell, under_cursor(cell, frame), colors, style)))
        } else {
            before
        }
    }
}

/// What is drawn in each row.
pub fn drawn_rows(
    cells: &Vec<Cell>,
    frame: &Frame,
    colors: &Vec<Option<Rgb>>,
    style: &TermStyle,
) -> (r: Vec<Vec<Drawn>>)
    requires
        colors@.len() == COLORS,
        grid::all_placed(cells@),
    ensures
        r@.len() == frame.lines,
        forall|row: int|
            0 <= row < r@.len() ==> (#[trigger] r@[row])@ == drawn_row(
                cells@,
                *frame,
                colors@,
                *style,
                row,
            ),
{
    let mut rows: Vec<Vec<Drawn>> = Vec::new();
    let mut row: usize = 0;
    while row < frame.lines
        invariant
            0 <= row <= frame.lines,
            rows@.len() == row,
            forall|k: int| 0 <= k < row ==> (#[trigger] rows@[k])@.len() == 0,
        decreases frame.lines - row,
    {
        rows.push(Vec::new());
        row = row + 1;
    }
    let mut i: usize = 0;
    while i < cells.len()
        invariant
            0 <= i <= cells@.len(),
            colors@.len() == COLORS,
            grid::all_placed(cells@),
            rows@.len() == frame.lines,
            forall|k: int|
                0 <= k < rows@.len() ==> (#[trigger] rows@[k])@ == drawn_row(
                    cells@.take(i as int),
                    *frame,
                    colors@,
                    *style,
                    k,
                ),
        decreases cells.len() - i,
    {
        proof {
            assert(cells@.take(i + 1).drop_last() =~= cells@.take(i as int));
            assert(cells@.take(i + 1).last() == cells@[i as int]);
        }
        let cell: Cell = cells[i];
        let at: i128 = cell.line as i128 + frame.offset as i128;
        if at >= 0 && at < frame.lines as i128 && cell.flags & SPACERS == 0 {
            let is_cursor: bool = frame.cursor_shown && cell.line as i128 == frame.cursor_line as i128
                + frame.offset as i128 && cell.column == frame.cursor_column;
            let drawn: CellStyle = CellStyle::of(&cell, is_cursor, colors, style);
            let ghost before = rows@;
            rows[at as usize].push((cell.c, drawn));
            proof {
                assert forall|k: int| 0 <= k < rows@.len() implies (#[trigger] rows@[k])@
                    == drawn_row(cells@.take(i + 1), *frame, colors@, *style, k) by {
                    if k != at {
                        assert(rows@[k] == before[k]);
                    } else {
                        assert(before[k]@ == drawn_row(
                            cells@.take(i as int),
                            *frame,
                            colors@,
                            *style,
                            k,
                        ));
                    }
                }
            }
        }
        i = i + 1;
    }
    proof {
        assert(cells@.take(i as int) =~= cells@);
    }
    rows
}

/// Neighbours that are drawn alike.
pub ghost struct Span {
    pub text: Seq<char>,
    pub style: CellStyle,
}

/// What is drawn, with neighbours put together that are drawn alike.
pub open spec fn spans_of(cells: Seq<Drawn>) -> Seq<Span>
    decreases cells.len(),
{
    if cells.len() == 0 {
        Seq::empty()
    } else {
        let before = spans_of(cells.drop_last());
        let (c, style) = cells.last();
        if before.len() > 0 && before.last().style == style {
            before.drop_last().push(Span { text: before.last().text.push(c), style })
        } else {
            before.push(Span { text: seq![c], style })
        }
    }
}

/// The text of the spans, one behind the other.
pub open spec fn text_of(spans: Seq<Span>) -> Seq<char>
    decreases spans.len(),
{
    if spans.len() == 0 {
        Seq::empty()
    } else {
        text_of(spans.drop_last()) + spans.last().text
    }
}

/// The characters that are drawn.
pub open spec fn chars_in(cells: Seq<Drawn>) -> Seq<char> {
    cells.map_values(|d: Drawn| d.0)
}

/// Spans leave nothing out: they make up the text that is drawn, none is empty, and each ends where
/// the way of drawing changes.
pub proof fn law_spans_make_up_the_text(cells: Seq<Drawn>)
    ensures
        text_of(spans_of(cells)) == chars_in(cells),
        forall|i: int|
            0 <= i < spans_of(cells).len() ==> (#[trigger] spans_of(cells)[i]).text.len() > 0,
        forall|i: int|
            0 < i < spans_of(cells).len() ==> spans_of(cells)[i - 1].style != (
            #[trigger] spans_of(cells)[i]).style,
    decreases cells.len(),
{
    if cells.len() > 0 {
        law_spans_make_up_the_text(cells.drop_last());
        let before = spans_of(cells.drop_last());
        let (c, style) = cells.last();
        assert(chars_in(cells) =~= chars_in(cells.drop_last()).push(c));
        if before.len() > 0 && before.last().style == style {
            let after = before.drop_last().push(Span { text: before.last().text.push(c), style });
            assert(after.drop_last() =~= before.drop_last());
            assert(text_of(after) =~= text_of(before).push(c));
        } else {
            let after = before.push(Span { text: seq![c], style });
            assert(after.drop_last() =~= before);
            assert(text_of(after) =~= text_of(before).push(c));
        }
    } else {
        assert(chars_in(cells) =~= Seq::empty());
    }
}

/// A stretch of a row that is drawn alike, and how many bytes its text has.
#[derive(Debug, Clone, Copy, PartialEq, Eq, Structural)]
pub struct Run {
    pub len: usize,
    pub style: CellStyle,
}

/// A row as it is drawn.
#[derive(Debug, PartialEq)]
pub struct Row {
    pub text: String,
    pub runs: Vec<Run>,
}

/// The runs are those of the spans.
pub open spec fn runs_match(runs: Seq<Run>, spans: Seq<Span>) -> bool {
    &&& runs.len() == spans.len()
    &&& forall|i: int|
        0 <= i < runs.len() ==> (#[trigger] runs[i]).style == spans[i].style && runs[i].len
            == vstd::utf8::encode_utf8(spans[i].text).len()
}

/// The row for what is drawn in it.
pub fn render_row(cells: &Vec<Drawn>) -> (r: Row)
    ensures
        r.text@ == chars_in(cells@),
        runs_match(r.runs@, spans_of(cells@)),
{
    let mut text: String = String::new();
    let mut runs: Vec<Run> = Vec::new();
    let mut open: String = String::new();
    let mut i: usize = 0;
    proof {
        assert(cells@.take(0) =~= Seq::empty());
        assert(chars_in(cells@.take(0)) =~= Seq::empty());
        reveal_strlit("");
    }
    while i < cells.len()
        invariant
            0 <= i <= cells@.len(),
            text@ == chars_in(cells@.take(i as int)),
            i == 0 ==> open@.len() == 0,
            i > 0 ==> spans_of(cells@.take(i as int)).len() > 0 && open@ == spans_of(
                cells@.take(i as int),
            ).last().text,
            runs_match(runs@, spans_of(cells@.take(i as int))),
        decreases cells.len() - i,
    {
        let ghost before = spans_of(cells@.take(i as int));
        proof {
            assert(cells@.take(i + 1).drop_last() =~= cells@.take(i as int));
            assert(cells@.take(i + 1).last() == cells@[i as int]);
            assert(chars_in(cells@.take(i + 1)) =~= chars_in(cells@.take(i as int)).push(
                cells@[i as int].0,
            ));
        }
        let (c, style) = cells[i];
        text.push(c);
        let n: usize = runs.len();
        if n > 0 && runs[n - 1].style == style {
            open.push(c);
            let len: usize = open.as_str().as_bytes().len();
            runs.set(n - 1, Run { len, style });
        } else {
            open = String::new();
            open.push(c);
            proof {
                assert(open@ =~= seq![c]);
            }
            let len: usize = open.as_str().as_bytes().len();
            runs.push(Run { len, style });
        }
        i = i + 1;
    }
    proof {
        assert(cells@.take(i as int) =~= cells@);
    }
    Row { text, runs }
}

/// A terminal on the screen: its grid, how much of the output was drawn in it, and the text that is
/// still being composed.
pub struct TerminalScreen {
    grid: Grid,
    generation: u64,
    fed: usize,
    cols: u16,
    rows: u16,
    marked_text: Option<String>,
}

impl TerminalScreen {
    /// What was done to the grid.
    pub closed spec fn story(&self) -> grid::Story {
        grid::story_of(self.grid)
    }

    /// Which of the buffers was drawn.
    pub closed spec fn version(&self) -> u64 {
        self.generation
    }

    /// The size of the grid.
    pub closed spec fn size(&self) -> (u16, u16) {
        (self.cols, self.rows)
    }

    /// The text that is being composed.
    pub closed spec fn composing(&self) -> Option<Seq<char>> {
        match self.marked_text {
            Some(text) => Some(text@),
            None => None,
        }
    }

    /// The screen knows how much output its grid has read, and has a size that a grid can have.
    pub closed spec fn inv(&self) -> bool {
        &&& self.fed == self.story().written().len()
        &&& self.cols >= 2
        &&& self.rows >= 1
    }

    /// A screen that has drawn nothing. Its generation is that of no buffer, so that the first
    /// buffer is taken for a new one.
    pub fn new(counter: &mut u64) -> (r: Self)
        ensures
            r.inv(),
            r.story() == (grid::Story {
                cols: INITIAL_COLS as usize,
                rows: INITIAL_ROWS as usize,
                steps: Seq::empty(),
            }),
            r.version() == *old(counter),
            r.size() == (INITIAL_COLS, INITIAL_ROWS),
            r.composing() is None,
            *final(counter) == state::after(*old(counter)),
    {
        let grid: Grid = Grid::new(INITIAL_COLS as usize, INITIAL_ROWS as usize);
        proof {
            assert(grid::story_of(grid).steps =~= Seq::empty());
        }
        TerminalScreen {
            grid,
            generation: next_terminal_generation(counter),
            fed: 0,
            cols: INITIAL_COLS,
            rows: INITIAL_ROWS,
            marked_text: None,
        }
    }

    /// Begins anew for another buffer.
    fn reset(&mut self, generation: u64)
        requires
            old(self).inv(),
        ensures
            final(self).inv(),
            final(self).story() == (grid::Story {
                cols: old(self).size().0 as usize,
                rows: old(self).size().1 as usize,
                steps: Seq::empty(),
            }),
            final(self).version() == generation,
            final(self).size() == old(self).size(),
            final(self).composing() == old(self).composing(),
    {
        self.grid = Grid::new(self.cols as usize, self.rows as usize);
        self.generation = generation;
        self.fed = 0;
        proof {
            assert(grid::story_of(self.grid).steps =~= Seq::empty());
        }
    }

    /// What was done to the grid once a buffer is drawn. Where the buffer was built anew, a grid of
    /// the same size reads the whole of its output; else the grid reads what it has not read.
    pub open spec fn story_with(&self, buffer: &TerminalBuffer) -> grid::Story {
        let output = buffer.output();
        if self.version() != buffer.version() {
            let fresh = grid::Story {
                cols: self.size().0 as usize,
                rows: self.size().1 as usize,
                steps: Seq::empty(),
            };
            if output.len() > 0 {
                fresh.then_did(grid::Step::Write(output))
            } else {
                fresh
            }
        } else {
            let drawn = self.story().written().len();
            if drawn < output.len() {
                self.story().then_did(grid::Step::Write(output.skip(drawn as int)))
            } else {
                self.story()
            }
        }
    }

    /// Draws the part of the output that has not been drawn. Where the buffer was built anew, so is
    /// the grid. As long as a buffer only grows, the grid has read the whole of it.
    pub fn sync(&mut self, buffer: &TerminalBuffer)
        requires
            old(self).inv(),
        ensures
            final(self).inv(),
            final(self).version() == buffer.version(),
            final(self).size() == old(self).size(),
            final(self).composing() == old(self).composing(),
            final(self).story() == old(self).story_with(buffer),
            old(self).version() != buffer.version() || old(self).story().written().is_prefix_of(
                buffer.output(),
            ) ==> final(self).story().written() == buffer.output(),
    {
        if self.generation != buffer.generation() {
            self.reset(buffer.generation());
        }
        let ghost drawn = self.story();
        let bytes: &Vec<u8> = buffer.bytes();
        if self.fed < bytes.len() {
            self.grid.write(vstd::slice::slice_subrange(bytes.as_slice(), self.fed, bytes.len()));
            self.fed = bytes.len();
            proof {
                let tail = buffer.output().skip(drawn.written().len() as int);
                assert(bytes@.subrange(drawn.written().len() as int, bytes@.len() as int) =~= tail);
                grid::lemma_one_step_more(drawn, grid::Step::Write(tail));
                if drawn.written().is_prefix_of(buffer.output()) {
                    assert(drawn.written() + tail =~= buffer.output());
                }
                if drawn.written().len() == 0 {
                    assert(drawn.written() + tail =~= buffer.output());
                    assert(tail =~= buffer.output());
                }
            }
        } else {
            proof {
                if drawn.written().is_prefix_of(buffer.output()) {
                    assert(drawn.written() =~= buffer.output());
                }
                if drawn.written().len() == 0 {
                    assert(drawn.written() =~= buffer.output());
                }
            }
        }
    }

    /// Gives the grid another size.
    pub fn resize(&mut self, cols: u16, rows: u16)
        requires
            old(self).inv(),
            cols >= 2,
            rows >= 1,
        ensures
            final(self).inv(),
            final(self).version() == old(self).version(),
            final(self).size() == (cols, rows),
            final(self).composing() == old(self).composing(),
            final(self).story() == if (cols, rows) == old(self).size() {
                old(self).story()
            } else {
                old(self).story().then_did(grid::Step::Resize(cols as usize, rows as usize))
            },
            final(self).story().written() == old(self).story().written(),
    {
        if cols == self.cols && rows == self.rows {
            return;
        }
        self.cols = cols;
        self.rows = rows;
        self.grid.resize(cols as usize, rows as usize);
        proof {
            grid::lemma_one_step_more(
                old(self).story(),
                grid::Step::Resize(cols as usize, rows as usize),
            );
        }
    }

    /// Scrolls by a number of lines: up where it is above zero.
    pub fn scroll(&mut self, lines: i32)
        requires
            old(self).inv(),
            lines <= i32::MAX - SCROLLBACK_LINES,
        ensures
            final(self).inv(),
            final(self).version() == old(self).version(),
            final(self).size() == old(self).size(),
            final(self).composing() == old(self).composing(),
            final(self).story() == old(self).story().then_did(grid::Step::Scroll(lines)),
            final(self).story().written() == old(self).story().written(),
    {
        self.grid.scroll(lines);
        proof {
            grid::lemma_one_step_more(old(self).story(), grid::Step::Scroll(lines));
        }
    }

    /// Whether pasted text is to be marked as such.
    pub fn bracketed_paste(&self) -> (r: bool)
        ensures
            r == grid::marks_pasted_text(self.story()),
    {
        self.grid.bracketed()
    }

    /// The column and the row in view that the cursor is in.
    pub fn cursor_cell(&self) -> (r: (usize, i128))
        ensures
            r == cursor_place(grid::frame_after(self.story())),
    {
        cursor_in(&self.grid.frame())
    }

    /// What is drawn, row by row.
    pub fn snapshot_rows(&self, style: &TermStyle) -> (r: Vec<Row>)
        ensures
            r@.len() == grid::frame_after(self.story()).lines,
            forall|i: int|
                0 <= i < r@.len() ==> {
                    let cells = drawn_row(
                        grid::cells_after(self.story()),
                        grid::frame_after(self.story()),
                        grid::colors_after(self.story()),
                        *style,
                        i,
                    );
                    (#[trigger] r@[i]).text@ == chars_in(cells) && runs_match(
                        r@[i].runs@,
                        spans_of(cells),
                    )
                },
    {
        let cells: Vec<Cell> = self.grid.cells();
        let frame: Frame = self.grid.frame();
        let colors: Vec<Option<Rgb>> = self.grid.colors();
        let rows: Vec<Vec<Drawn>> = drawn_rows(&cells, &frame, &colors, style);
        let mut out: Vec<Row> = Vec::new();
        let mut i: usize = 0;
        while i < rows.len()
            invariant
                0 <= i <= rows@.len(),
                out@.len() == i,
                forall|k: int|
                    0 <= k < i ==> (#[trigger] out@[k]).text@ == chars_in(rows@[k]@) && runs_match(
                        out@[k].runs@,
                        spans_of(rows@[k]@),
                    ),
            decreases rows.len() - i,
        {
            out.push(render_row(&rows[i]));
            i = i + 1;
        }
        out
    }

    /// The range of the text that is being composed, counted as in UTF-16.
    pub fn marked_text_range(&self) -> (r: Option<(usize, usize)>)
        ensures
            match self.composing() {
                Some(text) => r == Some((0usize, units(text) as usize)) && units(text)
                    <= usize::MAX,
                None => r is None,
            },
    {
        match &self.marked_text {
            Some(text) => Some((0, units_of(text.as_str()))),
            None => None,
        }
    }

    /// Where the next text goes: behind the text that is being composed.
    pub fn selected_text_range(&self) -> (r: (usize, usize))
        ensures
            ({
                let end = match self.composing() {
                    Some(text) => units(text),
                    None => 0,
                };
                r == (end as usize, end as usize) && end <= usize::MAX
            }),
    {
        match &self.marked_text {
            Some(text) => {
                let end: usize = units_of(text.as_str());
                (end, end)
            },
            None => (0, 0),
        }
    }

    /// Gives up the text that is being composed.
    pub fn unmark_text(&mut self)
        ensures
            final(self).composing() is None,
            final(self).story() == old(self).story(),
            final(self).version() == old(self).version(),
            final(self).size() == old(self).size(),
            old(self).inv() ==> final(self).inv(),
    {
        self.marked_text = None;
    }

    /// Text is being composed. Nothing of it is sent yet.
    pub fn replace_and_mark_text_in_range(&mut self, text: &str)
        ensures
            final(self).composing() == Some(text@),
            final(self).story() == old(self).story(),
            final(self).version() == old(self).version(),
            final(self).size() == old(self).size(),
            old(self).inv() ==> final(self).inv(),
    {
        self.marked_text = Some(text.to_owned());
    }

    /// Text was composed: the whole of it is what is sent.
    pub fn replace_text_in_range(&mut self, text: &str) -> (r: Option<Vec<u8>>)
        ensures
            final(self).composing() is None,
            final(self).story() == old(self).story(),
            final(self).version() == old(self).version(),
            final(self).size() == old(self).size(),
            old(self).inv() ==> final(self).inv(),
            text@.len() == 0 ==> r is None,
            text@.len() > 0 ==> r is Some && r->0@ == vstd::utf8::encode_utf8(text@),
    {
        self.marked_text = None;
        if text.is_empty() {
            None
        } else {
            Some(bytes_of(text))
        }
    }
}

/// Where the cursor is in what is in view.
pub open spec fn cursor_place(frame: Frame) -> (usize, i128) {
    let row = frame.cursor_line + frame.offset;
    (
        frame.cursor_column,
        if row > 0 {
            row as i128
        } else {
            0
        },
    )
}

fn cursor_in(frame: &Frame) -> (r: (usize, i128))
    ensures
        r == cursor_place(*frame),
{
    let row: i128 = frame.cursor_line as i128 + frame.offset as i128;
    (
        frame.cursor_column,
        if row > 0 {
            row
        } else {
            0
        },
    )
}

/// How many units of UTF-16 a text has.
pub open spec fn units(text: Seq<char>) -> nat
    decreases text.len(),
{
    if text.len() == 0 {
        0
    } else {
        (if text[0] as u32 >= 0x10000 {
            2nat
        } else {
            1
        }) + units(text.drop_first())
    }
}

/// A text has no more units of UTF-16 than it has bytes.
proof fn lemma_units(text: Seq<char>)
    ensures
        units(text) <= vstd::utf8::encode_utf8(text).len(),
    decreases text.len(),
{
    if text.len() > 0 {
        lemma_units(text.drop_first());
    }
}

fn units_of(text: &str) -> (r: usize)
    ensures
        r == units(text@),
{
    let chars: Vec<char> = chars_of(text);
    let limit: usize = text.as_bytes().len();
    let mut count: usize = 0;
    let mut i: usize = chars.len();
    proof {
        lemma_units(text@);
        assert(text@.skip(text@.len() as int) =~= Seq::empty());
    }
    while i > 0
        invariant
            0 <= i <= chars@.len(),
            chars@ == text@,
            limit == vstd::utf8::encode_utf8(text@).len(),
            count == units(text@.skip(i as int)),
        decreases i,
    {
        i = i - 1;
        proof {
            let rest = text@.skip(i as int);
            assert(rest.drop_first() =~= text@.skip(i + 1));
            assert(rest[0] == text@[i as int]);
            lemma_units_of_end(text@, i as int);
            lemma_units(text@);
        }
        count = count + (if chars[i] as u32 >= 0x10000 {
            2
        } else {
            1
        });
    }
    proof {
        assert(text@.skip(0) =~= text@);
    }
    count
}

proof fn lemma_units_of_end(text: Seq<char>, i: int)
    requires
        0 <= i <= text.len(),
    ensures
        units(text.skip(i)) <= units(text),
    decreases i,
{
    if i > 0 {
        lemma_units_of_end(text, i - 1);
        assert(text.skip(i - 1).drop_first() =~= text.skip(i));
    } else {
        assert(text.skip(0) =~= text);
    }
}

/// The terminal that is looked at has come to its end.
pub open spec fn ended(terminals: Seq<Terminal>, active: Option<String>) -> bool {
    active matches Some(id) && (first_terminal(terminals, id@) matches Some(terminal)
        && terminal.state == TerminalState::Exited)
}

/// The first terminal with an identity.
pub open spec fn first_terminal(terminals: Seq<Terminal>, id: Seq<char>) -> Option<Terminal>
    decreases terminals.len(),
{
    if terminals.len() == 0 {
        None
    } else if terminals[0].id@ == id {
        Some(terminals[0])
    } else {
        first_terminal(terminals.skip(1), id)
    }
}

/// What is written over a terminal that has come to its end.
pub fn exit_badge(detail: &SessionView) -> (r: Option<&'static str>)
    ensures
        match r {
            Some(text) => text@ == "进程已退出"@ && ended(
                detail.terminals@,
                detail.active_terminal,
            ),
            None => !ended(detail.terminals@, detail.active_terminal),
        },
{
    match &detail.active_terminal {
        Some(id) => {
            let ghost all = detail.terminals@;
            let mut i: usize = 0;
            proof {
                assert(all.skip(0) =~= all);
            }
            while i < detail.terminals.len()
                invariant
                    0 <= i <= all.len(),
                    all == detail.terminals@,
                    detail.active_terminal == Some(*id),
                    first_terminal(all, id@) == first_terminal(all.skip(i as int), id@),
                decreases all.len() - i,
            {
                proof {
                    assert(all.skip(i as int)[0] == all[i as int]);
                    assert(all.skip(i as int).skip(1) =~= all.skip(i + 1));
                }
                if same(detail.terminals[i].id.as_str(), id.as_str()) {
                    return if detail.terminals[i].state == TerminalState::Exited {
                        Some("进程已退出")
                    } else {
                        None
                    };
                }
                i = i + 1;
            }
            proof {
                assert(all.skip(i as int) =~= Seq::empty());
            }
            None
        },
        None => None,
    }
}

/// The keys that are held down with another.
#[derive(Debug, Clone, Copy, PartialEq, Eq, Structural)]
pub struct Modifiers {
    pub control: bool,
    pub alt: bool,
    pub shift: bool,
    pub platform: bool,
}

/// A key that was pressed: its name, and the text that it stands for.
#[derive(Debug, PartialEq)]
pub struct Keystroke {
    pub modifiers: Modifiers,
    pub key: String,
    pub key_char: Option<String>,
}

/// The number by which programs are told of the keys that are held down: one for none of them, one
/// more for shift, two for alt, and four for control.
pub open spec fn modifier_number(modifiers: Modifiers) -> u8 {
    (1 + (if modifiers.shift {
        1int
    } else {
        0
    }) + (if modifiers.alt {
        2int
    } else {
        0
    }) + (if modifiers.control {
        4int
    } else {
        0
    })) as u8
}

/// The number by which programs are told of the keys that are held down, where there are any.
pub fn csi_modifier(modifiers: &Modifiers) -> (r: Option<u8>)
    ensures
        r == if modifier_number(*modifiers) > 1 {
            Some(modifier_number(*modifiers))
        } else {
            None
        },
{
    let shift: u8 = if modifiers.shift {
        1
    } else {
        0
    };
    let alt: u8 = if modifiers.alt {
        2
    } else {
        0
    };
    let control: u8 = if modifiers.control {
        4
    } else {
        0
    };
    let value: u8 = 1 + shift + alt + control;
    if value > 1 {
        Some(value)
    } else {
        None
    }
}

/// The last byte of the sequence for a key that moves the cursor.
pub open spec fn motion(key: Seq<char>) -> Option<u8> {
    if key == "left"@ {
        Some(68u8)
    } else if key == "right"@ {
        Some(67u8)
    } else if key == "up"@ {
        Some(65u8)
    } else if key == "down"@ {
        Some(66u8)
    } else if key == "home"@ {
        Some(72u8)
    } else if key == "end"@ {
        Some(70u8)
    } else {
        None
    }
}

/// The sequence for a key: the code, the keys held down where there are any, and the last byte. The
/// code of a key that moves the cursor is left out where no keys are held down.
pub open spec fn sequence(code: u8, brief: bool, modifiers: Modifiers, last: u8) -> Seq<u8> {
    let number = modifier_number(modifiers);
    if number > 1 {
        seq![27u8, 91u8, code, 59u8, (48 + number) as u8, last]
    } else if brief {
        seq![27u8, 91u8, last]
    } else {
        seq![27u8, 91u8, code, last]
    }
}

fn sequence_of(code: u8, brief: bool, modifiers: &Modifiers, last: u8) -> (r: Vec<u8>)
    ensures
        r@ == sequence(code, brief, *modifiers, last),
{
    match csi_modifier(modifiers) {
        Some(number) => vec![27, 91, code, 59, 48 + number, last],
        None => if brief {
            vec![27, 91, last]
        } else {
            vec![27, 91, code, last]
        },
    }
}

/// A key that is only held down with others.
pub open spec fn held(key: Seq<char>) -> bool {
    ||| key == "alt"@
    ||| key == "control"@
    ||| key == "shift"@
    ||| key == "platform"@
    ||| key == "function"@
    ||| key == "capslock"@
}

/// The text that a key stands for, and what control makes of it.
pub open spec fn typed(stroke: Keystroke) -> Option<Seq<u8>> {
    if stroke.modifiers.control {
        if stroke.key@.len() == 1 && 33 <= stroke.key@[0] as u32 <= 126 {
            Some(seq![(stroke.key@[0] as u32 % 32) as u8])
        } else {
            None
        }
    } else {
        match stroke.key_char {
            Some(text) => if text@.len() == 0 {
                None
            } else {
                let bytes = vstd::utf8::encode_utf8(seq![text@[0]]);
                Some(
                    if stroke.modifiers.alt {
                        seq![27u8] + bytes
                    } else {
                        bytes
                    },
                )
            },
            None => None,
        }
    }
}

/// What a key sends to a program.
pub open spec fn key_bytes(stroke: Keystroke) -> Option<Seq<u8>> {
    let key = stroke.key@;
    if key == "enter"@ {
        Some(seq![13u8])
    } else if key == "backspace"@ {
        Some(seq![127u8])
    } else if key == "escape"@ {
        Some(seq![27u8])
    } else if motion(key) is Some {
        Some(sequence(49, true, stroke.modifiers, motion(key)->0))
    } else if key == "delete"@ {
        Some(sequence(51, false, stroke.modifiers, 126))
    } else if key == "pageup"@ {
        Some(seq![27u8, 91u8, 53u8, 126u8])
    } else if key == "pagedown"@ {
        Some(seq![27u8, 91u8, 54u8, 126u8])
    } else if key == "space"@ && stroke.modifiers.control {
        Some(seq![0u8])
    } else if held(key) {
        None
    } else {
        typed(stroke)
    }
}

fn motion_of(key: &str) -> (r: Option<u8>)
    ensures
        r == motion(key@),
{
    if same(key, "left") {
        Some(68)
    } else if same(key, "right") {
        Some(67)
    } else if same(key, "up") {
        Some(65)
    } else if same(key, "down") {
        Some(66)
    } else if same(key, "home") {
        Some(72)
    } else if same(key, "end") {
        Some(70)
    } else {
        None
    }
}

fn is_held(key: &str) -> (r: bool)
    ensures
        r == held(key@),
{
    same(key, "alt") || same(key, "control") || same(key, "shift") || same(key, "platform") || same(
        key,
        "function",
    ) || same(key, "capslock")
}

fn typed_bytes(stroke: &Keystroke) -> (r: Option<Vec<u8>>)
    ensures
        match typed(*stroke) {
            Some(bytes) => r is Some && r->0@ == bytes,
            None => r is None,
        },
{
    if stroke.modifiers.control {
        let key: Vec<char> = chars_of(stroke.key.as_str());
        if key.len() != 1 {
            return None;
        }
        let code: u32 = key[0] as u32;
        if code < 33 || code > 126 {
            return None;
        }
        return Some(vec![(code % 32) as u8]);
    }
    match &stroke.key_char {
        Some(text) => {
            let chars: Vec<char> = chars_of(text.as_str());
            if chars.len() == 0 {
                return None;
            }
            let first: String = string_of(&chars, 0, 1);
            let mut bytes: Vec<u8> = Vec::new();
            if stroke.modifiers.alt {
                bytes.push(27);
            }
            let mut rest: Vec<u8> = bytes_of(first.as_str());
            proof {
                assert(first@ =~= seq![text@[0]]);
            }
            bytes.append(&mut rest);
            proof {
                let typed = vstd::utf8::encode_utf8(seq![text@[0]]);
                if stroke.modifiers.alt {
                    assert(bytes@ =~= seq![27u8] + typed);
                } else {
                    assert(bytes@ =~= typed);
                }
            }
            Some(bytes)
        },
        None => None,
    }
}

/// What a key sends to a program. Tab does not come here.
pub fn keystroke_to_bytes(keystroke: &Keystroke) -> (r: Option<Vec<u8>>)
    ensures
        match key_bytes(*keystroke) {
            Some(bytes) => r is Some && r->0@ == bytes,
            None => r is None,
        },
{
    let key: &str = keystroke.key.as_str();
    if same(key, "enter") {
        return Some(vec![13]);
    }
    if same(key, "backspace") {
        return Some(vec![127]);
    }
    if same(key, "escape") {
        return Some(vec![27]);
    }
    match motion_of(key) {
        Some(last) => {
            return Some(sequence_of(49, true, &keystroke.modifiers, last));
        },
        None => {},
    }
    if same(key, "delete") {
        return Some(sequence_of(51, false, &keystroke.modifiers, 126));
    }
    if same(key, "pageup") {
        return Some(vec![27, 91, 53, 126]);
    }
    if same(key, "pagedown") {
        return Some(vec![27, 91, 54, 126]);
    }
    if same(key, "space") && keystroke.modifiers.control {
        return Some(vec![0]);
    }
    if is_held(key) {
        return None;
    }
    typed_bytes(keystroke)
}

/// A text whose lines end as if enter had been pressed.
pub open spec fn entered(text: Seq<char>) -> Seq<char>
    decreases text.len(),
{
    if text.len() == 0 {
        Seq::empty()
    } else if text[0] == '\r' && text.len() > 1 && text[1] == '\n' {
        seq!['\r'] + entered(text.skip(2))
    } else if text[0] == '\n' {
        seq!['\r'] + entered(text.skip(1))
    } else {
        seq![text[0]] + entered(text.skip(1))
    }
}

/// What is sent for a pasted text: the text between two marks where the program asked for them, so
/// that its lines are not taken for commands one by one; else the text with its lines entered.
pub open spec fn pasted(text: Seq<char>, bracketed: bool) -> Seq<char> {
    if bracketed {
        "\x1b[200~"@ + text + "\x1b[201~"@
    } else {
        entered(text)
    }
}

/// What is sent for a pasted text.
pub fn paste_bytes(text: &str, bracketed: bool) -> (r: Option<Vec<u8>>)
    ensures
        text@.len() == 0 ==> r is None,
        text@.len() > 0 ==> r is Some && r->0@ == vstd::utf8::encode_utf8(pasted(text@, bracketed)),
{
    if text.is_empty() {
        return None;
    }
    let mut out: String = String::new();
    if bracketed {
        out.append("\x1b[200~");
        out.append(text);
        out.append("\x1b[201~");
        proof {
            assert(out@ =~= pasted(text@, true));
        }
        return Some(bytes_of(out.as_str()));
    }
    let chars: Vec<char> = chars_of(text);
    let mut i: usize = 0;
    proof {
        assert(text@.skip(0) =~= text@);
    }
    while i < chars.len()
        invariant
            0 <= i <= chars@.len(),
            chars@ == text@,
            out@ + entered(text@.skip(i as int)) == entered(text@),
        decreases chars.len() - i,
    {
        let ghost before = out@;
        let ghost rest = text@.skip(i as int);
        proof {
            assert(rest.skip(1) =~= text@.skip(i + 1));
            assert(rest.len() > 1 ==> rest.skip(2) =~= text@.skip(i + 2));
        }
        if chars[i] == '\r' && i + 1 < chars.len() && chars[i + 1] == '\n' {
            out.push('\r');
            i = i + 2;
        } else if chars[i] == '\n' {
            out.push('\r');
            i = i + 1;
        } else {
            out.push(chars[i]);
            i = i + 1;
        }
        proof {
            assert(out@ + entered(text@.skip(i as int)) =~= before + entered(rest));
        }
    }
    proof {
        assert(text@.skip(i as int) =~= Seq::empty());
        assert(out@ =~= entered(text@));
    }
    Some(bytes_of(out.as_str()))
}

} // verus!
