//! The grid that the output of a terminal draws. `alacritty_terminal` reads the output and keeps
//! the grid. What a grid shows is a matter of what was done to it, in order.
use alacritty_terminal::event::VoidListener;
use alacritty_terminal::grid::{Dimensions, Scroll};
use alacritty_terminal::term::test::TermSize;
use alacritty_terminal::term::{Config, Term, TermMode};
use alacritty_terminal::vte::ansi::{Color, CursorShape, Processor};
use vstd::prelude::*;

verus! {

/// How many lines above the grid are kept.
pub const SCROLLBACK_LINES: usize = 5000;

/// How many colors a program can set anew.
pub const COLORS: usize = 269;

/// A grid of cells with the lines above it, and the reader that draws in it:
/// `alacritty_terminal::term::Term` and `alacritty_terminal::vte::ansi::Processor`. They are kept
/// together because a sequence that was cut in two is finished by the reader that began it.
#[verifier::external_body]
pub struct Grid {
    term: Term<VoidListener>,
    parser: Processor,
}

/// Something that was done to a grid.
pub ghost enum Step {
    /// Output was read.
    Write(Seq<u8>),
    /// The grid got another size.
    Resize(usize, usize),
    /// The lines above the grid were scrolled into view, or out of it.
    Scroll(i32),
}

/// The size that a grid was made with, and what was done to it since, in order.
pub ghost struct Story {
    pub cols: usize,
    pub rows: usize,
    pub steps: Seq<Step>,
}

impl Story {
    /// One thing more was done.
    pub open spec fn then_did(self, step: Step) -> Story {
        Story { steps: self.steps.push(step), ..self }
    }

    /// The output that was read since the grid was made.
    pub open spec fn written(self) -> Seq<u8> {
        written(self.steps)
    }
}

/// The output that was read in some steps.
pub open spec fn written(steps: Seq<Step>) -> Seq<u8>
    decreases steps.len(),
{
    if steps.len() == 0 {
        Seq::empty()
    } else {
        match steps.last() {
            Step::Write(bytes) => written(steps.drop_last()) + bytes,
            _ => written(steps.drop_last()),
        }
    }
}

/// A step adds what was read in it to what had been read.
pub proof fn lemma_one_step_more(story: Story, step: Step)
    ensures
        story.then_did(step).written() == match step {
            Step::Write(bytes) => story.written() + bytes,
            _ => story.written(),
        },
{
    assert(story.steps.push(step).drop_last() =~= story.steps);
}

/// A color by its red, green and blue parts.
#[derive(Debug, Clone, Copy, PartialEq, Eq, Structural)]
pub struct Rgb {
    pub r: u8,
    pub g: u8,
    pub b: u8,
}

/// The color that a program chose for a cell.
#[derive(Debug, Clone, Copy, PartialEq, Eq, Structural)]
pub enum Tint {
    /// A color of the palette that has a name, by its place: 0 to 15 are the usual ones, 256 that of
    /// text, 257 that behind it, 258 that of the cursor, and those above are dim and bright ones.
    Named(usize),
    /// A color given by its parts.
    Spec(Rgb),
    /// A color of the palette by its number.
    Indexed(u8),
}

/// A color that has a place among those that can be set.
pub open spec fn placed(color: Tint) -> bool {
    color matches Tint::Named(slot) ==> slot < COLORS
}

/// The colors of some cells have their places.
pub open spec fn all_placed(cells: Seq<Cell>) -> bool {
    forall|i: int|
        0 <= i < cells.len() ==> placed((#[trigger] cells[i]).fg) && placed(cells[i].bg)
}

/// A cell of a grid.
#[derive(Debug, Clone, Copy, PartialEq, Eq, Structural)]
pub struct Cell {
    /// The line, from the top of the grid; those above the grid are below zero.
    pub line: i32,
    pub column: usize,
    pub c: char,
    pub fg: Tint,
    pub bg: Tint,
    /// How the cell is drawn, a bit for each way.
    pub flags: u16,
}

/// What of a grid is in view.
#[derive(Debug, Clone, Copy, PartialEq, Eq, Structural)]
pub struct Frame {
    /// How many lines above the grid are in view.
    pub offset: usize,
    /// How many lines are in view.
    pub lines: usize,
    pub cursor_line: i32,
    pub cursor_column: usize,
    pub cursor_shown: bool,
}

/// What was done to a grid.
pub uninterp spec fn story_of(grid: Grid) -> Story;

/// The cells in view after what was done.
pub uninterp spec fn cells_after(story: Story) -> Seq<Cell>;

/// What is in view after what was done.
pub uninterp spec fn frame_after(story: Story) -> Frame;

/// The colors that programs have set anew.
pub uninterp spec fn colors_after(story: Story) -> Seq<Option<Rgb>>;

/// Whether pasted text is to be marked as such.
pub uninterp spec fn marks_pasted_text(story: Story) -> bool;

impl Grid {
    /// `Term::new` and `Processor::new`: a grid to which nothing has been done. A grid of one column
    /// cannot hold a wide character: `alacritty_terminal` asks for two columns and one line at least.
    #[verifier::external_body]
    pub(crate) fn new(cols: usize, rows: usize) -> (r: Grid)
        requires
            2 <= cols <= 0xffff,
            1 <= rows <= 0xffff,
        ensures
            story_of(r).cols == cols,
            story_of(r).rows == rows,
            story_of(r).steps.len() == 0,
    {
        let config = Config { scrolling_history: SCROLLBACK_LINES, ..Config::default() };
        let term = Term::new(config, &TermSize::new(cols, rows), VoidListener);
        Grid { term, parser: Processor::new() }
    }

    /// `Processor::advance`: reads output and draws it.
    #[verifier::external_body]
    pub(crate) fn write(&mut self, bytes: &[u8])
        ensures
            story_of(*final(self)) == story_of(*old(self)).then_did(Step::Write(bytes@)),
    {
        self.parser.advance(&mut self.term, bytes);
    }

    /// `Term::resize`: gives the grid another size.
    #[verifier::external_body]
    pub(crate) fn resize(&mut self, cols: usize, rows: usize)
        requires
            2 <= cols <= 0xffff,
            1 <= rows <= 0xffff,
        ensures
            story_of(*final(self)) == story_of(*old(self)).then_did(Step::Resize(cols, rows)),
    {
        self.term.resize(TermSize::new(cols, rows));
    }

    /// `Term::scroll_display` by a number of lines: what is in view moves up, or down where the
    /// number is below zero, as far as there are lines. The number is added to that of the lines
    /// above the grid that are in view, of which there are no more than are kept.
    #[verifier::external_body]
    pub(crate) fn scroll(&mut self, lines: i32)
        requires
            lines <= i32::MAX - SCROLLBACK_LINES,
        ensures
            story_of(*final(self)) == story_of(*old(self)).then_did(Step::Scroll(lines)),
    {
        self.term.scroll_display(Scroll::Delta(lines));
    }

    /// `Term::mode`: whether the program asked that pasted text be marked (mode 2004).
    #[verifier::external_body]
    pub(crate) fn bracketed(&self) -> (r: bool)
        ensures
            r == marks_pasted_text(story_of(*self)),
    {
        self.term.mode().contains(TermMode::BRACKETED_PASTE)
    }

    /// `Term::renderable_content`: the cells in view, line by line. Colors with names are among those
    /// that can be set.
    #[verifier::external_body]
    pub(crate) fn cells(&self) -> (r: Vec<Cell>)
        ensures
            r@ == cells_after(story_of(*self)),
            all_placed(r@),
    {
        let tint = |color: Color| match color {
            Color::Named(name) => Tint::Named(name as usize),
            Color::Spec(rgb) => Tint::Spec(Rgb { r: rgb.r, g: rgb.g, b: rgb.b }),
            Color::Indexed(i) => Tint::Indexed(i),
        };
        let shown = self.term.renderable_content().display_iter;
        shown.map(|at| {
            let (line, column, c) = (at.point.line.0, at.point.column.0, at.cell.c);
            let (fg, bg) = (tint(at.cell.fg), tint(at.cell.bg));
            Cell { line, column, c, fg, bg, flags: at.cell.flags.bits() }
        }).collect()
    }

    /// `Term::renderable_content` and `Term::screen_lines`: where the cursor is, whether it is
    /// shown, and what is in view.
    #[verifier::external_body]
    pub(crate) fn frame(&self) -> (r: Frame)
        ensures
            r == frame_after(story_of(*self)),
    {
        let content = self.term.renderable_content();
        Frame {
            offset: content.display_offset,
            lines: self.term.screen_lines(),
            cursor_line: content.cursor.point.line.0,
            cursor_column: content.cursor.point.column.0,
            cursor_shown: content.cursor.shape != CursorShape::Hidden,
        }
    }

    /// `Term::renderable_content`: the colors that programs have set anew. There is a place for each
    /// that they can set.
    #[verifier::external_body]
    pub(crate) fn colors(&self) -> (r: Vec<Option<Rgb>>)
        ensures
            r@ == colors_after(story_of(*self)),
            r@.len() == COLORS,
    {
        let set = self.term.renderable_content().colors;
        (0..COLORS).map(|i| set[i].map(|rgb| Rgb { r: rgb.r, g: rgb.g, b: rgb.b })).collect()
    }
}

} // verus!
