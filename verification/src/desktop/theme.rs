//! The theme: colors as they are written, and what each part of the window is drawn in.
pub mod laws;

use super::terminal_view;
use super::terminal_view::grid::Rgb;
use super::terminal_view::rgb_from_hex;
use crate::common::domain::GitDiffLineKind;
use crate::strings::chars_of;
use vstd::prelude::*;

verus! {

/// How wide the list of sessions is at first, in logical pixels.
pub const SIDEBAR_WIDTH: u32 = 240;

/// The value of a hexadecimal digit.
pub open spec fn digit(c: char) -> Option<u32> {
    if '0' <= c <= '9' {
        Some((c as u32 - '0' as u32) as u32)
    } else if 'a' <= c <= 'f' {
        Some((c as u32 - 'a' as u32 + 10) as u32)
    } else if 'A' <= c <= 'F' {
        Some((c as u32 - 'A' as u32 + 10) as u32)
    } else {
        None
    }
}

/// All are hexadecimal digits.
pub open spec fn hexadecimal(s: Seq<char>) -> bool {
    forall|i: int| 0 <= i < s.len() ==> digit(#[trigger] s[i]) is Some
}

/// The number that hexadecimal digits stand for.
pub open spec fn hex_value(s: Seq<char>) -> nat
    decreases s.len(),
{
    if s.len() == 0 {
        0
    } else {
        16 * hex_value(s.drop_last()) + (match digit(s.last()) {
            Some(d) => d as nat,
            None => 0,
        })
    }
}

/// The digits of a color: what stands behind the number sign, and behind a plus sign where there is
/// one.
pub open spec fn color_digits(s: Seq<char>) -> Option<Seq<char>> {
    if s.len() == 0 || s[0] != '#' {
        None
    } else {
        let digits = if s.len() > 1 && s[1] == '+' {
            s.skip(2)
        } else {
            s.skip(1)
        };
        if digits.len() > 0 && hexadecimal(digits) && hex_value(digits) <= u32::MAX {
            Some(digits)
        } else {
            None
        }
    }
}

/// The color that is written so.
pub open spec fn color_of(s: Seq<char>) -> Option<Rgb> {
    match color_digits(s) {
        Some(digits) => Some(terminal_view::color_with(hex_value(digits) as u32)),
        None => None,
    }
}

fn digit_of(c: char) -> (r: Option<u32>)
    ensures
        r == digit(c),
        r matches Some(d) ==> d < 16,
{
    if '0' <= c && c <= '9' {
        Some(c as u32 - '0' as u32)
    } else if 'a' <= c && c <= 'f' {
        Some(c as u32 - 'a' as u32 + 10)
    } else if 'A' <= c && c <= 'F' {
        Some(c as u32 - 'A' as u32 + 10)
    } else {
        None
    }
}

proof fn lemma_hex_grows(s: Seq<char>, n: int)
    requires
        0 <= n <= s.len(),
    ensures
        hex_value(s.take(n)) <= hex_value(s),
    decreases s.len() - n,
{
    if n < s.len() {
        assert(s.take(n + 1).drop_last() =~= s.take(n));
        lemma_hex_grows(s, n + 1);
    } else {
        assert(s.take(n) =~= s);
    }
}

/// Reads a color. What is not written as one is none.
pub fn color(hex: &str) -> (r: Option<Rgb>)
    ensures
        r == color_of(hex@),
{
    let chars: Vec<char> = chars_of(hex);
    if chars.len() == 0 || chars[0] != '#' {
        return None;
    }
    let from: usize = if chars.len() > 1 && chars[1] == '+' {
        2
    } else {
        1
    };
    let ghost digits = hex@.skip(from as int);
    if from == chars.len() {
        return None;
    }
    let mut value: u32 = 0;
    let mut i: usize = from;
    proof {
        assert(digits.take(0) =~= Seq::empty());
    }
    while i < chars.len()
        invariant
            1 <= from <= i <= chars@.len(),
            chars@ == hex@,
            digits == hex@.skip(from as int),
            hexadecimal(digits.take(i - from)),
            value == hex_value(digits.take(i - from)),
            hex@.len() > 0 && hex@[0] == '#',
            from < hex@.len(),
            from == if hex@.len() > 1 && hex@[1] == '+' {
                2int
            } else {
                1
            },
        decreases chars.len() - i,
    {
        proof {
            assert(digits.take(i + 1 - from).drop_last() =~= digits.take(i - from));
            assert(digits.take(i + 1 - from).last() == hex@[i as int]);
            lemma_hex_grows(digits, i + 1 - from);
        }
        match digit_of(chars[i]) {
            Some(d) => {
                if value > (u32::MAX - d) / 16 {
                    assert(hex_value(digits.take(i + 1 - from)) > u32::MAX);
                    return None;
                }
                value = value * 16 + d;
            },
            None => {
                assert(digits[i - from] == hex@[i as int]);
                return None;
            },
        }
        i = i + 1;
    }
    proof {
        assert(digits.take(i - from) =~= digits);
    }
    Some(rgb_from_hex(value))
}

/// The colors of a theme.
#[derive(Debug, PartialEq)]
pub struct Colors<T> {
    pub background: T,
    pub foreground: T,
    pub popover: T,
    pub popover_foreground: T,
    pub primary: T,
    pub primary_foreground: T,
    pub secondary: T,
    pub secondary_foreground: T,
    pub muted: T,
    pub muted_foreground: T,
    pub accent: T,
    pub accent_foreground: T,
    pub destructive: T,
    pub destructive_foreground: T,
    pub border: T,
    pub input: T,
    pub ring: T,
    pub scrollbar_thumb: T,
    pub scrollbar_thumb_hover: T,
    pub link: T,
    pub success: T,
    pub success_foreground: T,
    pub warning: T,
    pub warning_foreground: T,
    pub diff_add: T,
    pub diff_remove: T,
}

/// A color and how much of it covers what is behind it, in hundredths.
#[derive(Debug, Clone, Copy, PartialEq, Eq, Structural)]
pub struct Paint {
    pub color: Rgb,
    pub cover: u8,
}

/// What the parts of the window are drawn in.
#[derive(Debug, Clone, Copy, PartialEq, Eq, Structural)]
pub struct Tokens {
    pub background: Paint,
    pub foreground: Paint,
    pub border: Paint,
    pub ring: Paint,
    pub sidebar: Paint,
    pub sidebar_foreground: Paint,
    pub sidebar_border: Paint,
    pub sidebar_accent: Paint,
    pub sidebar_accent_foreground: Paint,
    pub sidebar_primary: Paint,
    pub sidebar_primary_foreground: Paint,
    pub list_hover: Paint,
    pub list_active: Paint,
    pub list_active_border: Paint,
    pub list_even: Paint,
    pub list_head: Paint,
    pub muted: Paint,
    pub muted_foreground: Paint,
    pub accent: Paint,
    pub accent_foreground: Paint,
    pub primary: Paint,
    pub primary_hover: Paint,
    pub primary_active: Paint,
    pub primary_foreground: Paint,
    pub secondary: Paint,
    pub secondary_hover: Paint,
    pub secondary_active: Paint,
    pub secondary_foreground: Paint,
    pub popover: Paint,
    pub popover_foreground: Paint,
    pub group_box: Paint,
    pub group_box_foreground: Paint,
    pub input: Paint,
    pub selection: Paint,
    pub caret: Paint,
    pub title_bar: Paint,
    pub title_bar_border: Paint,
    pub scrollbar_thumb: Paint,
    pub scrollbar_thumb_hover: Paint,
    pub link: Paint,
    pub danger: Paint,
    pub danger_hover: Paint,
    pub danger_active: Paint,
    pub danger_foreground: Paint,
    pub success: Paint,
    pub success_foreground: Paint,
    pub warning: Paint,
    pub warning_foreground: Paint,
    pub overlay: Paint,
}

/// A color that covers what is behind it.
pub open spec fn solid(color: Rgb) -> Paint {
    Paint { color, cover: 100 }
}

/// A color that lets what is behind it show through.
pub open spec fn faint(color: Rgb, cover: u8) -> Paint {
    Paint { color, cover }
}

fn full(color: Rgb) -> (r: Paint)
    ensures
        r == solid(color),
{
    Paint { color, cover: 100 }
}

fn translucent(color: Rgb, cover: u8) -> (r: Paint)
    ensures
        r == faint(color, cover),
{
    Paint { color, cover }
}

/// The colors of a theme, as they are written, are all colors.
pub open spec fn readable(colors: Colors<String>) -> bool {
    &&& color_of(colors.background@) is Some
    &&& color_of(colors.foreground@) is Some
    &&& color_of(colors.popover@) is Some
    &&& color_of(colors.popover_foreground@) is Some
    &&& color_of(colors.primary@) is Some
    &&& color_of(colors.primary_foreground@) is Some
    &&& color_of(colors.secondary@) is Some
    &&& color_of(colors.secondary_foreground@) is Some
    &&& color_of(colors.muted@) is Some
    &&& color_of(colors.muted_foreground@) is Some
    &&& color_of(colors.accent@) is Some
    &&& color_of(colors.accent_foreground@) is Some
    &&& color_of(colors.destructive@) is Some
    &&& color_of(colors.destructive_foreground@) is Some
    &&& color_of(colors.border@) is Some
    &&& color_of(colors.input@) is Some
    &&& color_of(colors.ring@) is Some
    &&& color_of(colors.scrollbar_thumb@) is Some
    &&& color_of(colors.scrollbar_thumb_hover@) is Some
    &&& color_of(colors.link@) is Some
    &&& color_of(colors.success@) is Some
    &&& color_of(colors.success_foreground@) is Some
    &&& color_of(colors.warning@) is Some
    &&& color_of(colors.warning_foreground@) is Some
    &&& color_of(colors.diff_add@) is Some
    &&& color_of(colors.diff_remove@) is Some
}

/// The colors of a theme.
pub open spec fn colors_of(colors: Colors<String>) -> Colors<Rgb> {
    Colors {
        background: color_of(colors.background@)->0,
        foreground: color_of(colors.foreground@)->0,
        popover: color_of(colors.popover@)->0,
        popover_foreground: color_of(colors.popover_foreground@)->0,
        primary: color_of(colors.primary@)->0,
        primary_foreground: color_of(colors.primary_foreground@)->0,
        secondary: color_of(colors.secondary@)->0,
        secondary_foreground: color_of(colors.secondary_foreground@)->0,
        muted: color_of(colors.muted@)->0,
        muted_foreground: color_of(colors.muted_foreground@)->0,
        accent: color_of(colors.accent@)->0,
        accent_foreground: color_of(colors.accent_foreground@)->0,
        destructive: color_of(colors.destructive@)->0,
        destructive_foreground: color_of(colors.destructive_foreground@)->0,
        border: color_of(colors.border@)->0,
        input: color_of(colors.input@)->0,
        ring: color_of(colors.ring@)->0,
        scrollbar_thumb: color_of(colors.scrollbar_thumb@)->0,
        scrollbar_thumb_hover: color_of(colors.scrollbar_thumb_hover@)->0,
        link: color_of(colors.link@)->0,
        success: color_of(colors.success@)->0,
        success_foreground: color_of(colors.success_foreground@)->0,
        warning: color_of(colors.warning@)->0,
        warning_foreground: color_of(colors.warning_foreground@)->0,
        diff_add: color_of(colors.diff_add@)->0,
        diff_remove: color_of(colors.diff_remove@)->0,
    }
}

fn read(hex: &str, ok: &mut bool) -> (r: Rgb)
    ensures
        *final(ok) == (*old(ok) && color_of(hex@) is Some),
        color_of(hex@) is Some ==> r == color_of(hex@)->0,
{
    match color(hex) {
        Some(rgb) => rgb,
        None => {
            *ok = false;
            Rgb { r: 0, g: 0, b: 0 }
        },
    }
}

/// Reads the colors of a theme. One that cannot be read makes it none.
pub fn shared(colors: &Colors<String>) -> (r: Option<Colors<Rgb>>)
    ensures
        r is Some == readable(*colors),
        r matches Some(read) ==> read == colors_of(*colors),
{
    let mut ok: bool = true;
    let background: Rgb = read(colors.background.as_str(), &mut ok);
    let foreground: Rgb = read(colors.foreground.as_str(), &mut ok);
    let popover: Rgb = read(colors.popover.as_str(), &mut ok);
    let popover_foreground: Rgb = read(colors.popover_foreground.as_str(), &mut ok);
    let primary: Rgb = read(colors.primary.as_str(), &mut ok);
    let primary_foreground: Rgb = read(colors.primary_foreground.as_str(), &mut ok);
    let secondary: Rgb = read(colors.secondary.as_str(), &mut ok);
    let secondary_foreground: Rgb = read(colors.secondary_foreground.as_str(), &mut ok);
    let muted: Rgb = read(colors.muted.as_str(), &mut ok);
    let muted_foreground: Rgb = read(colors.muted_foreground.as_str(), &mut ok);
    let accent: Rgb = read(colors.accent.as_str(), &mut ok);
    let accent_foreground: Rgb = read(colors.accent_foreground.as_str(), &mut ok);
    let destructive: Rgb = read(colors.destructive.as_str(), &mut ok);
    let destructive_foreground: Rgb = read(colors.destructive_foreground.as_str(), &mut ok);
    let border: Rgb = read(colors.border.as_str(), &mut ok);
    let input: Rgb = read(colors.input.as_str(), &mut ok);
    let ring: Rgb = read(colors.ring.as_str(), &mut ok);
    let scrollbar_thumb: Rgb = read(colors.scrollbar_thumb.as_str(), &mut ok);
    let scrollbar_thumb_hover: Rgb = read(colors.scrollbar_thumb_hover.as_str(), &mut ok);
    let link: Rgb = read(colors.link.as_str(), &mut ok);
    let success: Rgb = read(colors.success.as_str(), &mut ok);
    let success_foreground: Rgb = read(colors.success_foreground.as_str(), &mut ok);
    let warning: Rgb = read(colors.warning.as_str(), &mut ok);
    let warning_foreground: Rgb = read(colors.warning_foreground.as_str(), &mut ok);
    let diff_add: Rgb = read(colors.diff_add.as_str(), &mut ok);
    let diff_remove: Rgb = read(colors.diff_remove.as_str(), &mut ok);
    if !ok {
        return None;
    }
    Some(
        Colors {
            background,
            foreground,
            popover,
            popover_foreground,
            primary,
            primary_foreground,
            secondary,
            secondary_foreground,
            muted,
            muted_foreground,
            accent,
            accent_foreground,
            destructive,
            destructive_foreground,
            border,
            input,
            ring,
            scrollbar_thumb,
            scrollbar_thumb_hover,
            link,
            success,
            success_foreground,
            warning,
            warning_foreground,
            diff_add,
            diff_remove,
        },
    )
}

/// What the parts of the window are drawn in.
pub open spec fn tokens(colors: Colors<Rgb>) -> Tokens {
    Tokens {
        background: solid(colors.background),
        foreground: solid(colors.foreground),
        border: solid(colors.border),
        ring: solid(colors.ring),
        sidebar: solid(colors.muted),
        sidebar_foreground: solid(colors.muted_foreground),
        sidebar_border: solid(colors.border),
        sidebar_accent: solid(colors.accent),
        sidebar_accent_foreground: solid(colors.accent_foreground),
        sidebar_primary: solid(colors.primary),
        sidebar_primary_foreground: solid(colors.primary_foreground),
        list_hover: solid(colors.accent),
        list_active: solid(colors.secondary),
        list_active_border: solid(colors.border),
        list_even: solid(colors.background),
        list_head: solid(colors.background),
        muted: solid(colors.muted),
        muted_foreground: solid(colors.muted_foreground),
        accent: solid(colors.accent),
        accent_foreground: solid(colors.accent_foreground),
        primary: solid(colors.primary),
        primary_hover: faint(colors.primary, 90),
        primary_active: faint(colors.primary, 80),
        primary_foreground: solid(colors.primary_foreground),
        secondary: solid(colors.secondary),
        secondary_hover: faint(colors.secondary, 90),
        secondary_active: faint(colors.secondary, 80),
        secondary_foreground: solid(colors.secondary_foreground),
        popover: solid(colors.popover),
        popover_foreground: solid(colors.popover_foreground),
        group_box: solid(colors.popover),
        group_box_foreground: solid(colors.popover_foreground),
        input: solid(colors.input),
        selection: faint(colors.primary, 16),
        caret: solid(colors.foreground),
        title_bar: solid(colors.secondary),
        title_bar_border: solid(colors.secondary),
        scrollbar_thumb: solid(colors.scrollbar_thumb),
        scrollbar_thumb_hover: solid(colors.scrollbar_thumb_hover),
        link: solid(colors.link),
        danger: solid(colors.destructive),
        danger_hover: faint(colors.destructive, 90),
        danger_active: faint(colors.destructive, 80),
        danger_foreground: solid(colors.destructive_foreground),
        success: solid(colors.success),
        success_foreground: solid(colors.success_foreground),
        warning: solid(colors.warning),
        warning_foreground: solid(colors.warning_foreground),
        overlay: faint(Rgb { r: 0, g: 0, b: 0 }, 25),
    }
}

/// What the parts of the window are drawn in.
pub fn apply(colors: &Colors<Rgb>) -> (r: Tokens)
    ensures
        r == tokens(*colors),
{
    Tokens {
        background: full(colors.background),
        foreground: full(colors.foreground),
        border: full(colors.border),
        ring: full(colors.ring),
        sidebar: full(colors.muted),
        sidebar_foreground: full(colors.muted_foreground),
        sidebar_border: full(colors.border),
        sidebar_accent: full(colors.accent),
        sidebar_accent_foreground: full(colors.accent_foreground),
        sidebar_primary: full(colors.primary),
        sidebar_primary_foreground: full(colors.primary_foreground),
        list_hover: full(colors.accent),
        list_active: full(colors.secondary),
        list_active_border: full(colors.border),
        list_even: full(colors.background),
        list_head: full(colors.background),
        muted: full(colors.muted),
        muted_foreground: full(colors.muted_foreground),
        accent: full(colors.accent),
        accent_foreground: full(colors.accent_foreground),
        primary: full(colors.primary),
        primary_hover: translucent(colors.primary, 90),
        primary_active: translucent(colors.primary, 80),
        primary_foreground: full(colors.primary_foreground),
        secondary: full(colors.secondary),
        secondary_hover: translucent(colors.secondary, 90),
        secondary_active: translucent(colors.secondary, 80),
        secondary_foreground: full(colors.secondary_foreground),
        popover: full(colors.popover),
        popover_foreground: full(colors.popover_foreground),
        group_box: full(colors.popover),
        group_box_foreground: full(colors.popover_foreground),
        input: full(colors.input),
        selection: translucent(colors.primary, 16),
        caret: full(colors.foreground),
        title_bar: full(colors.secondary),
        title_bar_border: full(colors.secondary),
        scrollbar_thumb: full(colors.scrollbar_thumb),
        scrollbar_thumb_hover: full(colors.scrollbar_thumb_hover),
        link: full(colors.link),
        danger: full(colors.destructive),
        danger_hover: translucent(colors.destructive, 90),
        danger_active: translucent(colors.destructive, 80),
        danger_foreground: full(colors.destructive_foreground),
        success: full(colors.success),
        success_foreground: full(colors.success_foreground),
        warning: full(colors.warning),
        warning_foreground: full(colors.warning_foreground),
        overlay: translucent(Rgb { r: 0, g: 0, b: 0 }, 25),
    }
}

/// What the lines of a change are drawn in.
pub fn diff_line_background(colors: &Colors<Rgb>, kind: GitDiffLineKind) -> (r: Paint)
    ensures
        r == match kind {
            GitDiffLineKind::Add => solid(colors.diff_add),
            GitDiffLineKind::Remove => solid(colors.diff_remove),
            GitDiffLineKind::Context => faint(Rgb { r: 0, g: 0, b: 0 }, 0),
        },
{
    match kind {
        GitDiffLineKind::Add => full(colors.diff_add),
        GitDiffLineKind::Remove => full(colors.diff_remove),
        GitDiffLineKind::Context => translucent(Rgb { r: 0, g: 0, b: 0 }, 0),
    }
}

} // verus!
