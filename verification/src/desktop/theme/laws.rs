//! What holds of the colors of a theme.
use super::Colors;
use crate::desktop::terminal_view::grid::Rgb;
use crate::desktop::theme;
use vstd::prelude::*;

verus! {

/// A color is a hash sign and digits of base sixteen, small or large, the most significant first.
pub proof fn law_colors_are_read_in_base_sixteen(s: Seq<char>, c: char, d: nat)
    requires
        theme::digit(c) == Some(d as u32),
        d < 16,
    ensures
        theme::hex_value(s.push(c)) == 16 * theme::hex_value(s) + d,
        theme::hex_value(Seq::empty()) == 0,
        '0' <= c <= '9' ==> d == c as nat - '0' as nat,
        'a' <= c <= 'f' ==> d == c as nat - 'a' as nat + 10,
        'A' <= c <= 'F' ==> d == c as nat - 'A' as nat + 10,
{
    assert(s.push(c).drop_last() =~= s);
}

/// What has no hash sign, no digits or another character is no color.
pub proof fn law_what_is_no_color_is_not_read(s: Seq<char>)
    ensures
        s.len() < 2 ==> theme::color_of(s) is None,
        s.len() > 0 && s[0] != '#' ==> theme::color_of(s) is None,
        s.len() == 7 && s[0] == '#' && theme::color_of(s) is Some ==> {
            let number = theme::hex_value(s.skip(if s[1] == '+' {
                2
            } else {
                1
            }));
            let color = theme::color_of(s)->0;
            number <= 0xff_ffff ==> number == color.r * 65536 + color.g * 256 + color.b
        },
        (exists|i: int| 2 <= i < s.len() && !('0' <= #[trigger] s[i] <= '9' || 'a' <= s[i] <= 'f' || 'A'
            <= s[i] <= 'F')) ==> theme::color_of(s) is None,
{
    if exists|i: int| 2 <= i < s.len() && !('0' <= #[trigger] s[i] <= '9' || 'a' <= s[i] <= 'f' || 'A'
        <= s[i] <= 'F') {
        let i = choose|i: int| 2 <= i < s.len() && !('0' <= #[trigger] s[i] <= '9' || 'a' <= s[i] <= 'f'
            || 'A' <= s[i] <= 'F');
        assert(theme::digit(s[i]) is None);
        assert(s.skip(2)[i - 2] == s[i]);
        assert(s.skip(1)[i - 1] == s[i]);
        assert(!theme::hexadecimal(s.skip(2)));
        assert(!theme::hexadecimal(s.skip(1)));
    }
}

/// The colors of a theme are read if and only if all of them can be, each as its own.
pub proof fn law_all_colors_of_a_theme_are_read(colors: Colors<String>)
    ensures
        theme::readable(colors) <==> {
            &&& theme::color_of(colors.background@) is Some
            &&& theme::color_of(colors.foreground@) is Some
            &&& theme::color_of(colors.popover@) is Some
            &&& theme::color_of(colors.popover_foreground@) is Some
            &&& theme::color_of(colors.primary@) is Some
            &&& theme::color_of(colors.primary_foreground@) is Some
            &&& theme::color_of(colors.secondary@) is Some
            &&& theme::color_of(colors.secondary_foreground@) is Some
            &&& theme::color_of(colors.muted@) is Some
            &&& theme::color_of(colors.muted_foreground@) is Some
            &&& theme::color_of(colors.accent@) is Some
            &&& theme::color_of(colors.accent_foreground@) is Some
            &&& theme::color_of(colors.destructive@) is Some
            &&& theme::color_of(colors.destructive_foreground@) is Some
            &&& theme::color_of(colors.border@) is Some
            &&& theme::color_of(colors.input@) is Some
            &&& theme::color_of(colors.ring@) is Some
            &&& theme::color_of(colors.scrollbar_thumb@) is Some
            &&& theme::color_of(colors.scrollbar_thumb_hover@) is Some
            &&& theme::color_of(colors.link@) is Some
            &&& theme::color_of(colors.success@) is Some
            &&& theme::color_of(colors.success_foreground@) is Some
            &&& theme::color_of(colors.warning@) is Some
            &&& theme::color_of(colors.warning_foreground@) is Some
            &&& theme::color_of(colors.diff_add@) is Some
            &&& theme::color_of(colors.diff_remove@) is Some
        },
        theme::readable(colors) ==> {
            let read = theme::colors_of(colors);
            &&& Some(read.background) == theme::color_of(colors.background@)
            &&& Some(read.foreground) == theme::color_of(colors.foreground@)
            &&& Some(read.popover) == theme::color_of(colors.popover@)
            &&& Some(read.popover_foreground) == theme::color_of(colors.popover_foreground@)
            &&& Some(read.primary) == theme::color_of(colors.primary@)
            &&& Some(read.primary_foreground) == theme::color_of(colors.primary_foreground@)
            &&& Some(read.secondary) == theme::color_of(colors.secondary@)
            &&& Some(read.secondary_foreground) == theme::color_of(colors.secondary_foreground@)
            &&& Some(read.muted) == theme::color_of(colors.muted@)
            &&& Some(read.muted_foreground) == theme::color_of(colors.muted_foreground@)
            &&& Some(read.accent) == theme::color_of(colors.accent@)
            &&& Some(read.accent_foreground) == theme::color_of(colors.accent_foreground@)
            &&& Some(read.destructive) == theme::color_of(colors.destructive@)
            &&& Some(read.destructive_foreground) == theme::color_of(colors.destructive_foreground@)
            &&& Some(read.border) == theme::color_of(colors.border@)
            &&& Some(read.input) == theme::color_of(colors.input@)
            &&& Some(read.ring) == theme::color_of(colors.ring@)
            &&& Some(read.scrollbar_thumb) == theme::color_of(colors.scrollbar_thumb@)
            &&& Some(read.scrollbar_thumb_hover) == theme::color_of(colors.scrollbar_thumb_hover@)
            &&& Some(read.link) == theme::color_of(colors.link@)
            &&& Some(read.success) == theme::color_of(colors.success@)
            &&& Some(read.success_foreground) == theme::color_of(colors.success_foreground@)
            &&& Some(read.warning) == theme::color_of(colors.warning@)
            &&& Some(read.warning_foreground) == theme::color_of(colors.warning_foreground@)
            &&& Some(read.diff_add) == theme::color_of(colors.diff_add@)
            &&& Some(read.diff_remove) == theme::color_of(colors.diff_remove@)
        },
{
}

/// What each part of the window is painted with: most in a color of the theme as it is, what the pointer
/// is over a little and what is pressed a little more faintly.
pub proof fn law_parts_are_painted_in_the_colors_of_the_theme(colors: Colors<Rgb>)
    ensures
        ({
            let parts = theme::tokens(colors);
            &&& parts.background.color == colors.background && parts.background.cover == 100
            &&& parts.foreground.color == colors.foreground && parts.foreground.cover == 100
            &&& parts.border.color == colors.border && parts.border.cover == 100
            &&& parts.ring.color == colors.ring && parts.ring.cover == 100
            &&& parts.sidebar.color == colors.muted && parts.sidebar.cover == 100
            &&& parts.sidebar_foreground.color == colors.muted_foreground && parts.sidebar_foreground.cover == 100
            &&& parts.sidebar_border.color == colors.border && parts.sidebar_border.cover == 100
            &&& parts.sidebar_accent.color == colors.accent && parts.sidebar_accent.cover == 100
            &&& parts.sidebar_accent_foreground.color == colors.accent_foreground && parts.sidebar_accent_foreground.cover == 100
            &&& parts.sidebar_primary.color == colors.primary && parts.sidebar_primary.cover == 100
            &&& parts.sidebar_primary_foreground.color == colors.primary_foreground && parts.sidebar_primary_foreground.cover == 100
            &&& parts.list_hover.color == colors.accent && parts.list_hover.cover == 100
            &&& parts.list_active.color == colors.secondary && parts.list_active.cover == 100
            &&& parts.list_active_border.color == colors.border && parts.list_active_border.cover == 100
            &&& parts.list_even.color == colors.background && parts.list_even.cover == 100
            &&& parts.list_head.color == colors.background && parts.list_head.cover == 100
            &&& parts.muted.color == colors.muted && parts.muted.cover == 100
            &&& parts.muted_foreground.color == colors.muted_foreground && parts.muted_foreground.cover == 100
            &&& parts.accent.color == colors.accent && parts.accent.cover == 100
            &&& parts.accent_foreground.color == colors.accent_foreground && parts.accent_foreground.cover == 100
            &&& parts.primary.color == colors.primary && parts.primary.cover == 100
            &&& parts.primary_hover.color == colors.primary && parts.primary_hover.cover == 90
            &&& parts.primary_active.color == colors.primary && parts.primary_active.cover == 80
            &&& parts.primary_foreground.color == colors.primary_foreground && parts.primary_foreground.cover == 100
            &&& parts.secondary.color == colors.secondary && parts.secondary.cover == 100
            &&& parts.secondary_hover.color == colors.secondary && parts.secondary_hover.cover == 90
            &&& parts.secondary_active.color == colors.secondary && parts.secondary_active.cover == 80
            &&& parts.secondary_foreground.color == colors.secondary_foreground && parts.secondary_foreground.cover == 100
            &&& parts.popover.color == colors.popover && parts.popover.cover == 100
            &&& parts.popover_foreground.color == colors.popover_foreground && parts.popover_foreground.cover == 100
            &&& parts.group_box.color == colors.popover && parts.group_box.cover == 100
            &&& parts.group_box_foreground.color == colors.popover_foreground && parts.group_box_foreground.cover == 100
            &&& parts.input.color == colors.input && parts.input.cover == 100
            &&& parts.selection.color == colors.primary && parts.selection.cover == 16
            &&& parts.caret.color == colors.foreground && parts.caret.cover == 100
            &&& parts.title_bar.color == colors.secondary && parts.title_bar.cover == 100
            &&& parts.title_bar_border.color == colors.secondary && parts.title_bar_border.cover == 100
            &&& parts.scrollbar_thumb.color == colors.scrollbar_thumb && parts.scrollbar_thumb.cover == 100
            &&& parts.scrollbar_thumb_hover.color == colors.scrollbar_thumb_hover && parts.scrollbar_thumb_hover.cover == 100
            &&& parts.link.color == colors.link && parts.link.cover == 100
            &&& parts.danger.color == colors.destructive && parts.danger.cover == 100
            &&& parts.danger_hover.color == colors.destructive && parts.danger_hover.cover == 90
            &&& parts.danger_active.color == colors.destructive && parts.danger_active.cover == 80
            &&& parts.danger_foreground.color == colors.destructive_foreground && parts.danger_foreground.cover == 100
            &&& parts.success.color == colors.success && parts.success.cover == 100
            &&& parts.success_foreground.color == colors.success_foreground && parts.success_foreground.cover == 100
            &&& parts.warning.color == colors.warning && parts.warning.cover == 100
            &&& parts.warning_foreground.color == colors.warning_foreground && parts.warning_foreground.cover == 100
            &&& parts.overlay.color == (Rgb { r: 0, g: 0, b: 0 }) && parts.overlay.cover == 25
        }),
{
}

} // verus!
