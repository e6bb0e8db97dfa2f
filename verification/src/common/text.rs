//! Text tools.
use crate::strings::clipped;
use vstd::prelude::*;

verus! {

/// A text cut to `max` characters, with an ellipsis behind it where something was cut off.
pub open spec fn truncated(s: Seq<char>, max: nat) -> Seq<char> {
    if s.len() <= max {
        s
    } else {
        s.take(max as int).push('…')
    }
}

/// Cuts a text to `max_chars` characters and marks the cut with an ellipsis.
pub fn truncate(text: &str, max_chars: usize) -> (r: String)
    ensures
        r@ == truncated(text@, max_chars as nat),
{
    let mut out: String = clipped(text, max_chars);
    if text.unicode_len() > max_chars {
        out.push('…');
    }
    out
}

} // verus!
