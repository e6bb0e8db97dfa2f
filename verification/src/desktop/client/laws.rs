//! What holds of what the server answers.
use crate::desktop::client;
use crate::strings;
use vstd::prelude::*;

verus! {

/// An answer succeeded where its code is between 200 and 299.
pub proof fn law_answers_succeed_by_their_code(status: u16)
    ensures
        client::succeeded(status) <==> status / 100 == 2,
{
}

/// A failure is told by its code and, behind it, by what the server said, where it said something.
pub proof fn law_failures_are_told_by_their_code(status: nat, body: Seq<char>)
    ensures
        strings::blank(body) ==> client::failure_text(status, body) == "HTTP "@ + strings::decimal(
            status,
        ),
        !strings::blank(body) ==> client::failure_text(status, body) == "HTTP "@ + strings::decimal(
            status,
        ) + ": "@ + strings::trim_of(body),
        forall|text: String| #[trigger]
            client::text_or_empty(Ok::<String, String>(text)) == text@,
        forall|text: String| #[trigger]
            client::text_or_empty(Err::<String, String>(text)) == Seq::<char>::empty(),
{
    strings::lemma_blank_trim(body);
    if !strings::blank(body) {
        let ends = strings::laws::law_trimming_takes_white_space_from_the_ends(body);
        if ends.0 == ends.1 {
            assert forall|i: int| 0 <= i < body.len() implies strings::white(
                #[trigger] body[i],
            ) by {
                if i < ends.0 {
                    assert(body.take(ends.0)[i] == body[i]);
                } else {
                    assert(body.skip(ends.1)[i - ends.1] == body[i]);
                }
            }
        }
    }
}

} // verus!
