//! What holds of what is said in a session.
use super::{Attachment, DroppedPath, SlashEffect};
use crate::common::domain::{
    ContentBlock, SessionConfigKind, SessionConfigOption, SessionConfigOptionValue, SlashCommand,
};
use crate::desktop::app::composer;
use crate::desktop::client::{Body, Request};
use crate::desktop::state::{Core, OpenTarget};
use crate::encoding;
use crate::strings;
use vstd::prelude::*;

verus! {

/// A message is what was entered, without white space around it, and behind it all that was attached,
/// in its order.
pub proof fn law_messages_hold_what_was_entered_and_attached(
    text: Seq<char>,
    attachments: Seq<Attachment>,
    blocks: Seq<ContentBlock>,
    k: int,
)
    requires
        composer::message_blocks(text, attachments, blocks),
        0 <= k < attachments.len(),
    ensures
        strings::blank(text) ==> blocks.len() == attachments.len() && blocks[k]
            == attachments[k].block,
        !strings::blank(text) ==> blocks.len() == attachments.len() + 1 && blocks[k + 1]
            == attachments[k].block && (blocks[0] matches ContentBlock::Text { text: said } && said@
            == strings::trim_of(text)),
{
    strings::lemma_blank_trim(text);
    let first: int = if strings::trim_of(text).len() > 0 {
        1
    } else {
        0
    };
    assert(blocks[first + k] == attachments[k].block);
    if strings::trim_of(text).len() > 0 {
        let ends = strings::laws::law_trimming_takes_white_space_from_the_ends(text);
        assert(!strings::white(text[ends.0]));
    }
}

/// Without attachments a message is what was entered alone.
pub proof fn law_messages_without_attachments(text: Seq<char>, blocks: Seq<ContentBlock>)
    requires
        composer::message_blocks(text, Seq::empty(), blocks),
        strings::trim_of(text).len() > 0,
    ensures
        blocks.len() == 1,
        blocks[0] matches ContentBlock::Text { text: said } && said@ == strings::trim_of(text),
{
}

/// A file is attached as a link to where it is, under its name.
pub proof fn law_files_are_attached_as_links(attachment: Attachment, file: DroppedPath)
    requires
        composer::links(attachment, file),
    ensures
        file.name matches Some(name) ==> attachment.label@ == name@,
        file.name is None ==> attachment.label@ == file.path@,
        attachment.block matches ContentBlock::ResourceLink { uri, name, mime_type, .. } && uri@
            == "file://"@ + file.path@ && name@ == attachment.label@ && mime_type is None,
{
}

/// A picture is attached whole, under its kind.
pub proof fn law_pictures_are_attached_whole(
    attachment: Attachment,
    mime: Seq<char>,
    bytes: Seq<u8>,
)
    requires
        composer::pictures(attachment, mime, bytes),
    ensures
        attachment.label@ == "粘贴的图片"@,
        attachment.block matches ContentBlock::Resource { mime_type, uri, text, blob } && mime_type@
            == mime && uri is None && text is None && blob is Some && blob->0@
            == encoding::base64_text(bytes),
{
}

proof fn lemma_fitting(names: Seq<Seq<char>>, query: Seq<char>)
    ensures
        forall|k: int|
            0 <= k < composer::fitting(names, query).len() ==> 0 <= #[trigger] composer::fitting(
                names,
                query,
            )[k] < names.len() && query.is_prefix_of(names[composer::fitting(names, query)[k]]),
        forall|k: int, j: int|
            0 <= k < j < composer::fitting(names, query).len() ==> #[trigger] composer::fitting(
                names,
                query,
            )[k] < #[trigger] composer::fitting(names, query)[j],
        forall|i: int|
            0 <= i < names.len() && query.is_prefix_of(#[trigger] names[i]) ==> composer::fitting(
                names,
                query,
            ).contains(i),
    decreases names.len(),
{
    if names.len() > 0 {
        let less = names.drop_last();
        lemma_fitting(less, query);
        let before = composer::fitting(less, query);
        let after = composer::fitting(names, query);
        assert forall|k: int| 0 <= k < after.len() implies 0 <= #[trigger] after[k] < names.len()
            && query.is_prefix_of(names[after[k]]) by {
            if k < before.len() {
                assert(after[k] == before[k]);
                assert(less[before[k]] == names[before[k]]);
            }
        }
        assert forall|k: int, j: int| 0 <= k < j < after.len() implies #[trigger] after[k]
            < #[trigger] after[j] by {
            assert(after[k] == before[k]);
            if j < before.len() {
                assert(after[j] == before[j]);
            }
        }
        assert forall|i: int|
            0 <= i < names.len() && query.is_prefix_of(#[trigger] names[i]) implies after.contains(
            i,
        ) by {
            if i < less.len() {
                assert(less[i] == names[i]);
                let k = before.index_of(i);
                assert(after[k] == i);
            } else {
                assert(after[before.len() as int] == i);
            }
        }
    }
}

/// Those commands are offered, each once and in their order, whose names begin with what was typed
/// behind the slash, in small or in large letters; nothing is offered where no command is typed.
pub proof fn law_commands_are_offered_by_their_beginning(
    commands: Seq<SlashCommand>,
    query: Seq<char>,
    k: int,
)
    requires
        forall|i: int| 0 <= i < query.len() ==> !strings::white(#[trigger] query[i]),
        0 <= k < commands.len(),
    ensures
        ({
            let offered = composer::candidates(commands, seq!['/'] + query);
            let small = composer::small_letters(query);
            let name = composer::small_letters(commands[k].name@);
            &&& small.is_prefix_of(name) ==> offered.contains(commands[k])
            &&& forall|i: int|
                0 <= i < offered.len() ==> small.is_prefix_of(
                    composer::small_letters((#[trigger] offered[i]).name@),
                ) && commands.contains(offered[i])
            &&& offered.len() <= commands.len()
        }),
        composer::candidates(commands, query).len() == 0 || query[0] == '/',
{
    let value = seq!['/'] + query;
    assert(value.skip(1) =~= query);
    assert forall|i: int| 1 <= i < value.len() implies !strings::white(#[trigger] value[i]) by {
        assert(value[i] == query[i - 1]);
    }
    let names = commands.map_values(|c: SlashCommand| composer::small_letters(c.name@));
    let small = composer::small_letters(query);
    let places = composer::fitting(names, small);
    lemma_fitting(names, small);
    let offered = composer::candidates(commands, value);
    assert(offered == composer::commands_at(commands, places));
    if small.is_prefix_of(names[k]) {
        let at = places.index_of(k);
        assert(offered[at] == commands[k]);
    }
    assert forall|i: int| 0 <= i < offered.len() implies small.is_prefix_of(
        composer::small_letters((#[trigger] offered[i]).name@),
    ) && commands.contains(offered[i]) by {
        assert(offered[i] == commands[places[i]]);
        assert(names[places[i]] == composer::small_letters(commands[places[i]].name@));
    }
    lemma_no_more(places, names.len() as int);
}

proof fn lemma_no_more(places: Seq<int>, n: int)
    requires
        0 <= n,
        forall|k: int| 0 <= k < places.len() ==> 0 <= #[trigger] places[k] < n,
        forall|k: int, j: int|
            0 <= k < j < places.len() ==> #[trigger] places[k] < #[trigger] places[j],
    ensures
        places.len() <= n,
    decreases n,
{
    if places.len() > 0 {
        let less = places.drop_last();
        assert forall|k: int| 0 <= k < less.len() implies 0 <= #[trigger] less[k] < n - 1 by {
            assert(less[k] == places[k]);
            assert(places[k] < places[places.len() - 1]);
        }
        assert(0 <= places[0] < n);
        lemma_no_more(less, n - 1);
    }
}

/// A command is typed behind a slash, in one word.
pub proof fn law_commands_are_typed_behind_a_slash(value: Seq<char>)
    ensures
        composer::slash_query(value) is Some <==> value.len() > 0 && value[0] == '/' && forall|i: int|
            1 <= i < value.len() ==> !strings::white(#[trigger] value[i]),
        composer::slash_query(value) matches Some(query) ==> seq!['/'] + query == value,
{
    if composer::slash_query(value) is Some {
        assert(seq!['/'] + value.skip(1) =~= value);
    }
}

/// The keys move the mark among what is offered and never beyond it, enter takes what is marked, and
/// escape puts the commands away. Other keys, and all of them where nothing is offered, go to the text.
pub proof fn law_keys_move_among_what_is_offered(key: Seq<char>, marked: usize, count: nat)
    requires
        count <= usize::MAX,
    ensures
        ({
            let effect = composer::slash_effect(key, marked, count);
            &&& count == 0 ==> effect is Pass
            &&& count > 0 && key == "up"@ ==> effect == SlashEffect::Mark(
                if marked > 0 {
                    (marked - 1) as usize
                } else {
                    0
                },
            )
            &&& count > 0 && key == "down"@ && marked + 1 < count ==> effect == SlashEffect::Mark(
                (marked + 1) as usize,
            )
            &&& count > 0 && key == "down"@ && marked + 1 >= count ==> effect == SlashEffect::Mark(
                (count - 1) as usize,
            )
            &&& count > 0 && key == "enter"@ && marked < count ==> effect == SlashEffect::Apply(
                marked,
            )
            &&& count > 0 && key == "enter"@ && marked >= count ==> effect == SlashEffect::Apply(
                (count - 1) as usize,
            )
            &&& count > 0 && key == "escape"@ ==> effect is Dismiss
            &&& key != "up"@ && key != "down"@ && key != "enter"@ && key != "escape"@ ==> effect
                is Pass
        }),
{
    reveal_strlit("up");
    reveal_strlit("down");
    reveal_strlit("enter");
    reveal_strlit("escape");
    assert("up"@.len() == 2);
    assert("down"@.len() == 4);
    assert("enter"@.len() == 5);
    assert("escape"@.len() == 6);
}

/// Options are set where they are: those of the open session, at its address.
pub proof fn law_options_are_set_of_the_open_session(core: Core)
    ensures
        composer::option_request(core) is Some <==> core.client is Some && core.open is Some
            && core.open->0 is Session,
        core.open matches Some(OpenTarget::Session(id)) ==> core.client is Some
            ==> composer::option_request(core) == Some("/sessions/"@ + id@ + "/configure"@),
{
}

/// An option that is set has the value that was chosen, and is the same option with the same choices.
pub proof fn law_set_options_have_the_value_that_was_chosen(
    before: SessionConfigOption,
    after: SessionConfigOption,
    value: SessionConfigOptionValue,
)
    requires
        composer::option_set(before, after, value),
    ensures
        after.id == before.id && after.name == before.name,
        match (before.kind, value) {
            (
                SessionConfigKind::Boolean { .. },
                SessionConfigOptionValue::Boolean { value: on },
            ) => after.kind matches SessionConfigKind::Boolean { current_value } && current_value
                == on,
            (
                SessionConfigKind::Select { options, .. },
                SessionConfigOptionValue::ValueId { value: chosen },
            ) => after.kind matches SessionConfigKind::Select { current_value, options: kept }
                && current_value@ == chosen@ && kept == options,
            _ => after.kind == before.kind,
        },
{
}

/// What sets an option says which and to what, and changes nothing else of the session.
pub proof fn law_setting_an_option_says_which(
    request: Request,
    config_id: Seq<char>,
    value: SessionConfigOptionValue,
)
    requires
        composer::sets_option(request, config_id, value),
    ensures
        request.body matches Body::ConfigureSession(change) && change.title is None
            && change.project is None && change.config is Some && change.config->0.config_id@
            == config_id && change.config->0.value == value,
{
}

/// The first option of an id is the one that is set.
pub proof fn law_the_first_option_of_an_id_is_set(
    options: Seq<SessionConfigOption>,
    id: Seq<char>,
)
    ensures
        composer::option_place(options, id) <= options.len(),
        composer::option_place(options, id) < options.len() ==> options[composer::option_place(
            options,
            id,
        ) as int].id@ == id,
        forall|i: int|
            0 <= i < composer::option_place(options, id) ==> (#[trigger] options[i]).id@ != id,
    decreases options.len(),
{
    if options.len() > 0 && options[0].id@ != id {
        let rest = options.skip(1);
        law_the_first_option_of_an_id_is_set(rest, id);
        assert forall|i: int| 0 <= i < composer::option_place(options, id) implies (
        #[trigger] options[i]).id@ != id by {
            if i > 0 {
                assert(rest[i - 1] == options[i]);
            }
        }
    }
}

} // verus!
