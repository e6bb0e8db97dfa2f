//! What is written to a session: messages, attachments, commands and options.
pub mod laws;

use super::AmuxApp;
use crate::common::api::{PromptRequest, SessionConfigSetting};
use crate::common::domain::{
    ContentBlock, SessionConfigKind, SessionConfigOption, SessionConfigOptionValue, SlashCommand,
};
use crate::desktop::client::{Body, Request, Verb};
use crate::desktop::poll;
use crate::desktop::state;
use crate::desktop::state::{Attachment, Core, NoteLevel, OpenTarget, SessionView};
use crate::encoding;
use crate::encoding::base64_encode;
use crate::strings;
use crate::strings::{chars_of, is_white, same, starts_with, string_of, trim};
use vstd::prelude::*;

verus! {

/// The blocks of a message: its text where there is one, then what goes with it.
pub open spec fn message_blocks(text: Seq<char>, attachments: Seq<Attachment>, blocks: Seq<
    ContentBlock,
>) -> bool {
    let first: int = if strings::trim_of(text).len() > 0 {
        1
    } else {
        0
    };
    &&& blocks.len() == first + attachments.len()
    &&& first == 1 ==> (blocks[0] matches ContentBlock::Text { text: t } && t@ == strings::trim_of(
        text,
    ))
    &&& forall|i: int|
        first <= i < blocks.len() ==> #[trigger] blocks[i] == attachments[i - first].block
}

/// The request that sends something to the open session, where there is one and a server.
pub fn send_blocks(core: &Core, blocks: Vec<ContentBlock>) -> (r: Option<Request>)
    ensures
        match (core.open, core.client) {
            (Some(target), Some(_)) => r matches Some(request) && request.verb is Post
                && request.body == (Body::Prompt(PromptRequest { input: blocks }))
                && request.path@ == match target {
                OpenTarget::Session(id) => "/sessions/"@ + id@,
                OpenTarget::Workflow(id) => "/workflows/"@ + id@,
            },
            _ => r is None,
        },
{
    match (&core.open, &core.client) {
        (Some(target), Some(client)) => Some(poll::send_prompt(client, target, blocks)),
        _ => None,
    }
}

/// A message was sent: the list and the conversation are due.
pub fn blocks_sent(core: &mut Core, result: Result<(), String>)
    ensures
        match result {
            Ok(_) => *final(core) == (Core {
                last: state::Ticks { list: None, history: None, ..old(core).last },
                ..*old(core)
            }),
            Err(error) => final(core).noted(*old(core), "消息未发送："@ + error@, NoteLevel::Error),
        },
{
    match result {
        Ok(_) => {
            core.last.list = None;
            core.last.history = None;
        },
        Err(error) => {
            core.failed("消息未发送：", error.as_str());
        },
    }
}

/// The blocks of a prompt that is sent at one click.
pub fn send_quick_command(prompt: String) -> (r: Vec<ContentBlock>)
    ensures
        r@ == seq![ContentBlock::Text { text: prompt }],
{
    vec![ContentBlock::Text { text: prompt }]
}

/// A file that was dropped or chosen: its path, and the last part of it where there is one.
#[derive(Debug, PartialEq)]
pub struct DroppedPath {
    pub path: String,
    pub name: Option<String>,
}

/// What is shown of a file: its name, else its path.
pub open spec fn file_label(file: DroppedPath) -> Seq<char> {
    match file.name {
        Some(name) => name@,
        None => file.path@,
    }
}

/// An attachment links a file.
pub open spec fn links(attachment: Attachment, file: DroppedPath) -> bool {
    &&& attachment.label@ == file_label(file)
    &&& attachment.block matches ContentBlock::ResourceLink {
        uri,
        name,
        mime_type,
        title,
        description,
    }
    &&& uri@ == "file://"@ + file.path@
    &&& name@ == file_label(file)
    &&& mime_type is None
    &&& title is None
    &&& description is None
}

/// What was pasted.
#[derive(Debug, PartialEq)]
pub enum Pasted {
    Image { mime_type: String, bytes: Vec<u8> },
    Paths(Vec<DroppedPath>),
    /// Text, which the input takes itself.
    Other,
}

/// An attachment holds an image.
pub open spec fn pictures(attachment: Attachment, mime: Seq<char>, bytes: Seq<u8>) -> bool {
    &&& attachment.label@ == "粘贴的图片"@
    &&& attachment.block matches ContentBlock::Resource { mime_type, uri, text, blob }
    &&& mime_type@ == mime
    &&& uri is None
    &&& text is None
    &&& blob matches Some(data) && data@ == encoding::base64_text(bytes)
}

/// `str::to_lowercase`: the text in small letters.
pub uninterp spec fn small_letters(text: Seq<char>) -> Seq<char>;

/// `str::to_lowercase`. What it makes of each character is left to Unicode's tables.
#[verifier::external_body]
fn to_lowercase(text: &str) -> (r: String)
    ensures
        r@ == small_letters(text@),
{
    text.to_lowercase()
}

/// The places of the commands whose names, in small letters, begin with what was typed.
pub open spec fn fitting(names: Seq<Seq<char>>, query: Seq<char>) -> Seq<int>
    decreases names.len(),
{
    if names.len() == 0 {
        Seq::empty()
    } else {
        let before = fitting(names.drop_last(), query);
        if query.is_prefix_of(names.last()) {
            before.push(names.len() - 1)
        } else {
            before
        }
    }
}

/// The commands at some places.
pub open spec fn commands_at(commands: Seq<SlashCommand>, places: Seq<int>) -> Seq<SlashCommand> {
    places.map_values(|i: int| commands[i])
}

/// The commands whose names begin with what was typed, given the names in small letters.
pub fn commands_fitting(commands: &Vec<SlashCommand>, names: &Vec<String>, query: &str) -> (r: Vec<
    SlashCommand,
>)
    requires
        names@.len() == commands@.len(),
    ensures
        r@ == commands_at(commands@, fitting(strings::views(names@), query@)),
{
    let ghost all = strings::views(names@);
    let mut out: Vec<SlashCommand> = Vec::new();
    let mut i: usize = 0;
    proof {
        assert(all.take(0) =~= Seq::empty());
        assert(out@ =~= commands_at(commands@, fitting(all.take(0), query@)));
    }
    while i < commands.len()
        invariant
            0 <= i <= commands@.len(),
            names@.len() == commands@.len(),
            all == strings::views(names@),
            out@ == commands_at(commands@, fitting(all.take(i as int), query@)),
        decreases commands.len() - i,
    {
        let ghost before = fitting(all.take(i as int), query@);
        proof {
            assert(all.take(i + 1).drop_last() =~= all.take(i as int));
            assert(all.take(i + 1).last() == names@[i as int]@);
        }
        if starts_with(names[i].as_str(), query) {
            out.push(commands[i].clone());
            proof {
                assert(out@ =~= commands_at(commands@, before.push(i as int)));
            }
        }
        i = i + 1;
    }
    proof {
        assert(all.take(i as int) =~= all);
    }
    out
}

/// What was typed behind a slash, where it is one word.
pub open spec fn slash_query(value: Seq<char>) -> Option<Seq<char>> {
    if value.len() > 0 && value[0] == '/' && forall|i: int|
        1 <= i < value.len() ==> !strings::white(#[trigger] value[i]) {
        Some(value.skip(1))
    } else {
        None
    }
}

/// What was typed behind a slash, where it is one word.
pub fn query_of(value: &str) -> (r: Option<String>)
    ensures
        match slash_query(value@) {
            Some(query) => r is Some && r->0@ == query,
            None => r is None,
        },
{
    let chars: Vec<char> = chars_of(value);
    if chars.len() == 0 || chars[0] != '/' {
        return None;
    }
    let mut i: usize = 1;
    while i < chars.len()
        invariant
            1 <= i <= chars@.len(),
            chars@ == value@,
            forall|k: int| 1 <= k < i ==> !strings::white(#[trigger] value@[k]),
        decreases chars.len() - i,
    {
        if is_white(chars[i]) {
            assert(strings::white(value@[i as int]));
            return None;
        }
        i = i + 1;
    }
    let query: String = string_of(&chars, 1, chars.len());
    proof {
        assert(query@ =~= value@.skip(1));
    }
    Some(query)
}

/// The commands that what was typed may be the beginning of.
pub open spec fn candidates(commands: Seq<SlashCommand>, value: Seq<char>) -> Seq<SlashCommand> {
    match slash_query(value) {
        Some(query) => commands_at(
            commands,
            fitting(
                commands.map_values(|c: SlashCommand| small_letters(c.name@)),
                small_letters(query),
            ),
        ),
        None => Seq::empty(),
    }
}

/// The request that sets an option of the open session, where one with an agent is open and there is
/// a server.
pub open spec fn option_request(core: Core) -> Option<Seq<char>> {
    match (core.client, core.open) {
        (Some(_), Some(OpenTarget::Session(id))) => Some("/sessions/"@ + id@ + "/configure"@),
        _ => None,
    }
}

/// An option after it was set to a value. A value that does not go with the option changes nothing.
pub open spec fn option_set(
    before: SessionConfigOption,
    after: SessionConfigOption,
    value: SessionConfigOptionValue,
) -> bool {
    &&& after == (SessionConfigOption { kind: after.kind, ..before })
    &&& match (before.kind, value) {
        (
            SessionConfigKind::Boolean { .. },
            SessionConfigOptionValue::Boolean { value: on },
        ) => after.kind == (SessionConfigKind::Boolean { current_value: on }),
        (
            SessionConfigKind::Select { options, .. },
            SessionConfigOptionValue::ValueId { value: chosen },
        ) => after.kind matches SessionConfigKind::Select { current_value, options: kept }
            && current_value@ == chosen@ && kept == options,
        _ => after.kind == before.kind,
    }
}

/// The place of the first option with an identity, or the number of them.
pub open spec fn option_place(options: Seq<SessionConfigOption>, id: Seq<char>) -> nat
    decreases options.len(),
{
    if options.len() == 0 || options[0].id@ == id {
        0
    } else {
        1 + option_place(options.skip(1), id)
    }
}

fn find_option(options: &Vec<SessionConfigOption>, id: &str) -> (r: usize)
    ensures
        r == option_place(options@, id@),
        r <= options@.len(),
{
    let ghost all = options@;
    let mut i: usize = 0;
    proof {
        assert(all.skip(0) =~= all);
    }
    while i < options.len()
        invariant
            0 <= i <= all.len(),
            all == options@,
            option_place(all, id@) == i + option_place(all.skip(i as int), id@),
        decreases all.len() - i,
    {
        proof {
            assert(all.skip(i as int)[0] == all[i as int]);
            assert(all.skip(i as int).skip(1) =~= all.skip(i + 1));
        }
        if same(options[i].id.as_str(), id) {
            return i;
        }
        i = i + 1;
    }
    proof {
        assert(all.skip(i as int) =~= Seq::empty());
    }
    i
}

fn set_option(option: SessionConfigOption, value: &SessionConfigOptionValue) -> (r:
    SessionConfigOption)
    ensures
        option_set(option, r, *value),
{
    let SessionConfigOption { id, name, description, category, kind } = option;
    let kind: SessionConfigKind = match (kind, value) {
        (
            SessionConfigKind::Boolean { .. },
            SessionConfigOptionValue::Boolean { value: on },
        ) => SessionConfigKind::Boolean { current_value: *on },
        (
            SessionConfigKind::Select { options, .. },
            SessionConfigOptionValue::ValueId { value: chosen },
        ) => SessionConfigKind::Select { current_value: chosen.clone(), options },
        (kind, _) => kind,
    };
    SessionConfigOption { id, name, description, category, kind }
}

/// The request carries an option and its value, and changes nothing else.
pub open spec fn sets_option(
    request: Request,
    config_id: Seq<char>,
    value: SessionConfigOptionValue,
) -> bool {
    request.body matches Body::ConfigureSession(change) && change.title is None && change.project
        is None && (change.config matches Some(setting) && setting.config_id@ == config_id
        && setting.value == value)
}

/// Sets an option of the open session. It is shown at once, and the request comes back.
pub fn apply_config_option(core: &mut Core, config_id: &str, value: &SessionConfigOptionValue) -> (r:
    Option<Request>)
    ensures
        match option_request(*old(core)) {
            None => r is None && *final(core) == *old(core),
            Some(path) => {
                let before = old(core).view.detail.config_options@;
                let after = final(core).view.detail.config_options@;
                let at = option_place(before, config_id@) as int;
                &&& r is Some
                &&& r->0.verb == Verb::Post
                &&& r->0.path@ == path
                &&& sets_option(r->0, config_id@, *value)
                &&& *final(core) == poll::with_detail(
                    *old(core),
                    SessionView {
                        config_options: final(core).view.detail.config_options,
                        ..old(core).view.detail
                    },
                )
                &&& after.len() == before.len()
                &&& at < before.len() ==> option_set(before[at], after[at], *value)
                &&& forall|i: int|
                    0 <= i < before.len() && i != at ==> #[trigger] after[i] == before[i]
            },
        },
{
    let request: Request = match (&core.client, &core.open) {
        (Some(client), Some(OpenTarget::Session(id))) => {
            let setting: SessionConfigSetting = SessionConfigSetting {
                config_id: config_id.to_owned(),
                value: value.clone(),
            };
            client.configure_session(id.as_str(), None, Some(setting), None)
        },
        _ => {
            return None;
        },
    };
    let at: usize = find_option(&core.view.detail.config_options, config_id);
    if at < core.view.detail.config_options.len() {
        let option: SessionConfigOption = core.view.detail.config_options.remove(at);
        core.view.detail.config_options.insert(at, set_option(option, value));
    }
    Some(request)
}

/// An option was set.
pub fn option_applied(core: &mut Core, result: Result<(), String>)
    ensures
        match result {
            Ok(_) => *final(core) == *old(core),
            Err(error) => final(core).noted(
                *old(core),
                "会话选项设置失败："@ + error@,
                NoteLevel::Error,
            ),
        },
{
    match result {
        Ok(_) => {},
        Err(error) => {
            core.failed("会话选项设置失败：", error.as_str());
        },
    }
}

/// The request that cancels the work of the open session, where there is one and a server.
pub fn cancel(core: &Core) -> (r: Option<Request>)
    ensures
        match (core.open, core.client) {
            (Some(target), Some(_)) => r matches Some(request) && poll::cancels(request, target),
            _ => r is None,
        },
{
    match (&core.open, &core.client) {
        (Some(target), Some(client)) => Some(poll::cancel(client, target)),
        _ => None,
    }
}

/// The work was cancelled.
pub fn cancelled(core: &mut Core, result: Result<(), String>)
    ensures
        match result {
            Ok(_) => *final(core) == *old(core),
            Err(error) => final(core).noted(*old(core), "取消失败："@ + error@, NoteLevel::Error),
        },
{
    match result {
        Ok(_) => {},
        Err(error) => {
            core.failed("取消失败：", error.as_str());
        },
    }
}

/// What a key does to the commands that are offered.
#[derive(Debug, Clone, Copy, PartialEq, Eq, Structural)]
pub enum SlashEffect {
    /// Nothing.
    Pass,
    /// Another is marked.
    Mark(usize),
    /// One is taken up.
    Apply(usize),
    /// They are put away.
    Dismiss,
}

/// What a key does: up and down move the mark and stop at the ends, enter takes up the marked one,
/// and escape puts them away. Where none are offered, it does nothing.
pub open spec fn slash_effect(key: Seq<char>, marked: usize, count: nat) -> SlashEffect {
    let last = count - 1;
    if count == 0 {
        SlashEffect::Pass
    } else if key == "up"@ {
        SlashEffect::Mark(
            if marked == 0 {
                0
            } else {
                (marked - 1) as usize
            },
        )
    } else if key == "down"@ {
        SlashEffect::Mark(
            if marked < last {
                (marked + 1) as usize
            } else {
                last as usize
            },
        )
    } else if key == "enter"@ {
        SlashEffect::Apply(
            if marked < last {
                marked
            } else {
                last as usize
            },
        )
    } else if key == "escape"@ {
        SlashEffect::Dismiss
    } else {
        SlashEffect::Pass
    }
}

/// What a key does.
pub fn effect_of(key: &str, marked: usize, count: usize) -> (r: SlashEffect)
    ensures
        r == slash_effect(key@, marked, count as nat),
        r matches SlashEffect::Apply(taken) ==> taken < count,
{
    if count == 0 {
        return SlashEffect::Pass;
    }
    let last: usize = count - 1;
    if same(key, "up") {
        return SlashEffect::Mark(
            if marked == 0 {
                0
            } else {
                marked - 1
            },
        );
    }
    if same(key, "down") {
        return SlashEffect::Mark(
            if marked < last {
                marked + 1
            } else {
                last
            },
        );
    }
    if same(key, "enter") {
        return SlashEffect::Apply(
            if marked < last {
                marked
            } else {
                last
            },
        );
    }
    if same(key, "escape") {
        return SlashEffect::Dismiss;
    }
    SlashEffect::Pass
}

/// What becomes of a key that was pressed while commands are offered.
#[derive(Debug, PartialEq)]
pub enum SlashKey {
    /// It goes on to the input.
    Pass,
    /// It is done with.
    Taken,
    /// A command was taken up: what stands in the input.
    Apply(String),
}

impl AmuxApp {
    /// Sends what was written, and what goes with it. Nothing comes back where there is neither.
    pub fn send(&mut self, text: &str) -> (r: Option<Vec<ContentBlock>>)
        ensures
            ({
                let nothing = strings::trim_of(text@).len() == 0 && old(
                    self,
                ).attachments@.len() == 0;
                &&& r is None == nothing
                &&& nothing ==> *final(self) == *old(self)
                &&& !nothing ==> {
                    &&& message_blocks(text@, old(self).attachments@, r->0@)
                    &&& final(self).attachments@.len() == 0
                    &&& *final(self) == (AmuxApp {
                        attachments: final(self).attachments,
                        slash_selected: 0,
                        ..*old(self)
                    })
                }
            }),
    {
        let trimmed: String = trim(text);
        if trimmed.as_str().is_empty() && self.attachments.len() == 0 {
            return None;
        }
        let mut blocks: Vec<ContentBlock> = Vec::new();
        if !trimmed.as_str().is_empty() {
            blocks.push(ContentBlock::Text { text: trimmed });
        }
        let ghost head = blocks@;
        let mut taken: Vec<Attachment> = Vec::new();
        std::mem::swap(&mut taken, &mut self.attachments);
        let ghost given = taken@;
        for attachment in it: taken
            invariant
                it.seq() == given,
                blocks@.len() == head.len() + it.index(),
                forall|i: int| 0 <= i < head.len() ==> #[trigger] blocks@[i] == head[i],
                forall|i: int|
                    head.len() <= i < blocks@.len() ==> #[trigger] blocks@[i] == given[i
                        - head.len()].block,
        {
            blocks.push(attachment.block);
        }
        self.slash_selected = 0;
        Some(blocks)
    }

    /// Something was written: commands are offered anew.
    pub fn input_changed(&mut self)
        ensures
            *final(self) == (AmuxApp { slash_selected: 0, slash_dismissed: false, ..*old(self) }),
    {
        self.slash_selected = 0;
        self.slash_dismissed = false;
    }

    /// Files go with the next message.
    pub fn attach_paths(&mut self, paths: &Vec<DroppedPath>)
        ensures
            final(self).attachments@.len() == old(self).attachments@.len() + paths@.len(),
            final(self).attachments@.take(old(self).attachments@.len() as int) == old(
                self,
            ).attachments@,
            forall|i: int|
                0 <= i < paths@.len() ==> links(
                    #[trigger] final(self).attachments@[old(self).attachments@.len() + i],
                    paths@[i],
                ),
            *final(self) == (AmuxApp { attachments: final(self).attachments, ..*old(self) }),
    {
        let ghost before = self.attachments@;
        let mut i: usize = 0;
        proof {
            assert(self.attachments@.take(before.len() as int) =~= before);
        }
        while i < paths.len()
            invariant
                0 <= i <= paths@.len(),
                self.attachments@.len() == before.len() + i,
                self.attachments@.take(before.len() as int) == before,
                forall|k: int|
                    0 <= k < i ==> links(#[trigger] self.attachments@[before.len() + k], paths@[k]),
                *self == (AmuxApp { attachments: self.attachments, ..*old(self) }),
            decreases paths.len() - i,
        {
            let ghost now = self.attachments@;
            let file: &DroppedPath = &paths[i];
            let name: String = match &file.name {
                Some(name) => name.clone(),
                None => file.path.clone(),
            };
            let mut uri: String = "file://".to_owned();
            uri.append(file.path.as_str());
            let block: ContentBlock = ContentBlock::ResourceLink {
                uri,
                name: name.clone(),
                mime_type: None,
                title: None,
                description: None,
            };
            self.attachments.push(Attachment { block, label: name });
            proof {
                assert(self.attachments@.take(before.len() as int) =~= now.take(
                    before.len() as int,
                ));
            }
            i = i + 1;
        }
    }

    /// An image goes with the next message.
    pub fn attach_image(&mut self, mime_type: &str, bytes: &Vec<u8>)
        ensures
            final(self).attachments@.len() == old(self).attachments@.len() + 1,
            final(self).attachments@.drop_last() == old(self).attachments@,
            pictures(final(self).attachments@.last(), mime_type@, bytes@),
            *final(self) == (AmuxApp { attachments: final(self).attachments, ..*old(self) }),
    {
        let block: ContentBlock = ContentBlock::Resource {
            mime_type: mime_type.to_owned(),
            uri: None,
            text: None,
            blob: Some(base64_encode(bytes)),
        };
        self.attachments.push(Attachment { block, label: "粘贴的图片".to_owned() });
        proof {
            assert(self.attachments@.drop_last() =~= old(self).attachments@);
        }
    }

    /// Takes up one thing that was pasted. Text and images without contents are left to the input.
    pub fn paste_into_composer(&mut self, entry: &Pasted) -> (r: bool)
        ensures
            *final(self) == (AmuxApp { attachments: final(self).attachments, ..*old(self) }),
            match *entry {
                Pasted::Image { mime_type, bytes } => if bytes@.len() == 0 {
                    !r && *final(self) == *old(self)
                } else {
                    r && final(self).attachments@.len() == old(self).attachments@.len() + 1
                        && final(self).attachments@.drop_last() == old(self).attachments@
                        && pictures(final(self).attachments@.last(), mime_type@, bytes@)
                },
                Pasted::Paths(paths) => r && final(self).attachments@.len() == old(
                    self,
                ).attachments@.len() + paths@.len() && final(self).attachments@.take(
                    old(self).attachments@.len() as int,
                ) == old(self).attachments@ && forall|i: int|
                    0 <= i < paths@.len() ==> links(
                        #[trigger] final(self).attachments@[old(self).attachments@.len() + i],
                        paths@[i],
                    ),
                Pasted::Other => !r && *final(self) == *old(self),
            },
    {
        match entry {
            Pasted::Image { mime_type, bytes } => {
                if bytes.len() == 0 {
                    return false;
                }
                self.attach_image(mime_type.as_str(), bytes);
                true
            },
            Pasted::Paths(paths) => {
                self.attach_paths(paths);
                true
            },
            Pasted::Other => false,
        }
    }

    /// Something does not go with the next message after all.
    pub fn remove_attachment(&mut self, ix: usize)
        ensures
            *final(self) == (AmuxApp { attachments: final(self).attachments, ..*old(self) }),
            final(self).attachments@ == if ix < old(self).attachments@.len() {
                old(self).attachments@.remove(ix as int)
            } else {
                old(self).attachments@
            },
    {
        if ix < self.attachments.len() {
            let _ = self.attachments.remove(ix);
        }
    }

    /// Nothing goes with the next message.
    pub fn clear_attachments(&mut self)
        ensures
            *final(self) == (AmuxApp { attachments: final(self).attachments, ..*old(self) }),
            final(self).attachments@.len() == 0,
    {
        self.attachments = Vec::new();
    }

    /// The commands that what was typed may be the beginning of, unless they were put away.
    pub fn slash_candidates(&self, value: &str) -> (r: Vec<SlashCommand>)
        ensures
            r@ == if self.slash_dismissed {
                Seq::empty()
            } else {
                candidates(self.core.view.detail.slash_commands@, value@)
            },
    {
        if self.slash_dismissed {
            let none: Vec<SlashCommand> = Vec::new();
            proof {
                assert(none@ =~= Seq::empty());
            }
            return none;
        }
        let query: String = match query_of(value) {
            Some(query) => to_lowercase(query.as_str()),
            None => {
                let none: Vec<SlashCommand> = Vec::new();
                proof {
                    assert(none@ =~= Seq::empty());
                }
                return none;
            },
        };
        let commands: &Vec<SlashCommand> = &self.core.view.detail.slash_commands;
        let ghost small = commands@.map_values(|c: SlashCommand| small_letters(c.name@));
        let mut names: Vec<String> = Vec::new();
        let mut i: usize = 0;
        while i < commands.len()
            invariant
                0 <= i <= commands@.len(),
                small == commands@.map_values(|c: SlashCommand| small_letters(c.name@)),
                names@.len() == i,
                forall|k: int| 0 <= k < i ==> (#[trigger] names@[k])@ == small[k],
            decreases commands.len() - i,
        {
            names.push(to_lowercase(commands[i].name.as_str()));
            i = i + 1;
        }
        proof {
            assert(strings::views(names@) =~= small);
        }
        commands_fitting(commands, &names, query.as_str())
    }

    /// Takes up a command: what stands in the input afterwards.
    pub fn apply_slash_command(&mut self, command: &SlashCommand) -> (r: String)
        ensures
            r@ == "/"@ + command.name@ + " "@,
            *final(self) == (AmuxApp { slash_selected: 0, ..*old(self) }),
    {
        self.slash_selected = 0;
        let mut r: String = "/".to_owned();
        r.append(command.name.as_str());
        r.append(" ");
        r
    }

    /// A key was pressed in the input.
    pub fn composer_key_down(&mut self, key: &str, offered: &Vec<SlashCommand>) -> (r: SlashKey)
        ensures
            match slash_effect(key@, old(self).slash_selected, offered@.len()) {
                SlashEffect::Pass => r is Pass && *final(self) == *old(self),
                SlashEffect::Mark(marked) => r is Taken && *final(self) == (AmuxApp {
                    slash_selected: marked,
                    ..*old(self)
                }),
                SlashEffect::Apply(taken) => (r matches SlashKey::Apply(text) && text@ == "/"@
                    + offered@[taken as int].name@ + " "@) && *final(self) == (AmuxApp {
                    slash_selected: 0,
                    ..*old(self)
                }),
                SlashEffect::Dismiss => r is Taken && *final(self) == (AmuxApp {
                    slash_dismissed: true,
                    ..*old(self)
                }),
            },
    {
        match effect_of(key, self.slash_selected, offered.len()) {
            SlashEffect::Pass => SlashKey::Pass,
            SlashEffect::Mark(marked) => {
                self.slash_selected = marked;
                SlashKey::Taken
            },
            SlashEffect::Apply(taken) => SlashKey::Apply(
                self.apply_slash_command(&offered[taken]),
            ),
            SlashEffect::Dismiss => {
                self.slash_dismissed = true;
                SlashKey::Taken
            },
        }
    }
}

} // verus!
