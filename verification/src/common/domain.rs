//! The domain types: sessions, conversations, activities, terminals, files and diffs.
use super::text;
use super::text::truncate;
use crate::strings;
use crate::strings::{join, lines, same, trim, words};
use vstd::prelude::*;

verus! {

/// Whether a session waits or works.
#[derive(Debug, Clone, Copy, PartialEq, Eq, Structural)]
pub enum SessionState {
    Idle,
    Busy,
}

impl SessionState {
    /// The name of a state on the wire and on disk.
    pub open spec fn name(self) -> Seq<char> {
        match self {
            SessionState::Idle => "idle"@,
            SessionState::Busy => "busy"@,
        }
    }

    /// The name of the state on the wire and on disk.
    pub fn as_str(self) -> (r: &'static str)
        ensures
            r@ == self.name(),
    {
        match self {
            SessionState::Idle => "idle",
            SessionState::Busy => "busy",
        }
    }
}

/// The state that a name stands for.
pub open spec fn state_named(s: Seq<char>) -> Option<SessionState> {
    if s == "idle"@ {
        Some(SessionState::Idle)
    } else if s == "busy"@ {
        Some(SessionState::Busy)
    } else {
        None
    }
}

/// Reads the name of a state.
pub fn parse_session_state(s: &str) -> (r: Option<SessionState>)
    ensures
        r == state_named(s@),
{
    if same(s, "idle") {
        Some(SessionState::Idle)
    } else if same(s, "busy") {
        Some(SessionState::Busy)
    } else {
        None
    }
}

/// Reading the name of a state gives the state back, and a name that is read is the name of
/// the state it gave.
pub proof fn law_state_names_round_trip(state: SessionState, s: Seq<char>)
    ensures
        state_named(state.name()) == Some(state),
        state_named(s) is Some ==> state_named(s)->0.name() == s,
{
    reveal_strlit("idle");
    reveal_strlit("busy");
    assert("idle"@[0] != "busy"@[0]);
}

/// Why a session's state changed.
#[derive(Debug, Clone, Copy, PartialEq, Eq, Structural)]
pub enum StateChangeReason {
    /// The turn ended.
    Completed,
    /// The client cancelled it.
    Cancelled,
    /// The token limit was reached.
    MaxTokens,
    /// The limit of requests in one turn was reached.
    MaxTurnRequests,
    /// The agent declined to go on.
    Refusal,
    /// The connection broke or the call failed.
    Aborted,
}

impl Default for StateChangeReason {
    fn default() -> (r: Self)
        ensures
            r == StateChangeReason::Completed,
    {
        StateChangeReason::Completed
    }
}

/// One block of the content of a message.
#[allow(inconsistent_fields)]
#[derive(Debug, PartialEq)]
pub enum ContentBlock {
    Text { text: String },
    Resource {
        mime_type: String,
        uri: Option<String>,
        text: Option<String>,
        blob: Option<String>,
    },
    ResourceLink {
        uri: String,
        name: String,
        mime_type: Option<String>,
        title: Option<String>,
        description: Option<String>,
    },
}

impl Clone for ContentBlock {
    fn clone(&self) -> (r: Self)
        ensures
            r == *self,
    {
        match self {
            ContentBlock::Text { text } => ContentBlock::Text { text: text.clone() },
            ContentBlock::Resource { mime_type, uri, text, blob } => ContentBlock::Resource {
                mime_type: mime_type.clone(),
                uri: copy_text(uri),
                text: copy_text(text),
                blob: copy_text(blob),
            },
            ContentBlock::ResourceLink { uri, name, mime_type, title, description } =>
            ContentBlock::ResourceLink {
                uri: uri.clone(),
                name: name.clone(),
                mime_type: copy_text(mime_type),
                title: copy_text(title),
                description: copy_text(description),
            },
        }
    }
}

/// A copy of an optional text.
pub fn copy_text(text: &Option<String>) -> (r: Option<String>)
    ensures
        r == *text,
{
    match text {
        Some(t) => Some(t.clone()),
        None => None,
    }
}

/// An entry of a conversation: what the user said or what the agent answered.
#[derive(Debug, Clone, PartialEq)]
pub enum HistoryItem {
    UserMessage { id: String, content: Vec<ContentBlock>, timestamp: u64 },
    AgentMessage { id: String, content: Vec<ContentBlock>, timestamp: u64 },
}

impl HistoryItem {
    /// The identity of the entry.
    pub open spec fn key(self) -> Seq<char> {
        match self {
            HistoryItem::UserMessage { id, .. } => id@,
            HistoryItem::AgentMessage { id, .. } => id@,
        }
    }

    /// The identity of the entry.
    pub fn id(&self) -> (r: &str)
        ensures
            r@ == self.key(),
    {
        match self {
            HistoryItem::UserMessage { id, .. } => id.as_str(),
            HistoryItem::AgentMessage { id, .. } => id.as_str(),
        }
    }
}

/// What a session did in the course of a turn.
#[derive(Debug, PartialEq)]
pub enum Activity {
    Thinking { id: String, timestamp: u64, thinking: String },
    ToolCall {
        id: String,
        timestamp: u64,
        tool_call_id: String,
        tool_name: String,
        title: Option<String>,
        parameters: Option<String>,
    },
    Error { id: String, timestamp: u64, error: String },
}

impl Clone for Activity {
    fn clone(&self) -> (r: Self)
        ensures
            r == *self,
    {
        match self {
            Activity::Thinking { id, timestamp, thinking } => Activity::Thinking {
                id: id.clone(),
                timestamp: *timestamp,
                thinking: thinking.clone(),
            },
            Activity::ToolCall { id, timestamp, tool_call_id, tool_name, title, parameters } =>
            Activity::ToolCall {
                id: id.clone(),
                timestamp: *timestamp,
                tool_call_id: tool_call_id.clone(),
                tool_name: tool_name.clone(),
                title: copy_text(title),
                parameters: copy_text(parameters),
            },
            Activity::Error { id, timestamp, error } => Activity::Error {
                id: id.clone(),
                timestamp: *timestamp,
                error: error.clone(),
            },
        }
    }
}

impl Activity {
    /// The identity of the activity.
    pub open spec fn key(self) -> Seq<char> {
        match self {
            Activity::Thinking { id, .. } => id@,
            Activity::ToolCall { id, .. } => id@,
            Activity::Error { id, .. } => id@,
        }
    }

    /// The identity of the activity.
    pub fn id(&self) -> (r: &str)
        ensures
            r@ == self.key(),
    {
        match self {
            Activity::Thinking { id, .. } => id.as_str(),
            Activity::ToolCall { id, .. } => id.as_str(),
            Activity::Error { id, .. } => id.as_str(),
        }
    }
}

/// An option of a session.
#[derive(Debug, Clone, PartialEq)]
pub struct SessionConfigOption {
    /// What identifies the option when it is set.
    pub id: String,
    pub name: String,
    pub description: Option<String>,
    /// What the option is about, such as the model or the level of thought.
    pub category: Option<String>,
    pub kind: SessionConfigKind,
}

/// The value of an option and what it can be set to.
#[allow(inconsistent_fields)]
#[derive(Debug, Clone, PartialEq)]
pub enum SessionConfigKind {
    /// One of several values.
    Select { current_value: String, options: Vec<SessionConfigSelectEntry> },
    /// On or off.
    Boolean { current_value: bool },
}

/// A value that an option can be set to.
#[derive(Debug, PartialEq)]
pub struct SessionConfigSelectEntry {
    pub value: String,
    pub name: String,
}

impl Clone for SessionConfigSelectEntry {
    fn clone(&self) -> (r: Self)
        ensures
            r == *self,
    {
        SessionConfigSelectEntry { value: self.value.clone(), name: self.name.clone() }
    }
}

/// What an option is to be set to.
#[allow(inconsistent_fields)]
#[derive(Debug, PartialEq)]
pub enum SessionConfigOptionValue {
    ValueId { value: String },
    Boolean { value: bool },
}

impl Clone for SessionConfigOptionValue {
    fn clone(&self) -> (r: Self)
        ensures
            r == *self,
    {
        match self {
            SessionConfigOptionValue::ValueId { value } => SessionConfigOptionValue::ValueId {
                value: value.clone(),
            },
            SessionConfigOptionValue::Boolean { value } => SessionConfigOptionValue::Boolean {
                value: *value,
            },
        }
    }
}

/// A command that the user calls by a slash and its name.
#[derive(Debug, PartialEq)]
pub struct SlashCommand {
    pub name: String,
    pub description: String,
    /// What to write behind the name, where the command takes input.
    pub hint: Option<String>,
}

impl Clone for SlashCommand {
    fn clone(&self) -> (r: Self)
        ensures
            r == *self,
    {
        SlashCommand {
            name: self.name.clone(),
            description: self.description.clone(),
            hint: copy_text(&self.hint),
        }
    }
}

/// How much an entry of a plan matters.
#[derive(Debug, Clone, Copy, PartialEq, Eq, Structural)]
pub enum SessionPlanPriority {
    High,
    Medium,
    Low,
}

/// How far an entry of a plan has come.
#[derive(Debug, Clone, Copy, PartialEq, Eq, Structural)]
pub enum SessionPlanStatus {
    Pending,
    InProgress,
    Completed,
}

/// An entry of a session's plan.
#[derive(Debug, Clone, PartialEq, Eq)]
pub struct SessionPlanEntry {
    pub content: String,
    pub priority: SessionPlanPriority,
    pub status: SessionPlanStatus,
}

/// What happened to a file. A rename shows as a deletion and an addition.
#[derive(Debug, Clone, Copy, PartialEq, Eq, Structural)]
pub enum GitChangeStatus {
    Added,
    Modified,
    Deleted,
}

/// A run of changed lines with the lines around it.
#[derive(Debug, Clone, PartialEq)]
pub struct GitDiffHunk {
    pub header: String,
    /// The patch text of this run of lines, with the head of its file.
    pub patch: String,
    pub lines: Vec<GitDiffLine>,
}

/// What a line of a diff says.
#[derive(Debug, Clone, Copy, PartialEq, Eq, Structural)]
pub enum GitDiffLineKind {
    Context,
    Add,
    Remove,
}

impl GitDiffLineKind {
    /// The character that a unified diff puts before such a line.
    pub open spec fn mark(self) -> char {
        match self {
            GitDiffLineKind::Context => ' ',
            GitDiffLineKind::Add => '+',
            GitDiffLineKind::Remove => '-',
        }
    }

    /// The character that a unified diff puts before such a line.
    pub fn prefix(self) -> (r: char)
        ensures
            r == self.mark(),
    {
        match self {
            GitDiffLineKind::Context => ' ',
            GitDiffLineKind::Add => '+',
            GitDiffLineKind::Remove => '-',
        }
    }
}

/// A line of a diff.
#[derive(Debug, PartialEq, Eq)]
pub struct GitDiffLine {
    pub kind: GitDiffLineKind,
    /// The line without its mark and without its line end.
    pub text: String,
}

impl Clone for GitDiffLine {
    fn clone(&self) -> (r: Self)
        ensures
            r == *self,
    {
        GitDiffLine { kind: self.kind, text: self.text.clone() }
    }
}

/// The changes of one file.
#[derive(Debug, Clone, PartialEq)]
pub struct GitDiffFile {
    pub path: String,
    pub status: GitChangeStatus,
    pub additions: u32,
    pub deletions: u32,
    /// The patch text of the file with all its runs of changed lines.
    pub patch: String,
    pub hunks: Vec<GitDiffHunk>,
}

/// The changes of a repository.
#[derive(Debug, Clone, PartialEq)]
pub struct GitDiffResult {
    pub files: Vec<GitDiffFile>,
    /// The directory is in no Git repository.
    pub not_repo: bool,
}

impl Default for GitDiffResult {
    fn default() -> (r: Self)
        ensures
            r.files@.len() == 0,
            !r.not_repo,
    {
        GitDiffResult { files: Vec::new(), not_repo: false }
    }
}

/// An entry of a directory.
#[derive(Debug, PartialEq)]
pub struct FsEntry {
    /// The last part of the path.
    pub name: String,
    /// The absolute path.
    pub path: String,
    pub is_dir: bool,
    pub size: u64,
}

impl Clone for FsEntry {
    fn clone(&self) -> (r: Self)
        ensures
            r == *self,
    {
        FsEntry {
            name: self.name.clone(),
            path: self.path.clone(),
            is_dir: self.is_dir,
            size: self.size,
        }
    }
}

/// Asks for a page of a directory. Without a path it is the daemon's own directory.
#[derive(Debug, Clone, PartialEq)]
pub struct FsListParams {
    pub path: Option<String>,
    pub limit: usize,
    pub offset: usize,
    /// Only directories are asked for.
    pub dirs_only: bool,
}

/// A page of a directory.
#[derive(Debug, Clone, PartialEq)]
pub struct FsListResult {
    pub path: String,
    pub entries: Vec<FsEntry>,
    pub has_more: bool,
    pub next_offset: usize,
}

/// Asks for a page of lines of a text file.
#[derive(Debug, Clone, PartialEq)]
pub struct FsReadParams {
    pub path: String,
    pub offset: usize,
    pub limit: usize,
}

/// A page of lines of a text file.
#[derive(Debug, Clone, PartialEq)]
pub struct FsReadResult {
    pub path: String,
    pub content: String,
    pub has_more: bool,
    pub next_offset: usize,
}

/// Asks for a terminal of the given size.
#[derive(Debug, Clone, PartialEq)]
pub struct TerminalOpenParams {
    pub cwd: String,
    pub cols: u16,
    pub rows: u16,
}

/// The terminal that was opened.
#[derive(Debug, Clone, PartialEq)]
pub struct TerminalOpenResult {
    pub terminal_id: String,
}

/// Asks for another size of a terminal.
#[derive(Debug, Clone, PartialEq)]
pub struct TerminalResizeParams {
    pub terminal_id: String,
    pub cols: u16,
    pub rows: u16,
}

/// Bytes typed into a terminal, in base64.
#[derive(Debug, Clone, PartialEq)]
pub struct TerminalInputParams {
    pub terminal_id: String,
    pub data: String,
}

/// Names a terminal.
#[derive(Debug, Clone, PartialEq)]
pub struct TerminalIdParams {
    pub terminal_id: String,
}

/// Bytes that a terminal put out, in base64.
#[derive(Debug, Clone, PartialEq)]
pub struct TerminalOutputNotification {
    pub terminal_id: String,
    pub data: String,
}

/// A terminal whose process ended.
#[derive(Debug, Clone, PartialEq)]
pub struct TerminalExitNotification {
    pub terminal_id: String,
}

/// The answer to a request that only has to be carried out.
#[derive(Debug, Clone, PartialEq)]
pub struct OpResult {
    pub ok: bool,
    pub message: Option<String>,
}

impl OpResult {
    /// It was carried out.
    pub fn ok() -> (r: Self)
        ensures
            r.ok,
            r.message is None,
    {
        OpResult { ok: true, message: None }
    }
}

/// The sizes of pages where a request names none.
pub const SESSION_LIST_DEFAULT_LIMIT: usize = 50;

pub const SESSION_PAGE_DEFAULT_LIMIT: usize = 200;

pub const FS_LIST_PAGE_LIMIT: usize = 200;

pub const FS_READ_PAGE_LIMIT: usize = 400;

/// The page size of a directory listing that names none.
pub fn default_fs_list_limit() -> (r: usize)
    ensures
        r == FS_LIST_PAGE_LIMIT,
{
    FS_LIST_PAGE_LIMIT
}

/// The page size of a file reading that names none.
pub fn default_fs_read_limit() -> (r: usize)
    ensures
        r == FS_READ_PAGE_LIMIT,
{
    FS_READ_PAGE_LIMIT
}

/// The first line of a text, or nothing where it has none.
pub open spec fn first_line(s: Seq<char>) -> Seq<char> {
    if strings::lines_of(s).len() > 0 {
        strings::lines_of(s)[0]
    } else {
        Seq::empty()
    }
}

/// The title of a session that begins with the given input: the words of its first line with
/// one space between them, cut to forty characters.
pub open spec fn title_of(input: Seq<char>) -> Seq<char> {
    text::truncated(strings::collapsed(strings::trim_of(first_line(input))), 40)
}

/// The title of a session that begins with the given input.
pub fn generate_title(input: &str) -> (r: String)
    ensures
        r@ == title_of(input@),
{
    let all: Vec<String> = lines(input);
    let line: String = if all.len() > 0 {
        proof {
            assert(strings::views(all@)[0] == all@[0]@);
        }
        trim(all[0].as_str())
    } else {
        proof {
            assert(strings::views(all@).len() == 0);
        }
        trim("")
    };
    proof {
        reveal_strlit("");
        assert(""@ =~= Seq::<char>::empty());
        assert(line@ == strings::trim_of(first_line(input@)));
    }
    let parts: Vec<String> = words(line.as_str());
    let collapsed: String = join(&parts, " ");
    truncate(collapsed.as_str(), 40)
}

/// Making a title of a title changes nothing.
pub proof fn law_title_of_a_title_is_that_title(input: Seq<char>)
    ensures
        title_of(title_of(input)) == title_of(input),
{
    let line = strings::trim_of(first_line(input));
    let whole = strings::collapsed(line);
    let title = title_of(input);
    strings::lemma_collapsed_is_neat(line);
    assert(strings::neat(title)) by {
        if whole.len() > 40 {
            assert(title[0] == whole[0]);
            assert(!strings::white('…'));
            assert forall|i: int| 0 <= i < title.len() && strings::white(#[trigger] title[i]) implies title[i]
                == ' ' by {
                assert(i < 40);
                assert(title[i] == whole[i]);
            }
            assert forall|i: int, j: int|
                0 <= i && j == i + 1 && j < title.len() implies !(strings::white(
                #[trigger] title[i],
            ) && strings::white(#[trigger] title[j])) by {
                if j < 40 {
                    assert(title[i] == whole[i]);
                    assert(title[j] == whole[j]);
                }
            }
        }
    }
    assert(first_line(title) == title) by {
        if title.len() > 0 {
            assert forall|i: int| 0 <= i < title.len() implies #[trigger] title[i] != '\n' by {
                assert(strings::white('\n'));
            }
            strings::lemma_index_of_char_is(title, '\n', title.len() as int);
        } else {
            assert(title =~= Seq::empty());
        }
    }
    strings::lemma_neat_is_kept(title);
    if whole.len() > 40 {
        assert(title.take(40).push('…') =~= title);
    }
}

/// Whether a flag is off, and so left out on the wire.
pub fn is_false(b: &bool) -> (r: bool)
    ensures
        r == !*b,
{
    !*b
}

} // verus!
