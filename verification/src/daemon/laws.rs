//! What holds of the daemon as a whole.
use super::agents::{LaunchSpec, Programs};
use super::connection::{Call, ConnectFailure, Dispatch};
use super::git::unified::HunkHeader;
use super::git::worktree::{FoundWorktrees, GitError, LinkedWorktree};
use super::nano::{PromptPart, Session};
use super::rpc::RpcError;
use super::terminal::OpenFailure;
use crate::common::domain::{FsEntry, GitDiffLineKind};
use crate::common::jsonrpc::{JsonRpcId, JsonRpcNotification, JsonRpcRequest};
use crate::daemon::agents;
use crate::daemon::connection;
use crate::daemon::frames;
use crate::daemon::fs;
use crate::daemon::git::unified;
use crate::daemon::git::worktree;
use crate::daemon::machine;
use crate::daemon::nano;
use crate::daemon::outbox;
use crate::daemon::terminal;
use crate::encoding;
use crate::json;
use crate::sorting;
use crate::sorting::Ranked;
use crate::strings;
use vstd::prelude::*;

verus! {

/// Where there is no room for all, the newest stay, in their order.
pub proof fn law_the_newest_stay<A>(s: Seq<A>, n: nat)
    ensures
        outbox::newest(s, n).is_suffix_of(s),
        outbox::newest(s, n).len() == if s.len() < n {
            s.len()
        } else {
            n
        },
{
    assert(s.skip(s.len() - outbox::newest(s, n).len()) =~= outbox::newest(s, n));
}

/// Only the first frame that waits can be acknowledged, and only by its own number.
pub proof fn law_only_the_first_frame_is_acknowledged(waiting: Seq<(u64, Seq<char>)>, seq: u64)
    ensures
        waiting.len() > 0 && waiting[0].0 == seq ==> seq![waiting[0]] + outbox::acknowledged(
            waiting,
            seq,
        ) == waiting,
        waiting.len() == 0 || waiting[0].0 != seq ==> outbox::acknowledged(waiting, seq) == waiting,
{
    if waiting.len() > 0 {
        assert(seq![waiting[0]] + waiting.skip(1) =~= waiting);
    }
}

/// An address that names a path is used as it is; to another the path of the daemon is added, once.
pub proof fn law_the_daemon_path_is_added_once(server: Seq<char>)
    ensures
        connection::after_scheme(server).contains('/') ==> connection::endpoint(server) == server,
        !connection::after_scheme(server).contains('/') && (server.len() == 0 || server.last() != '/')
            ==> connection::endpoint(server) == server + "/daemon"@,
        !connection::after_scheme(server).contains('/') ==> "/daemon"@.is_suffix_of(
            connection::endpoint(server),
        ),
{
    let r = connection::endpoint(server);
    let path = "/daemon"@;
    let less = strings::trim_end_char(server, '/');
    assert((less + path).skip((less + path).len() - path.len()) =~= path);
}

/// What stands behind the first `://` of an address, or all of it where there is none.
pub proof fn law_the_scheme_ends_at_its_mark(scheme: Seq<char>, rest: Seq<char>)
    requires
        !scheme.contains(':'),
    ensures
        connection::after_scheme(scheme + "://"@ + rest) == rest,
        connection::after_scheme(scheme) == scheme,
{
    reveal_strlit("://");
    let mark = "://"@;
    let all = scheme + mark + rest;
    assert forall|j: int| 0 <= j < scheme.len() implies !mark.is_prefix_of(
        #[trigger] all.skip(j),
    ) by {
        assert(all.skip(j)[0] == scheme[j]);
        assert(scheme.contains(scheme[j]));
        if mark.is_prefix_of(all.skip(j)) {
            assert(all.skip(j).subrange(0, 3)[0] == mark[0]);
        }
    }
    assert(all.skip(scheme.len() as int) =~= mark + rest);
    assert(mark.is_prefix_of(all.skip(scheme.len() as int)));
    strings::lemma_position_is(all, mark, scheme.len() as int);
    assert(all.skip(scheme.len() as int + 3) =~= rest);
    assert forall|j: int| 0 <= j < scheme.len() implies !mark.is_prefix_of(
        #[trigger] scheme.skip(j),
    ) by {
        assert(scheme.skip(j)[0] == scheme[j]);
        assert(scheme.contains(scheme[j]));
        if mark.is_prefix_of(scheme.skip(j)) {
            assert(scheme.skip(j).subrange(0, 3)[0] == mark[0]);
        }
    }
    strings::lemma_position_is(scheme, mark, scheme.len() as int);
}

/// A message is a request where it names a method and can be read as one; read as a notification
/// alone it is one. Without a method it is neither, and what is no JSON is nothing.
pub proof fn law_messages_are_told_apart(
    named: Option<bool>,
    request: Option<JsonRpcRequest>,
    notification: Option<JsonRpcNotification>,
    r: Dispatch,
)
    requires
        connection::asked(named, request, notification, r),
    ensures
        r is NotJson <==> named is None,
        r is NoMethod <==> named == Some(false),
        r is Request <==> named == Some(true) && request is Some,
        r is Unreadable <==> named == Some(true) && request is None && notification is None,
        r matches Dispatch::Request(read) ==> Some(read) == request,
        named == Some(true) && request is None && notification is Some ==> {
            let read = notification->0;
            &&& r is UnknownNotification <==> read.method@ != "acp"@
            &&& r is Forward <==> read.method@ == "acp"@ && read.params is Some
            &&& r is NoParams <==> read.method@ == "acp"@ && read.params is None
            &&& r matches Dispatch::Forward(params) ==> Some(params) == read.params
            &&& r matches Dispatch::UnknownNotification(method) ==> method == read.method
        },
{
}

/// The methods of the daemon, by what they do.
pub proof fn law_methods_have_their_names(call: Call)
    ensures
        call.method() == "machine.info"@ <== call is MachineInfo,
        call.method() == "agent.list"@ <== call is AgentList,
        call.method() == "agent.restart"@ <== call is AgentRestart,
        call.method() == "git.diff"@ <== call is GitDiff,
        call.method() == "git.worktree.new"@ <== call is GitWorktreeNew,
        call.method() == "git.worktree.resume"@ <== call is GitWorktreeResume,
        call.method() == "git.worktree.list"@ <== call is GitWorktreeList,
        call.method() == "git.worktree.remove"@ <== call is GitWorktreeRemove,
        call.method() == "fs.list"@ <== call is FsList,
        call.method() == "fs.read"@ <== call is FsRead,
        call.method() == "terminal.open"@ <== call is TerminalOpen,
        call.method() == "terminal.resize"@ <== call is TerminalResize,
        call.method() == "terminal.input"@ <== call is TerminalInput,
        call.method() == "terminal.close"@ <== call is TerminalClose,
{
}

/// A failure to connect says at what it failed.
pub proof fn law_connection_failures_say_where(failure: ConnectFailure)
    ensures
        failure is Address ==> failure.text() == "Server 地址非法: "@,
        failure is Token ==> failure.text() == "token 含非法字符: "@,
        failure is Machine ==> failure.text() == "机器名编码失败: "@,
        failure is Handshake ==> failure.text() == "握手失败: "@,
        failure is Receive ==> failure.text() == "接收失败: "@,
{
}

/// The built-in agent is always there. Codex is there where all that it takes is installed. There are
/// no others.
pub proof fn law_what_agents_take(agent: Seq<char>, programs: Programs)
    ensures
        agent == "nano"@ ==> agents::installed(agent, programs),
        agent == "codex"@ ==> (agents::installed(agent, programs) <==> programs.codex && programs.npx
            && programs.bun),
        agent != "nano"@ && agent != "codex"@ ==> !agents::installed(agent, programs),
{
    reveal_strlit("nano");
    reveal_strlit("codex");
    assert("nano"@.len() != "codex"@.len());
}

/// The number or the text of a request is that of its answer.
pub proof fn law_answers_bear_the_number_of_the_request(n: u64, m: u64)
    ensures
        frames::id_text(JsonRpcId::Number(n)) == strings::decimal(n as nat),
        frames::id_text(JsonRpcId::Number(n)) == frames::id_text(JsonRpcId::Number(m)) ==> n == m,
        forall|s: String| #[trigger]
            frames::id_text(JsonRpcId::String(s)) == json::json_quoted(s@),
{
    strings::lemma_decimal(n as nat);
    strings::lemma_decimal(m as nat);
}

/// What an agent says is passed on with its name.
pub proof fn law_messages_of_agents_bear_their_names(agent: Seq<char>, raw: Seq<char>)
    ensures
        frames::acp_params(agent, raw) == "{"@ + json::json_quoted("agent"@) + ":"@
            + json::json_quoted(agent) + ","@ + json::json_quoted("raw"@) + ":"@ + json::json_quoted(
            raw,
        ) + "}"@,
{
}

/// Output of a terminal is told with the terminal that it is of, and so is that it ended.
pub proof fn law_output_bears_its_terminal(id: Seq<char>, chunk: Seq<u8>)
    ensures
        terminal::output_frame_text(id, chunk) == "{\"jsonrpc\":\"2.0\",\"method\":"@
            + json::json_quoted("terminal.output"@) + ",\"params\":"@ + ("{"@ + json::json_quoted(
            "terminalId"@,
        ) + ":"@ + json::json_quoted(id) + ","@ + json::json_quoted("data"@) + ":"@
            + json::json_quoted(encoding::base64_text(chunk)) + "}"@) + "}"@,
        terminal::exit_frame_text(id) == "{\"jsonrpc\":\"2.0\",\"method\":"@ + json::json_quoted(
            "terminal.exit"@,
        ) + ",\"params\":"@ + ("{"@ + json::json_quoted("terminalId"@) + ":"@ + json::json_quoted(
            id,
        ) + "}"@) + "}"@,
{
}

/// A terminal that cannot be opened says at what it failed.
pub proof fn law_terminal_failures_say_where(failure: OpenFailure)
    ensures
        failure is Pty ==> terminal::open_failure_text(failure) == "PTY 分配失败: "@,
        failure is Shell ==> terminal::open_failure_text(failure) == "shell 启动失败: "@,
        failure is Writer ==> terminal::open_failure_text(failure) == "PTY writer 获取失败: "@,
        failure is Reader ==> terminal::open_failure_text(failure) == "PTY reader 获取失败: "@,
        failure is WaitThread ==> terminal::open_failure_text(failure)
            == "等待线程启动失败: "@,
        failure is InputThread ==> terminal::open_failure_text(failure)
            == "输入线程启动失败: "@,
        failure is OutputThread ==> terminal::open_failure_text(failure)
            == "输出线程启动失败: "@,
{
}

/// A size without columns or rows is a fault of the parameters; a terminal that is not there has a
/// code of its own.
pub proof fn law_terminal_errors_have_their_codes(error: RpcError)
    ensures
        terminal::bad_size(error) <==> error.code == -32602 && error.message@
            == "终端行列必须为正"@,
        terminal::missing(error) <==> error.code == -32002 && error.message@
            == "终端不存在或已关闭"@,
{
}

/// A host has a name: the one that is set, else the one in its file, else that it is not known.
pub proof fn law_hosts_have_names(set: Option<Seq<char>>, file: Option<Seq<char>>)
    ensures
        machine::host_of(set, file).len() > 0,
        set matches Some(name) ==> name.len() > 0 ==> machine::host_of(set, file) == name,
        (set is None || set->0.len() == 0) && file is Some && !strings::blank(file->0)
            ==> machine::host_of(set, file) == strings::trim_of(file->0),
        (set is None || set->0.len() == 0) && (file is None || strings::blank(file->0))
            ==> machine::host_of(set, file) == "unknown"@,
{
    reveal_strlit("unknown");
    if file is Some {
        strings::lemma_blank_trim(file->0);
    }
}

/// A page holds as many items as were asked for, one at least and no more than are allowed, from
/// where it was asked for; the last one may hold fewer.
pub proof fn law_pages_hold_what_was_asked_for<A>(all: Seq<A>, offset: nat, limit: nat, max: nat)
    requires
        max >= 1,
    ensures
        ({
            let size = fs::clamped(limit, max);
            let page = fs::page_of(all, offset, size);
            &&& 1 <= size <= max
            &&& 1 <= limit <= max ==> size == limit
            &&& limit > max ==> size == max
            &&& offset >= all.len() ==> page.len() == 0
            &&& offset < all.len() && offset + size <= all.len() ==> page == all.subrange(
                offset as int,
                (offset + size) as int,
            )
            &&& offset < all.len() < offset + size ==> page == all.skip(offset as int)
            &&& fs::page_end(all.len(), offset, size) == fs::page_start(all.len(), offset)
                + page.len()
        }),
{
    let size = fs::clamped(limit, max);
    if offset < all.len() < offset + size {
        assert(fs::page_of(all, offset, size) =~= all.skip(offset as int));
    }
}

/// A directory is listed with its directories before its files, each in the order of their names.
/// Every entry is listed, or every directory where only those are asked for, and nothing else.
pub proof fn law_directories_are_listed_first(entries: Seq<FsEntry>, dirs_only: bool, entry: FsEntry)
    ensures
        ({
            let all = fs::listed(entries, dirs_only);
            &&& all.contains(entry) <==> entries.contains(entry) && (dirs_only ==> entry.is_dir)
            &&& !dirs_only ==> all.to_multiset() == entries.to_multiset()
            &&& forall|i: int, j: int|
                #![trigger all[i], all[j]]
                0 <= i < j < all.len() ==> (all[j].is_dir ==> all[i].is_dir) && (all[i].is_dir
                    == all[j].is_dir ==> sorting::bytes_at_most(
                    vstd::utf8::encode_utf8(all[i].name@),
                    vstd::utf8::encode_utf8(all[j].name@),
                ))
        }),
{
    broadcast use vstd::seq_lib::group_to_multiset_ensures;

    let kept = if dirs_only {
        entries.filter(|e: FsEntry| e.is_dir)
    } else {
        entries
    };
    sorting::law_sorting_orders(kept);
    let all = fs::listed(entries, dirs_only);
    assert(all.contains(entry) <==> all.to_multiset().count(entry) > 0);
    assert(kept.contains(entry) <==> kept.to_multiset().count(entry) > 0);
    if dirs_only {
        lemma_directories(entries, entry);
    }
    assert forall|i: int, j: int|
        #![trigger all[i], all[j]]
        0 <= i < j < all.len() implies (all[j].is_dir ==> all[i].is_dir) && (all[i].is_dir
        == all[j].is_dir ==> sorting::bytes_at_most(
        vstd::utf8::encode_utf8(all[i].name@),
        vstd::utf8::encode_utf8(all[j].name@),
    )) by {
        assert(all[i].ranks(all[j]));
    }
}

proof fn lemma_directories(entries: Seq<FsEntry>, entry: FsEntry)
    ensures
        entries.filter(|e: FsEntry| e.is_dir).contains(entry) <==> entries.contains(entry)
            && entry.is_dir,
    decreases entries.len(),
{
    reveal(Seq::filter);
    let kept = entries.filter(|e: FsEntry| e.is_dir);
    if entries.len() > 0 {
        let less = entries.drop_last();
        lemma_directories(less, entry);
        let before = less.filter(|e: FsEntry| e.is_dir);
        let last = entries.last();
        assert(entries[entries.len() - 1] == last);
        if entries.contains(entry) {
            let k = entries.index_of(entry);
            if k < less.len() {
                assert(less[k] == entry);
            }
        }
        if less.contains(entry) {
            let k = less.index_of(entry);
            assert(entries[k] == entry);
        }
        if last.is_dir {
            assert(kept == before.push(last));
            assert(kept[before.len() as int] == last);
            if before.contains(entry) {
                let k = before.index_of(entry);
                assert(kept[k] == entry);
            }
            if kept.contains(entry) {
                let k = kept.index_of(entry);
                if k < before.len() {
                    assert(before[k] == entry);
                }
            }
        }
    }
}

/// Byte strings are ordered by the first byte in which they differ, and one that the other goes on
/// from stands first.
pub proof fn law_names_are_ordered_by_their_bytes(
    common: Seq<u8>,
    a: u8,
    b: u8,
    more: Seq<u8>,
    rest: Seq<u8>,
)
    ensures
        a < b ==> sorting::bytes_at_most(common + seq![a] + more, common + seq![b] + rest)
            && !sorting::bytes_at_most(common + seq![b] + rest, common + seq![a] + more),
        sorting::bytes_at_most(common, common + more),
        more.len() > 0 ==> !sorting::bytes_at_most(common + more, common),
    decreases common.len(),
{
    if common.len() == 0 {
        assert((common + seq![a] + more)[0] == a);
        assert((common + seq![b] + rest)[0] == b);
        assert(common + more =~= more);
    } else {
        let less = common.skip(1);
        law_names_are_ordered_by_their_bytes(less, a, b, more, rest);
        assert((common + seq![a] + more).skip(1) =~= less + seq![a] + more);
        assert((common + seq![b] + rest).skip(1) =~= less + seq![b] + rest);
        assert((common + more).skip(1) =~= less + more);
        assert((common + seq![a] + more)[0] == common[0]);
        assert((common + seq![b] + rest)[0] == common[0]);
        assert((common + more)[0] == common[0]);
    }
}

/// A prompt is taken if and only if all its parts are texts; they are taken in their order.
pub proof fn law_prompts_are_made_of_texts(parts: Seq<PromptPart>)
    ensures
        nano::prompt_texts(parts) is Some <==> forall|i: int|
            0 <= i < parts.len() ==> #[trigger] parts[i] is Text,
        nano::prompt_texts(parts) matches Some(texts) ==> texts.len() == parts.len() && forall|i: int|
            0 <= i < parts.len() ==> (#[trigger] parts[i] matches PromptPart::Text(text) && text@
                == texts[i]),
    decreases parts.len(),
{
    if parts.len() > 0 {
        let less = parts.drop_last();
        law_prompts_are_made_of_texts(less);
        assert(parts[parts.len() - 1] == parts.last());
        assert forall|i: int| 0 <= i < less.len() implies less[i] == #[trigger] parts[i] by {}
        match nano::prompt_texts(less) {
            Some(_) => {
                assert forall|i: int| 0 <= i < less.len() implies #[trigger] parts[i] is Text by {
                    assert(less[i] is Text);
                }
            },
            None => {
                let i = choose|i: int| 0 <= i < less.len() && !(#[trigger] less[i] is Text);
                assert(!(parts[i] is Text));
            },
        }
    }
}

/// A session that is opened is a new one in its directory, and the others are as they were.
pub proof fn law_opened_sessions_are_new(
    before: Map<Seq<char>, Session>,
    after: Map<Seq<char>, Session>,
    id: Seq<char>,
    cwd: Seq<char>,
    other: Seq<char>,
)
    requires
        nano::opened(before, after, id, cwd),
    ensures
        after.contains_key(id) && after[id].cwd@ == cwd && after[id].history@.len() == 0
            && after[id].turn is None,
        other != id ==> (after.contains_key(other) <==> before.contains_key(other)),
        other != id && before.contains_key(other) ==> after[other] == before[other],
{
    if other != id {
        assert(after.contains_key(other) == before.insert(id, after[id]).contains_key(other));
    }
}

/// While a session works its turn is known by its number, its directory stays, its history is with
/// the one who works, and the other sessions are as they were.
pub proof fn law_working_sessions_know_their_turn(
    before: Map<Seq<char>, Session>,
    after: Map<Seq<char>, Session>,
    id: Seq<char>,
    number: u64,
    other: Seq<char>,
)
    requires
        nano::working(before, after, id, number),
    ensures
        after.contains_key(id) && after[id].cwd == before[id].cwd && after[id].turn == Some(number)
            && after[id].history@.len() == 0,
        other != id ==> (after.contains_key(other) <==> before.contains_key(other)),
        other != id && before.contains_key(other) ==> after[other] == before[other],
{
    if other != id {
        assert(after.contains_key(other) == before.insert(id, after[id]).contains_key(other));
    }
}

/// A worktree is named after the last name of its repository, or plainly where that has none.
pub proof fn law_worktrees_bear_the_name_of_the_repository(dir: Seq<char>, name: Seq<char>)
    requires
        name.len() > 0,
        !name.contains('/'),
        name != ".."@,
        name != "."@,
    ensures
        worktree::base_name(dir + seq!['/'] + name) == name,
        worktree::base_name(Seq::empty()) == "repo"@,
        worktree::base_name("/"@) == "repo"@,
{
    reveal_strlit("/");
    reveal_strlit(".");
    reveal_strlit("..");
    let path = dir + seq!['/'] + name;
    strings::lemma_split_append(dir, '/', name);
    assert forall|i: int| 0 <= i < name.len() implies #[trigger] name[i] != '/' by {
        assert(name.contains(name[i]));
    }
    strings::lemma_split_one(name, '/');
    let parts = strings::split_of(path, '/');
    assert(parts.last() == name);
    strings::lemma_join_split(dir, '/');
    assert(parts.drop_last() =~= strings::split_of(dir, '/'));
    let all = crate::daemon::git::components_of(path);
    assert(all.last() == name);
    assert(name != "/"@) by {
        if name == "/"@ {
            assert(name[0] == '/');
        }
    }
    let none = Seq::<char>::empty();
    strings::lemma_split_one(none, '/');
    let no_parts = strings::split_of(none, '/');
    assert(no_parts =~= seq![none]);
    assert(no_parts.drop_last() =~= Seq::empty());
    reveal_with_fuel(crate::daemon::git::names_of, 3);
    assert(crate::daemon::git::components_of(none) =~= Seq::empty());
    strings::lemma_split_append(none, '/', none);
    assert(none + seq!['/'] + none =~= "/"@);
    let two = strings::split_of("/"@, '/');
    assert(two =~= seq![none, none]);
    assert(two.drop_last() =~= seq![none]);
    assert(seq![none].drop_last() =~= Seq::empty());
    assert(crate::daemon::git::components_of("/"@) =~= seq!["/"@]);
}

/// Git lists worktrees one to a line behind a word; other lines name none.
pub proof fn law_listed_worktrees_are_read(lines: Seq<Seq<char>>, line: Seq<char>, path: Seq<char>)
    ensures
        worktree::listed_paths(Seq::empty()) == Seq::<Seq<char>>::empty(),
        worktree::listed_paths(lines.push("worktree "@ + path)) == worktree::listed_paths(
            lines,
        ).push(path),
        (line.len() < 9 || line.take(9) != "worktree "@) ==> worktree::listed_paths(
            lines.push(line),
        ) == worktree::listed_paths(lines),
{
    reveal_strlit("worktree ");
    let word = "worktree "@;
    assert(lines.push(word + path).drop_last() =~= lines);
    assert(lines.push(line).drop_last() =~= lines);
    assert(word.is_prefix_of(word + path)) by {
        assert(word =~= (word + path).subrange(0, 9));
    }
    assert((word + path).skip(9) =~= path);
    if word.is_prefix_of(line) {
        assert(line.take(9) =~= word);
    }
}

/// The worktrees are told with the main one first and the linked ones behind it, all of them or none.
pub proof fn law_all_worktrees_are_told(linked: Seq<LinkedWorktree>)
    ensures
        worktree::bases(linked) is Ok <==> forall|i: int|
            0 <= i < linked.len() ==> (#[trigger] linked[i]).base is Ok,
        worktree::bases(linked) matches Ok(paths) ==> paths.len() == linked.len() && forall|i: int|
            0 <= i < linked.len() ==> (#[trigger] linked[i]).base is Ok && paths[i]
                == linked[i].base->Ok_0@,
    decreases linked.len(),
{
    if linked.len() > 0 {
        let less = linked.drop_last();
        law_all_worktrees_are_told(less);
        assert(linked[linked.len() - 1] == linked.last());
        if worktree::bases(less) is Ok {
            let before = worktree::bases(less)->Ok_0;
            assert forall|i: int| 0 <= i < less.len() implies (#[trigger] linked[i]).base is Ok
                && before[i] == linked[i].base->Ok_0@ by {
                assert(less[i].base is Ok);
            }
        } else {
            let i = choose|i: int| 0 <= i < less.len() && !((#[trigger] less[i]).base is Ok);
            assert(!(linked[i].base is Ok));
        }
    }
}

proof fn lemma_broken_base(linked: Seq<LinkedWorktree>) -> (i: int)
    requires
        worktree::bases(linked) is Err,
    ensures
        0 <= i < linked.len(),
        linked[i].base is Err,
        worktree::bases(linked)->Err_0 == linked[i].base->Err_0@,
    decreases linked.len(),
{
    let less = linked.drop_last();
    if worktree::bases(less) is Err {
        let i = lemma_broken_base(less);
        assert(less[i] == linked[i]);
        i
    } else {
        linked.len() - 1
    }
}

/// Where the worktrees of a repository cannot be told, it is said whether there is no repository,
/// whether they were not found, or of which of them the place is not known.
pub proof fn law_untold_worktrees_are_explained(repo: Seq<char>, found: FoundWorktrees)
    ensures
        found matches FoundWorktrees::NotARepo(cause) ==> worktree::found_paths(repo, found) == Err::<
            Seq<Seq<char>>,
            Seq<char>,
        >("不是 git 仓库: "@ + repo + ": "@ + cause@),
        found matches FoundWorktrees::Failed(cause) ==> worktree::found_paths(repo, found) == Err::<
            Seq<Seq<char>>,
            Seq<char>,
        >("枚举 worktree 失败: "@ + cause@),
        found matches FoundWorktrees::Found { linked, .. } ==> (worktree::found_paths(
            repo,
            found,
        ) matches Err(message) ==> exists|i: int|
            0 <= i < linked@.len() && (#[trigger] linked@[i]).base is Err && message
                == "读取 worktree 路径失败: "@ + linked@[i].base->Err_0@),
{
    broadcast use vstd::seq_lib::group_to_multiset_ensures;

    if let FoundWorktrees::Found { linked, .. } = found {
        let sorted = sorting::sorted_of(linked@);
        sorting::law_sorting_orders(linked@);
        if worktree::bases(sorted) is Err {
            let k = lemma_broken_base(sorted);
            assert(sorted.contains(sorted[k]));
            assert(sorted.to_multiset().count(sorted[k]) > 0);
            assert(linked@.contains(sorted[k]));
            let i = linked@.index_of(sorted[k]);
            assert(linked@[i].base is Err);
        }
    }
}

/// Of a run of Git that failed it is said what failed, a colon, and what Git wrote about it without
/// the space around it.
pub proof fn law_failed_runs_are_explained(error: GitError)
    ensures
        worktree::failure_text(error) == error.message@ + seq![':', ' '] + strings::trim_of(
            error.stderr@,
        ),
{
    reveal_strlit(": ");
    assert(": "@ =~= seq![':', ' ']);
}

/// Where the worktrees of a repository were found, the main one is told first.
pub proof fn law_the_main_worktree_is_told_first(
    repo: Seq<char>,
    main: Option<String>,
    linked: Vec<LinkedWorktree>,
)
    ensures
        ({
            let told = worktree::found_paths(repo, FoundWorktrees::Found { main, linked });
            &&& told matches Ok(paths) ==> paths.len() == linked@.len() + (if main is Some {
                1nat
            } else {
                0nat
            }) && (main matches Some(path) ==> paths[0] == path@)
            &&& (forall|i: int| 0 <= i < linked@.len() ==> (#[trigger] linked@[i]).base is Ok)
                ==> told is Ok
        }),
{
    broadcast use vstd::seq_lib::group_to_multiset_ensures;

    let sorted = sorting::sorted_of(linked@);
    sorting::law_sorting_orders(linked@);
    law_all_worktrees_are_told(sorted);
    if forall|i: int| 0 <= i < linked@.len() ==> (#[trigger] linked@[i]).base is Ok {
        assert forall|i: int| 0 <= i < sorted.len() implies (#[trigger] sorted[i]).base is Ok by {
            assert(sorted.contains(sorted[i]));
            assert(sorted.to_multiset().count(sorted[i]) > 0);
            assert(linked@.contains(sorted[i]));
            let k = linked@.index_of(sorted[i]);
            assert(linked@[k].base is Ok);
        }
    }
}

/// A page of a text holds its lines with a line feed between them, and one behind them unless the text
/// ends there without one.
pub proof fn law_pages_of_a_text_hold_its_lines(text: Seq<char>, offset: nat, limit: nat)
    requires
        limit > 0,
        offset < strings::lines_of(text).len(),
    ensures
        ({
            let page = fs::page_of(strings::lines_of(text), offset, limit);
            let joined = strings::join_of(page, seq!['\n']);
            &&& fs::content_of(text, offset, limit) == if offset + limit
                < strings::lines_of(text).len() || text.last() == '\n' {
                joined.push('\n')
            } else {
                joined
            }
        }),
{
    reveal_strlit("\n");
    assert("\n"@ =~= seq!['\n']);
    assert(text.len() > 0) by {
        if text.len() == 0 {
            assert(strings::lines_of(text) =~= Seq::empty());
        }
    }
}

/// Codex is started with its own package and full access.
pub proof fn law_codex_is_started_with_full_access(spec: LaunchSpec)
    requires
        spec.starts_codex(),
    ensures
        spec.program@ == "npx"@,
        spec.args@.len() == 2 && spec.args@[0]@ == "-y"@ && spec.args@[1]@
            == "@nyssance/codex-acp-v2"@,
        spec.env@.len() == 1 && spec.env@[0].0@ == "INITIAL_AGENT_MODE"@ && spec.env@[0].1@
            == "agent-full-access"@,
{
    let args = spec.args@.map_values(|a: &'static str| a@);
    let env = spec.env@.map_values(|e: (&'static str, &'static str)| (e.0@, e.1@));
    assert(args.len() == 2 && args[0] == spec.args@[0]@ && args[1] == spec.args@[1]@);
    assert(env.len() == 1 && env[0] == (spec.env@[0].0@, spec.env@[0].1@));
}

/// What is read and what is not there is read as such.
pub proof fn law_results_are_read_as_they_are(paths: Vec<String>, message: String, text: &str)
    ensures
        worktree::paths_seen(Ok::<Vec<String>, String>(paths)) == Ok::<
            Seq<Seq<char>>,
            Seq<char>,
        >(strings::views(paths@)),
        worktree::paths_seen(Err::<Vec<String>, String>(message)) == Err::<
            Seq<Seq<char>>,
            Seq<char>,
        >(message@),
        strings::views(paths@).len() == paths@.len(),
        forall|i: int|
            0 <= i < paths@.len() ==> #[trigger] strings::views(paths@)[i] == paths@[i]@,
        machine::seen(Some(text)) == Some(text@),
        machine::seen(None) is None,
{
}

/// The head of a run in the unified form gives where it begins and how long it is, for the old and then
/// for the new text.
pub proof fn law_heads_of_the_unified_form(h: HunkHeader)
    ensures
        unified::unified_header(h) == seq![64u8, 64, 32, 45] + unified::digits(
            h.before_hunk_start as nat,
        ) + seq![44u8] + unified::digits(h.before_hunk_len as nat) + seq![32u8, 43]
            + unified::digits(h.after_hunk_start as nat) + seq![44u8] + unified::digits(
            h.after_hunk_len as nat,
        ) + seq![32u8, 64, 64],
        unified::kind_marked(32) == Some(GitDiffLineKind::Context),
        unified::kind_marked(43) == Some(GitDiffLineKind::Add),
        unified::kind_marked(45) == Some(GitDiffLineKind::Remove),
        forall|mark: u8| #[trigger]
            unified::kind_marked(mark) is Some ==> unified::mark_byte(unified::kind_marked(mark)->0)
                == mark,
{
    reveal(unified::unified_header);
}

/// Bytes are taken line by line, each up to a line feed.
pub proof fn law_bytes_are_taken_line_by_line(line: Seq<u8>, rest: Seq<u8>)
    requires
        !line.contains(10u8),
    ensures
        unified::byte_lines_of(line + seq![10u8] + rest) == seq![line] + unified::byte_lines_of(rest),
        line.len() > 0 ==> unified::byte_lines_of(line) == seq![line],
        unified::byte_lines_of(Seq::empty()).len() == 0,
{
    let s = line + seq![10u8] + rest;
    let n = line.len() as int;
    assert forall|i: int| 0 <= i < n implies line[i] != 10 by {
        assert(line.contains(line[i]));
    }
    assert forall|i: int| 0 <= i < n implies s[i] != 10 by {
        assert(s[i] == line[i]);
    }
    unified::lemma_feed_is(s, n);
    assert(s.take(n) =~= line);
    assert(s.skip(n + 1) =~= rest);
    unified::lemma_feed_is(line, n);
}

} // verus!
