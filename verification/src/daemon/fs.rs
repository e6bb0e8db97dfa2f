//! Files: pages of directories and pages of text files.
use crate::common::domain::{FsEntry, FsListResult, FsReadResult};
use crate::encoding::utf8_text;
use crate::sorting;
use crate::sorting::{sort, text_le, Ranked};
use crate::strings;
use crate::strings::{join, lines};
use vstd::prelude::*;
use vstd::utf8::*;

verus! {

/// The largest page of a directory.
pub const MAX_LIST_LIMIT: usize = 500;

/// The largest page of a text file, in lines.
pub const MAX_READ_LIMIT: usize = 1000;

impl Ranked for FsEntry {
    /// Directories stand before files, and both are ordered by their names.
    open spec fn ranks(self, other: Self) -> bool {
        if self.is_dir != other.is_dir {
            self.is_dir
        } else {
            sorting::text_at_most(self.name@, other.name@)
        }
    }

    proof fn total(a: Self, b: Self) {
        sorting::lemma_bytes_total(encode_utf8(a.name@), encode_utf8(b.name@));
    }

    proof fn transitive(a: Self, b: Self, c: Self) {
        if a.is_dir == b.is_dir && b.is_dir == c.is_dir {
            sorting::lemma_bytes_transitive(
                encode_utf8(a.name@),
                encode_utf8(b.name@),
                encode_utf8(c.name@),
            );
        }
    }

    fn at_most(&self, other: &Self) -> (r: bool) {
        if self.is_dir != other.is_dir {
            self.is_dir
        } else {
            text_le(self.name.as_str(), other.name.as_str())
        }
    }
}

/// The page size that is used for the one that was asked for.
pub open spec fn clamped(limit: nat, max: nat) -> nat {
    if limit < 1 {
        1
    } else if limit > max {
        max
    } else {
        limit
    }
}

/// Where a page begins.
pub open spec fn page_start(len: nat, offset: nat) -> nat {
    if offset < len {
        offset
    } else {
        len
    }
}

/// Where a page ends, and the next one begins.
pub open spec fn page_end(len: nat, offset: nat, limit: nat) -> nat {
    if page_start(len, offset) + limit < len {
        page_start(len, offset) + limit
    } else {
        len
    }
}

/// The elements of a page.
pub open spec fn page_of<A>(all: Seq<A>, offset: nat, limit: nat) -> Seq<A> {
    all.subrange(
        page_start(all.len(), offset) as int,
        page_end(all.len(), offset, limit) as int,
    )
}

/// The pages of a sequence from an offset on, one behind the other.
pub open spec fn pages_from<A>(all: Seq<A>, offset: nat, limit: nat) -> Seq<A>
    decreases all.len() - offset,
{
    if offset >= all.len() || limit == 0 {
        Seq::empty()
    } else {
        page_of(all, offset, limit) + pages_from(all, page_end(all.len(), offset, limit), limit)
    }
}

/// Paging from the beginning, each page from where the one before ended, hands out everything
/// once and in order.
pub proof fn law_pages_cover<A>(all: Seq<A>, offset: nat, limit: nat)
    requires
        limit > 0,
        offset <= all.len(),
    ensures
        pages_from(all, offset, limit) == all.skip(offset as int),
    decreases all.len() - offset,
{
    if offset < all.len() {
        let end = page_end(all.len(), offset, limit);
        law_pages_cover(all, end, limit);
        assert(page_of(all, offset, limit) + all.skip(end as int) =~= all.skip(offset as int));
    } else {
        assert(all.skip(offset as int) =~= Seq::empty());
    }
}

fn page_bounds(len: usize, offset: usize, limit: usize, max: usize) -> (r: (usize, usize))
    requires
        max >= 1,
    ensures
        r.0 == page_start(len as nat, offset as nat),
        r.1 == page_end(len as nat, offset as nat, clamped(limit as nat, max as nat)),
        r.0 <= r.1 <= len,
{
    let size: usize = if limit < 1 {
        1
    } else if limit > max {
        max
    } else {
        limit
    };
    let start: usize = if offset < len {
        offset
    } else {
        len
    };
    let end: usize = if len - start <= size {
        len
    } else {
        start + size
    };
    (start, end)
}

/// What was found when a directory was looked for.
pub enum FoundDir {
    /// Its path leads nowhere; the text says why.
    Inaccessible(String),
    /// It is no directory; the text is its resolved path.
    NotADirectory(String),
    /// It cannot be read; the text says why.
    Unreadable(String),
    /// One of its entries cannot be read; the text says why.
    EntryUnreadable(String),
    /// What one of its entries is cannot be told; the text says why.
    EntryUnknown(String),
    Entries(Vec<FsEntry>),
}

/// What was found when a file was looked for.
pub enum FoundFile {
    /// Its path leads nowhere; the text says why.
    Inaccessible(String),
    /// It is no file.
    NotAFile,
    /// It cannot be read; the text says why.
    Unreadable(String),
    Bytes(Vec<u8>),
}

/// The path that is resolved for a given one: the current directory for the empty one.
pub fn canonical_path(path: &str) -> (r: &str)
    ensures
        r@ == if path@.len() == 0 {
            "."@
        } else {
            path@
        },
{
    if path.is_empty() {
        "."
    } else {
        path
    }
}

fn said(before: &str, cause: &str) -> (r: String)
    ensures
        r@ == before@ + cause@,
{
    let mut r: String = before.to_owned();
    r.append(cause);
    r
}

/// The entries that were found, or what is said where there are none.
pub fn canonical_dir(found: FoundDir) -> (r: Result<Vec<FsEntry>, String>)
    ensures
        match found {
            FoundDir::Inaccessible(cause) => r is Err && r->Err_0@ == "路径不可访问: "@ + cause@,
            FoundDir::NotADirectory(path) => r is Err && r->Err_0@ == "不是文件夹: "@ + path@,
            FoundDir::Unreadable(cause) => r is Err && r->Err_0@ == "读取目录失败: "@ + cause@,
            FoundDir::EntryUnreadable(cause) => r is Err && r->Err_0@ == "读取目录项失败: "@
                + cause@,
            FoundDir::EntryUnknown(cause) => r is Err && r->Err_0@
                == "读取目录项元数据失败: "@ + cause@,
            FoundDir::Entries(entries) => r is Ok && r->Ok_0 == entries,
        },
{
    match found {
        FoundDir::Inaccessible(cause) => Err(said("路径不可访问: ", cause.as_str())),
        FoundDir::NotADirectory(path) => Err(said("不是文件夹: ", path.as_str())),
        FoundDir::Unreadable(cause) => Err(said("读取目录失败: ", cause.as_str())),
        FoundDir::EntryUnreadable(cause) => Err(said("读取目录项失败: ", cause.as_str())),
        FoundDir::EntryUnknown(cause) => Err(said("读取目录项元数据失败: ", cause.as_str())),
        FoundDir::Entries(entries) => Ok(entries),
    }
}

/// The entries of a directory that are listed, in order.
pub open spec fn listed(entries: Seq<FsEntry>, dirs_only: bool) -> Seq<FsEntry> {
    sorting::sorted_of(
        if dirs_only {
            entries.filter(|e: FsEntry| e.is_dir)
        } else {
            entries
        },
    )
}

fn only_dirs(entries: Vec<FsEntry>) -> (r: Vec<FsEntry>)
    ensures
        r@ == entries@.filter(|e: FsEntry| e.is_dir),
{
    let mut out: Vec<FsEntry> = Vec::new();
    let ghost all = entries@;
    let ghost dir = |e: FsEntry| e.is_dir;
    proof {
        assert(all.take(0).filter(dir) =~= Seq::empty()) by {
            reveal(Seq::filter);
        }
    }
    for entry in it: entries
        invariant
            it.seq() == all,
            dir == (|e: FsEntry| e.is_dir),
            out@ == all.take(it.index() as int).filter(dir),
    {
        proof {
            reveal(Seq::filter);
            let n = it.index() as int;
            assert(all.take(n + 1).drop_last() =~= all.take(n));
            assert(all.take(n + 1).last() == entry);
        }
        if entry.is_dir {
            out.push(entry);
        }
    }
    proof {
        assert(all.take(all.len() as int) =~= all);
    }
    out
}

/// Lists directories and reads files. It has no state.
#[derive(Debug, Clone, Copy, PartialEq, Eq, Structural)]
pub struct FsBrowser;

impl Default for FsBrowser {
    fn default() -> (r: Self)
        ensures
            r == FsBrowser,
    {
        FsBrowser
    }
}

impl FsBrowser {
    /// A browser.
    pub fn new() -> (r: Self)
        ensures
            r == FsBrowser,
    {
        FsBrowser
    }

    /// A page of a directory: directories before files, by name. Where only directories are asked
    /// for, the files are left out before the page is cut.
    pub fn list(
        &self,
        path: Option<&str>,
        found: FoundDir,
        limit: usize,
        offset: usize,
        dirs_only: bool,
    ) -> (r: Result<FsListResult, String>)
        ensures
            r is Ok <==> found is Entries,
            r matches Ok(page) ==> {
                let all = listed(found->Entries_0@, dirs_only);
                let size = clamped(limit as nat, 500);
                let end = page_end(all.len(), offset as nat, size);
                &&& page.path@ == match path {
                    Some(path) => path@,
                    None => Seq::empty(),
                }
                &&& page.entries@ == page_of(all, offset as nat, size)
                &&& page.has_more == (end < all.len())
                &&& page.next_offset == end
            },
            match found {
                FoundDir::Inaccessible(cause) => r->Err_0@ == "路径不可访问: "@ + cause@,
                FoundDir::NotADirectory(path) => r->Err_0@ == "不是文件夹: "@ + path@,
                FoundDir::Unreadable(cause) => r->Err_0@ == "读取目录失败: "@ + cause@,
                FoundDir::EntryUnreadable(cause) => r->Err_0@ == "读取目录项失败: "@ + cause@,
                FoundDir::EntryUnknown(cause) => r->Err_0@ == "读取目录项元数据失败: "@
                    + cause@,
                FoundDir::Entries(_) => true,
            },
    {
        let entries: Vec<FsEntry> = match canonical_dir(found) {
            Ok(entries) => entries,
            Err(message) => return Err(message),
        };
        let kept: Vec<FsEntry> = if dirs_only {
            only_dirs(entries)
        } else {
            entries
        };
        let mut all: Vec<FsEntry> = sort(kept);
        let ghost every = all@;
        let total: usize = all.len();
        let bounds: (usize, usize) = page_bounds(total, offset, limit, MAX_LIST_LIMIT);
        all.truncate(bounds.1);
        let page: Vec<FsEntry> = all.split_off(bounds.0);
        proof {
            assert(page@ =~= every.subrange(bounds.0 as int, bounds.1 as int));
        }
        Ok(
            FsListResult {
                path: match path {
                    Some(path) => path.to_owned(),
                    None => String::new(),
                },
                entries: page,
                has_more: bounds.1 < total,
                next_offset: bounds.1,
            },
        )
    }

    /// A page of the lines of a text file.
    pub fn read(&self, path: &str, found: FoundFile, offset: usize, limit: usize) -> (r: Result<
        FsReadResult,
        String,
    >)
        ensures
            match found {
                FoundFile::Inaccessible(cause) => r is Err && r->Err_0@ == "路径不可访问: "@
                    + cause@,
                FoundFile::NotAFile => r is Err && r->Err_0@ == "文件不存在: "@ + path@,
                FoundFile::Unreadable(cause) => r is Err && r->Err_0@ == "读取文件失败: "@
                    + cause@,
                FoundFile::Bytes(bytes) => if !valid_utf8(bytes@) {
                    r is Err && r->Err_0@ == "文件不是 UTF-8 文本"@
                } else {
                    let text = decode_utf8(bytes@);
                    let size = clamped(limit as nat, 1000);
                    let len = strings::lines_of(text).len();
                    &&& r is Ok
                    &&& r->Ok_0.path@ == path@
                    &&& r->Ok_0.content@ == content_of(text, offset as nat, size)
                    &&& r->Ok_0.has_more == (page_end(len, offset as nat, size) < len)
                    &&& r->Ok_0.next_offset == page_end(len, offset as nat, size)
                },
            },
    {
        match found {
            FoundFile::Inaccessible(cause) => Err(said("路径不可访问: ", cause.as_str())),
            FoundFile::NotAFile => Err(said("文件不存在: ", path)),
            FoundFile::Unreadable(cause) => Err(said("读取文件失败: ", cause.as_str())),
            FoundFile::Bytes(bytes) => {
                match utf8_text(bytes.as_slice()) {
                    None => Err("文件不是 UTF-8 文本".to_owned()),
                    Some(text) => Ok(self.page(path, text.as_str(), offset, limit)),
                }
            },
        }
    }

    /// A page of the lines of a text.
    pub fn page(&self, path: &str, text: &str, offset: usize, limit: usize) -> (r: FsReadResult)
        ensures
            ({
                let size = clamped(limit as nat, 1000);
                let len = strings::lines_of(text@).len();
                &&& r.path@ == path@
                &&& r.content@ == content_of(text@, offset as nat, size)
                &&& r.has_more == (page_end(len, offset as nat, size) < len)
                &&& r.next_offset == page_end(len, offset as nat, size)
            }),
    {
        let mut all: Vec<String> = lines(text);
        let ghost every = all@;
        let total: usize = all.len();
        proof {
            assert(strings::views(every).len() == every.len());
        }
        let bounds: (usize, usize) = page_bounds(total, offset, limit, MAX_READ_LIMIT);
        all.truncate(bounds.1);
        let page: Vec<String> = all.split_off(bounds.0);
        proof {
            assert(strings::views(page@) =~= strings::views(every).subrange(
                bounds.0 as int,
                bounds.1 as int,
            ));
        }
        let mut content: String = join(&page, "\n");
        let chars: usize = text.unicode_len();
        let ended: bool = chars > 0 && text.get_char(chars - 1) == '\n';
        if bounds.1 > bounds.0 && (bounds.1 < total || ended) {
            content.push('\n');
        }
        FsReadResult {
            path: path.to_owned(),
            content,
            has_more: bounds.1 < total,
            next_offset: bounds.1,
        }
    }
}

/// Whether a text ends with a line feed.
pub open spec fn ends_line(text: Seq<char>) -> bool {
    text.len() > 0 && text.last() == '\n'
}

/// The text of some lines of a text: the lines with line feeds between them, and one behind the
/// last where one stands there.
pub open spec fn lines_text(text: Seq<char>, start: nat, end: nat) -> Seq<char> {
    let all = strings::lines_of(text);
    let joined = strings::join_of(all.subrange(start as int, end as int), "\n"@);
    if end > start && (end < all.len() || ends_line(text)) {
        joined.push('\n')
    } else {
        joined
    }
}

/// The text of a page of a text.
pub open spec fn content_of(text: Seq<char>, offset: nat, limit: nat) -> Seq<char> {
    let len = strings::lines_of(text).len();
    lines_text(text, page_start(len, offset), page_end(len, offset, limit))
}

/// The texts of the pages of a text from an offset on, one behind the other.
pub open spec fn contents_from(text: Seq<char>, offset: nat, limit: nat) -> Seq<char>
    decreases strings::lines_of(text).len() - offset,
{
    let len = strings::lines_of(text).len();
    if offset >= len || limit == 0 {
        Seq::empty()
    } else {
        content_of(text, offset, limit) + contents_from(text, page_end(len, offset, limit), limit)
    }
}

/// No line of the text ends with a carriage return and a line feed.
pub open spec fn no_crlf(text: Seq<char>) -> bool {
    forall|i: int| 0 <= i && i + 1 < text.len() && #[trigger] text[i] == '\r' ==> text[i + 1] != '\n'
}

/// The text from a line on.
spec fn text_from(text: Seq<char>, line: nat) -> Seq<char>
    decreases line,
{
    if line == 0 {
        text
    } else {
        let n = strings::index_of_char(text, '\n') as int;
        if n < text.len() {
            text_from(text.skip(n + 1), (line - 1) as nat)
        } else {
            Seq::empty()
        }
    }
}

proof fn lemma_text_from_lines(text: Seq<char>, line: nat)
    requires
        line <= strings::lines_of(text).len(),
    ensures
        strings::lines_of(text_from(text, line)) == strings::lines_of(text).skip(line as int),
        no_crlf(text) ==> no_crlf(text_from(text, line)),
        line < strings::lines_of(text).len() ==> ends_line(text_from(text, line)) == ends_line(
            text,
        ),
    decreases line,
{
    let all = strings::lines_of(text);
    let n = strings::index_of_char(text, '\n') as int;
    strings::lemma_index_of_char(text, '\n');
    if line == 0 {
        assert(all.skip(0) =~= all);
    } else if n < text.len() {
        let rest = text.skip(n + 1);
        assert(all =~= seq![strings::without_cr(text.take(n))] + strings::lines_of(rest));
        if no_crlf(text) {
            assert forall|i: int|
                0 <= i && i + 1 < rest.len() && #[trigger] rest[i] == '\r' implies rest[i + 1]
                != '\n' by {
                assert(rest[i] == text[i + n + 1]);
            }
        }
        lemma_text_from_lines(rest, (line - 1) as nat);
        assert(all.skip(line as int) =~= strings::lines_of(rest).skip(line - 1));
        if line < all.len() {
            assert(rest.len() > 0);
            assert(rest.last() == text.last());
        }
    } else {
        assert(all.len() <= 1);
        assert(all.skip(line as int) =~= Seq::empty());
    }
}

/// The lines up to `end` and the text from there on make up the text.
proof fn lemma_lines_then_rest(text: Seq<char>, end: nat)
    requires
        no_crlf(text),
        end <= strings::lines_of(text).len(),
    ensures
        lines_text(text, 0, end) + text_from(text, end) == text,
    decreases end,
{
    reveal_strlit("\n");
    assert("\n"@ =~= seq!['\n']);
    let all = strings::lines_of(text);
    let n = strings::index_of_char(text, '\n') as int;
    strings::lemma_index_of_char(text, '\n');
    if end == 0 {
        assert(all.subrange(0, 0) =~= Seq::<Seq<char>>::empty());
        assert(lines_text(text, 0, 0) =~= Seq::<char>::empty());
        assert(Seq::<char>::empty() + text =~= text);
    } else if n < text.len() {
        let rest = text.skip(n + 1);
        let line = text.take(n);
        if line.len() > 0 {
            assert(line.last() == text[n - 1]);
            assert(text[n - 1] != '\r');
        }
        assert(strings::without_cr(line) == line);
        let tail = strings::lines_of(rest);
        assert(all =~= seq![line] + tail);
        assert forall|i: int|
            0 <= i && i + 1 < rest.len() && #[trigger] rest[i] == '\r' implies rest[i + 1]
            != '\n' by {
            assert(rest[i] == text[i + n + 1]);
        }
        let less = (end - 1) as nat;
        lemma_lines_then_rest(rest, less);
        assert(text =~= line + seq!['\n'] + rest);
        let head = all.subrange(0, end as int);
        let after = tail.subrange(0, less as int);
        assert(head.skip(1) =~= after);
        assert(head[0] == line);
        if less == 0 {
            assert(head =~= seq![line]);
            assert(strings::join_of(head, "\n"@) == line);
            if end == all.len() {
                assert(tail.len() == 0);
                assert(rest.len() == 0) by {
                    lemma_lines_empty(rest);
                }
                assert(text.last() == '\n');
            }
            assert(lines_text(text, 0, end) =~= line.push('\n'));
            assert(text_from(text, end) == text_from(rest, 0));
            assert(line.push('\n') + rest =~= text);
        } else {
            strings::lemma_join_front(head, "\n"@);
            lemma_lines_empty(rest);
            assert(rest.len() > 0);
            assert(ends_line(rest) == ends_line(text));
            assert(lines_text(text, 0, end) =~= line + seq!['\n'] + lines_text(rest, 0, less));
            assert(text_from(text, end) == text_from(rest, less));
            assert(line + seq!['\n'] + lines_text(rest, 0, less) + text_from(rest, less) =~= line
                + seq!['\n'] + (lines_text(rest, 0, less) + text_from(rest, less)));
        }
    } else {
        assert(text.len() > 0);
        assert(all =~= seq![text]);
        assert(end == 1);
        assert(all.subrange(0, 1) =~= seq![text]);
        assert(strings::join_of(all.subrange(0, 1), "\n"@) == text);
        assert(text.last() != '\n');
        assert(text_from(text, end) == Seq::<char>::empty());
        assert(text + Seq::<char>::empty() =~= text);
    }
}

proof fn lemma_lines_empty(text: Seq<char>)
    ensures
        strings::lines_of(text).len() == 0 <==> text.len() == 0,
{
}

proof fn lemma_lines_shift(text: Seq<char>, start: nat, end: nat)
    requires
        start <= end <= strings::lines_of(text).len(),
    ensures
        lines_text(text, start, end) == lines_text(text_from(text, start), 0, (end - start) as nat),
{
    lemma_text_from_lines(text, start);
    let all = strings::lines_of(text);
    let rest = strings::lines_of(text_from(text, start));
    assert(all.subrange(start as int, end as int) =~= rest.subrange(0, end - start));
}

proof fn lemma_text_from_add(text: Seq<char>, a: nat, b: nat)
    requires
        a + b <= strings::lines_of(text).len(),
    ensures
        text_from(text_from(text, a), b) == text_from(text, a + b),
    decreases a,
{
    if a > 0 {
        let n = strings::index_of_char(text, '\n') as int;
        if n < text.len() {
            lemma_text_from_add(text.skip(n + 1), (a - 1) as nat, b);
        } else {
            assert(strings::lines_of(text).len() <= 1);
            assert(b == 0);
        }
    }
}

proof fn lemma_contents_from(text: Seq<char>, offset: nat, limit: nat)
    requires
        limit > 0,
        no_crlf(text),
        offset <= strings::lines_of(text).len(),
    ensures
        contents_from(text, offset, limit) == text_from(text, offset),
    decreases strings::lines_of(text).len() - offset,
{
    let len = strings::lines_of(text).len();
    lemma_text_from_lines(text, offset);
    if offset < len {
        let end = page_end(len, offset, limit);
        lemma_contents_from(text, end, limit);
        lemma_lines_shift(text, offset, end);
        lemma_text_from_add(text, offset, (end - offset) as nat);
        lemma_lines_then_rest(text_from(text, offset), (end - offset) as nat);
    } else {
        lemma_lines_empty(text_from(text, offset));
        assert(strings::lines_of(text).skip(offset as int) =~= Seq::<Seq<char>>::empty());
        assert(text_from(text, offset) =~= Seq::<char>::empty());
    }
}

/// Reading a text page by page, each page from where the one before ended, gives the whole text,
/// as long as no line of it ends with a carriage return.
pub proof fn law_pages_of_a_text_make_up_the_text(text: Seq<char>, limit: nat)
    requires
        limit > 0,
        no_crlf(text),
    ensures
        contents_from(text, 0, limit) == text,
{
    lemma_contents_from(text, 0, limit);
}

} // verus!
