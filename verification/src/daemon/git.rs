//! Git: the changes of a working tree against the last commit, and worktrees.
pub mod heads;
pub mod laws;
pub mod unified;
pub mod worktree;

use crate::common::domain::{
    GitChangeStatus, GitDiffFile, GitDiffHunk, GitDiffLine, GitDiffLineKind, GitDiffResult,
};
use crate::encoding;
use crate::encoding::from_utf8_lossy;
use crate::sorting;
use crate::sorting::{bytes_le, sort, Ranked};
use crate::strings;
use crate::strings::{decimal_of, join, same, split};
use gix::bstr::ByteSlice;
use unified::{compare, DiffAlgorithm, HunkHeader, RawHunk};
use vstd::prelude::*;
use vstd::seq_lib::*;

verus! {

/// How many lines are shown around a change.
pub const CONTEXT_LINES: u32 = 3;

/// A run of changed lines as text: its head, and its lines with their kinds.
#[verifier::ext_equal]
pub struct HunkText {
    pub header: Seq<char>,
    pub lines: Seq<(GitDiffLineKind, Seq<char>)>,
}

/// What lines of a diff say.
pub open spec fn line_texts(lines: Seq<GitDiffLine>) -> Seq<(GitDiffLineKind, Seq<char>)> {
    lines.map_values(|l: GitDiffLine| (l.kind, l.text@))
}

/// What a run of changed lines says.
pub open spec fn hunk_text(hunk: GitDiffHunk) -> HunkText {
    HunkText { header: hunk.header@, lines: line_texts(hunk.lines@) }
}

/// The lines of a patch, each with its mark and a line feed.
pub open spec fn body_text(lines: Seq<(GitDiffLineKind, Seq<char>)>) -> Seq<char>
    decreases lines.len(),
{
    if lines.len() == 0 {
        Seq::empty()
    } else {
        (body_text(lines.drop_last()).push(lines.last().0.mark()) + lines.last().1).push('\n')
    }
}

/// The patch text of runs of changed lines, behind the head of their file.
pub open spec fn patch_text(head: Seq<char>, hunks: Seq<HunkText>) -> Seq<char>
    decreases hunks.len(),
{
    if hunks.len() == 0 {
        head
    } else {
        patch_text(head, hunks.drop_last()) + hunks.last().header + "\n"@ + body_text(
            hunks.last().lines,
        )
    }
}

/// The number of lines of a kind.
pub open spec fn count_lines(lines: Seq<(GitDiffLineKind, Seq<char>)>, kind: GitDiffLineKind) -> nat
    decreases lines.len(),
{
    if lines.len() == 0 {
        0
    } else {
        count_lines(lines.drop_last(), kind) + if lines.last().0 == kind {
            1nat
        } else {
            0nat
        }
    }
}

/// The number of lines of a kind in all runs.
pub open spec fn count_all(hunks: Seq<HunkText>, kind: GitDiffLineKind) -> nat
    decreases hunks.len(),
{
    if hunks.len() == 0 {
        0
    } else {
        count_all(hunks.drop_last(), kind) + count_lines(hunks.last().lines, kind)
    }
}

/// One side of the head of a run: where it begins and, unless it is one line, how long it is.
pub open spec fn range_text(start: u32, len: u32) -> Seq<char> {
    if len == 1 {
        strings::decimal(start as nat)
    } else {
        strings::decimal(start as nat) + ","@ + strings::decimal(len as nat)
    }
}

/// The head of a run of changed lines, as Git writes it.
pub open spec fn header_text(h: HunkHeader) -> Seq<char> {
    "@@ -"@ + range_text(h.before_hunk_start, h.before_hunk_len) + " +"@ + range_text(
        h.after_hunk_start,
        h.after_hunk_len,
    ) + " @@"@
}

fn range(start: u32, len: u32) -> (r: String)
    ensures
        r@ == range_text(start, len),
{
    let mut r: String = decimal_of(start as u64);
    if len != 1 {
        r.append(",");
        r.append(decimal_of(len as u64).as_str());
    }
    r
}

/// The head of a run of changed lines, as Git writes it.
pub fn hunk_header_text(h: &HunkHeader) -> (r: String)
    ensures
        r@ == header_text(*h),
        heads::ranges_in(r@) == Some(
            (
                (h.before_hunk_start as nat, h.before_hunk_len as nat),
                (h.after_hunk_start as nat, h.after_hunk_len as nat),
            ),
        ),
{
    proof {
        heads::law_head_is_read_back(*h);
    }
    let mut r: String = "@@ -".to_owned();
    r.append(range(h.before_hunk_start, h.before_hunk_len).as_str());
    r.append(" +");
    r.append(range(h.after_hunk_start, h.after_hunk_len).as_str());
    r.append(" @@");
    r
}

/// What runs of changed lines say as text. Bytes that are not UTF-8 are replaced.
pub open spec fn texts_of(hunks: Seq<unified::HunkView>) -> Seq<HunkText> {
    hunks.map_values(
        |h: unified::HunkView|
            HunkText {
                header: header_text(h.header),
                lines: h.lines.map_values(
                    |l: unified::LineView| (l.kind, encoding::lossy_text(l.content)),
                ),
            },
    )
}

/// The lines of a file that came or went as a whole.
pub open spec fn whole_lines(text: Seq<char>) -> Seq<Seq<char>> {
    let parts = strings::split_of(text, '\n');
    if parts.last().len() == 0 {
        parts.drop_last()
    } else {
        parts
    }
}

/// What is left of a number in 32 bits.
pub open spec fn low(n: nat) -> u32 {
    (n % 0x1_0000_0000) as u32
}

/// A file that came or went as a whole, as one run of changed lines.
pub open spec fn whole_text(bytes: Seq<u8>, added: bool) -> HunkText {
    let lines = whole_lines(encoding::lossy_text(bytes));
    let n = strings::decimal(low(lines.len()) as nat);
    HunkText {
        header: if added {
            "@@ -0,0 +1,"@ + n + " @@"@
        } else {
            "@@ -1,"@ + n + " +0,0 @@"@
        },
        lines: lines.map_values(
            |l: Seq<char>|
                (
                    if added {
                        GitDiffLineKind::Add
                    } else {
                        GitDiffLineKind::Remove
                    },
                    l,
                ),
        ),
    }
}

/// The runs of changed lines of a file, and how many lines came and went.
pub struct FilePatch {
    pub hunks: Vec<GitDiffHunk>,
    pub additions: u32,
    pub deletions: u32,
}

/// The runs say what they should, each with its own patch text.
pub open spec fn hunks_say(hunks: Seq<GitDiffHunk>, head: Seq<char>, texts: Seq<HunkText>) -> bool {
    &&& hunks.len() == texts.len()
    &&& forall|i: int|
        0 <= i < texts.len() ==> {
            &&& hunk_text(#[trigger] hunks[i]) == texts[i]
            &&& hunks[i].patch@ == patch_text(head, seq![texts[i]])
        }
}

impl FilePatch {
    /// It holds these runs of changed lines of a file with this head.
    pub open spec fn says(self, head: Seq<char>, texts: Seq<HunkText>) -> bool {
        &&& hunks_say(self.hunks@, head, texts)
        &&& self.additions == low(count_all(texts, GitDiffLineKind::Add))
        &&& self.deletions == low(count_all(texts, GitDiffLineKind::Remove))
    }
}

fn body(header: &str, lines: &Vec<GitDiffLine>) -> (r: String)
    ensures
        r@ == header@ + "\n"@ + body_text(line_texts(lines@)),
{
    let mut r: String = header.to_owned();
    r.append("\n");
    let ghost all = line_texts(lines@);
    let ghost start = r@;
    let mut i: usize = 0;
    proof {
        assert(all.take(0) =~= Seq::empty());
        assert(start + body_text(all.take(0)) =~= start);
    }
    while i < lines.len()
        invariant
            0 <= i <= lines@.len(),
            all == line_texts(lines@),
            start == header@ + "\n"@,
            r@ == start + body_text(all.take(i as int)),
        decreases lines.len() - i,
    {
        let ghost before = body_text(all.take(i as int));
        r.push(lines[i].kind.prefix());
        r.append(lines[i].text.as_str());
        r.push('\n');
        proof {
            assert(all.take(i + 1).drop_last() =~= all.take(i as int));
            assert(all.take(i + 1).last() == (lines@[i as int].kind, lines@[i as int].text@));
            assert(r@ =~= start + body_text(all.take(i + 1)));
        }
        i = i + 1;
    }
    proof {
        assert(all.take(i as int) =~= all);
    }
    r
}

fn hunk(head: &str, header: String, lines: Vec<GitDiffLine>) -> (r: GitDiffHunk)
    ensures
        hunk_text(r) == (HunkText { header: header@, lines: line_texts(lines@) }),
        r.patch@ == patch_text(head@, seq![hunk_text(r)]),
{
    let mut patch: String = head.to_owned();
    patch.append(body(header.as_str(), &lines).as_str());
    let r = GitDiffHunk { header, patch, lines };
    proof {
        let one = seq![hunk_text(r)];
        assert(one.drop_last() =~= Seq::empty());
        reveal_with_fuel(patch_text, 2);
        assert(r.patch@ =~= patch_text(head@, one));
    }
    r
}

fn next_low(n: u32) -> (r: u32)
    ensures
        forall|m: nat| n == #[trigger] low(m) ==> r == low(m + 1),
{
    let r: u32 = n.wrapping_add(1);
    assert forall|m: nat| n == #[trigger] low(m) implies r == low(m + 1) by {
        assert((m + 1) % 0x1_0000_0000 == if m % 0x1_0000_0000 == 0xffff_ffff {
            0
        } else {
            m % 0x1_0000_0000 + 1
        }) by (nonlinear_arith);
    }
    r
}

/// The patch of runs of changed lines of a file with a given head.
pub fn patch_of(hunks: Vec<RawHunk>, head: &str) -> (r: FilePatch)
    ensures
        r.says(head@, texts_of(unified::hunk_views(hunks@))),
{
    let ghost all = hunks@;
    let ghost texts = texts_of(unified::hunk_views(all));
    let mut out: Vec<GitDiffHunk> = Vec::new();
    let mut additions: u32 = 0;
    let mut deletions: u32 = 0;
    proof {
        assert(texts.take(0) =~= Seq::empty());
    }
    for raw in it: hunks
        invariant
            it.seq() == all,
            texts == texts_of(unified::hunk_views(all)),
            hunks_say(out@, head@, texts.take(it.index() as int)),
            additions == low(count_all(texts.take(it.index() as int), GitDiffLineKind::Add)),
            deletions == low(count_all(texts.take(it.index() as int), GitDiffLineKind::Remove)),
    {
        let ghost n = it.index() as int;
        let ghost want = texts[n].lines;
        let ghost a0 = count_all(texts.take(n), GitDiffLineKind::Add);
        let ghost d0 = count_all(texts.take(n), GitDiffLineKind::Remove);
        let mut lines: Vec<GitDiffLine> = Vec::new();
        let mut i: usize = 0;
        proof {
            assert(want.take(0) =~= Seq::empty());
            assert(line_texts(lines@) =~= Seq::empty());
        }
        while i < raw.lines.len()
            invariant
                0 <= i <= raw.lines@.len(),
                raw == all[n],
                0 <= n < all.len(),
                texts == texts_of(unified::hunk_views(all)),
                want == texts[n].lines,
                line_texts(lines@) == want.take(i as int),
                additions == low(a0 + count_lines(want.take(i as int), GitDiffLineKind::Add)),
                deletions == low(d0 + count_lines(want.take(i as int), GitDiffLineKind::Remove)),
            decreases raw.lines.len() - i,
        {
            let kind: GitDiffLineKind = raw.lines[i].kind;
            let ghost before = lines@;
            lines.push(
                GitDiffLine { kind, text: from_utf8_lossy(raw.lines[i].content.as_slice()) },
            );
            proof {
                assert(want.take(i + 1).drop_last() =~= want.take(i as int));
                assert(want.take(i + 1).last() == want[i as int]);
                assert(line_texts(lines@) =~= line_texts(before).push(want[i as int]));
                assert(line_texts(lines@) =~= want.take(i + 1));
            }
            match kind {
                GitDiffLineKind::Add => {
                    additions = next_low(additions);
                },
                GitDiffLineKind::Remove => {
                    deletions = next_low(deletions);
                },
                GitDiffLineKind::Context => {},
            }
            i = i + 1;
        }
        let ghost before = out@;
        out.push(hunk(head, hunk_header_text(&raw.header), lines));
        proof {
            assert(want.take(i as int) =~= want);
            let less = texts.take(n);
            let more = texts.take(n + 1);
            assert(more.drop_last() =~= less);
            assert(more.last() == texts[n]);
            assert(hunk_text(out@.last()) == texts[n]);
            assert forall|k: int| 0 <= k < more.len() implies {
                &&& hunk_text(#[trigger] out@[k]) == more[k]
                &&& out@[k].patch@ == patch_text(head@, seq![more[k]])
            } by {
                if k < n {
                    assert(out@[k] == before[k]);
                    assert(less[k] == more[k]);
                }
            }
        }
    }
    proof {
        assert(texts.take(all.len() as int) =~= texts);
    }
    FilePatch { hunks: out, additions, deletions }
}

/// The patch of a file whose text changed.
pub fn modified_patch(algorithm: DiffAlgorithm, old: &[u8], new: &[u8], head: &str) -> (r: FilePatch)
    requires
        unified::comparable(old@),
        unified::comparable(new@),
    ensures
        r.says(head@, texts_of(unified::changes(algorithm, 3, old@, new@)->0)),
        forall|i: int|
            0 <= i < r.hunks@.len() ==> heads::counts_its_lines(hunk_text(#[trigger] r.hunks@[i])),
{
    let found: Vec<RawHunk> = compare(algorithm, CONTEXT_LINES, old, new);
    let ghost views = unified::hunk_views(found@);
    let r: FilePatch = patch_of(found, head);
    proof {
        assert forall|i: int| 0 <= i < r.hunks@.len() implies heads::counts_its_lines(
            hunk_text(#[trigger] r.hunks@[i]),
        ) by {
            assert(unified::counted(views[i]));
            heads::law_shown_heads_count_their_lines(views, i);
        }
    }
    r
}

pub proof fn lemma_whole_counts(lines: Seq<(GitDiffLineKind, Seq<char>)>, kind: GitDiffLineKind)
    requires
        forall|i: int| 0 <= i < lines.len() ==> (#[trigger] lines[i]).0 == kind,
    ensures
        count_lines(lines, kind) == lines.len(),
        forall|other: GitDiffLineKind| other != kind ==> #[trigger] count_lines(lines, other) == 0,
    decreases lines.len(),
{
    if lines.len() > 0 {
        let less = lines.drop_last();
        lemma_whole_counts(less, kind);
        assert forall|other: GitDiffLineKind| other != kind implies #[trigger] count_lines(
            lines,
            other,
        ) == 0 by {
            assert(count_lines(less, other) == 0);
            assert(lines[lines.len() - 1].0 == kind);
        }
    }
}

proof fn lemma_one_count(hunk: HunkText, kind: GitDiffLineKind)
    ensures
        count_all(seq![hunk], kind) == count_lines(hunk.lines, kind),
{
    assert(seq![hunk].drop_last() =~= Seq::empty());
    reveal_with_fuel(count_all, 2);
}

/// The patch of a file that came or went as a whole: all of it is one run.
pub fn whole_file_patch(bytes: &[u8], added: bool, head: &str) -> (r: FilePatch)
    ensures
        r.says(head@, seq![whole_text(bytes@, added)]),
        whole_lines(encoding::lossy_text(bytes@)).len() <= u32::MAX ==> heads::counts_its_lines(
            hunk_text(r.hunks@[0]),
        ),
{
    let text: String = from_utf8_lossy(bytes);
    let mut parts: Vec<String> = split(text.as_str(), '\n');
    let ghost all = parts@;
    proof {
        lemma_split_len(text@, '\n');
        assert(strings::views(all).len() == all.len());
        assert(strings::views(all).last() == all.last()@);
    }
    let last: usize = parts.len() - 1;
    if parts[last].as_str().is_empty() {
        let _ = parts.pop();
        proof {
            assert(strings::views(parts@) =~= strings::views(all).drop_last());
        }
    }
    let ghost want = whole_text(bytes@, added).lines;
    let ghost kept = whole_lines(text@);
    assert(strings::views(parts@) == kept);
    let n: u32 = (parts.len() as u64 % 0x1_0000_0000) as u32;
    let count: String = decimal_of(n as u64);
    let mut header: String = String::new();
    if added {
        header.append("@@ -0,0 +1,");
        header.append(count.as_str());
        header.append(" @@");
    } else {
        header.append("@@ -1,");
        header.append(count.as_str());
        header.append(" +0,0 @@");
    }
    let kind: GitDiffLineKind = if added {
        GitDiffLineKind::Add
    } else {
        GitDiffLineKind::Remove
    };
    let mut lines: Vec<GitDiffLine> = Vec::new();
    let ghost given = parts@;
    for part in it: parts
        invariant
            it.seq() == given,
            strings::views(given) == kept,
            want.len() == kept.len(),
            forall|i: int| 0 <= i < want.len() ==> #[trigger] want[i] == (kind, kept[i]),
            line_texts(lines@) == want.take(it.index() as int),
    {
        let ghost before = lines@;
        let ghost k = it.index() as int;
        lines.push(GitDiffLine { kind, text: part });
        proof {
            assert(strings::views(given)[k] == given[k]@);
            assert(line_texts(lines@) =~= line_texts(before).push((kind, part@)));
            assert(line_texts(lines@) =~= want.take(k + 1));
        }
    }
    proof {
        assert(want.take(want.len() as int) =~= want);
    }
    let one: GitDiffHunk = hunk(head, header, lines);
    let mut hunks: Vec<GitDiffHunk> = Vec::new();
    hunks.push(one);
    proof {
        let whole = whole_text(bytes@, added);
        assert(hunk_text(one) == whole);
        lemma_whole_counts(whole.lines, kind);
        lemma_one_count(whole, GitDiffLineKind::Add);
        lemma_one_count(whole, GitDiffLineKind::Remove);
        assert(hunks_say(hunks@, head@, seq![whole]));
        if kept.len() <= u32::MAX {
            heads::law_whole_files_are_counted(bytes@, added);
        }
    }
    FilePatch {
        hunks,
        additions: if added {
            n
        } else {
            0
        },
        deletions: if added {
            0
        } else {
            n
        },
    }
}

proof fn lemma_split_len(s: Seq<char>, sep: char)
    ensures
        strings::split_of(s, sep).len() > 0,
    decreases s.len(),
{
}

/// The parts of a path: the root, and the names between separators. Doubled separators and
/// parts that stand for where one is, but for a leading one, make no part.
pub open spec fn components_of(path: Seq<char>) -> Seq<Seq<char>> {
    (if path.len() > 0 && path[0] == '/' {
        seq!["/"@]
    } else {
        Seq::empty()
    }) + names_of(strings::split_of(path, '/'))
}

/// The names among the parts between separators.
pub open spec fn names_of(parts: Seq<Seq<char>>) -> Seq<Seq<char>>
    decreases parts.len(),
{
    if parts.len() == 0 {
        Seq::empty()
    } else {
        let less = names_of(parts.drop_last());
        if parts.last().len() == 0 || (parts.last() == "."@ && parts.len() > 1) {
            less
        } else {
            less.push(parts.last())
        }
    }
}

/// The parts of a path.
pub fn components(path: &str) -> (r: Vec<String>)
    ensures
        strings::views(r@) == components_of(path@),
{
    let mut out: Vec<String> = Vec::new();
    if path.unicode_len() > 0 && path.get_char(0) == '/' {
        out.push("/".to_owned());
    }
    let ghost lead = strings::views(out@);
    let parts: Vec<String> = split(path, '/');
    let ghost all = strings::views(parts@);
    let mut i: usize = 0;
    proof {
        assert(all.take(0) =~= Seq::empty());
        assert(lead + names_of(all.take(0)) =~= lead);
        assert(lead =~= if path@.len() > 0 && path@[0] == '/' {
            seq!["/"@]
        } else {
            Seq::empty()
        });
    }
    while i < parts.len()
        invariant
            0 <= i <= parts@.len(),
            all == strings::views(parts@),
            strings::views(out@) == lead + names_of(all.take(i as int)),
        decreases parts.len() - i,
    {
        let part: &String = &parts[i];
        let ghost before = out@;
        proof {
            assert(all.take(i + 1).drop_last() =~= all.take(i as int));
            assert(all.take(i + 1).last() == part@);
        }
        if !part.as_str().is_empty() && !(i > 0 && same(part.as_str(), ".")) {
            out.push(part.clone());
            proof {
                assert(strings::views(out@) =~= strings::views(before).push(part@));
                assert(strings::views(out@) =~= lead + names_of(all.take(i + 1)));
            }
        }
        i = i + 1;
    }
    proof {
        assert(all.take(i as int) =~= all);
    }
    out
}

/// What is left of a path below a base.
pub fn below(path: &Vec<String>, base: &Vec<String>) -> (r: Option<Vec<String>>)
    ensures
        r is Some <==> strings::views(base@).is_prefix_of(strings::views(path@)),
        r matches Some(rest) ==> strings::views(rest@) == strings::views(path@).skip(
            base@.len() as int,
        ),
{
    if base.len() > path.len() {
        return None;
    }
    let mut i: usize = 0;
    while i < base.len()
        invariant
            0 <= i <= base@.len() <= path@.len(),
            forall|j: int| 0 <= j < i ==> (#[trigger] base@[j])@ == path@[j]@,
        decreases base.len() - i,
    {
        if !same(base[i].as_str(), path[i].as_str()) {
            proof {
                assert(strings::views(path@).subrange(0, base@.len() as int)[i as int]
                    != strings::views(base@)[i as int]);
            }
            return None;
        }
        i = i + 1;
    }
    proof {
        assert(strings::views(base@) =~= strings::views(path@).subrange(0, base@.len() as int));
    }
    let mut rest: Vec<String> = Vec::new();
    while i < path.len()
        invariant
            base@.len() <= i <= path@.len(),
            strings::views(rest@) == strings::views(path@).subrange(base@.len() as int, i as int),
        decreases path.len() - i,
    {
        let ghost before = rest@;
        rest.push(path[i].clone());
        i = i + 1;
        proof {
            assert(strings::views(rest@) =~= strings::views(before).push(path@[i - 1]@));
            assert(strings::views(rest@) =~= strings::views(path@).subrange(
                base@.len() as int,
                i as int,
            ));
        }
    }
    proof {
        assert(strings::views(rest@) =~= strings::views(path@).skip(base@.len() as int));
    }
    Some(rest)
}

/// The parts between separators from a name on, which has so many names before it.
pub open spec fn parts_from(parts: Seq<Seq<char>>, before: nat) -> Seq<Seq<char>>
    decreases parts.len(),
{
    if parts.len() == 0 {
        Seq::empty()
    } else {
        let less = parts_from(parts.drop_last(), before);
        if names_of(parts).len() > before {
            less.push(parts.last())
        } else {
            less
        }
    }
}

/// Parts without those at their end that stand for where one is.
pub open spec fn without_end(parts: Seq<Seq<char>>) -> Seq<Seq<char>>
    decreases parts.len(),
{
    if parts.len() > 0 && (parts.last().len() == 0 || parts.last() == "."@) {
        without_end(parts.drop_last())
    } else {
        parts
    }
}

/// What is left of a path behind so many of its parts, as it is written there. Only separators and
/// parts that stand for where one is are left out at its ends.
pub open spec fn written_behind(path: Seq<char>, count: nat) -> Seq<char> {
    let names = if path.len() > 0 && path[0] == '/' && count > 0 {
        (count - 1) as nat
    } else {
        count
    };
    strings::join_of(without_end(parts_from(strings::split_of(path, '/'), names)), "/"@)
}

/// What is left of a path behind so many of its parts.
fn behind(path: &str, count: usize) -> (r: String)
    ensures
        r@ == written_behind(path@, count as nat),
{
    let names: usize = if path.unicode_len() > 0 && path.get_char(0) == '/' && count > 0 {
        count - 1
    } else {
        count
    };
    let parts: Vec<String> = split(path, '/');
    let ghost all = strings::views(parts@);
    let mut kept: Vec<String> = Vec::new();
    let mut found: usize = 0;
    let mut i: usize = 0;
    proof {
        assert(all.take(0) =~= Seq::empty());
        assert(strings::views(kept@) =~= Seq::empty());
    }
    while i < parts.len()
        invariant
            0 <= i <= parts@.len(),
            all == strings::views(parts@),
            found <= i,
            found == names_of(all.take(i as int)).len(),
            strings::views(kept@) == parts_from(all.take(i as int), names as nat),
        decreases parts.len() - i,
    {
        let part: &String = &parts[i];
        let ghost before = kept@;
        proof {
            assert(all.take(i + 1).drop_last() =~= all.take(i as int));
            assert(all.take(i + 1).last() == part@);
        }
        if !part.as_str().is_empty() && !(i > 0 && same(part.as_str(), ".")) {
            found = found + 1;
        }
        if found > names {
            kept.push(part.clone());
            proof {
                assert(strings::views(kept@) =~= strings::views(before).push(part@));
            }
        }
        i = i + 1;
    }
    proof {
        assert(all.take(i as int) =~= all);
    }
    let ghost given = strings::views(kept@);
    while kept.len() > 0 && (kept[kept.len() - 1].as_str().is_empty() || same(
        kept[kept.len() - 1].as_str(),
        ".",
    ))
        invariant
            without_end(strings::views(kept@)) == without_end(given),
        ensures
            strings::views(kept@) == without_end(given),
        decreases kept.len(),
    {
        let ghost before = kept@;
        let _ = kept.pop();
        proof {
            assert(strings::views(before).last() == before.last()@);
            assert(strings::views(kept@) =~= strings::views(before).drop_last());
        }
    }
    join(&kept, "/")
}

/// A path in a repository as it is seen from a directory of the working tree. What is outside
/// the directory keeps its path in the repository.
pub open spec fn seen_from(workdir: Seq<char>, cwd: Seq<char>, path: Seq<char>) -> Seq<char> {
    let root = components_of(workdir);
    let here = components_of(cwd);
    let there = components_of(path);
    let inner = here.skip(root.len() as int);
    if root.is_prefix_of(here) && inner.len() > 0 && inner.is_prefix_of(there) {
        written_behind(path, inner.len())
    } else {
        path
    }
}

/// A path in a repository as it is seen from a directory of the working tree.
pub fn cwd_relative_path(workdir: &str, cwd: &str, repo_path: &str) -> (r: String)
    ensures
        r@ == seen_from(workdir@, cwd@, repo_path@),
{
    let root: Vec<String> = components(workdir);
    let here: Vec<String> = components(cwd);
    let there: Vec<String> = components(repo_path);
    proof {
        assert(strings::views(root@).len() == root@.len());
    }
    match below(&here, &root) {
        Some(inner) => {
            proof {
                assert(strings::views(inner@).len() == inner@.len());
            }
            if inner.len() > 0 {
                match below(&there, &inner) {
                    Some(_) => {
                        return behind(repo_path, inner.len());
                    },
                    None => {},
                }
            }
        },
        None => {},
    }
    repo_path.to_owned()
}

/// What is on disk under a path.
#[derive(Debug, Clone, Copy, PartialEq, Eq, Structural)]
pub enum DiskKind {
    File,
    Symlink,
    /// A directory, a repository, or nothing that can be told.
    Other,
}

/// What is read of something on disk.
#[derive(Debug, Clone, Copy, PartialEq, Eq, Structural)]
pub enum DiskRead {
    /// The bytes of the file.
    Content,
    /// The path that the link holds. The link is not followed, so that nothing from outside the
    /// working tree is shown.
    Target,
    Nothing,
}

/// What is read of something on disk.
pub fn how_to_read(kind: DiskKind) -> (r: DiskRead)
    ensures
        r == match kind {
            DiskKind::File => DiskRead::Content,
            DiskKind::Symlink => DiskRead::Target,
            DiskKind::Other => DiskRead::Nothing,
        },
{
    match kind {
        DiskKind::File => DiskRead::Content,
        DiskKind::Symlink => DiskRead::Target,
        DiskKind::Other => DiskRead::Nothing,
    }
}

/// What the status of a repository reports, one path at a time.
pub enum StatusItem {
    /// The index differs from the last commit there.
    Staged(Vec<u8>),
    /// A rename in the index. Renames are not looked for.
    StagedRename,
    /// The working tree differs from the index there.
    Changed(Vec<u8>),
    /// The index does not know it.
    Untracked { path: Vec<u8>, kind: DiskKind },
    /// The report broke off.
    Failed,
}

/// The path that an item reports, where it counts as changed.
pub open spec fn reported(item: StatusItem) -> Option<Seq<u8>> {
    match item {
        StatusItem::Staged(path) => Some(path@),
        StatusItem::StagedRename => None,
        StatusItem::Changed(path) => Some(path@),
        StatusItem::Untracked { path, kind } => if kind == DiskKind::Other {
            None
        } else {
            Some(path@)
        },
        StatusItem::Failed => None,
    }
}

impl Ranked for Vec<u8> {
    open spec fn ranks(self, other: Self) -> bool {
        sorting::bytes_at_most(self@, other@)
    }

    proof fn total(a: Self, b: Self) {
        sorting::lemma_bytes_total(a@, b@);
    }

    proof fn transitive(a: Self, b: Self, c: Self) {
        sorting::lemma_bytes_transitive(a@, b@, c@);
    }

    fn at_most(&self, other: &Self) -> (r: bool) {
        bytes_le(self.as_slice(), other.as_slice())
    }
}

/// Some item reports the path.
pub open spec fn any_reports(items: Seq<StatusItem>, path: Seq<u8>) -> bool {
    exists|i: int| 0 <= i < items.len() && #[trigger] reported(items[i]) == Some(path)
}

/// The path is among the paths.
pub open spec fn among(paths: Seq<Vec<u8>>, path: Seq<u8>) -> bool {
    exists|i: int| 0 <= i < paths.len() && (#[trigger] paths[i])@ == path
}

fn same_bytes(a: &Vec<u8>, b: &Vec<u8>) -> (r: bool)
    ensures
        r == (a@ == b@),
{
    if bytes_le(a.as_slice(), b.as_slice()) && bytes_le(b.as_slice(), a.as_slice()) {
        proof {
            sorting::lemma_bytes_antisymmetric(a@, b@);
        }
        true
    } else {
        proof {
            sorting::lemma_bytes_total(a@, a@);
        }
        false
    }
}

/// The paths that the status of a repository reports as changed, each once and in the order of
/// their bytes; nothing where the report broke off.
pub fn changed_paths(items: Vec<StatusItem>) -> (r: Option<Vec<Vec<u8>>>)
    ensures
        r is None <==> exists|i: int| 0 <= i < items@.len() && #[trigger] items@[i] is Failed,
        r matches Some(paths) ==> {
            &&& forall|i: int, j: int|
                0 <= i < j < paths@.len() ==> sorting::bytes_at_most(
                    (#[trigger] paths@[i])@,
                    (#[trigger] paths@[j])@,
                ) && paths@[i]@ != paths@[j]@
            &&& forall|path: Seq<u8>| #[trigger] among(paths@, path) <==> any_reports(items@, path)
        },
{
    let ghost all = items@;
    let mut found: Vec<Vec<u8>> = Vec::new();
    for item in it: items
        invariant
            it.seq() == all,
            forall|i: int| 0 <= i < it.index() ==> !(#[trigger] all[i] is Failed),
            forall|path: Seq<u8>| #[trigger]
                among(found@, path) <==> any_reports(all.take(it.index() as int), path),
    {
        let ghost before = found@;
        let ghost n = it.index() as int;
        let ghost this = reported(item);
        assert(all[n] == item);
        match item {
            StatusItem::Staged(path) => found.push(path),
            StatusItem::StagedRename => {},
            StatusItem::Changed(path) => found.push(path),
            StatusItem::Untracked { path, kind } => {
                if kind != DiskKind::Other {
                    found.push(path);
                }
            },
            StatusItem::Failed => {
                return None;
            },
        }
        proof {
            let less = all.take(n);
            let more = all.take(n + 1);
            assert(more[n] == all[n]);
            assert forall|path: Seq<u8>| #[trigger] among(found@, path) <==> any_reports(
                more,
                path,
            ) by {
                assert(among(before, path) <==> any_reports(less, path));
                if among(before, path) {
                    let i = choose|i: int| 0 <= i < before.len() && (#[trigger] before[i])@ == path;
                    assert(found@[i] == before[i]);
                }
                if any_reports(less, path) {
                    let i = choose|i: int|
                        0 <= i < less.len() && #[trigger] reported(less[i]) == Some(path);
                    assert(reported(more[i]) == Some(path));
                }
                if this == Some(path) {
                    assert(found@[found@.len() - 1]@ == path);
                    assert(reported(more[n]) == Some(path));
                }
                if among(found@, path) && !among(before, path) {
                    let i = choose|i: int| 0 <= i < found@.len() && (#[trigger] found@[i])@ == path;
                    if i < before.len() {
                        assert(before[i]@ == path);
                    }
                    assert(this == Some(path));
                }
                if any_reports(more, path) && !any_reports(less, path) {
                    let i = choose|i: int|
                        0 <= i < more.len() && #[trigger] reported(more[i]) == Some(path);
                    if i < n {
                        assert(reported(less[i]) == Some(path));
                    }
                    assert(this == Some(path));
                }
            }
        }
    }
    let ghost unsorted = found@;
    let sorted: Vec<Vec<u8>> = sort(found);
    let ghost ranked = sorted@;
    proof {
        assert(all.take(all.len() as int) =~= all);
        sorting::law_sorting_orders(unsorted);
        lemma_among_same(unsorted, ranked);
    }
    let mut out: Vec<Vec<u8>> = Vec::new();
    for path in it: sorted
        invariant
            it.seq() == ranked,
            sorting::in_order(ranked),
            it.index() == 0 ==> out@.len() == 0,
            it.index() > 0 ==> out@.len() > 0 && out@.last()@ == ranked[it.index() - 1]@,
            forall|i: int, j: int|
                0 <= i < j < out@.len() ==> sorting::bytes_at_most(
                    (#[trigger] out@[i])@,
                    (#[trigger] out@[j])@,
                ) && out@[i]@ != out@[j]@,
            forall|p: Seq<u8>| #[trigger]
                among(out@, p) <==> among(ranked.take(it.index() as int), p),
    {
        let ghost before = out@;
        let ghost n = it.index() as int;
        let total: usize = out.len();
        let repeats: bool = total > 0 && same_bytes(&out[total - 1], &path);
        proof {
            let less = ranked.take(n);
            let more = ranked.take(n + 1);
            assert(more[n] == path);
            assert forall|p: Seq<u8>|
                #![trigger among(more, p)]
                among(more, p) <==> (among(less, p) || p == path@) by {
                if among(less, p) {
                    let i = choose|i: int| 0 <= i < less.len() && (#[trigger] less[i])@ == p;
                    assert(more[i]@ == p);
                }
                if p == path@ {
                    assert(more[n]@ == p);
                }
                if among(more, p) {
                    let i = choose|i: int| 0 <= i < more.len() && (#[trigger] more[i])@ == p;
                    if i < n {
                        assert(less[i]@ == p);
                    }
                }
            }
        }
        if !repeats {
            out.push(path);
            proof {
                if before.len() > 0 {
                    assert(before[before.len() - 1]@ == ranked[n - 1]@);
                    assert(ranked[n - 1].ranks(ranked[n]));
                }
                assert forall|i: int, j: int| 0 <= i < j < out@.len() implies sorting::bytes_at_most(
                    (#[trigger] out@[i])@,
                    (#[trigger] out@[j])@,
                ) && out@[i]@ != out@[j]@ by {
                    let last = before.len() - 1;
                    if j < before.len() {
                        assert(out@[i] == before[i] && out@[j] == before[j]);
                    } else if i < last {
                        assert(sorting::bytes_at_most(before[i]@, before[last]@));
                        assert(before[i]@ != before[last]@);
                        sorting::lemma_bytes_transitive(before[i]@, before[last]@, path@);
                        if before[i]@ == path@ {
                            sorting::lemma_bytes_antisymmetric(before[i]@, before[last]@);
                        }
                    }
                }
                assert forall|p: Seq<u8>| #[trigger] among(out@, p) <==> among(
                    ranked.take(n + 1),
                    p,
                ) by {
                    if among(before, p) {
                        let i = choose|i: int| 0 <= i < before.len() && (#[trigger] before[i])@ == p;
                        assert(out@[i]@ == p);
                    }
                    if p == path@ {
                        assert(out@[before.len() as int]@ == p);
                    }
                    if among(out@, p) && p != path@ {
                        let i = choose|i: int| 0 <= i < out@.len() && (#[trigger] out@[i])@ == p;
                        assert(before[i]@ == p);
                    }
                    assert(among(before, p) <==> among(ranked.take(n), p));
                    assert(among(ranked.take(n + 1), p) <==> (among(ranked.take(n), p) || p
                        == path@));
                }
            }
        } else {
            proof {
                assert(before[before.len() - 1]@ == path@);
                assert(among(before, path@));
                assert forall|p: Seq<u8>| #[trigger] among(out@, p) <==> among(
                    ranked.take(n + 1),
                    p,
                ) by {
                    assert(among(before, p) <==> among(ranked.take(n), p));
                    assert(among(ranked.take(n + 1), p) <==> (among(ranked.take(n), p) || p
                        == path@));
                }
            }
        }
    }
    proof {
        assert(ranked.take(ranked.len() as int) =~= ranked);
        assert forall|p: Seq<u8>| #[trigger] among(out@, p) <==> any_reports(all, p) by {
            assert(among(out@, p) <==> among(ranked, p));
            assert(among(unsorted, p) <==> any_reports(all, p));
        }
    }
    Some(out)
}

proof fn lemma_among_same(a: Seq<Vec<u8>>, b: Seq<Vec<u8>>)
    requires
        a.to_multiset() == b.to_multiset(),
    ensures
        forall|p: Seq<u8>| among(a, p) <==> #[trigger] among(b, p),
{
    broadcast use group_to_multiset_ensures;

    assert forall|p: Seq<u8>| among(a, p) <==> #[trigger] among(b, p) by {
        if among(a, p) {
            let i = choose|i: int| 0 <= i < a.len() && (#[trigger] a[i])@ == p;
            assert(a.contains(a[i]));
            assert(b.to_multiset().count(a[i]) > 0);
            assert(b.contains(a[i]));
            let j = choose|j: int| 0 <= j < b.len() && b[j] == a[i];
            assert(b[j]@ == p);
        }
        if among(b, p) {
            let i = choose|i: int| 0 <= i < b.len() && (#[trigger] b[i])@ == p;
            assert(b.contains(b[i]));
            assert(a.to_multiset().count(b[i]) > 0);
            assert(a.contains(b[i]));
            let j = choose|j: int| 0 <= j < a.len() && a[j] == b[i];
            assert(a[j]@ == p);
        }
    }
}

/// What comparing the two states of a file came to.
pub enum Comparison {
    /// A state cannot be had.
    Failed,
    /// A state is no text.
    Binary,
    Texts { algorithm: DiffAlgorithm, old: Vec<u8>, new: Vec<u8> },
}

/// What was found at a path: in the last commit, and in the working tree.
pub enum FileStates {
    Both(Comparison),
    /// In the working tree alone; nothing where it cannot be read. A symbolic link is read as the
    /// path it leads to.
    OnlyNew(Option<Vec<u8>>),
    /// In the last commit alone.
    OnlyOld(Vec<u8>),
    Neither,
}

/// A path that was reported as changed, and what was found there.
pub struct ChangedFile {
    pub path: Vec<u8>,
    pub states: FileStates,
}

/// What was found when a directory was looked at.
pub enum FoundRepo {
    /// It is in no repository.
    NotARepo,
    /// Its repository has no working tree.
    Bare,
    /// Its repository has no commit.
    NoCommit,
    /// The changes cannot be told.
    Failed,
    Changed { workdir: String, files: Vec<ChangedFile> },
}

/// What is shown of a path: what happened to the file, and its runs of changed lines.
pub open spec fn shown(states: FileStates) -> Option<(GitChangeStatus, Seq<HunkText>)> {
    match states {
        FileStates::Both(Comparison::Failed) => None,
        FileStates::Both(Comparison::Binary) => Some((GitChangeStatus::Modified, Seq::empty())),
        FileStates::Both(Comparison::Texts { algorithm, old, new }) => Some(
            (
                GitChangeStatus::Modified,
                texts_of(unified::changes(algorithm, 3, old@, new@)->0),
            ),
        ),
        FileStates::OnlyNew(None) => None,
        FileStates::OnlyNew(Some(bytes)) => Some(
            (GitChangeStatus::Added, seq![whole_text(bytes@, true)]),
        ),
        FileStates::OnlyOld(bytes) => Some(
            (GitChangeStatus::Deleted, seq![whole_text(bytes@, false)]),
        ),
        FileStates::Neither => None,
    }
}

/// Both states can be compared.
pub open spec fn can_compare(states: FileStates) -> bool {
    match states {
        FileStates::Both(Comparison::Texts { algorithm, old, new }) => unified::comparable(old@)
            && unified::comparable(new@),
        _ => true,
    }
}

/// The head of the patch of a file.
pub open spec fn file_head(path: Seq<char>, status: GitChangeStatus) -> Seq<char> {
    let old = if status == GitChangeStatus::Added {
        "--- /dev/null"@
    } else {
        "--- a/"@ + path
    };
    let new = if status == GitChangeStatus::Deleted {
        "+++ /dev/null"@
    } else {
        "+++ b/"@ + path
    };
    old + "\n"@ + new + "\n"@
}

fn head_of(path: &str, status: GitChangeStatus) -> (r: String)
    ensures
        r@ == file_head(path@, status),
{
    let mut old: String = String::new();
    match status {
        GitChangeStatus::Added => old.append("--- /dev/null"),
        _ => {
            old.append("--- a/");
            old.append(path);
        },
    }
    let mut new: String = String::new();
    match status {
        GitChangeStatus::Deleted => new.append("+++ /dev/null"),
        _ => {
            new.append("+++ b/");
            new.append(path);
        },
    }
    old.append("\n");
    old.append(new.as_str());
    old.append("\n");
    proof {
        assert(old@ =~= file_head(path@, status));
    }
    old
}

/// The file at a path is shown so.
pub open spec fn file_says(
    file: GitDiffFile,
    path: Seq<char>,
    status: GitChangeStatus,
    texts: Seq<HunkText>,
) -> bool {
    let head = file_head(path, status);
    &&& file.path@ == path
    &&& file.status == status
    &&& file.additions == low(count_all(texts, GitDiffLineKind::Add))
    &&& file.deletions == low(count_all(texts, GitDiffLineKind::Remove))
    &&& file.patch@ == patch_text(head, texts)
    &&& hunks_say(file.hunks@, head, texts)
}

fn whole_patch(head: &str, hunks: &Vec<GitDiffHunk>) -> (r: String)
    ensures
        r@ == patch_text(head@, hunks@.map_values(|h: GitDiffHunk| hunk_text(h))),
{
    let mut r: String = head.to_owned();
    let ghost see = |h: GitDiffHunk| hunk_text(h);
    let ghost all = hunks@.map_values(see);
    let mut i: usize = 0;
    proof {
        assert(all.take(0) =~= Seq::empty());
    }
    while i < hunks.len()
        invariant
            0 <= i <= hunks@.len(),
            see == (|h: GitDiffHunk| hunk_text(h)),
            all == hunks@.map_values(see),
            r@ == patch_text(head@, all.take(i as int)),
        decreases hunks.len() - i,
    {
        r.append(body(hunks[i].header.as_str(), &hunks[i].lines).as_str());
        proof {
            assert(all.take(i + 1).drop_last() =~= all.take(i as int));
            assert(all.take(i + 1).last() == hunk_text(hunks@[i as int]));
            assert(r@ =~= patch_text(head@, all.take(i + 1)));
        }
        i = i + 1;
    }
    proof {
        assert(all.take(i as int) =~= all);
    }
    r
}

/// What is shown of a path.
pub fn file_diff(path: String, states: FileStates) -> (r: Option<GitDiffFile>)
    requires
        can_compare(states),
    ensures
        match shown(states) {
            Some((status, texts)) => r is Some && file_says(r->0, path@, status, texts),
            None => r is None,
        },
{
    let ghost given = shown(states);
    let status: GitChangeStatus = match &states {
        FileStates::Both(_) => GitChangeStatus::Modified,
        FileStates::OnlyNew(_) => GitChangeStatus::Added,
        FileStates::OnlyOld(_) => GitChangeStatus::Deleted,
        FileStates::Neither => {
            return None;
        },
    };
    let head: String = head_of(path.as_str(), status);
    let patch: FilePatch = match states {
        FileStates::Both(Comparison::Failed) => {
            return None;
        },
        FileStates::Both(Comparison::Binary) => FilePatch {
            hunks: Vec::new(),
            additions: 0,
            deletions: 0,
        },
        FileStates::Both(Comparison::Texts { algorithm, old, new }) => modified_patch(
            algorithm,
            old.as_slice(),
            new.as_slice(),
            head.as_str(),
        ),
        FileStates::OnlyNew(None) => {
            return None;
        },
        FileStates::OnlyNew(Some(bytes)) => whole_file_patch(bytes.as_slice(), true, head.as_str()),
        FileStates::OnlyOld(bytes) => whole_file_patch(bytes.as_slice(), false, head.as_str()),
        FileStates::Neither => {
            return None;
        },
    };
    proof {
        let texts = (given->0).1;
        assert(patch.says(head@, texts));
        assert(patch.hunks@.map_values(|h: GitDiffHunk| hunk_text(h)) =~= texts);
    }
    let text: String = whole_patch(head.as_str(), &patch.hunks);
    Some(
        GitDiffFile {
            path,
            status,
            additions: patch.additions,
            deletions: patch.deletions,
            patch: text,
            hunks: patch.hunks,
        },
    )
}

/// A path of a repository as text.
pub uninterp spec fn path_text(path: Seq<u8>) -> Seq<char>;

/// `gix::bstr::ByteSlice::to_str_lossy`: the text that the bytes encode, with U+FFFD where they
/// are not UTF-8.
#[verifier::external_body]
fn path_of(path: &Vec<u8>) -> (r: String)
    ensures
        r@ == path_text(path@),
        vstd::utf8::valid_utf8(path@) ==> r@ == vstd::utf8::decode_utf8(path@),
{
    path.to_str_lossy().into_owned()
}

/// What is shown of the changed paths, in their order.
pub open spec fn all_shown(workdir: Seq<char>, cwd: Seq<char>, files: Seq<ChangedFile>) -> Seq<
    (Seq<char>, GitChangeStatus, Seq<HunkText>),
>
    decreases files.len(),
{
    if files.len() == 0 {
        Seq::empty()
    } else {
        let less = all_shown(workdir, cwd, files.drop_last());
        let path = seen_from(workdir, cwd, path_text(files.last().path@));
        match shown(files.last().states) {
            Some((status, texts)) => less.push((path, status, texts)),
            None => less,
        }
    }
}

/// The files are shown so.
pub open spec fn files_say(
    files: Seq<GitDiffFile>,
    all: Seq<(Seq<char>, GitChangeStatus, Seq<HunkText>)>,
) -> bool {
    &&& files.len() == all.len()
    &&& forall|i: int|
        0 <= i < all.len() ==> file_says(#[trigger] files[i], all[i].0, all[i].1, all[i].2)
}

/// Asks Git. It has no state.
#[derive(Debug, Clone, Copy, PartialEq, Eq, Structural)]
pub struct GitRunner;

impl Default for GitRunner {
    fn default() -> (r: Self)
        ensures
            r == GitRunner,
    {
        GitRunner
    }
}

impl GitRunner {
    /// A runner.
    pub fn new() -> (r: Self)
        ensures
            r == GitRunner,
    {
        GitRunner
    }

    /// The changes of a working tree against the last commit, as seen from a directory in it.
    pub fn diff(&self, cwd: &str, found: FoundRepo) -> (r: GitDiffResult)
        requires
            found matches FoundRepo::Changed { files, .. } ==> forall|i: int|
                0 <= i < files@.len() ==> can_compare((#[trigger] files@[i]).states),
        ensures
            r.not_repo == (found is NotARepo || found is Bare),
            match found {
                FoundRepo::Changed { workdir, files } => files_say(
                    r.files@,
                    all_shown(workdir@, cwd@, files@),
                ),
                _ => r.files@.len() == 0,
            },
    {
        match found {
            FoundRepo::NotARepo => GitDiffResult { files: Vec::new(), not_repo: true },
            FoundRepo::Bare => GitDiffResult { files: Vec::new(), not_repo: true },
            FoundRepo::NoCommit => GitDiffResult { files: Vec::new(), not_repo: false },
            FoundRepo::Failed => GitDiffResult { files: Vec::new(), not_repo: false },
            FoundRepo::Changed { workdir, files } => GitDiffResult {
                files: self.changed_files(cwd, workdir.as_str(), files),
                not_repo: false,
            },
        }
    }

    fn changed_files(&self, cwd: &str, workdir: &str, files: Vec<ChangedFile>) -> (r: Vec<
        GitDiffFile,
    >)
        requires
            forall|i: int| 0 <= i < files@.len() ==> can_compare((#[trigger] files@[i]).states),
        ensures
            files_say(r@, all_shown(workdir@, cwd@, files@)),
    {
        let ghost all = files@;
        let mut out: Vec<GitDiffFile> = Vec::new();
        proof {
            assert(all.take(0) =~= Seq::empty());
        }
        for file in it: files
            invariant
                it.seq() == all,
                forall|i: int| 0 <= i < all.len() ==> can_compare((#[trigger] all[i]).states),
                files_say(out@, all_shown(workdir@, cwd@, all.take(it.index() as int))),
        {
            let ghost before = out@;
            let ghost n = it.index() as int;
            proof {
                assert(can_compare(all[n].states));
                assert(all.take(n + 1).drop_last() =~= all.take(n));
                assert(all.take(n + 1).last() == file);
            }
            let whole: String = path_of(&file.path);
            let path: String = cwd_relative_path(workdir, cwd, whole.as_str());
            match file_diff(path, file.states) {
                Some(shown) => {
                    out.push(shown);
                    proof {
                        let less = all_shown(workdir@, cwd@, all.take(n));
                        let more = all_shown(workdir@, cwd@, all.take(n + 1));
                        assert forall|i: int| 0 <= i < more.len() implies file_says(
                            #[trigger] out@[i],
                            more[i].0,
                            more[i].1,
                            more[i].2,
                        ) by {
                            if i < less.len() {
                                assert(out@[i] == before[i]);
                                assert(more[i] == less[i]);
                            }
                        }
                    }
                },
                None => {},
            }
        }
        proof {
            assert(all.take(all.len() as int) =~= all);
        }
        out
    }
}

} // verus!
