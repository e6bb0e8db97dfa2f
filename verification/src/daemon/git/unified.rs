//! Diffs of two texts. gix compares them and writes what it found in the unified form; here that
//! form is read.
use crate::common::domain::GitDiffLineKind;
use crate::daemon::nano::shell;
use gix::diff::blob::platform::resource::ByteLinesWithoutTerminator;
use gix::diff::blob::unified_diff::{ConsumeBinaryHunk, ContextSize};
use gix::diff::blob::{diff_with_slider_heuristics, Algorithm, InternedInput, UnifiedDiff};
use vstd::prelude::*;

verus! {

/// How the lines of two texts are matched.
#[derive(Debug, Clone, Copy, PartialEq, Eq, Structural)]
pub enum DiffAlgorithm {
    Histogram,
    Myers,
    MyersMinimal,
}

/// Where a run of changed lines stands in the old and in the new text. Lines count from one.
#[derive(Debug, Clone, Copy, PartialEq, Eq, Structural)]
pub struct HunkHeader {
    pub before_hunk_start: u32,
    pub before_hunk_len: u32,
    pub after_hunk_start: u32,
    pub after_hunk_len: u32,
}

/// A line of a diff as bytes, without its mark and without its line end.
#[derive(Debug, Clone)]
pub struct RawLine {
    pub kind: GitDiffLineKind,
    pub content: Vec<u8>,
}

/// A run of changed lines with the lines around it.
#[derive(Debug, Clone)]
pub struct RawHunk {
    pub header: HunkHeader,
    pub lines: Vec<RawLine>,
}

/// What a line of a diff says.
#[verifier::ext_equal]
pub struct LineView {
    pub kind: GitDiffLineKind,
    pub content: Seq<u8>,
}

/// What a run of changed lines says.
#[verifier::ext_equal]
pub struct HunkView {
    pub header: HunkHeader,
    pub lines: Seq<LineView>,
}

impl View for RawLine {
    type V = LineView;

    open spec fn view(&self) -> LineView {
        LineView { kind: self.kind, content: self.content@ }
    }
}

/// What lines say.
pub open spec fn line_views(lines: Seq<RawLine>) -> Seq<LineView> {
    lines.map_values(|l: RawLine| l@)
}

impl View for RawHunk {
    type V = HunkView;

    open spec fn view(&self) -> HunkView {
        HunkView { header: self.header, lines: line_views(self.lines@) }
    }
}

/// What runs of changed lines say.
pub open spec fn hunk_views(hunks: Seq<RawHunk>) -> Seq<HunkView> {
    hunks.map_values(|h: RawHunk| h@)
}

/// The decimal digits of a number, as bytes.
pub open spec fn digits(n: nat) -> Seq<u8>
    decreases n,
{
    if n < 10 {
        seq![(48 + n) as u8]
    } else {
        digits(n / 10).push((48 + n % 10) as u8)
    }
}

/// Whether a byte is a decimal digit.
pub open spec fn digit(b: u8) -> bool {
    48 <= b <= 57
}

/// The number that digits stand for.
pub open spec fn digits_value(s: Seq<u8>) -> nat
    decreases s.len(),
{
    if s.len() == 0 {
        0
    } else {
        digits_value(s.drop_last()) * 10 + (s.last() - 48) as nat
    }
}

/// Where the digits from a position on end.
pub open spec fn digits_end(s: Seq<u8>, at: int) -> int
    decreases s.len() - at,
{
    if 0 <= at < s.len() && digit(s[at]) {
        digits_end(s, at + 1)
    } else {
        at
    }
}

/// The number at a position, and where it ends.
pub open spec fn number_at(s: Seq<u8>, at: int) -> Option<(u32, int)> {
    let end = digits_end(s, at);
    let value = digits_value(s.subrange(at, end));
    if at < end && value <= u32::MAX {
        Some((value as u32, end))
    } else {
        None
    }
}

/// Whether some bytes stand at a position.
pub open spec fn stands_at(s: Seq<u8>, at: int, part: Seq<u8>) -> bool {
    at + part.len() <= s.len() && s.subrange(at, at + part.len()) == part
}

/// `@@ -`
pub open spec fn opening() -> Seq<u8> {
    seq![64u8, 64, 32, 45]
}

/// ` +`
pub open spec fn middle() -> Seq<u8> {
    seq![32u8, 43]
}

/// ` @@`
pub open spec fn closing() -> Seq<u8> {
    seq![32u8, 64, 64]
}

/// The two numbers with a comma between them at a position, and where they end.
pub open spec fn pair_at(s: Seq<u8>, at: int) -> Option<(u32, u32, int)> {
    match number_at(s, at) {
        Some((start, comma)) => if stands_at(s, comma, seq![44u8]) {
            match number_at(s, comma + 1) {
                Some((len, end)) => Some((start, len, end)),
                None => None,
            }
        } else {
            None
        },
        None => None,
    }
}

/// What the head of a run of changed lines says.
#[verifier::opaque]
pub open spec fn header_in(line: Seq<u8>) -> Option<HunkHeader> {
    if !stands_at(line, 0, opening()) {
        None
    } else {
        match pair_at(line, 4) {
            Some((before_hunk_start, before_hunk_len, end)) => if stands_at(line, end, middle()) {
                match pair_at(line, end + 2) {
                    Some((after_hunk_start, after_hunk_len, last)) => if last + 3 == line.len()
                        && stands_at(line, last, closing()) {
                        Some(
                            HunkHeader {
                                before_hunk_start,
                                before_hunk_len,
                                after_hunk_start,
                                after_hunk_len,
                            },
                        )
                    } else {
                        None
                    },
                    None => None,
                }
            } else {
                None
            },
            None => None,
        }
    }
}

/// The kind of line that a mark stands for.
pub open spec fn kind_marked(mark: u8) -> Option<GitDiffLineKind> {
    if mark == 32 {
        Some(GitDiffLineKind::Context)
    } else if mark == 43 {
        Some(GitDiffLineKind::Add)
    } else if mark == 45 {
        Some(GitDiffLineKind::Remove)
    } else {
        None
    }
}

/// The mark of a kind of line, as a byte.
pub open spec fn mark_byte(kind: GitDiffLineKind) -> u8 {
    match kind {
        GitDiffLineKind::Context => 32,
        GitDiffLineKind::Add => 43,
        GitDiffLineKind::Remove => 45,
    }
}

/// The runs of changed lines once one more line of the unified form is read: the head of a run
/// begins one, and another line belongs to the run that is open.
pub open spec fn with_line(hunks: Seq<HunkView>, line: Seq<u8>) -> Option<Seq<HunkView>> {
    if line.len() == 0 {
        None
    } else if line[0] == 64 {
        match header_in(line) {
            Some(header) => Some(hunks.push(HunkView { header, lines: Seq::empty() })),
            None => None,
        }
    } else {
        match kind_marked(line[0]) {
            Some(kind) => if hunks.len() > 0 {
                let last = hunks.last();
                Some(
                    hunks.drop_last().push(
                        HunkView {
                            header: last.header,
                            lines: last.lines.push(LineView { kind, content: line.skip(1) }),
                        },
                    ),
                )
            } else {
                None
            },
            None => None,
        }
    }
}

/// The runs of changed lines in the lines of the unified form.
pub open spec fn hunks_in(lines: Seq<Seq<u8>>) -> Option<Seq<HunkView>>
    decreases lines.len(),
{
    if lines.len() == 0 {
        Some(Seq::empty())
    } else {
        match hunks_in(lines.drop_last()) {
            Some(hunks) => with_line(hunks, lines.last()),
            None => None,
        }
    }
}

/// The position of the first line feed, or the length.
pub open spec fn feed(s: Seq<u8>) -> int
    decreases s.len(),
{
    if s.len() == 0 || s[0] == 10 {
        0
    } else {
        1 + feed(s.skip(1))
    }
}

/// The lines of bytes: each ends before a line feed, and the last one may lack it.
pub open spec fn byte_lines_of(s: Seq<u8>) -> Seq<Seq<u8>>
    decreases s.len(),
{
    let n = feed(s);
    if s.len() == 0 {
        Seq::empty()
    } else if 0 <= n < s.len() {
        seq![s.take(n)] + byte_lines_of(s.skip(n + 1))
    } else {
        seq![s]
    }
}

/// Lines, each with a line feed behind it.
pub open spec fn ended(lines: Seq<Seq<u8>>) -> Seq<u8>
    decreases lines.len(),
{
    if lines.len() == 0 {
        Seq::empty()
    } else {
        lines[0] + seq![10u8] + ended(lines.skip(1))
    }
}

/// A line of the unified form.
pub open spec fn unified_line(line: LineView) -> Seq<u8> {
    seq![mark_byte(line.kind)] + line.content
}

/// The head of a run of changed lines in the unified form.
#[verifier::opaque]
pub open spec fn unified_header(h: HunkHeader) -> Seq<u8> {
    opening() + digits(h.before_hunk_start as nat) + seq![44u8] + digits(h.before_hunk_len as nat)
        + middle() + digits(h.after_hunk_start as nat) + seq![44u8] + digits(
        h.after_hunk_len as nat,
    ) + closing()
}

/// The lines of a run of changed lines in the unified form.
pub open spec fn unified_lines(hunk: HunkView) -> Seq<Seq<u8>> {
    seq![unified_header(hunk.header)] + hunk.lines.map_values(|l: LineView| unified_line(l))
}

/// The lines of runs of changed lines in the unified form.
pub open spec fn unified_all(hunks: Seq<HunkView>) -> Seq<Seq<u8>>
    decreases hunks.len(),
{
    if hunks.len() == 0 {
        Seq::empty()
    } else {
        unified_all(hunks.drop_last()) + unified_lines(hunks.last())
    }
}

/// No line holds a line feed.
pub open spec fn on_lines(hunks: Seq<HunkView>) -> bool {
    forall|i: int, j: int|
        0 <= i < hunks.len() && 0 <= j < hunks[i].lines.len()
            ==> !(#[trigger] hunks[i].lines[j]).content.contains(10u8)
}

/// The number of lines of a kind.
pub open spec fn count_kind(lines: Seq<LineView>, kind: GitDiffLineKind) -> nat
    decreases lines.len(),
{
    if lines.len() == 0 {
        0
    } else {
        count_kind(lines.drop_last(), kind) + if lines.last().kind == kind {
            1nat
        } else {
            0nat
        }
    }
}

/// The lengths of a run are the numbers of its lines in the old and in the new text.
pub open spec fn counted(hunk: HunkView) -> bool {
    let around = count_kind(hunk.lines, GitDiffLineKind::Context);
    &&& hunk.header.before_hunk_len == around + count_kind(hunk.lines, GitDiffLineKind::Remove)
    &&& hunk.header.after_hunk_len == around + count_kind(hunk.lines, GitDiffLineKind::Add)
}

/// Bytes are the unified form of some runs of changed lines, whose lengths are those of their lines.
pub open spec fn is_unified(text: Seq<u8>) -> bool {
    exists|hunks: Seq<HunkView>|
        on_lines(hunks) && text == #[trigger] ended(unified_all(hunks)) && forall|i: int|
            0 <= i < hunks.len() ==> counted(#[trigger] hunks[i])
}

/// What gix writes of the difference of two texts.
pub uninterp spec fn unified_text(
    algorithm: DiffAlgorithm,
    context: nat,
    old: Seq<u8>,
    new: Seq<u8>,
) -> Seq<u8>;

/// Texts that gix can compare: it refuses more lines than an `i32` counts.
pub open spec fn comparable(text: Seq<u8>) -> bool {
    shell::line_feeds(text) + 1 < 0x7fff_ffff
}

/// The most lines around a change that gix can be asked for: it doubles their number, and adds it to
/// the number of a line, in 32 bits.
pub const MAX_CONTEXT: u32 = 0x3fff_ffff;

/// `gix::diff::blob::diff_with_slider_heuristics` on the lines of the two texts without their
/// line ends, and `UnifiedDiff::consume` with a `ConsumeBinaryHunk` that writes to a byte vector.
/// What is written is the unified form of the changes with the given number of lines around them,
/// and the head of each run counts the lines that are written behind it.
/// It depends on the arguments alone. Which lines count as changed is not said.
#[verifier::external_body]
fn write_unified(algorithm: DiffAlgorithm, context: u32, old: &[u8], new: &[u8]) -> (r: Vec<u8>)
    requires
        context <= MAX_CONTEXT,
        comparable(old@),
        comparable(new@),
    ensures
        r@ == unified_text(algorithm, context as nat, old@, new@),
        is_unified(r@),
{
    let matching = match algorithm {
        DiffAlgorithm::Histogram => Algorithm::Histogram,
        DiffAlgorithm::Myers => Algorithm::Myers,
        DiffAlgorithm::MyersMinimal => Algorithm::MyersMinimal,
    };
    let before = ByteLinesWithoutTerminator::new(old);
    let input = InternedInput::new(before, ByteLinesWithoutTerminator::new(new));
    let diff = diff_with_slider_heuristics(matching, &input);
    let sink = ConsumeBinaryHunk::new(Vec::new(), "\n");
    let around = ContextSize::symmetrical(context);
    UnifiedDiff::new(&diff, &input, sink, around).consume().unwrap_or_default()
}

pub proof fn lemma_feed(s: Seq<u8>)
    ensures
        0 <= feed(s) <= s.len(),
        forall|i: int| 0 <= i < feed(s) ==> s[i] != 10,
        feed(s) < s.len() ==> s[feed(s)] == 10,
    decreases s.len(),
{
    if s.len() > 0 && s[0] != 10 {
        let rest = s.skip(1);
        lemma_feed(rest);
        assert forall|i: int| 0 <= i < feed(s) implies s[i] != 10 by {
            if i > 0 {
                assert(rest[i - 1] == s[i]);
            }
        }
        if feed(s) < s.len() {
            assert(rest[feed(rest)] == s[feed(s)]);
        }
    }
}

pub proof fn lemma_feed_is(s: Seq<u8>, n: int)
    requires
        0 <= n <= s.len(),
        forall|i: int| 0 <= i < n ==> s[i] != 10,
        n < s.len() ==> s[n] == 10,
    ensures
        feed(s) == n,
{
    lemma_feed(s);
    if feed(s) < n {
        assert(s[feed(s)] != 10);
    }
    if feed(s) > n {
        assert(s[n] != 10);
    }
}

/// The lines of bytes: each ends before a line feed, and the last one may lack it.
pub fn byte_lines(bytes: &Vec<u8>) -> (r: Vec<Vec<u8>>)
    ensures
        r@.map_values(|l: Vec<u8>| l@) == byte_lines_of(bytes@),
{
    let mut out: Vec<Vec<u8>> = Vec::new();
    let mut p: usize = 0;
    let ghost see = |l: Vec<u8>| l@;
    proof {
        assert(bytes@.skip(0) =~= bytes@);
        assert(out@.map_values(see) + byte_lines_of(bytes@) =~= byte_lines_of(bytes@));
    }
    while p < bytes.len()
        invariant
            see == (|l: Vec<u8>| l@),
            0 <= p <= bytes@.len(),
            out@.map_values(see) + byte_lines_of(bytes@.skip(p as int)) == byte_lines_of(bytes@),
        decreases bytes.len() - p,
    {
        let mut line: Vec<u8> = Vec::new();
        let mut q: usize = p;
        while q < bytes.len() && bytes[q] != 10
            invariant
                p <= q <= bytes@.len(),
                line@ == bytes@.subrange(p as int, q as int),
                forall|i: int| p <= i < q ==> bytes@[i] != 10,
            decreases bytes.len() - q,
        {
            line.push(bytes[q]);
            q = q + 1;
            proof {
                assert(line@ =~= bytes@.subrange(p as int, q as int));
            }
        }
        let ghost before = out@;
        let ghost rest = bytes@.skip(p as int);
        proof {
            lemma_feed_is(rest, q - p);
            assert(rest.take(q - p) =~= line@);
        }
        out.push(line);
        proof {
            assert(out@.map_values(see) =~= before.map_values(see).push(line@));
        }
        if q < bytes.len() {
            p = q + 1;
            proof {
                assert(rest.skip(feed(rest) + 1) =~= bytes@.skip(p as int));
                assert(out@.map_values(see) + byte_lines_of(bytes@.skip(p as int))
                    =~= before.map_values(see) + byte_lines_of(rest));
            }
        } else {
            p = q;
            proof {
                assert(rest =~= line@);
                assert(byte_lines_of(bytes@.skip(p as int)) =~= Seq::empty());
                assert(out@.map_values(see) + byte_lines_of(bytes@.skip(p as int))
                    =~= before.map_values(see) + byte_lines_of(rest));
            }
        }
    }
    proof {
        assert(byte_lines_of(bytes@.skip(p as int)) =~= Seq::empty());
        assert(out@.map_values(see) + byte_lines_of(bytes@.skip(p as int)) =~= out@.map_values(
            see,
        ));
    }
    out
}

/// Where the digits from a position on end, and what number they stand for.
fn read_number(line: &Vec<u8>, at: usize) -> (r: Option<(u32, usize)>)
    requires
        at <= line@.len(),
    ensures
        match r {
            Some((value, end)) => number_at(line@, at as int) == Some((value, end as int)) && end
                <= line@.len(),
            None => number_at(line@, at as int) is None,
        },
{
    let mut i: usize = at;
    let mut value: u64 = 0;
    let mut fits: bool = true;
    proof {
        assert(line@.subrange(at as int, at as int) =~= Seq::empty());
    }
    while i < line.len() && 48 <= line[i] && line[i] <= 57
        invariant
            at <= i <= line@.len(),
            digits_end(line@, at as int) == digits_end(line@, i as int),
            fits ==> value == digits_value(line@.subrange(at as int, i as int)),
            value <= u32::MAX,
            !fits ==> digits_value(line@.subrange(at as int, i as int)) > u32::MAX,
        decreases line.len() - i,
    {
        proof {
            let less = line@.subrange(at as int, i as int);
            let more = line@.subrange(at as int, i + 1);
            assert(more.drop_last() =~= less);
            assert(more.last() == line@[i as int]);
        }
        let next: u64 = value * 10 + (line[i] - 48) as u64;
        if fits && next <= u32::MAX as u64 {
            value = next;
        } else {
            fits = false;
            value = 0;
        }
        i = i + 1;
    }
    if i == at || !fits {
        return None;
    }
    Some((value as u32, i))
}

fn reads(line: &Vec<u8>, at: usize, part: &[u8]) -> (r: bool)
    requires
        at <= line@.len(),
    ensures
        r == stands_at(line@, at as int, part@),
{
    let total: usize = line.len();
    if part.len() > total - at {
        return false;
    }
    let mut i: usize = 0;
    while i < part.len()
        invariant
            total == line@.len(),
            0 <= i <= part@.len(),
            at + part@.len() <= line@.len(),
            forall|j: int| 0 <= j < i ==> line@[at + j] == part@[j],
        decreases part.len() - i,
    {
        if line[at + i] != part[i] {
            assert(line@.subrange(at as int, at + part@.len())[i as int] != part@[i as int]);
            return false;
        }
        i = i + 1;
    }
    proof {
        assert(line@.subrange(at as int, at + part@.len()) =~= part@);
    }
    true
}

fn read_pair(line: &Vec<u8>, at: usize) -> (r: Option<(u32, u32, usize)>)
    requires
        at <= line@.len(),
    ensures
        match r {
            Some((start, len, end)) => pair_at(line@, at as int) == Some((start, len, end as int))
                && end <= line@.len(),
            None => pair_at(line@, at as int) is None,
        },
{
    let comma: [u8; 1] = [44];
    let total: usize = line.len();
    proof {
        assert(comma@ =~= seq![44u8]);
    }
    match read_number(line, at) {
        Some((start, end)) => {
            if !reads(line, end, &comma) {
                return None;
            }
            assert(end + 1 <= total);
            match read_number(line, end + 1) {
                Some((len, last)) => Some((start, len, last)),
                None => None,
            }
        },
        None => None,
    }
}

/// What the head of a run of changed lines says.
fn read_header(line: &Vec<u8>) -> (r: Option<HunkHeader>)
    ensures
        r == header_in(line@),
{
    let before: [u8; 4] = [64, 64, 32, 45];
    let between: [u8; 2] = [32, 43];
    let behind: [u8; 3] = [32, 64, 64];
    let total: usize = line.len();
    proof {
        reveal(header_in);
        assert(before@ =~= opening());
        assert(between@ =~= middle());
        assert(behind@ =~= closing());
    }
    if !reads(line, 0, &before) {
        return None;
    }
    match read_pair(line, 4) {
        Some((before_hunk_start, before_hunk_len, end)) => {
            if !reads(line, end, &between) {
                return None;
            }
            assert(end + 2 <= total);
            match read_pair(line, end + 2) {
                Some((after_hunk_start, after_hunk_len, last)) => {
                    if total - last != 3 || !reads(line, last, &behind) {
                        return None;
                    }
                    Some(
                        HunkHeader {
                            before_hunk_start,
                            before_hunk_len,
                            after_hunk_start,
                            after_hunk_len,
                        },
                    )
                },
                None => None,
            }
        },
        None => None,
    }
}

/// Reads the runs of changed lines in the unified form; nothing where it is malformed.
pub fn hunks_of(text: &Vec<u8>) -> (r: Option<Vec<RawHunk>>)
    ensures
        match r {
            Some(hunks) => hunks_in(byte_lines_of(text@)) == Some(hunk_views(hunks@)),
            None => hunks_in(byte_lines_of(text@)) is None,
        },
{
    let lines: Vec<Vec<u8>> = byte_lines(text);
    let ghost all = byte_lines_of(text@);
    let ghost see = |l: Vec<u8>| l@;
    let mut hunks: Vec<RawHunk> = Vec::new();
    let mut i: usize = 0;
    proof {
        assert(all.take(0) =~= Seq::empty());
        assert(hunk_views(hunks@) =~= Seq::empty());
    }
    while i < lines.len()
        invariant
            see == (|l: Vec<u8>| l@),
            all == lines@.map_values(see),
            all == byte_lines_of(text@),
            0 <= i <= lines@.len(),
            hunks_in(all.take(i as int)) == Some(hunk_views(hunks@)),
        decreases lines.len() - i,
    {
        let line: &Vec<u8> = &lines[i];
        let ghost before = hunks@;
        proof {
            assert(all.take(i + 1).drop_last() =~= all.take(i as int));
            assert(all.take(i + 1).last() == line@);
            if with_line(hunk_views(before), line@) is None {
                assert(hunks_in(all.take(i + 1)) is None);
                lemma_malformed(all, i + 1);
            }
        }
        if line.len() == 0 {
            return None;
        }
        if line[0] == 64 {
            match read_header(line) {
                Some(header) => {
                    hunks.push(RawHunk { header, lines: Vec::new() });
                    proof {
                        assert(line_views(Seq::<RawLine>::empty()) =~= Seq::empty());
                        assert(hunk_views(hunks@) =~= hunk_views(before).push(
                            HunkView { header, lines: Seq::empty() },
                        ));
                    }
                },
                None => {
                    return None;
                },
            }
        } else {
            let kind: GitDiffLineKind = if line[0] == 32 {
                GitDiffLineKind::Context
            } else if line[0] == 43 {
                GitDiffLineKind::Add
            } else if line[0] == 45 {
                GitDiffLineKind::Remove
            } else {
                return None;
            };
            match hunks.pop() {
                Some(hunk) => {
                    let mut hunk: RawHunk = hunk;
                    let ghost less = hunk;
                    let content: Vec<u8> = tail(line);
                    hunk.lines.push(RawLine { kind, content });
                    proof {
                        assert(hunk@.lines =~= less@.lines.push(
                            LineView { kind, content: line@.skip(1) },
                        ));
                    }
                    hunks.push(hunk);
                    proof {
                        assert(hunk_views(before).last() == less@);
                        assert(hunk_views(hunks@) =~= hunk_views(before).drop_last().push(hunk@));
                    }
                },
                None => {
                    return None;
                },
            }
        }
        i = i + 1;
    }
    proof {
        assert(all.take(i as int) =~= all);
    }
    Some(hunks)
}

fn tail(line: &Vec<u8>) -> (r: Vec<u8>)
    requires
        line@.len() > 0,
    ensures
        r@ == line@.skip(1),
{
    let mut out: Vec<u8> = Vec::new();
    let mut i: usize = 1;
    while i < line.len()
        invariant
            1 <= i <= line@.len(),
            out@ == line@.subrange(1, i as int),
        decreases line.len() - i,
    {
        out.push(line[i]);
        i = i + 1;
        proof {
            assert(out@ =~= line@.subrange(1, i as int));
        }
    }
    proof {
        assert(out@ =~= line@.skip(1));
    }
    out
}

proof fn lemma_malformed(lines: Seq<Seq<u8>>, n: int)
    requires
        0 <= n <= lines.len(),
        hunks_in(lines.take(n)) is None,
    ensures
        hunks_in(lines) is None,
    decreases lines.len() - n,
{
    if n < lines.len() {
        assert(lines.take(n + 1).drop_last() =~= lines.take(n));
        lemma_malformed(lines, n + 1);
    } else {
        assert(lines.take(n) =~= lines);
    }
}

proof fn lemma_digits(n: nat)
    ensures
        digits(n).len() > 0,
        forall|i: int| 0 <= i < digits(n).len() ==> digit(#[trigger] digits(n)[i]),
        digits_value(digits(n)) == n,
    decreases n,
{
    if n >= 10 {
        lemma_digits(n / 10);
        assert(digits(n).drop_last() =~= digits(n / 10));
    } else {
        assert(digits(n).drop_last() =~= Seq::empty());
        assert(digits_value(Seq::<u8>::empty()) == 0);
    }
}

proof fn lemma_digits_end(s: Seq<u8>, at: int, end: int)
    requires
        0 <= at <= end <= s.len(),
        forall|i: int| at <= i < end ==> digit(#[trigger] s[i]),
        end == s.len() || !digit(s[end]),
    ensures
        digits_end(s, at) == end,
    decreases end - at,
{
    if at < end {
        lemma_digits_end(s, at + 1, end);
    }
}

/// A number that stands between other bytes is read as that number.
proof fn lemma_number_read(before: Seq<u8>, n: u32, behind: Seq<u8>)
    requires
        behind.len() > 0,
        !digit(behind[0]),
    ensures
        number_at(before + digits(n as nat) + behind, before.len() as int) == Some(
            (n, (before.len() + digits(n as nat).len()) as int),
        ),
{
    let d = digits(n as nat);
    let s = before + d + behind;
    let at = before.len() as int;
    let end = (before.len() + d.len()) as int;
    lemma_digits(n as nat);
    assert forall|i: int| at <= i < end implies digit(#[trigger] s[i]) by {
        assert(s[i] == d[i - at]);
    }
    assert(s[end] == behind[0]);
    lemma_digits_end(s, at, end);
    assert(s.subrange(at, end) =~= d);
}

/// The head of a run of changed lines is read as what it says.
#[verifier::spinoff_prover]
#[verifier::rlimit(60)]
proof fn lemma_header_read(h: HunkHeader)
    ensures
        header_in(unified_header(h)) == Some(h),
        unified_header(h).len() > 0,
        unified_header(h)[0] == 64,
{
    reveal(header_in);
    reveal(unified_header);
    let line = unified_header(h);
    let a = digits(h.before_hunk_start as nat);
    let b = digits(h.before_hunk_len as nat);
    let c = digits(h.after_hunk_start as nat);
    let d = digits(h.after_hunk_len as nat);
    let comma = seq![44u8];
    lemma_digits(h.before_hunk_start as nat);
    lemma_digits(h.before_hunk_len as nat);
    lemma_digits(h.after_hunk_start as nat);
    lemma_digits(h.after_hunk_len as nat);
    let p1 = opening();
    let s1 = comma + b + middle() + c + comma + d + closing();
    assert(line =~= p1 + a + s1);
    lemma_number_read(p1, h.before_hunk_start, s1);
    let p2 = p1 + a + comma;
    let s2 = middle() + c + comma + d + closing();
    assert(line =~= p2 + b + s2);
    lemma_number_read(p2, h.before_hunk_len, s2);
    let p3 = p2 + b + middle();
    let s3 = comma + d + closing();
    assert(line =~= p3 + c + s3);
    lemma_number_read(p3, h.after_hunk_start, s3);
    let p4 = p3 + c + comma;
    assert(line =~= p4 + d + closing());
    lemma_number_read(p4, h.after_hunk_len, closing());
    assert(line.subrange(0, 4) =~= opening());
    let e1 = (p1 + a).len() as int;
    assert(line.subrange(e1, e1 + 1) =~= comma);
    let e2 = (p2 + b).len() as int;
    assert(line.subrange(e2, e2 + 2) =~= middle());
    let e3 = (p3 + c).len() as int;
    assert(line.subrange(e3, e3 + 1) =~= comma);
    let e4 = (p4 + d).len() as int;
    assert(line.subrange(e4, e4 + 3) =~= closing());
}

spec fn free(s: Seq<u8>) -> bool {
    forall|i: int| 0 <= i < s.len() ==> s[i] != 10
}

proof fn lemma_free_join(a: Seq<u8>, b: Seq<u8>)
    requires
        free(a),
        free(b),
    ensures
        free(a + b),
{
}

proof fn lemma_free_digits(n: nat)
    ensures
        free(digits(n)),
{
    lemma_digits(n);
    assert forall|i: int| 0 <= i < digits(n).len() implies digits(n)[i] != 10 by {
        assert(digit(digits(n)[i]));
    }
}

/// The head of a run of changed lines is one line.
proof fn lemma_header_is_a_line(h: HunkHeader)
    ensures
        !unified_header(h).contains(10u8),
{
    reveal(unified_header);
    let a = digits(h.before_hunk_start as nat);
    let b = digits(h.before_hunk_len as nat);
    let c = digits(h.after_hunk_start as nat);
    let d = digits(h.after_hunk_len as nat);
    let comma = seq![44u8];
    lemma_free_digits(h.before_hunk_start as nat);
    lemma_free_digits(h.before_hunk_len as nat);
    lemma_free_digits(h.after_hunk_start as nat);
    lemma_free_digits(h.after_hunk_len as nat);
    lemma_free_join(opening(), a);
    lemma_free_join(opening() + a, comma);
    lemma_free_join(opening() + a + comma, b);
    lemma_free_join(opening() + a + comma + b, middle());
    lemma_free_join(opening() + a + comma + b + middle(), c);
    lemma_free_join(opening() + a + comma + b + middle() + c, comma);
    lemma_free_join(opening() + a + comma + b + middle() + c + comma, d);
    lemma_free_join(opening() + a + comma + b + middle() + c + comma + d, closing());
}

proof fn lemma_lines_of_ended(lines: Seq<Seq<u8>>)
    requires
        forall|i: int| 0 <= i < lines.len() ==> !(#[trigger] lines[i]).contains(10u8),
    ensures
        byte_lines_of(ended(lines)) == lines,
    decreases lines.len(),
{
    if lines.len() > 0 {
        let first = lines[0];
        let rest = lines.skip(1);
        let s = ended(lines);
        assert forall|i: int| 0 <= i < rest.len() implies !(#[trigger] rest[i]).contains(10u8) by {
            assert(rest[i] == lines[i + 1]);
        }
        lemma_lines_of_ended(rest);
        assert forall|i: int| 0 <= i < first.len() implies s[i] != 10 by {
            assert(s[i] == first[i]);
            assert(first.contains(first[i]));
        }
        assert(s[first.len() as int] == 10);
        lemma_feed_is(s, first.len() as int);
        assert(s.take(first.len() as int) =~= first);
        assert(s.skip(first.len() as int + 1) =~= ended(rest));
        assert(lines =~= seq![first] + rest);
    } else {
        assert(lines =~= Seq::empty());
    }
}

proof fn lemma_hunk_read(before: Seq<Seq<u8>>, hunks: Seq<HunkView>, hunk: HunkView, k: int)
    requires
        hunks_in(before) == Some(hunks),
        0 <= k <= hunk.lines.len(),
    ensures
        hunks_in(before + unified_lines(hunk).take(k + 1)) == Some(
            hunks.push(HunkView { header: hunk.header, lines: hunk.lines.take(k) }),
        ),
    decreases k,
{
    let lines = unified_lines(hunk);
    let now = before + lines.take(k + 1);
    assert(now.drop_last() =~= before + lines.take(k));
    assert(now.last() == lines[k]);
    if k == 0 {
        lemma_header_read(hunk.header);
        assert(before + lines.take(0) =~= before);
        assert(hunk.lines.take(0) =~= Seq::empty());
    } else {
        lemma_hunk_read(before, hunks, hunk, k - 1);
        let line = hunk.lines[k - 1];
        assert(lines[k] == unified_line(line));
        assert(lines[k].skip(1) =~= line.content);
        assert(kind_marked(lines[k][0]) == Some(line.kind));
        let prev = hunks.push(HunkView { header: hunk.header, lines: hunk.lines.take(k - 1) });
        assert(prev.drop_last() =~= hunks);
        assert(hunk.lines.take(k) =~= hunk.lines.take(k - 1).push(line));
    }
}

proof fn lemma_all_read(hunks: Seq<HunkView>)
    requires
        on_lines(hunks),
    ensures
        hunks_in(unified_all(hunks)) == Some(hunks),
        forall|i: int|
            0 <= i < unified_all(hunks).len() ==> !(#[trigger] unified_all(hunks)[i]).contains(10u8),
    decreases hunks.len(),
{
    if hunks.len() > 0 {
        let less = hunks.drop_last();
        let last = hunks.last();
        assert forall|i: int, j: int|
            0 <= i < less.len() && 0 <= j < less[i].lines.len() implies !(
        #[trigger] less[i].lines[j]).content.contains(10u8) by {
            assert(less[i] == hunks[i]);
            assert(!hunks[i].lines[j].content.contains(10u8));
        }
        lemma_all_read(less);
        lemma_hunk_read(unified_all(less), less, last, last.lines.len() as int);
        let lines = unified_lines(last);
        assert(lines.take(last.lines.len() as int + 1) =~= lines);
        assert(last.lines.take(last.lines.len() as int) =~= last.lines);
        assert(less.push(last) =~= hunks);
        lemma_header_is_a_line(last.header);
        assert forall|i: int| 0 <= i < unified_all(hunks).len() implies !(
        #[trigger] unified_all(hunks)[i]).contains(10u8) by {
            let k = i - unified_all(less).len();
            if k < 0 {
                assert(unified_all(hunks)[i] == unified_all(less)[i]);
            } else {
                assert(unified_all(hunks)[i] == lines[k]);
                if k > 0 {
                    let content = hunks[hunks.len() - 1].lines[k - 1].content;
                    assert(!content.contains(10u8));
                    if lines[k].contains(10u8) {
                        let at = lines[k].index_of(10u8);
                        assert(content[at - 1] == 10);
                    }
                }
            }
        }
    } else {
        assert(hunks =~= Seq::empty());
    }
}

/// Reading the unified form of runs of changed lines gives the runs back.
pub proof fn law_unified_form_is_read_back(hunks: Seq<HunkView>)
    requires
        on_lines(hunks),
    ensures
        hunks_in(byte_lines_of(ended(unified_all(hunks)))) == Some(hunks),
{
    lemma_all_read(hunks);
    lemma_lines_of_ended(unified_all(hunks));
}

/// The runs of changed lines between two texts, with a number of lines around each.
pub open spec fn changes(
    algorithm: DiffAlgorithm,
    context: nat,
    old: Seq<u8>,
    new: Seq<u8>,
) -> Option<Seq<HunkView>> {
    hunks_in(byte_lines_of(unified_text(algorithm, context, old, new)))
}

/// Finds the runs of changed lines between two texts.
pub fn compare(algorithm: DiffAlgorithm, context: u32, old: &[u8], new: &[u8]) -> (r: Vec<
    RawHunk,
>)
    requires
        context <= MAX_CONTEXT,
        comparable(old@),
        comparable(new@),
    ensures
        changes(algorithm, context as nat, old@, new@) == Some(hunk_views(r@)),
        forall|i: int| 0 <= i < r@.len() ==> counted(#[trigger] hunk_views(r@)[i]),
{
    let text: Vec<u8> = write_unified(algorithm, context, old, new);
    proof {
        let hunks = choose|hunks: Seq<HunkView>|
            on_lines(hunks) && text@ == #[trigger] ended(unified_all(hunks)) && forall|i: int|
                0 <= i < hunks.len() ==> counted(#[trigger] hunks[i]);
        law_unified_form_is_read_back(hunks);
    }
    match hunks_of(&text) {
        Some(hunks) => hunks,
        None => {
            assert(false);
            Vec::new()
        },
    }
}

} // verus!
