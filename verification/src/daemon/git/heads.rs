//! The heads of runs of changed lines, read as Git reads them.
use super::unified::{HunkHeader, HunkView};
use super::HunkText;
use crate::common::domain::GitDiffLineKind;
use crate::daemon::git;
use crate::daemon::git::unified;
use crate::encoding;
use crate::strings;
use vstd::prelude::*;

verus! {

/// A number in digits.
pub open spec fn number_in(s: Seq<char>) -> Option<nat> {
    if s.len() > 0 && forall|i: int| 0 <= i < s.len() ==> '0' <= #[trigger] s[i] <= '9' {
        Some(strings::decimal_value(s))
    } else {
        None
    }
}

/// One side of a head: behind its sign where it begins, and behind a comma how many lines it has.
/// A side without a comma has one line.
pub open spec fn range_in(word: Seq<char>, sign: char) -> Option<(nat, nat)> {
    let numbers = strings::split_of(word.skip(1), ',');
    if word.len() == 0 || word[0] != sign {
        None
    } else if numbers.len() == 1 {
        match number_in(numbers[0]) {
            Some(start) => Some((start, 1)),
            None => None,
        }
    } else if numbers.len() == 2 {
        match (number_in(numbers[0]), number_in(numbers[1])) {
            (Some(start), Some(len)) => Some((start, len)),
            _ => None,
        }
    } else {
        None
    }
}

/// Where a run begins and how many lines it has, in the old and in the new file.
pub open spec fn ranges_in(header: Seq<char>) -> Option<((nat, nat), (nat, nat))> {
    let words = strings::words_of(header);
    if words.len() == 4 && words[0] == "@@"@ && words[3] == "@@"@ {
        match (range_in(words[1], '-'), range_in(words[2], '+')) {
            (Some(old), Some(new)) => Some((old, new)),
            _ => None,
        }
    } else {
        None
    }
}

/// The head of a run counts its lines: those of the old file are the ones around the change and the
/// removed ones, those of the new file the ones around it and the added ones.
pub open spec fn counts_its_lines(hunk: HunkText) -> bool {
    let around = git::count_lines(hunk.lines, GitDiffLineKind::Context);
    ranges_in(hunk.header) matches Some((old, new)) && old.1 == around + git::count_lines(
        hunk.lines,
        GitDiffLineKind::Remove,
    ) && new.1 == around + git::count_lines(hunk.lines, GitDiffLineKind::Add)
}

/// A range as a head writes it: with a comma, or alone where it is one line.
spec fn written(text: Seq<char>, start: nat, len: nat) -> bool {
    ||| text == strings::decimal(start) + ","@ + strings::decimal(len)
    ||| len == 1 && text == strings::decimal(start)
}

proof fn lemma_number(n: nat)
    ensures
        number_in(strings::decimal(n)) == Some(n),
        strings::decimal(n).len() > 0,
        forall|i: int|
            0 <= i < strings::decimal(n).len() ==> '0' <= #[trigger] strings::decimal(n)[i] <= '9',
{
    strings::lemma_decimal(n);
    assert forall|i: int| 0 <= i < strings::decimal(n).len() implies '0'
        <= #[trigger] strings::decimal(n)[i] <= '9' by {
        assert(strings::is_digit(strings::decimal(n)[i]));
    }
}

proof fn lemma_no_comma(s: Seq<char>)
    requires
        forall|i: int| 0 <= i < s.len() ==> #[trigger] s[i] != ',',
    ensures
        strings::split_of(s, ',') == seq![s],
{
    strings::lemma_index_of_char_is(s, ',', s.len() as int);
}

proof fn lemma_range_read(text: Seq<char>, start: nat, len: nat, sign: char)
    requires
        written(text, start, len),
        sign == '-' || sign == '+',
    ensures
        range_in(seq![sign] + text, sign) == Some((start, len)),
        forall|i: int|
            0 <= i < (seq![sign] + text).len() ==> !strings::white(#[trigger] (seq![sign] + text)[i]),
{
    reveal_strlit(",");
    let word = seq![sign] + text;
    let a = strings::decimal(start);
    let b = strings::decimal(len);
    lemma_number(start);
    lemma_number(len);
    assert(word.skip(1) =~= text);
    if text == a {
        lemma_no_comma(a);
        assert forall|i: int| 0 <= i < word.len() implies !strings::white(#[trigger] word[i]) by {
            if i > 0 {
                assert(word[i] == a[i - 1]);
            }
        }
    } else {
        assert forall|i: int| 0 <= i < a.len() implies #[trigger] text[i] != ',' by {
            assert(text[i] == a[i]);
        }
        strings::lemma_index_of_char_is(text, ',', a.len() as int);
        assert(text.take(a.len() as int) =~= a);
        assert(text.skip(a.len() as int + 1) =~= b);
        lemma_no_comma(b);
        assert(strings::split_of(text, ',') =~= seq![a, b]);
        assert forall|i: int| 0 <= i < word.len() implies !strings::white(#[trigger] word[i]) by {
            if 0 < i <= a.len() {
                assert(word[i] == a[i - 1]);
            } else if i > a.len() + 1 {
                assert(word[i] == b[i - a.len() - 2]);
            }
        }
    }
}

proof fn lemma_one_word(s: Seq<char>)
    requires
        s.len() > 0,
        forall|i: int| 0 <= i < s.len() ==> !strings::white(#[trigger] s[i]),
    ensures
        strings::words_of(s) == seq![s],
{
    strings::lemma_word_len_is(s, s.len() as int);
    assert(strings::trim_start_of(s) == s);
    assert(s.take(s.len() as int) =~= s);
    assert(s.skip(s.len() as int) =~= Seq::empty());
    assert(strings::words_of(Seq::<char>::empty()) =~= Seq::empty());
    assert(strings::words_of(s) =~= seq![s]);
}

proof fn lemma_head_read(
    header: Seq<char>,
    old: Seq<char>,
    new: Seq<char>,
    a: (nat, nat),
    b: (nat, nat),
)
    requires
        header == "@@ -"@ + old + " +"@ + new + " @@"@,
        written(old, a.0, a.1),
        written(new, b.0, b.1),
    ensures
        ranges_in(header) == Some((a, b)),
{
    reveal_strlit("@@ -");
    reveal_strlit(" +");
    reveal_strlit(" @@");
    reveal_strlit("@@");
    reveal_strlit(" ");
    let first = seq!['-'] + old;
    let second = seq!['+'] + new;
    let end = "@@"@;
    let last = second + " "@ + end;
    let rest = first + " "@ + last;
    assert(header =~= end + " "@ + rest);
    lemma_range_read(old, a.0, a.1, '-');
    lemma_range_read(new, b.0, b.1, '+');
    assert(forall|i: int| 0 <= i < end.len() ==> !strings::white(#[trigger] end[i]));
    strings::lemma_words_front(end, rest);
    strings::lemma_words_front(first, last);
    strings::lemma_words_front(second, end);
    lemma_one_word(end);
    assert(strings::words_of(header) =~= seq![end, first, second, end]);
}

/// The head of a run is read back whole: it says where the run begins and how many lines it has, in
/// the old and in the new file.
pub proof fn law_head_is_read_back(h: HunkHeader)
    ensures
        ranges_in(git::header_text(h)) == Some(
            (
                (h.before_hunk_start as nat, h.before_hunk_len as nat),
                (h.after_hunk_start as nat, h.after_hunk_len as nat),
            ),
        ),
{
    lemma_head_read(
        git::header_text(h),
        git::range_text(h.before_hunk_start, h.before_hunk_len),
        git::range_text(h.after_hunk_start, h.after_hunk_len),
        (h.before_hunk_start as nat, h.before_hunk_len as nat),
        (h.after_hunk_start as nat, h.after_hunk_len as nat),
    );
}

/// Runs that differ in where they begin or in how many lines they have, in the old or in the new
/// file, have different heads.
pub proof fn law_heads_tell_runs_apart(a: HunkHeader, b: HunkHeader)
    ensures
        git::header_text(a) == git::header_text(b) <==> a == b,
{
    law_head_is_read_back(a);
    law_head_is_read_back(b);
}

proof fn lemma_counts(lines: Seq<unified::LineView>, kind: GitDiffLineKind)
    ensures
        git::count_lines(
            lines.map_values(|l: unified::LineView| (l.kind, encoding::lossy_text(l.content))),
            kind,
        ) == unified::count_kind(lines, kind),
    decreases lines.len(),
{
    let f = |l: unified::LineView| (l.kind, encoding::lossy_text(l.content));
    if lines.len() > 0 {
        lemma_counts(lines.drop_last(), kind);
        assert(lines.map_values(f).drop_last() =~= lines.drop_last().map_values(f));
    }
}

/// The head that is shown of a run counts the lines that are shown of it.
pub proof fn law_shown_heads_count_their_lines(hunks: Seq<HunkView>, i: int)
    requires
        0 <= i < hunks.len(),
        unified::counted(hunks[i]),
    ensures
        counts_its_lines(git::texts_of(hunks)[i]),
{
    law_head_is_read_back(hunks[i].header);
    lemma_counts(hunks[i].lines, GitDiffLineKind::Context);
    lemma_counts(hunks[i].lines, GitDiffLineKind::Remove);
    lemma_counts(hunks[i].lines, GitDiffLineKind::Add);
}

/// A file that came or went as a whole is one run: its head counts its lines, which begin at the
/// first line of the file that there is, and the other file has none. All lines of the run are
/// added, or all of them are removed, and together they make up the text of the file.
pub proof fn law_whole_files_are_counted(bytes: Seq<u8>, added: bool)
    requires
        git::whole_lines(encoding::lossy_text(bytes)).len() <= u32::MAX,
    ensures
        counts_its_lines(git::whole_text(bytes, added)),
        ranges_in(git::whole_text(bytes, added).header) matches Some((old, new)) && if added {
            old == (0nat, 0nat) && new.0 == 1
        } else {
            new == (0nat, 0nat) && old.0 == 1
        },
        forall|i: int|
            0 <= i < git::whole_text(bytes, added).lines.len() ==> (#[trigger] git::whole_text(
                bytes,
                added,
            ).lines[i]).0 == if added {
                GitDiffLineKind::Add
            } else {
                GitDiffLineKind::Remove
            },
{
    let lines = git::whole_lines(encoding::lossy_text(bytes));
    let n = lines.len();
    let text = git::whole_text(bytes, added);
    let kind = if added {
        GitDiffLineKind::Add
    } else {
        GitDiffLineKind::Remove
    };
    git::lemma_whole_counts(text.lines, kind);
    assert(git::low(n) as nat == n);
    reveal_strlit("@@ -0,0 +1,");
    reveal_strlit("@@ -1,");
    reveal_strlit(" +0,0 @@");
    reveal_strlit("@@ -");
    reveal_strlit(" +");
    reveal_strlit(" @@");
    reveal_strlit(",");
    let d = strings::decimal(n);
    let none = strings::decimal(0) + ","@ + strings::decimal(0);
    let some = strings::decimal(1) + ","@ + d;
    assert(strings::decimal(0) =~= seq!['0']);
    assert(strings::decimal(1) =~= seq!['1']);
    if added {
        assert(text.header =~= "@@ -"@ + none + " +"@ + some + " @@"@);
        lemma_head_read(text.header, none, some, (0, 0), (1, n));
    } else {
        assert(text.header =~= "@@ -"@ + some + " +"@ + none + " @@"@);
        lemma_head_read(text.header, some, none, (1, n), (0, 0));
    }
}

} // verus!
