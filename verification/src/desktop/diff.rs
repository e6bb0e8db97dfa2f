//! The lines of a diff: their numbers, and comments on them.
use crate::common::domain::{GitDiffLine, GitDiffLineKind};
use crate::daemon::git;
use crate::daemon::git::unified::HunkHeader;
use crate::strings;
use crate::strings::{chars_of, split, words};
use vstd::prelude::*;

verus! {

/// The numbers of a line in the old and in the new file. A line that is not in a file has no
/// number there.
#[derive(Debug, Clone, Copy, PartialEq, Eq, Structural)]
pub struct LineNumbers {
    pub old: Option<usize>,
    pub new: Option<usize>,
}

/// All characters are decimal digits.
pub open spec fn all_digits(s: Seq<char>) -> bool {
    forall|i: int| 0 <= i < s.len() ==> strings::is_digit(#[trigger] s[i])
}

/// The number that a text stands for: digits, which a plus sign may precede.
pub open spec fn number_of(s: Seq<char>) -> Option<usize> {
    let digits = if s.len() > 1 && s[0] == '+' {
        s.skip(1)
    } else {
        s
    };
    if digits.len() > 0 && all_digits(digits) && strings::decimal_value(digits) <= usize::MAX {
        Some(strings::decimal_value(digits) as usize)
    } else {
        None
    }
}

/// Where one side of a run of lines begins: behind its sign and before its comma. One where that
/// is no number.
pub open spec fn side_start(part: Seq<char>, sign: char) -> usize {
    if part.len() > 0 && part[0] == sign {
        match number_of(strings::split_of(part.skip(1), ',')[0]) {
            Some(n) => n,
            None => 1,
        }
    } else {
        1
    }
}

/// A word of a text; empty where there are not so many.
pub open spec fn word_at(s: Seq<char>, i: int) -> Seq<char> {
    let all = strings::words_of(s);
    if i < all.len() {
        all[i]
    } else {
        Seq::empty()
    }
}

/// Where a run of lines begins in the old and in the new file, by its head.
pub open spec fn starts(header: Seq<char>) -> (usize, usize) {
    (side_start(word_at(header, 1), '-'), side_start(word_at(header, 2), '+'))
}

/// How many of the lines are in the old file.
pub open spec fn old_lines(lines: Seq<GitDiffLine>) -> nat
    decreases lines.len(),
{
    if lines.len() == 0 {
        0
    } else {
        old_lines(lines.drop_last()) + if lines.last().kind == GitDiffLineKind::Add {
            0nat
        } else {
            1nat
        }
    }
}

/// How many of the lines are in the new file.
pub open spec fn new_lines(lines: Seq<GitDiffLine>) -> nat
    decreases lines.len(),
{
    if lines.len() == 0 {
        0
    } else {
        new_lines(lines.drop_last()) + if lines.last().kind == GitDiffLineKind::Remove {
            0nat
        } else {
            1nat
        }
    }
}

fn parse_number(s: &str) -> (r: Option<usize>)
    ensures
        r == number_of(s@),
{
    let x: Vec<char> = chars_of(s);
    let from: usize = if x.len() > 1 && x[0] == '+' {
        1
    } else {
        0
    };
    let ghost digits = x@.skip(from as int);
    proof {
        assert(x@.skip(0) =~= x@);
        assert(digits.take(0) =~= Seq::empty());
    }
    if from == x.len() {
        return None;
    }
    let mut value: usize = 0;
    let mut fits: bool = true;
    let mut i: usize = from;
    while i < x.len()
        invariant
            from <= i <= x@.len(),
            digits == x@.skip(from as int),
            digits == if s@.len() > 1 && s@[0] == '+' {
                s@.skip(1)
            } else {
                s@
            },
            forall|j: int| 0 <= j < i - from ==> strings::is_digit(#[trigger] digits[j]),
            fits ==> value == strings::decimal_value(digits.take(i - from)),
            !fits ==> strings::decimal_value(digits.take(i - from)) > usize::MAX,
        decreases x.len() - i,
    {
        let c: char = x[i];
        proof {
            assert(digits[i - from] == c);
            assert(digits.take(i - from + 1).drop_last() =~= digits.take(i - from));
            assert(digits.take(i - from + 1).last() == c);
        }
        if c < '0' || c > '9' {
            assert(!strings::is_digit(digits[i - from]));
            return None;
        }
        let d: usize = (c as u32 - 48) as usize;
        if fits {
            match value.checked_mul(10) {
                Some(tens) => match tens.checked_add(d) {
                    Some(n) => {
                        value = n;
                    },
                    None => {
                        fits = false;
                    },
                },
                None => {
                    fits = false;
                },
            }
        }
        i = i + 1;
    }
    proof {
        assert(digits.take(i - from) =~= digits);
    }
    if fits {
        Some(value)
    } else {
        None
    }
}

fn start_of(part: &str, sign: char) -> (r: usize)
    ensures
        r == side_start(part@, sign),
{
    if part.unicode_len() == 0 || part.get_char(0) != sign {
        return 1;
    }
    let x: Vec<char> = chars_of(part);
    let rest: String = strings::string_of(&x, 1, x.len());
    proof {
        assert(rest@ =~= part@.skip(1));
    }
    let parts: Vec<String> = split(rest.as_str(), ',');
    proof {
        lemma_split_not_empty(rest@, ',');
        assert(strings::views(parts@)[0] == parts@[0]@);
    }
    match parse_number(parts[0].as_str()) {
        Some(n) => n,
        None => 1,
    }
}

proof fn lemma_split_not_empty(s: Seq<char>, sep: char)
    ensures
        strings::split_of(s, sep).len() > 0,
{
}

proof fn lemma_range_read(start: u32, len: u32, sign: char)
    requires
        sign == '-' || sign == '+',
    ensures
        side_start(seq![sign] + git::range_text(start, len), sign) == start,
        forall|i: int|
            0 <= i < git::range_text(start, len).len() ==> !strings::white(
                #[trigger] git::range_text(start, len)[i],
            ),
{
    reveal_strlit(",");
    let number = strings::decimal(start as nat);
    let text = git::range_text(start, len);
    strings::lemma_decimal(start as nat);
    strings::lemma_decimal(len as nat);
    assert((seq![sign] + text).skip(1) =~= text);
    assert forall|i: int| 0 <= i < number.len() implies #[trigger] text[i] != ',' by {
        assert(text[i] == number[i]);
    }
    assert forall|i: int| 0 <= i < text.len() implies !strings::white(#[trigger] text[i]) by {
        if i < number.len() {
            assert(text[i] == number[i]);
        } else if i > number.len() {
            assert(text[i] == strings::decimal(len as nat)[i - number.len() - 1]);
        }
    }
    strings::lemma_index_of_char_is(text, ',', number.len() as int);
    assert(text.take(number.len() as int) =~= number);
    assert(strings::split_of(text, ',')[0] == number);
    assert(strings::is_digit(number[0]));
    assert(all_digits(number));
}

/// One side of a head, with its sign.
spec fn signed(sign: char, start: u32, len: u32) -> Seq<char> {
    seq![sign] + git::range_text(start, len)
}

proof fn lemma_signed(sign: char, start: u32, len: u32)
    requires
        sign == '-' || sign == '+',
    ensures
        side_start(signed(sign, start, len), sign) == start,
        signed(sign, start, len).len() > 0,
        forall|i: int|
            0 <= i < signed(sign, start, len).len() ==> !strings::white(
                #[trigger] signed(sign, start, len)[i],
            ),
{
    let s = signed(sign, start, len);
    lemma_range_read(start, len, sign);
    assert forall|i: int| 0 <= i < s.len() implies !strings::white(#[trigger] s[i]) by {
        if i > 0 {
            assert(s[i] == git::range_text(start, len)[i - 1]);
        }
    }
}

proof fn lemma_head_words(old: Seq<char>, new: Seq<char>)
    ensures
        "@@ -"@ + old + " +"@ + new + " @@"@ == "@@"@ + " "@ + ((seq!['-'] + old) + " "@ + ((seq![
            '+',
        ] + new) + " "@ + "@@"@)),
        "@@"@.len() == 2,
        forall|i: int| 0 <= i < "@@"@.len() ==> !strings::white(#[trigger] "@@"@[i]),
{
    reveal_strlit("@@ -");
    reveal_strlit(" +");
    reveal_strlit(" @@");
    reveal_strlit("@@");
    reveal_strlit(" ");
    assert("@@ -"@ =~= "@@"@ + " "@ + seq!['-']);
    assert(" +"@ =~= " "@ + seq!['+']);
    assert(" @@"@ =~= " "@ + "@@"@);
    assert("@@ -"@ + old + " +"@ + new + " @@"@ =~= "@@"@ + " "@ + ((seq!['-'] + old) + " "@ + ((seq![
        '+',
    ] + new) + " "@ + "@@"@)));
}

/// The head that a run of lines is given says where the run begins in both files.
pub proof fn law_starts_are_read_back(h: HunkHeader)
    ensures
        starts(git::header_text(h)) == (h.before_hunk_start as usize, h.after_hunk_start as usize),
{
    let old = signed('-', h.before_hunk_start, h.before_hunk_len);
    let new = signed('+', h.after_hunk_start, h.after_hunk_len);
    lemma_signed('-', h.before_hunk_start, h.before_hunk_len);
    lemma_signed('+', h.after_hunk_start, h.after_hunk_len);
    lemma_head_words(
        git::range_text(h.before_hunk_start, h.before_hunk_len),
        git::range_text(h.after_hunk_start, h.after_hunk_len),
    );
    let last = new + " "@ + "@@"@;
    let rest = old + " "@ + last;
    strings::lemma_words_front("@@"@, rest);
    strings::lemma_words_front(old, last);
    strings::lemma_words_front(new, "@@"@);
    let all = strings::words_of(git::header_text(h));
    assert(all == seq!["@@"@] + (seq![old] + (seq![new] + strings::words_of("@@"@))));
    assert(all[1] == old);
    assert(all[2] == new);
}

/// Where a run of lines begins in the old and in the new file, by its head.
pub fn hunk_start(header: &str) -> (r: (usize, usize))
    ensures
        r == starts(header@),
{
    let all: Vec<String> = words(header);
    proof {
        assert(strings::views(all@).len() == all@.len());
        assert(forall|i: int|
            0 <= i < all@.len() ==> #[trigger] strings::views(all@)[i] == all@[i]@);
    }
    let old: &str = if all.len() > 1 {
        all[1].as_str()
    } else {
        ""
    };
    let new: &str = if all.len() > 2 {
        all[2].as_str()
    } else {
        ""
    };
    proof {
        reveal_strlit("");
        assert(""@ =~= Seq::empty());
    }
    (start_of(old, '-'), start_of(new, '+'))
}

/// The numbers of the lines of a run are such as can be counted.
pub open spec fn countable(header: Seq<char>, lines: Seq<GitDiffLine>) -> bool {
    &&& starts(header).0 + old_lines(lines) <= usize::MAX
    &&& starts(header).1 + new_lines(lines) <= usize::MAX
}

/// The numbers of the line at a position.
pub open spec fn numbers_at(header: Seq<char>, lines: Seq<GitDiffLine>, i: int) -> LineNumbers {
    let old = (starts(header).0 + old_lines(lines.take(i))) as usize;
    let new = (starts(header).1 + new_lines(lines.take(i))) as usize;
    LineNumbers {
        old: if lines[i].kind == GitDiffLineKind::Add {
            None
        } else {
            Some(old)
        },
        new: if lines[i].kind == GitDiffLineKind::Remove {
            None
        } else {
            Some(new)
        },
    }
}

/// The numbers of the lines of a run: each file counts the lines that are in it, from where its
/// side begins.
pub fn line_numbers(header: &str, lines: &Vec<GitDiffLine>) -> (r: Vec<LineNumbers>)
    requires
        countable(header@, lines@),
    ensures
        r@.len() == lines@.len(),
        forall|i: int|
            0 <= i < lines@.len() ==> #[trigger] r@[i] == numbers_at(header@, lines@, i),
{
    let start: (usize, usize) = hunk_start(header);
    let mut old: usize = start.0;
    let mut new: usize = start.1;
    let mut out: Vec<LineNumbers> = Vec::new();
    let mut i: usize = 0;
    proof {
        assert(lines@.take(0) =~= Seq::empty());
    }
    while i < lines.len()
        invariant
            0 <= i <= lines@.len(),
            start == starts(header@),
            start.0 + old_lines(lines@) <= usize::MAX,
            start.1 + new_lines(lines@) <= usize::MAX,
            old == start.0 + old_lines(lines@.take(i as int)),
            new == start.1 + new_lines(lines@.take(i as int)),
            out@.len() == i,
            forall|j: int| 0 <= j < i ==> #[trigger] out@[j] == numbers_at(header@, lines@, j),
        decreases lines.len() - i,
    {
        proof {
            assert(lines@.take(i + 1).drop_last() =~= lines@.take(i as int));
            assert(lines@.take(i + 1).last() == lines@[i as int]);
            lemma_counts_grow(lines@, i + 1);
        }
        match lines[i].kind {
            GitDiffLineKind::Context => {
                out.push(LineNumbers { old: Some(old), new: Some(new) });
                old = old + 1;
                new = new + 1;
            },
            GitDiffLineKind::Remove => {
                out.push(LineNumbers { old: Some(old), new: None });
                old = old + 1;
            },
            GitDiffLineKind::Add => {
                out.push(LineNumbers { old: None, new: Some(new) });
                new = new + 1;
            },
        }
        i = i + 1;
    }
    out
}

/// Whether the numbers of the lines of a run are such as can be counted.
pub fn numbers_fit(header: &str, lines: &Vec<GitDiffLine>) -> (r: bool)
    ensures
        r == countable(header@, lines@),
{
    let start: (usize, usize) = hunk_start(header);
    let mut old: usize = 0;
    let mut new: usize = 0;
    let mut i: usize = 0;
    proof {
        assert(lines@.take(0) =~= Seq::empty());
    }
    while i < lines.len()
        invariant
            0 <= i <= lines@.len(),
            old == old_lines(lines@.take(i as int)),
            new == new_lines(lines@.take(i as int)),
            old <= i,
            new <= i,
        decreases lines.len() - i,
    {
        proof {
            assert(lines@.take(i + 1).drop_last() =~= lines@.take(i as int));
            assert(lines@.take(i + 1).last() == lines@[i as int]);
        }
        match lines[i].kind {
            GitDiffLineKind::Context => {
                old = old + 1;
                new = new + 1;
            },
            GitDiffLineKind::Remove => {
                old = old + 1;
            },
            GitDiffLineKind::Add => {
                new = new + 1;
            },
        }
        i = i + 1;
    }
    proof {
        assert(lines@.take(i as int) =~= lines@);
    }
    old <= usize::MAX - start.0 && new <= usize::MAX - start.1
}

proof fn lemma_counts_grow(lines: Seq<GitDiffLine>, n: int)
    requires
        0 <= n <= lines.len(),
    ensures
        old_lines(lines.take(n)) <= old_lines(lines),
        new_lines(lines.take(n)) <= new_lines(lines),
    decreases lines.len() - n,
{
    if n < lines.len() {
        assert(lines.take(n + 1).drop_last() =~= lines.take(n));
        lemma_counts_grow(lines, n + 1);
    } else {
        assert(lines.take(n) =~= lines);
    }
}

/// What a comment is on.
#[derive(Debug, PartialEq, Eq)]
pub enum CommentTarget {
    /// A whole file.
    File { path: String },
    /// Lines of a run of changed lines.
    Code { path: String, hunk_header: String, code: String },
}

impl CommentTarget {
    /// The file that the comment is on.
    pub fn path(&self) -> (r: &str)
        ensures
            r@ == match self {
                CommentTarget::File { path } => path@,
                CommentTarget::Code { path, .. } => path@,
            },
    {
        match self {
            CommentTarget::File { path } => path.as_str(),
            CommentTarget::Code { path, .. } => path.as_str(),
        }
    }

    /// The head of the run of lines that the comment is on.
    pub fn hunk_header(&self) -> (r: Option<&str>)
        ensures
            match self {
                CommentTarget::File { .. } => r is None,
                CommentTarget::Code { hunk_header, .. } => r is Some && r->0@ == hunk_header@,
            },
    {
        match self {
            CommentTarget::File { .. } => None,
            CommentTarget::Code { hunk_header, .. } => Some(hunk_header.as_str()),
        }
    }

    /// The comment as a message to the session.
    pub open spec fn message_text(self, comment: Seq<char>) -> Seq<char> {
        match self {
            CommentTarget::File { path } => path@ + " "@ + comment,
            CommentTarget::Code { code, .. } => "```\n"@ + code@ + "\n```\n"@ + comment,
        }
    }

    /// The comment as a message to the session.
    pub fn message(&self, comment: &str) -> (r: String)
        ensures
            r@ == self.message_text(comment@),
    {
        match self {
            CommentTarget::File { path } => {
                let mut r: String = path.clone();
                r.append(" ");
                r.append(comment);
                r
            },
            CommentTarget::Code { code, .. } => {
                let mut r: String = "```\n".to_owned();
                r.append(code.as_str());
                r.append("\n```\n");
                r.append(comment);
                r
            },
        }
    }
}

/// A line of a run of changed lines.
#[derive(Debug, PartialEq, Eq)]
pub struct LineRef {
    pub path: String,
    pub hunk_header: String,
    pub line: usize,
}

impl Clone for LineRef {
    fn clone(&self) -> (r: Self)
        ensures
            r == *self,
    {
        LineRef {
            path: self.path.clone(),
            hunk_header: self.hunk_header.clone(),
            line: self.line,
        }
    }
}

/// The lines of a run between two that were chosen.
#[derive(Debug, PartialEq, Eq)]
pub struct LineSelection {
    pub start: LineRef,
    pub end: LineRef,
}

} // verus!
