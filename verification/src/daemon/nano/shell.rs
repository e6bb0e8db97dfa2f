//! The shell tool: what is kept of the output of a command, and when the command is done.
//!
//! Of each of the two streams the last lines are shown. Once a stream is too long to be shown
//! whole, all of it goes to a file, and what is shown names the file.
use crate::daemon::git::unified;
use crate::encoding;
use crate::encoding::from_utf8_lossy;
use crate::strings;
use crate::strings::{decimal_of, join, lines};
use vstd::prelude::*;
use vstd::utf8::*;

verus! {

/// How many lines of a stream are shown.
pub const MAX_LINES: usize = 2000;

/// How many bytes of a stream are shown.
pub const MAX_BYTES: usize = 51200;

/// How many bytes of a stream are held: twice what is shown.
pub const ROLLING_BYTES: usize = 102400;

/// How long the output has to be silent, once the shell is gone, before the command counts as
/// done, in milliseconds.
pub const EXIT_STDIO_GRACE_MS: u64 = 100;

/// The longest time limit of a command, in seconds.
pub const MAX_TIMEOUT_SECONDS: u64 = 86400;

/// The first position at or after `index` that is not inside the encoding of a character.
pub open spec fn boundary(bytes: Seq<u8>, index: int) -> int
    decreases bytes.len() - index,
{
    if index >= bytes.len() {
        bytes.len() as int
    } else if is_continuation_byte(bytes[index]) {
        boundary(bytes, index + 1)
    } else {
        index
    }
}

proof fn lemma_boundary(bytes: Seq<u8>, index: int)
    requires
        0 <= index <= bytes.len(),
    ensures
        index <= boundary(bytes, index) <= bytes.len(),
        boundary(bytes, index) < bytes.len() ==> !is_continuation_byte(
            bytes[boundary(bytes, index)],
        ),
        forall|i: int|
            index <= i < boundary(bytes, index) ==> is_continuation_byte(#[trigger] bytes[i]),
    decreases bytes.len() - index,
{
    if index < bytes.len() && is_continuation_byte(bytes[index]) {
        lemma_boundary(bytes, index + 1);
    }
}

/// The first position at or after `index` that is not inside the encoding of a character.
pub fn char_boundary_at_or_after(bytes: &[u8], index: usize) -> (r: usize)
    ensures
        r == if index <= bytes@.len() {
            boundary(bytes@, index as int)
        } else {
            bytes@.len() as int
        },
        r <= bytes@.len(),
{
    let mut at: usize = if index < bytes.len() {
        index
    } else {
        bytes.len()
    };
    let ghost start = at as int;
    while at < bytes.len() && 0x80 <= bytes[at] && bytes[at] <= 0xbf
        invariant
            start <= at <= bytes@.len(),
            boundary(bytes@, start) == boundary(bytes@, at as int),
        decreases bytes.len() - at,
    {
        at = at + 1;
    }
    at
}

/// The number of line feeds.
pub open spec fn line_feeds(s: Seq<u8>) -> nat
    decreases s.len(),
{
    if s.len() == 0 {
        0
    } else {
        line_feeds(s.drop_last()) + if s.last() == 10 {
            1nat
        } else {
            0nat
        }
    }
}

/// The number of bytes behind the last line feed.
pub open spec fn open_line(s: Seq<u8>) -> nat
    decreases s.len(),
{
    if s.len() == 0 || s.last() == 10 {
        0
    } else {
        open_line(s.drop_last()) + 1
    }
}

proof fn lemma_line_counts(s: Seq<u8>)
    ensures
        line_feeds(s) + open_line(s) <= s.len(),
    decreases s.len(),
{
    if s.len() > 0 {
        lemma_line_counts(s.drop_last());
    }
}

/// The number of lines, the last of which may lack its line feed.
pub open spec fn line_count(s: Seq<u8>) -> nat {
    line_feeds(s) + if open_line(s) > 0 {
        1nat
    } else {
        0nat
    }
}

/// The output is too long to be shown whole.
pub open spec fn too_long(s: Seq<u8>) -> bool {
    s.len() > MAX_BYTES || line_count(s) > MAX_LINES
}

proof fn lemma_too_long_grows(s: Seq<u8>, more: Seq<u8>)
    ensures
        line_count(s) <= line_count(s + more),
        too_long(s) ==> too_long(s + more),
    decreases more.len(),
{
    if more.len() == 0 {
        assert(s + more =~= s);
    } else {
        lemma_too_long_grows(s, more.drop_last());
        assert((s + more).drop_last() =~= s + more.drop_last());
        assert((s + more).last() == more.last());
    }
}

/// What is held of an output of which `s` was held and more came.
pub open spec fn rolled(s: Seq<u8>) -> Seq<u8> {
    if s.len() > ROLLING_BYTES {
        s.skip(boundary(s, s.len() - ROLLING_BYTES))
    } else {
        s
    }
}

/// The position of the first line feed, or the length.
pub open spec fn first_line_feed(s: Seq<u8>) -> int
    decreases s.len(),
{
    if s.len() == 0 || s[0] == 10 {
        0
    } else {
        1 + first_line_feed(s.skip(1))
    }
}

proof fn lemma_first_line_feed_is(s: Seq<u8>, n: int)
    requires
        0 <= n <= s.len(),
        forall|i: int| 0 <= i < n ==> #[trigger] s[i] != 10,
        n < s.len() ==> s[n] == 10,
    ensures
        first_line_feed(s) == n,
    decreases s.len(),
{
    if n > 0 {
        let t = s.skip(1);
        assert(s[0] != 10);
        assert forall|i: int| 0 <= i < n - 1 implies #[trigger] t[i] != 10 by {
            assert(t[i] == s[i + 1]);
        }
        if n < s.len() {
            assert(t[n - 1] == s[n]);
        }
        lemma_first_line_feed_is(t, n - 1);
    }
}

proof fn lemma_first_line_feed(s: Seq<u8>)
    ensures
        0 <= first_line_feed(s) <= s.len(),
        first_line_feed(s) < s.len() ==> s[first_line_feed(s)] == 10,
        forall|i: int| 0 <= i < first_line_feed(s) ==> #[trigger] s[i] != 10,
    decreases s.len(),
{
    if s.len() > 0 && s[0] != 10 {
        lemma_first_line_feed(s.skip(1));
        let n = first_line_feed(s.skip(1));
        if n < s.skip(1).len() {
            assert(s.skip(1)[n] == s[n + 1]);
        }
        assert forall|i: int| 0 <= i < first_line_feed(s) implies #[trigger] s[i] != 10 by {
            if i > 0 {
                assert(s.skip(1)[i - 1] == s[i]);
            }
        }
    }
}

/// The bytes that are shown of what is held: the last of them, from a whole line on where
/// something was left out.
pub open spec fn shown_bytes(tail: Seq<u8>) -> Seq<u8> {
    let from = if tail.len() > MAX_BYTES {
        tail.len() - MAX_BYTES
    } else {
        0
    };
    let start = boundary(tail, from);
    let rest = tail.skip(start);
    let feed = first_line_feed(rest);
    if start > 0 && feed < rest.len() {
        rest.skip(feed + 1)
    } else {
        rest
    }
}

/// The last lines of a text.
pub open spec fn last_lines(text: Seq<char>) -> Seq<char> {
    let all = strings::lines_of(text);
    if all.len() > MAX_LINES {
        strings::join_of(all.skip(all.len() - MAX_LINES), "\n"@)
    } else {
        text
    }
}

/// The notice and the shown part of an output that is too long.
pub open spec fn notice(shown: Seq<char>, total: nat, path: Seq<char>) -> Seq<char> {
    "[输出已截断：仅显示末尾 "@ + strings::decimal(strings::lines_of(shown).len())
        + " 行，共 "@ + strings::decimal(total)
        + " 行（上限 2000 行或 50 KiB）；完整输出："@ + path + "]\n"@ + shown
}

/// The path of a file that was made, where one was.
pub open spec fn path_in(opened: Option<String>) -> Option<Seq<char>> {
    match opened {
        Some(path) => Some(path@),
        None => None,
    }
}

/// What is kept of one output stream.
pub struct Capture {
    tail: Vec<u8>,
    completed_lines: usize,
    open_line_bytes: usize,
    total_bytes: usize,
    spill: Option<String>,
    buffered: Vec<u8>,
    truncated: bool,
    output: Ghost<Seq<u8>>,
    saved: Ghost<Seq<u8>>,
    lost: Ghost<nat>,
}

impl Capture {
    /// All that the stream has put out.
    pub closed spec fn output(&self) -> Seq<u8> {
        self.output@
    }

    /// What is held of it in memory.
    pub closed spec fn held(&self) -> Seq<u8> {
        self.tail@
    }

    /// The file that takes the whole output, where there is one.
    pub closed spec fn file(&self) -> Option<Seq<char>> {
        match self.spill {
            Some(path) => Some(path@),
            None => None,
        }
    }

    /// What was handed out to be written to the file.
    pub closed spec fn saved(&self) -> Seq<u8> {
        self.saved@
    }

    /// What waits for the file.
    pub closed spec fn waiting(&self) -> Seq<u8> {
        self.buffered@
    }

    /// How many bytes at the beginning of the output no file will ever hold, because none could
    /// be made when they were due.
    pub closed spec fn lost(&self) -> nat {
        self.lost@
    }

    /// The output is too long to be shown whole.
    pub closed spec fn cut(&self) -> bool {
        self.truncated
    }

    /// The counts are those of the output, what is held is an end of it, and what was written and
    /// what waits make up all of it but what was lost.
    pub closed spec fn well_formed(&self) -> bool {
        let out = self.output@;
        let p = out.len() - self.tail@.len();
        &&& self.total_bytes == out.len()
        &&& self.completed_lines == line_feeds(out)
        &&& self.open_line_bytes == open_line(out)
        &&& self.truncated == too_long(out)
        &&& 0 <= p
        &&& self.tail@ == out.skip(p)
        &&& self.tail@.len() <= ROLLING_BYTES
        &&& begins_well(out, p)
        &&& keeps_end(out, p)
        &&& self.lost@ <= out.len()
        &&& self.saved@ + self.buffered@ == out.skip(self.lost@ as int)
        &&& self.spill is None ==> self.saved@.len() == 0
        &&& self.spill is Some ==> self.buffered@.len() == 0 && too_long(out)
        &&& !too_long(out) ==> self.lost@ == 0
    }

    /// A stream that has put nothing out.
    pub fn new() -> (r: Self)
        ensures
            r.well_formed(),
            r.output() == Seq::<u8>::empty(),
            r.held() == Seq::<u8>::empty(),
            r.saved() == Seq::<u8>::empty(),
            r.waiting() == Seq::<u8>::empty(),
            r.file() is None,
            r.lost() == 0,
            !r.cut(),
    {
        let r: Capture = Capture {
            tail: Vec::new(),
            completed_lines: 0,
            open_line_bytes: 0,
            total_bytes: 0,
            spill: None,
            buffered: Vec::new(),
            truncated: false,
            output: Ghost(Seq::empty()),
            saved: Ghost(Seq::empty()),
            lost: Ghost(0),
        };
        proof {
            assert(Seq::<u8>::empty().skip(0) =~= Seq::<u8>::empty());
            assert(r.saved@ + r.buffered@ =~= Seq::<u8>::empty());
        }
        r
    }

    /// The lines that the stream has put out.
    pub fn total_lines(&self) -> (r: usize)
        requires
            self.well_formed(),
        ensures
            r == line_count(self.output()),
    {
        proof {
            lemma_line_counts(self.output@);
        }
        if self.open_line_bytes > 0 {
            self.completed_lines + 1
        } else {
            self.completed_lines
        }
    }

    /// Whether a file has to be made for the output before these bytes are appended.
    pub fn needs_spill(&self, bytes: &[u8]) -> (r: bool)
        requires
            self.well_formed(),
            self.output().len() + bytes@.len() <= usize::MAX,
        ensures
            r == (self.file() is None && too_long(self.output() + bytes@)),
    {
        if self.spill.is_some() {
            return false;
        }
        let counts: (usize, usize) = self.counts_with(bytes);
        proof {
            lemma_line_counts(self.output@ + bytes@);
        }
        let total: usize = if counts.1 > 0 {
            counts.0 + 1
        } else {
            counts.0
        };
        self.total_bytes + bytes.len() > MAX_BYTES || total > MAX_LINES
    }

    fn counts_with(&self, bytes: &[u8]) -> (r: (usize, usize))
        requires
            self.well_formed(),
            self.output().len() + bytes@.len() <= usize::MAX,
        ensures
            r.0 == line_feeds(self.output() + bytes@),
            r.1 == open_line(self.output() + bytes@),
    {
        let mut completed: usize = self.completed_lines;
        let mut open: usize = self.open_line_bytes;
        let mut i: usize = 0;
        let ghost out = self.output@;
        proof {
            assert(out + bytes@.take(0) =~= out);
        }
        while i < bytes.len()
            invariant
                0 <= i <= bytes@.len(),
                out.len() + bytes@.len() <= usize::MAX,
                completed == line_feeds(out + bytes@.take(i as int)),
                open == open_line(out + bytes@.take(i as int)),
            decreases bytes.len() - i,
        {
            proof {
                let s = out + bytes@.take(i as int);
                let t = out + bytes@.take(i + 1);
                assert(t.drop_last() =~= s);
                assert(t.last() == bytes@[i as int]);
                lemma_line_counts(s);
            }
            if bytes[i] == 10 {
                completed = completed + 1;
                open = 0;
            } else {
                open = open + 1;
            }
            i = i + 1;
        }
        proof {
            assert(bytes@.take(i as int) =~= bytes@);
        }
        (completed, open)
    }

    /// What the stream put out was appended, and the bytes that were handed out are for the file.
    pub open spec fn appended(
        before: Capture,
        after: Capture,
        bytes: Seq<u8>,
        opened: Option<Seq<char>>,
        handed_out: Seq<u8>,
    ) -> bool {
        let asked = before.file() is None && too_long(before.output() + bytes);
        &&& after.output() == before.output() + bytes
        &&& after.held() == rolled(before.held() + bytes)
        &&& after.cut() == too_long(after.output())
        &&& after.file() == if asked {
            opened
        } else {
            before.file()
        }
        &&& handed_out == if after.file() is Some {
            before.waiting() + bytes
        } else {
            Seq::empty()
        }
        &&& after.saved() == before.saved() + handed_out
        &&& after.waiting() == if after.file() is Some {
            Seq::empty()
        } else if asked {
            bytes
        } else {
            before.waiting() + bytes
        }
        &&& after.lost() == if asked && opened is None {
            before.output().len()
        } else {
            before.lost()
        }
    }

    /// Appends what the stream put out. `opened` is the file that was made because
    /// [`Capture::needs_spill`] asked for one, or nothing where none could be made. The result is
    /// to be written to the file.
    #[verifier::rlimit(40)]
    #[verifier::spinoff_prover]
    pub fn append(&mut self, bytes: &[u8], opened: Option<String>) -> (r: Vec<u8>)
        requires
            old(self).well_formed(),
            old(self).output().len() + bytes@.len() <= usize::MAX,
        ensures
            final(self).well_formed(),
            Capture::appended(*old(self), *final(self), bytes@, path_in(opened), r@),
    {
        let ghost out = self.output@;
        let ghost all = out + bytes@;
        let asked: bool = self.needs_spill(bytes);
        let counts: (usize, usize) = self.counts_with(bytes);
        proof {
            lemma_too_long_grows(out, bytes@);
            assert(bytes@.subrange(0, bytes@.len() as int) =~= bytes@);
        }
        self.completed_lines = counts.0;
        self.open_line_bytes = counts.1;
        self.total_bytes = self.total_bytes + bytes.len();
        self.output = Ghost(all);
        let ghost held = self.tail@;
        self.tail.extend_from_slice(bytes);
        proof {
            assert(self.tail@ =~= held + bytes@);
            assert(self.tail@ =~= all.skip(out.len() - held.len()));
        }
        if self.tail.len() > ROLLING_BYTES {
            self.trim_tail();
        }
        proof {
            assert(self.tail@ == rolled(held + bytes@));
            lemma_rolled_start(out, held, bytes@);
        }
        let long: bool = self.exceeds_limits();
        let mut write: Vec<u8> = Vec::new();
        let ghost waiting = self.buffered@;
        if asked {
            let opened_here: bool = opened.is_some();
            self.truncated = true;
            self.spill = opened;
            if opened_here {
                write.append(&mut self.buffered);
                assert(write@ =~= waiting);
            } else {
                self.buffered.clear();
                self.lost = Ghost(out.len());
            }
        } else {
            self.truncated = long;
        }
        if self.spill.is_some() {
            let ghost before = write@;
            write.extend_from_slice(bytes);
            proof {
                assert(write@ =~= before + bytes@);
                assert(write@ =~= waiting + bytes@);
            }
            self.saved = Ghost(self.saved@ + write@);
        } else {
            let ghost before = self.buffered@;
            self.buffered.extend_from_slice(bytes);
            proof {
                assert(self.buffered@ =~= before + bytes@);
                assert(self.saved@ + write@ =~= self.saved@);
            }
        }
        proof {
            assert(self.saved@ =~= old(self).saved@ + write@);
            assert(all.skip(out.len() as int) =~= bytes@);
            assert(old(self).saved@ + waiting + bytes@ =~= all.skip(old(self).lost@ as int));
            assert(self.saved@ + self.buffered@ =~= all.skip(self.lost@ as int));
            assert(self.spill is Some ==> self.buffered@ =~= Seq::<u8>::empty());
            assert(asked && self.spill is None ==> self.buffered@ =~= bytes@);
        }
        write
    }

    fn exceeds_limits(&self) -> (r: bool)
        requires
            self.total_bytes == self.output@.len(),
            self.completed_lines == line_feeds(self.output@),
            self.open_line_bytes == open_line(self.output@),
        ensures
            r == too_long(self.output@),
    {
        proof {
            lemma_line_counts(self.output@);
        }
        let total: usize = if self.open_line_bytes > 0 {
            self.completed_lines + 1
        } else {
            self.completed_lines
        };
        self.total_bytes > MAX_BYTES || total > MAX_LINES
    }

    /// Drops the oldest of what is held, up to the beginning of a character.
    fn trim_tail(&mut self)
        requires
            old(self).tail@.len() > ROLLING_BYTES,
        ensures
            final(self).tail@ == rolled(old(self).tail@),
            *final(self) == (Capture { tail: final(self).tail, ..*old(self) }),
    {
        let start: usize = char_boundary_at_or_after(
            self.tail.as_slice(),
            self.tail.len() - ROLLING_BYTES,
        );
        let kept: Vec<u8> = self.tail.split_off(start);
        self.tail = kept;
    }

    /// The stream has ended. `opened` is a file that was made because the output is too long and
    /// has none yet, or nothing where none could be made. The result is to be written to it.
    pub fn finish(&mut self, opened: Option<String>) -> (r: Vec<u8>)
        requires
            old(self).well_formed(),
        ensures
            final(self).well_formed(),
            final(self).output() == old(self).output(),
            final(self).held() == old(self).held(),
            final(self).cut() == old(self).cut(),
            final(self).saved() == old(self).saved() + r@,
            ({
                let asked = old(self).cut() && old(self).file() is None;
                &&& final(self).file() == if asked {
                    path_in(opened)
                } else {
                    old(self).file()
                }
                &&& r@ == if asked && opened is Some {
                    old(self).waiting()
                } else {
                    Seq::empty()
                }
                &&& final(self).waiting() == if asked {
                    Seq::empty()
                } else {
                    old(self).waiting()
                }
                &&& final(self).lost() == if asked && opened is None {
                    old(self).output().len()
                } else {
                    old(self).lost()
                }
            }),
    {
        let mut write: Vec<u8> = Vec::new();
        let ghost waiting = self.buffered@;
        let ghost out = self.output@;
        if self.truncated && self.spill.is_none() {
            let opened_here: bool = opened.is_some();
            self.spill = opened;
            if opened_here {
                write.append(&mut self.buffered);
                proof {
                    assert(write@ =~= waiting);
                }
                self.saved = Ghost(self.saved@ + write@);
                proof {
                    assert(self.saved@ + self.buffered@ =~= old(self).saved@ + waiting);
                }
            } else {
                self.buffered.clear();
                self.lost = Ghost(out.len());
                proof {
                    assert(out.skip(out.len() as int) =~= Seq::<u8>::empty());
                    assert(self.saved@ + self.buffered@ =~= Seq::<u8>::empty());
                    assert(self.saved@ + write@ =~= self.saved@);
                }
            }
        } else {
            proof {
                assert(self.saved@ + write@ =~= self.saved@);
            }
        }
        write
    }

    /// What is shown of an output.
    pub open spec fn text_shown(&self) -> Seq<char> {
        if !self.cut() {
            encoding::lossy_text(self.held())
        } else {
            notice(
                last_lines(encoding::lossy_text(shown_bytes(self.held()))),
                line_count(self.output()),
                match self.file() {
                    Some(path) => path,
                    None => Seq::empty(),
                },
            )
        }
    }

    /// The text that is shown of the output: all of it, or its end with a notice before it.
    pub fn text(&self) -> (r: String)
        requires
            self.well_formed(),
        ensures
            r@ == self.text_shown(),
            valid_utf8(self.output()) && !self.cut() ==> r@ == decode_utf8(self.output()),
            valid_utf8(self.output()) && self.cut() ==> r@ == notice(
                last_lines(decode_utf8(shown_bytes(self.held()))),
                line_count(self.output()),
                match self.file() {
                    Some(path) => path,
                    None => Seq::empty(),
                },
            ),
    {
        proof {
            if valid_utf8(self.output@) {
                lemma_held_is_valid(self.output@, self.output@.len() - self.tail@.len());
                lemma_shown_is_valid(self.tail@);
            }
            if !self.truncated {
                assert(self.output@.skip(0) =~= self.output@);
            }
        }
        if !self.truncated {
            return from_utf8_lossy(self.tail.as_slice());
        }
        let from: usize = if self.tail.len() > MAX_BYTES {
            self.tail.len() - MAX_BYTES
        } else {
            0
        };
        let start: usize = char_boundary_at_or_after(self.tail.as_slice(), from);
        let mut begin: usize = start;
        let ghost rest = self.tail@.skip(start as int);
        if start > 0 {
            let mut k: usize = start;
            while k < self.tail.len() && self.tail[k] != 10
                invariant
                    start <= k <= self.tail@.len(),
                    rest == self.tail@.skip(start as int),
                    forall|i: int| 0 <= i < k - start ==> #[trigger] rest[i] != 10,
                decreases self.tail.len() - k,
            {
                proof {
                    assert(rest[k - start] == self.tail@[k as int]);
                }
                k = k + 1;
            }
            proof {
                if k < self.tail@.len() {
                    assert(rest[k - start] == self.tail@[k as int]);
                }
                lemma_first_line_feed_is(rest, k - start);
            }
            if k < self.tail.len() {
                begin = k + 1;
            }
        }
        let shown: &[u8] = vstd::slice::slice_subrange(
            self.tail.as_slice(),
            begin,
            self.tail.len(),
        );
        proof {
            assert(rest.skip(begin - start) =~= self.tail@.skip(begin as int));
            assert(shown@ =~= self.tail@.skip(begin as int));
            assert(shown@ == shown_bytes(self.tail@));
        }
        let text: String = from_utf8_lossy(shown);
        let mut all: Vec<String> = lines(text.as_str());
        let ghost views = strings::views(all@);
        let part: String = if all.len() > MAX_LINES {
            let n: usize = all.len() - MAX_LINES;
            let last: Vec<String> = all.split_off(n);
            proof {
                assert(strings::views(last@) =~= views.skip(n as int));
            }
            join(&last, "\n")
        } else {
            text
        };
        let shown_lines: Vec<String> = lines(part.as_str());
        proof {
            assert(strings::views(shown_lines@).len() == shown_lines@.len());
        }
        let mut r: String = "[输出已截断：仅显示末尾 ".to_owned();
        r.append(decimal_of(shown_lines.len() as u64).as_str());
        r.append(" 行，共 ");
        r.append(decimal_of(self.total_lines() as u64).as_str());
        r.append(" 行（上限 2000 行或 50 KiB）；完整输出：");
        match &self.spill {
            Some(path) => r.append(path.as_str()),
            None => r.append(""),
        }
        r.append("]\n");
        r.append(part.as_str());
        proof {
            reveal_strlit("");
            assert(""@ =~= Seq::<char>::empty());
        }
        r
    }
}

/// Where what is held begins: at the beginning of the output, of a character, or behind a run of
/// bytes that are all inside characters.
pub open spec fn begins_well(out: Seq<u8>, p: int) -> bool {
    p > 0 ==> too_long(out) && ((p < out.len() && !is_continuation_byte(out[p])) || long_run(
        out,
        p,
    ))
}

/// Of as much of the end of the output as may be held, what is not held is inside characters.
pub open spec fn keeps_end(out: Seq<u8>, p: int) -> bool {
    forall|i: int|
        0 <= i < p && out.len() - ROLLING_BYTES <= i ==> is_continuation_byte(#[trigger] out[i])
}

proof fn lemma_rolled_start(out: Seq<u8>, held: Seq<u8>, more: Seq<u8>)
    requires
        held.len() <= out.len(),
        held == out.skip(out.len() - held.len()),
        begins_well(out, out.len() - held.len()),
        keeps_end(out, out.len() - held.len()),
    ensures
        ({
            let all = out + more;
            let now = rolled(held + more);
            &&& now.len() <= all.len()
            &&& now.len() <= ROLLING_BYTES || held.len() + more.len() <= ROLLING_BYTES
            &&& now == all.skip(all.len() - now.len())
            &&& begins_well(all, all.len() - now.len())
            &&& keeps_end(all, all.len() - now.len())
        }),
{
    let all = out + more;
    let both = held + more;
    let p0 = out.len() - held.len();
    lemma_too_long_grows(out, more);
    assert(both =~= all.skip(p0));
    if both.len() > ROLLING_BYTES {
        let from = both.len() - ROLLING_BYTES;
        lemma_boundary(both, from);
        let start = boundary(both, from);
        let now = rolled(both);
        assert(now =~= all.skip(p0 + start));
        assert forall|i: int|
            0 <= i < p0 + start && all.len() - ROLLING_BYTES <= i implies is_continuation_byte(
            #[trigger] all[i],
        ) by {
            assert(both[i - p0] == all[i]);
        }
        if start < both.len() {
            assert(both[start] == all[p0 + start]);
        } else {
            assert forall|i: int| all.len() - ROLLING_BYTES <= i < all.len() implies
                is_continuation_byte(#[trigger] all[i]) by {
                assert(both[i - p0] == all[i]);
            }
        }
    } else if p0 > 0 {
        assert forall|i: int|
            0 <= i < p0 && all.len() - ROLLING_BYTES <= i implies is_continuation_byte(
            #[trigger] all[i],
        ) by {
            assert(all[i] == out[i]);
        }
        if p0 < out.len() && !is_continuation_byte(out[p0]) {
            assert(all[p0] == out[p0]);
        } else {
            assert forall|i: int| p0 - ROLLING_BYTES <= i < p0 implies is_continuation_byte(
                #[trigger] all[i],
            ) by {
                assert(all[i] == out[i]);
            }
        }
    }
}

/// All the bytes before a position, as many as are held at most, are inside characters.
pub open spec fn long_run(s: Seq<u8>, p: int) -> bool {
    &&& ROLLING_BYTES <= p <= s.len()
    &&& forall|i: int| p - ROLLING_BYTES <= i < p ==> is_continuation_byte(#[trigger] s[i])
}

proof fn lemma_valid_from(s: Seq<u8>, p: int)
    requires
        valid_utf8(s),
        0 <= p <= s.len(),
        p < s.len() ==> !is_continuation_byte(s[p]),
    ensures
        valid_utf8(s.skip(p)),
{
    if p < s.len() {
        is_char_boundary_iff_not_is_continuation_byte(s, p);
        valid_utf8_split(s, p);
        assert(s.skip(p) =~= s.subrange(p, s.len() as int));
    } else {
        assert(s.skip(p) =~= Seq::empty());
    }
}

proof fn lemma_no_long_run(s: Seq<u8>, i: int)
    requires
        valid_utf8(s),
        0 <= i,
        i + 4 <= s.len(),
    ensures
        !(is_continuation_byte(s[i]) && is_continuation_byte(s[i + 1]) && is_continuation_byte(
            s[i + 2],
        ) && is_continuation_byte(s[i + 3])),
    decreases s.len(),
{
    reveal_with_fuel(valid_utf8, 2);
    let n = length_of_first_scalar(s);
    let rest = pop_first_scalar(s);
    if i >= n {
        assert(rest[i - n] == s[i]);
        assert(rest[i - n + 1] == s[i + 1]);
        assert(rest[i - n + 2] == s[i + 2]);
        assert(rest[i - n + 3] == s[i + 3]);
        lemma_no_long_run(rest, i - n);
    } else if i > 0 {
        assert(rest[0] == s[n]);
        assert(valid_first_scalar(rest));
    }
}

proof fn lemma_held_is_valid(out: Seq<u8>, p: int)
    requires
        valid_utf8(out),
        0 <= p <= out.len(),
        begins_well(out, p),
    ensures
        valid_utf8(out.skip(p)),
{
    if p > 0 && long_run(out, p) {
        lemma_no_long_run(out, p - 4);
    }
    assert(p == 0 || !is_continuation_byte(out[p]));
    if p == 0 {
        assert(out.skip(0) =~= out);
    } else {
        lemma_valid_from(out, p);
    }
}

proof fn lemma_shown_is_valid(tail: Seq<u8>)
    requires
        valid_utf8(tail),
    ensures
        valid_utf8(shown_bytes(tail)),
{
    let from = if tail.len() > MAX_BYTES {
        tail.len() - MAX_BYTES
    } else {
        0
    };
    lemma_boundary(tail, from);
    let start = boundary(tail, from);
    let rest = tail.skip(start);
    lemma_valid_from(tail, start);
    let feed = first_line_feed(rest);
    lemma_first_line_feed(rest);
    if feed < rest.len() {
        lemma_valid_from(rest, feed);
        let line = rest.skip(feed);
        assert(line[0] == 10);
        assert(length_of_first_scalar(line) == 1);
        assert(pop_first_scalar(line) =~= rest.skip(feed + 1));
    }
}

/// No more bytes are shown than may be.
pub proof fn law_shown_bytes_are_bounded(tail: Seq<u8>)
    ensures
        shown_bytes(tail).len() <= MAX_BYTES,
{
    let from = if tail.len() > MAX_BYTES {
        tail.len() - MAX_BYTES
    } else {
        0
    };
    lemma_boundary(tail, from);
    lemma_first_line_feed(tail.skip(boundary(tail, from)));
}

spec fn feeds(s: Seq<char>) -> nat
    decreases s.len(),
{
    if s.len() == 0 {
        0
    } else {
        feeds(s.skip(1)) + if s[0] == '\n' {
            1nat
        } else {
            0nat
        }
    }
}

proof fn lemma_feeds_add(a: Seq<char>, b: Seq<char>)
    ensures
        feeds(a + b) == feeds(a) + feeds(b),
    decreases a.len(),
{
    if a.len() == 0 {
        assert(a + b =~= b);
    } else {
        lemma_feeds_add(a.skip(1), b);
        assert((a + b).skip(1) =~= a.skip(1) + b);
    }
}

proof fn lemma_no_feeds(s: Seq<char>)
    requires
        forall|i: int| 0 <= i < s.len() ==> #[trigger] s[i] != '\n',
    ensures
        feeds(s) == 0,
    decreases s.len(),
{
    if s.len() > 0 {
        assert forall|i: int| 0 <= i < s.skip(1).len() implies #[trigger] s.skip(1)[i] != '\n' by {
            assert(s.skip(1)[i] == s[i + 1]);
        }
        lemma_no_feeds(s.skip(1));
        assert(s[0] != '\n');
    }
}

proof fn lemma_lines_within_feeds(s: Seq<char>)
    ensures
        strings::lines_of(s).len() <= feeds(s) + 1,
    decreases s.len(),
{
    let n = strings::index_of_char(s, '\n') as int;
    strings::lemma_index_of_char(s, '\n');
    if s.len() > 0 && n < s.len() {
        let rest = s.skip(n + 1);
        lemma_lines_within_feeds(rest);
        assert(s =~= s.take(n) + s.skip(n));
        lemma_feeds_add(s.take(n), s.skip(n));
        assert(s.skip(n)[0] == '\n');
        assert(s.skip(n).skip(1) =~= rest);
    }
}

proof fn lemma_lines_hold_no_feed(s: Seq<char>)
    ensures
        forall|k: int|
            0 <= k < strings::lines_of(s).len() ==> feeds(#[trigger] strings::lines_of(s)[k]) == 0,
    decreases s.len(),
{
    let n = strings::index_of_char(s, '\n') as int;
    strings::lemma_index_of_char(s, '\n');
    let all = strings::lines_of(s);
    if s.len() == 0 {
    } else if n < s.len() {
        lemma_lines_hold_no_feed(s.skip(n + 1));
        let head = strings::without_cr(s.take(n));
        assert forall|i: int| 0 <= i < head.len() implies #[trigger] head[i] != '\n' by {
            assert(head[i] == s[i]);
        }
        lemma_no_feeds(head);
        let rest = strings::lines_of(s.skip(n + 1));
        assert forall|k: int| 0 <= k < all.len() implies feeds(#[trigger] all[k]) == 0 by {
            if k > 0 {
                assert(all[k] == rest[k - 1]);
            }
        }
    } else {
        lemma_no_feeds(s);
    }
}

proof fn lemma_joined_feeds(parts: Seq<Seq<char>>)
    requires
        parts.len() > 0,
        forall|k: int| 0 <= k < parts.len() ==> feeds(#[trigger] parts[k]) == 0,
    ensures
        feeds(strings::join_of(parts, "\n"@)) == parts.len() - 1,
    decreases parts.len(),
{
    if parts.len() > 1 {
        let less = parts.drop_last();
        assert forall|k: int| 0 <= k < less.len() implies feeds(#[trigger] less[k]) == 0 by {
            assert(less[k] == parts[k]);
        }
        lemma_joined_feeds(less);
        reveal_strlit("\n");
        let nl = "\n"@;
        assert(nl =~= seq!['\n']);
        assert(nl.skip(1) =~= Seq::<char>::empty());
        assert(feeds(nl.skip(1)) == 0);
        assert(feeds(nl) == 1);
        lemma_feeds_add(strings::join_of(less, nl), nl);
        lemma_feeds_add(strings::join_of(less, nl) + nl, parts.last());
        assert(feeds(parts[parts.len() - 1]) == 0);
    } else {
        assert(feeds(parts[0]) == 0);
    }
}

/// No more lines are shown than may be.
pub proof fn law_shown_lines_are_bounded(text: Seq<char>)
    ensures
        strings::lines_of(last_lines(text)).len() <= MAX_LINES,
{
    let all = strings::lines_of(text);
    if all.len() > MAX_LINES {
        let last = all.skip(all.len() - MAX_LINES);
        lemma_lines_hold_no_feed(text);
        assert forall|k: int| 0 <= k < last.len() implies feeds(#[trigger] last[k]) == 0 by {
            assert(last[k] == all[all.len() - MAX_LINES + k]);
        }
        lemma_joined_feeds(last);
        lemma_lines_within_feeds(strings::join_of(last, "\n"@));
    }
}

/// Of a text of more than 2000 lines exactly the last 2000 are shown, each as it is. A shorter text
/// is shown whole.
pub proof fn law_last_lines_are_shown(text: Seq<char>)
    ensures
        strings::lines_of(text).len() > 2000 ==> strings::split_of(last_lines(text), '\n')
            == Seq::new(2000, |k: int| strings::lines_of(text)[strings::lines_of(text).len() - 2000 + k]),
        strings::lines_of(text).len() <= 2000 ==> last_lines(text) == text,
{
    let all = strings::lines_of(text);
    if all.len() > MAX_LINES {
        let last = all.skip(all.len() - MAX_LINES);
        lemma_lines_hold_no_feed(text);
        assert forall|k: int, i: int|
            0 <= k < last.len() && 0 <= i < last[k].len() implies #[trigger] last[k][i] != '\n' by {
            assert(last[k] == all[all.len() - MAX_LINES + k]);
            assert(feeds(all[all.len() - MAX_LINES + k]) == 0);
            lemma_feed_free(last[k], i);
        }
        strings::lemma_split_join(last, '\n');
        reveal_strlit("\n");
        assert("\n"@ =~= seq!['\n']);
        assert(last =~= Seq::new(2000, |k: int| all[all.len() - 2000 + k]));
    }
}

proof fn lemma_feed_free(s: Seq<char>, i: int)
    requires
        feeds(s) == 0,
        0 <= i < s.len(),
    ensures
        s[i] != '\n',
    decreases s.len(),
{
    if i > 0 {
        lemma_feed_free(s.skip(1), i - 1);
    }
}

proof fn lemma_line_feeds_add(a: Seq<u8>, b: Seq<u8>)
    ensures
        line_feeds(a + b) == line_feeds(a) + line_feeds(b),
        b.len() > 0 && a.len() > 0 && a.last() == 10 ==> open_line(a + b) == open_line(b),
    decreases b.len(),
{
    if b.len() == 0 {
        assert(a + b =~= a);
        assert(line_feeds(b) == 0);
    } else {
        lemma_line_feeds_add(a, b.drop_last());
        assert((a + b).drop_last() =~= a + b.drop_last());
        assert((a + b).last() == b.last());
        assert(line_feeds(a + b) == line_feeds(a + b.drop_last()) + if b.last() == 10 {
            1nat
        } else {
            0nat
        });
        let more = b.drop_last();
        if a.len() > 0 && a.last() == 10 {
            if more.len() == 0 {
                assert(a + more =~= a);
                assert(open_line(a) == 0);
                assert(open_line(more) == 0);
            }
            assert(open_line(a + more) == open_line(more));
            assert(open_line(a + b) == if b.last() == 10 {
                0
            } else {
                open_line(a + more) + 1
            });
            assert(open_line(b) == if b.last() == 10 {
                0
            } else {
                open_line(more) + 1
            });
        }
    }
}

proof fn lemma_no_line_feeds(s: Seq<u8>)
    requires
        forall|i: int| 0 <= i < s.len() ==> s[i] != 10,
    ensures
        line_feeds(s) == 0,
        s.len() > 0 ==> open_line(s) > 0,
    decreases s.len(),
{
    if s.len() > 0 {
        lemma_no_line_feeds(s.drop_last());
    }
}

/// Lines are counted as they are read: each one ends at a line feed, and the last one may lack it.
pub proof fn law_lines_are_counted(s: Seq<u8>)
    ensures
        line_count(s) == unified::byte_lines_of(s).len(),
    decreases s.len(),
{
    let n = unified::feed(s);
    unified::lemma_feed(s);
    if s.len() == 0 {
    } else if n < s.len() {
        let rest = s.skip(n + 1);
        law_lines_are_counted(rest);
        let front = s.take(n + 1);
        assert(s =~= front + rest);
        assert(front.drop_last() =~= s.take(n));
        lemma_no_line_feeds(s.take(n));
        lemma_line_feeds_add(front, rest);
        if rest.len() == 0 {
            assert(s.last() == 10);
        }
    } else {
        lemma_no_line_feeds(s);
    }
}

/// An output is cut if and only if it has more than 50 KiB or more than 2000 lines. One that is not
/// is shown whole.
pub proof fn law_only_long_outputs_are_cut(capture: &Capture)
    requires
        capture.well_formed(),
    ensures
        capture.cut() <==> capture.output().len() > 50 * 1024 || unified::byte_lines_of(
            capture.output(),
        ).len() > 2000,
        !capture.cut() ==> capture.text_shown() == encoding::lossy_text(capture.output()),
{
    law_lines_are_counted(capture.output());
    if !capture.cut() {
        law_short_output_is_held_whole(capture);
    }
}

/// Of an output that was cut the end is shown, behind a notice of how many of its lines are shown,
/// how many there are, and where all of them are. The end is no longer than 50 KiB, and no line that
/// lies within that is left out of it. It begins with a line; only where no line begins there,
/// or where bytes that belong to no character were dropped, may it begin elsewhere. Of its lines
/// those are shown that [`law_last_lines_are_shown`] speaks of.
pub proof fn law_end_of_a_cut_output_is_shown(capture: &Capture) -> (k: int)
    requires
        capture.well_formed(),
        capture.cut(),
    ensures
        0 <= k <= capture.output().len(),
        capture.output().len() - k <= 50 * 1024,
        forall|j: int|
            0 <= j < capture.output().len() && capture.output().len() - 50 * 1024 <= j
                && #[trigger] capture.output()[j] == 10 ==> k <= j + 1,
        k > 0 && capture.output()[k - 1] != 10 && !is_continuation_byte(capture.output()[k - 1])
            ==> forall|j: int| k <= j < capture.output().len() ==> #[trigger] capture.output()[j] != 10,
        ({
            let shown = last_lines(encoding::lossy_text(capture.output().skip(k)));
            capture.text_shown() == "[输出已截断：仅显示末尾 "@ + strings::decimal(
                strings::lines_of(shown).len(),
            ) + " 行，共 "@ + strings::decimal(unified::byte_lines_of(capture.output()).len())
                + " 行（上限 2000 行或 50 KiB）；完整输出："@ + (match capture.file() {
                Some(path) => path,
                None => Seq::empty(),
            }) + "]\n"@ + shown
        }),
{
    let out = capture.output();
    let tail = capture.held();
    let p = out.len() - tail.len();
    law_lines_are_counted(out);
    let from = if tail.len() > MAX_BYTES {
        tail.len() - MAX_BYTES
    } else {
        0
    };
    lemma_boundary(tail, from);
    let start = boundary(tail, from);
    let rest = tail.skip(start);
    let feed = first_line_feed(rest);
    lemma_first_line_feed(rest);
    let cut = if start > 0 && feed < rest.len() {
        start + feed + 1
    } else {
        start
    };
    let k = p + cut;
    assert(shown_bytes(tail) =~= out.skip(k));
    assert forall|i: int| 0 <= i < tail.len() implies #[trigger] tail[i] == out[p + i] by {}
    assert forall|j: int|
        0 <= j < out.len() && out.len() - 50 * 1024 <= j && #[trigger] out[j] == 10 implies k <= j
        + 1 by {
        if j < p {
            assert(is_continuation_byte(out[j]));
        } else {
            assert(tail[j - p] == 10);
            if j - p < start {
                assert(is_continuation_byte(tail[j - p]));
            } else if cut == start + feed + 1 && j - p - start < feed {
                assert(rest[j - p - start] == 10);
            }
        }
    }
    if k > 0 && out[k - 1] != 10 && !is_continuation_byte(out[k - 1]) {
        assert forall|j: int| k <= j < out.len() implies #[trigger] out[j] != 10 by {
            if cut == start + feed + 1 {
                assert(rest[feed] == out[k - 1]);
            } else if start == 0 {
                assert(from == 0);
                assert(is_continuation_byte(out[p - 1]));
            } else {
                assert(rest[j - k] == out[j]);
            }
        }
    }
    k
}

/// Unless making a file for it failed, the file of an output that is too long was given all of
/// the output, and nothing else.
pub proof fn law_file_holds_whole_output(capture: &Capture)
    requires
        capture.well_formed(),
        capture.file() is Some,
        capture.lost() == 0,
    ensures
        capture.saved() == capture.output(),
{
    assert(capture.saved@ + capture.buffered@ =~= capture.saved@);
    assert(capture.output@.skip(0) =~= capture.output@);
}

/// An output that is not too long is held whole.
pub proof fn law_short_output_is_held_whole(capture: &Capture)
    requires
        capture.well_formed(),
        !too_long(capture.output()),
    ensures
        capture.held() == capture.output(),
        !capture.cut(),
{
    assert(capture.output@.skip(0) =~= capture.output@);
}

/// One of the two streams of a command.
#[derive(Debug, Clone, Copy, PartialEq, Eq, Structural)]
pub enum Stream {
    Stdout,
    Stderr,
}

/// A command that is carried out: what it has put out so far and how far it has come.
///
/// The caller waits for whatever the command waits for, and tells what happened: that the shell
/// exited, that the time limit passed, that a stream put something out or ended, or that nothing
/// happened for [`EXIT_STDIO_GRACE_MS`].
pub struct Execution {
    pub out: Capture,
    pub err: Capture,
    pub out_eof: bool,
    pub err_eof: bool,
    /// How the shell exited, once it has.
    pub status: Option<String>,
    pub timed_out: bool,
    /// The time limit in seconds, if there is one.
    pub timeout: Option<u64>,
}

/// The first line of the result of a command.
pub open spec fn status_line(timed_out: bool, timeout: Option<u64>, status: Option<Seq<char>>) -> Seq<
    char,
> {
    if timed_out {
        "timeout: 超过 "@ + strings::decimal(
            match timeout {
                Some(seconds) => seconds as nat,
                None => 0,
            },
        ) + " 秒已终止进程组"@
    } else {
        match status {
            Some(status) => "exit: "@ + status,
            None => "exit: 进程未正常结束"@,
        }
    }
}

impl Execution {
    /// What is kept of the streams is in order.
    pub open spec fn well_formed(&self) -> bool {
        self.out.well_formed() && self.err.well_formed()
    }

    /// How the shell exited.
    pub open spec fn status_text(&self) -> Option<Seq<char>> {
        match self.status {
            Some(status) => Some(status@),
            None => None,
        }
    }

    /// A command that was just started.
    pub fn new(timeout: Option<u64>) -> (r: Self)
        ensures
            r.well_formed(),
            r.out.output() == Seq::<u8>::empty(),
            r.err.output() == Seq::<u8>::empty(),
            r.out.held() == Seq::<u8>::empty() && r.err.held() == Seq::<u8>::empty(),
            r.out.waiting() == Seq::<u8>::empty() && r.err.waiting() == Seq::<u8>::empty(),
            r.out.file() is None && r.err.file() is None,
            r.out.lost() == 0 && r.err.lost() == 0,
            !r.out.cut() && !r.err.cut(),
            !r.out_eof && !r.err_eof && !r.timed_out,
            r.status is None,
            r.timeout == timeout,
    {
        Execution {
            out: Capture::new(),
            err: Capture::new(),
            out_eof: false,
            err_eof: false,
            status: None,
            timed_out: false,
            timeout,
        }
    }

    /// Whether there is nothing left to wait for.
    pub fn done(&self) -> (r: bool)
        ensures
            r == (self.status is Some && self.out_eof && self.err_eof),
    {
        self.status.is_some() && self.out_eof && self.err_eof
    }

    /// Whether the exit of the shell is still to come.
    pub fn waits_for_exit(&self) -> (r: bool)
        ensures
            r == self.status is None,
    {
        self.status.is_none()
    }

    /// Whether the time limit still counts.
    pub fn waits_for_deadline(&self) -> (r: bool)
        ensures
            r == (self.timeout is Some && !self.timed_out),
    {
        self.timeout.is_some() && !self.timed_out
    }

    /// Whether a stream is still read.
    pub fn reads(&self, stream: Stream) -> (r: bool)
        ensures
            r == match stream {
                Stream::Stdout => !self.out_eof,
                Stream::Stderr => !self.err_eof,
            },
    {
        match stream {
            Stream::Stdout => !self.out_eof,
            Stream::Stderr => !self.err_eof,
        }
    }

    /// Whether silence ends the command: the shell is gone, and only what it left behind may
    /// still hold the streams open.
    pub fn ends_when_idle(&self) -> (r: bool)
        ensures
            r == (self.status is Some || self.timed_out),
    {
        self.status.is_some() || self.timed_out
    }

    /// The shell exited. The silence is counted anew.
    pub fn exited(&mut self, status: String)
        requires
            old(self).status is None,
        ensures
            *final(self) == (Execution { status: Some(status), ..*old(self) }),
    {
        self.status = Some(status);
    }

    /// The time limit passed: all processes of the command are to be killed, and the silence is
    /// counted anew.
    pub fn deadline(&mut self)
        requires
            old(self).timeout is Some && !old(self).timed_out,
        ensures
            *final(self) == (Execution { timed_out: true, ..*old(self) }),
    {
        self.timed_out = true;
    }

    /// Whether a file has to be made before what a stream put out is taken.
    pub fn needs_spill(&self, stream: Stream, bytes: &[u8]) -> (r: bool)
        requires
            self.well_formed(),
            self.out.output().len() + bytes@.len() <= usize::MAX,
            self.err.output().len() + bytes@.len() <= usize::MAX,
        ensures
            r == match stream {
                Stream::Stdout => self.out.file() is None && too_long(self.out.output() + bytes@),
                Stream::Stderr => self.err.file() is None && too_long(self.err.output() + bytes@),
            },
    {
        match stream {
            Stream::Stdout => self.out.needs_spill(bytes),
            Stream::Stderr => self.err.needs_spill(bytes),
        }
    }

    /// A stream put something out; nothing means that it ended. What comes back is to be written
    /// to the stream's file. Where there was something, the silence is counted anew.
    pub fn read(&mut self, stream: Stream, bytes: &[u8], opened: Option<String>) -> (r: Vec<u8>)
        requires
            old(self).well_formed(),
            old(self).out.output().len() + bytes@.len() <= usize::MAX,
            old(self).err.output().len() + bytes@.len() <= usize::MAX,
        ensures
            final(self).well_formed(),
            final(self).status == old(self).status,
            final(self).timed_out == old(self).timed_out,
            final(self).timeout == old(self).timeout,
            match stream {
                Stream::Stdout => {
                    &&& final(self).out_eof == (bytes@.len() == 0)
                    &&& final(self).err_eof == old(self).err_eof
                    &&& final(self).err == old(self).err
                    &&& Capture::appended(
                        old(self).out,
                        final(self).out,
                        bytes@,
                        path_in(opened),
                        r@,
                    )
                },
                Stream::Stderr => {
                    &&& final(self).err_eof == (bytes@.len() == 0)
                    &&& final(self).out_eof == old(self).out_eof
                    &&& final(self).out == old(self).out
                    &&& Capture::appended(
                        old(self).err,
                        final(self).err,
                        bytes@,
                        path_in(opened),
                        r@,
                    )
                },
            },
    {
        match stream {
            Stream::Stdout => {
                self.out_eof = bytes.len() == 0;
                self.out.append(bytes, opened)
            },
            Stream::Stderr => {
                self.err_eof = bytes.len() == 0;
                self.err.append(bytes, opened)
            },
        }
    }

    /// The result of the command: how it ended, and what is shown of its two streams.
    pub fn result(&self) -> (r: String)
        requires
            self.well_formed(),
        ensures
            r@ == status_line(self.timed_out, self.timeout, self.status_text()) + "\n"@
                + self.out.text_shown() + "\n"@ + self.err.text_shown(),
    {
        let mut r: String = String::new();
        if self.timed_out {
            r.append("timeout: 超过 ");
            let seconds: u64 = match self.timeout {
                Some(seconds) => seconds,
                None => 0,
            };
            r.append(decimal_of(seconds).as_str());
            r.append(" 秒已终止进程组");
        } else {
            match &self.status {
                Some(status) => {
                    r.append("exit: ");
                    r.append(status.as_str());
                },
                None => {
                    r.append("exit: 进程未正常结束");
                },
            }
        }
        proof {
            assert(r@ =~= status_line(self.timed_out, self.timeout, self.status_text()));
        }
        r.append("\n");
        r.append(self.out.text().as_str());
        r.append("\n");
        r.append(self.err.text().as_str());
        r
    }
}

/// Output goes on behind what there was. Once it is too long a file is asked for, all that waited and all
/// that follows is handed out for it in order, and nothing waits any more; without a file what
/// follows waits.
pub proof fn law_output_goes_on_behind_what_there_was(
    before: Capture,
    after: Capture,
    bytes: Seq<u8>,
    opened: Option<Seq<char>>,
    handed_out: Seq<u8>,
)
    requires
        Capture::appended(before, after, bytes, opened, handed_out),
    ensures
        after.output() == before.output() + bytes,
        after.cut() <==> after.output().len() > 50 * 1024 || unified::byte_lines_of(
            after.output(),
        ).len() > 2000,
        before.file() is Some ==> after.file() == before.file() && handed_out == before.waiting()
            + bytes,
        before.file() is None && !after.cut() ==> after.file() is None && handed_out.len() == 0
            && after.waiting() == before.waiting() + bytes,
        before.file() is None && after.cut() && opened is Some ==> after.file() == opened
            && handed_out == before.waiting() + bytes && after.waiting().len() == 0,
        before.file() is None && after.cut() && opened is None ==> after.file() is None
            && handed_out.len() == 0 && after.waiting() == bytes,
        after.saved() == before.saved() + handed_out,
{
    law_lines_are_counted(after.output());
}

/// The first line of a result says how the command ended: that it took too long and for how long it
/// might have run, or with what it exited.
pub proof fn law_results_say_how_the_command_ended(seconds: u64, status: Seq<char>)
    ensures
        status_line(true, Some(seconds), None) == "timeout: 超过 "@ + strings::decimal(
            seconds as nat,
        ) + " 秒已终止进程组"@,
        status_line(true, Some(seconds), Some(status)) == status_line(true, Some(seconds), None),
        status_line(false, Some(seconds), Some(status)) == "exit: "@ + status,
        status_line(false, None, Some(status)) == "exit: "@ + status,
        status_line(false, Some(seconds), None) == "exit: 进程未正常结束"@,
        MAX_TIMEOUT_SECONDS == 24 * 60 * 60,
        MAX_BYTES == 50 * 1024,
        MAX_LINES == 2000,
{
}

} // verus!
